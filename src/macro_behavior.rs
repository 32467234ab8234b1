//! A simpler strategy that revolves around the central area: take it, hold
//! it, and strike out from it while ahead in tempo.
use vstd::prelude::*;

use crate::command_scheduler::CommandScheduler;
use crate::controller::combat_controller::{
    CombatController, CombatControllerState, all_attacked, all_moved, attacking_keys,
    defense_target, enemies_near, flatten_commands, slot_control_target, spawn_location, top_target,
    DEFENSE_AGGRO_RADIUS,
};
use crate::controller::macro_controller::attack_target;
use crate::game_info::{closest_slot, lemma_closest_slot_held};
use crate::geometry::dist_sq;
use crate::controller::macro_controller::find_attack_target;
use crate::controller::spawn_controller::{SpawnController, SpawnControllerState, same_world};
use crate::game_info::{EntityId, GameInfo, PlayerInfo};
use crate::location::{Location, PowerSubLocation, location_center};

verus! {

/// Radius of the central area that is fought over.
pub const CONTROL_AREA_RADIUS: u32 = 30 * 1000;

/// Whether the side holds the well of a sub-slot.
pub open spec fn well_held_by(p: PlayerInfo, sub: PowerSubLocation) -> bool {
    match sub.entity_id {
        Some(id) => p.holds_power_slot(id),
        None => false,
    }
}

/// Whether the side holds one of the resolved wells of `powers`.
pub open spec fn holds_any_well(p: PlayerInfo, powers: Seq<PowerSubLocation>) -> bool {
    exists|k: int| 0 <= k < powers.len() && well_held_by(p, #[trigger] powers[k])
}

/// Whether the side holds the orb of the center.
pub open spec fn holds_center_orb(p: PlayerInfo, gi: GameInfo) -> bool {
    match gi.locations@[Location::Center.spec_index()].token {
        Some(t) => match t.entity_id {
            Some(id) => p.holds_token_slot(id),
            None => false,
        },
        None => false,
    }
}

/// Who holds the center: the bot when it holds its orb or a well there, else
/// the opponent when it does, else nobody.
pub open spec fn center_owner(gi: GameInfo) -> Option<EntityId> {
    let powers = gi.locations@[Location::Center.spec_index()].powers@;
    if holds_center_orb(gi.bot, gi) || holds_any_well(gi.bot, powers) {
        Some(gi.bot.id)
    } else if holds_center_orb(gi.opponent, gi) || holds_any_well(gi.opponent, powers) {
        Some(gi.opponent.id)
    } else {
        None
    }
}

pub struct MacroState {
    pub combat_controller: CombatController,
    pub spawn_controller: SpawnController,
}

fn holds_well_at(p: &PlayerInfo, game_info: &GameInfo) -> (r: bool)
    requires
        game_info.wf(),
    ensures
        r == holds_any_well(*p, game_info.locations@[Location::Center.spec_index()].powers@),
{
    let powers = &game_info.locations[Location::Center.index()].powers;
    let mut i: usize = 0;
    while i < powers.len()
        invariant
            game_info.wf(),
            powers@ == game_info.locations@[Location::Center.spec_index()].powers@,
            i <= powers@.len(),
            forall|k: int| 0 <= k < i ==> !well_held_by(*p, #[trigger] powers@[k]),
        decreases powers@.len() - i,
    {
        if let Some(id) = powers[i].entity_id {
            if p.find_power_slot(id).is_some() {
                assert(well_held_by(*p, powers@[i as int]));
                return true;
            }
        }
        i = i + 1;
    }
    false
}

fn holds_orb_at(p: &PlayerInfo, game_info: &GameInfo) -> (r: bool)
    requires
        game_info.wf(),
    ensures
        r == holds_center_orb(*p, *game_info),
{
    match game_info.locations[Location::Center.index()].token {
        Some(t) => match t.entity_id {
            Some(id) => p.find_token_slot(id).is_some(),
            None => false,
        },
        None => false,
    }
}

impl MacroState {
    pub fn new() -> (r: MacroState)
        ensures
            r.combat_controller.squads@.len() == 0,
            r.spawn_controller.state == SpawnControllerState::Waiting,
            r.spawn_controller.wf(),
    {
        MacroState { combat_controller: CombatController::new(Vec::new()), spawn_controller: SpawnController::new() }
    }

    pub fn get_center_owner(&self, game_info: &GameInfo) -> (r: Option<EntityId>)
        requires
            game_info.wf(),
        ensures
            r == center_owner(*game_info),
    {
        if holds_orb_at(&game_info.bot, game_info) || holds_well_at(&game_info.bot, game_info) {
            return Some(game_info.bot.id);
        }
        if holds_orb_at(&game_info.opponent, game_info) || holds_well_at(&game_info.opponent, game_info) {
            return Some(game_info.opponent.id);
        }
        None
    }

    /// Attacks the opponent's structures at the center, producing on limit.
    fn attack_center(&mut self, game_info: &GameInfo)
        requires
            old(self).spawn_controller.wf(),
            game_info.wf(),
        ensures
            final(self).spawn_controller.wf(),
            final(self).spawn_controller.state == SpawnControllerState::SpawnOnLimit,
            match attack_target(*game_info, Location::Center) {
                Some(t) => final(self).combat_controller.state
                    == CombatControllerState::AttackSlotControl && all_attacked(
                    old(self).combat_controller.squads@,
                    final(self).combat_controller.squads@,
                    slot_control_target(*game_info, t),
                    false,
                ),
                None => final(self).combat_controller.state == old(self).combat_controller.state
                    && final(self).combat_controller.squads@ == old(self).combat_controller.squads@,
            },
    {
        let spawn_pos = self.combat_controller.get_spawn_location(game_info, &game_info.bot.start_location);
        self.spawn_controller.spawn_on_limit();
        self.spawn_controller.set_spawn_pos(spawn_pos);
        if let Some((target, _)) = find_attack_target(game_info, Location::Center) {
            self.combat_controller.attack_slot_control(&target, game_info);
        }
    }

    /// Holds the center, matching the opponent's production.
    fn defend_center(&mut self, game_info: &GameInfo)
        requires
            old(self).spawn_controller.wf(),
            game_info.wf(),
        ensures
            final(self).spawn_controller.wf(),
            final(self).spawn_controller.state == SpawnControllerState::SpawnMatchOpponent,
            final(self).spawn_controller.spawn_pos == location_center(
                game_info.locations@[Location::Center.spec_index()],
            ),
            final(self).combat_controller.state == CombatControllerState::SlotDefense,
            ({
                let center = location_center(game_info.locations@[Location::Center.spec_index()]);
                if enemies_near(*game_info, center, DEFENSE_AGGRO_RADIUS).len() == 0 {
                    all_moved(old(self).combat_controller.squads@, final(self).combat_controller.squads@, center, false)
                } else {
                    all_attacked(
                        old(self).combat_controller.squads@,
                        final(self).combat_controller.squads@,
                        defense_target(*game_info, center),
                        false,
                    )
                }
            }),
    {
        let spawn_pos = game_info.locations[Location::Center.index()].position();
        self.spawn_controller.match_opponent_spawn();
        self.spawn_controller.set_spawn_pos(spawn_pos);
        self.combat_controller.defend(&Location::Center, game_info);
    }

    /// Attacks the opponent's structure nearest to the squads, producing on limit.
    fn attack_closest_slot(&mut self, game_info: &GameInfo, command_scheduler: &mut CommandScheduler)
        requires
            old(self).spawn_controller.wf(),
            game_info.wf(),
        ensures
            final(self).spawn_controller.wf(),
            final(self).spawn_controller.state == SpawnControllerState::SpawnOnLimit,
            match closest_slot(
                game_info.opponent,
                spawn_location(old(self).combat_controller.squads@, *game_info, game_info.bot.start_location),
            ) {
                Some(t) => {
                    &&& final(self).combat_controller.state == CombatControllerState::AttackSlotControl
                    &&& exists|attacked: Seq<crate::controller::squad_controller::SquadController>|
                        #[trigger] all_attacked(
                            old(self).combat_controller.squads@,
                            attacked,
                            slot_control_target(*game_info, t),
                            false,
                        ) && final(command_scheduler).scheduled_commands@ == old(
                            command_scheduler,
                        ).scheduled_commands@ + flatten_commands(attacked)
                },
                None => final(self).combat_controller.state == old(self).combat_controller.state
                    && final(self).combat_controller.squads@ == old(self).combat_controller.squads@
                    && final(command_scheduler).scheduled_commands@ == old(
                    command_scheduler,
                ).scheduled_commands@,
            },
    {
        let current_pos = self.combat_controller.get_spawn_location(game_info, &game_info.bot.start_location);
        self.spawn_controller.spawn_on_limit();
        self.spawn_controller.set_spawn_pos(current_pos);
        if let Some(nearest_slot) = game_info.opponent.get_closest_slot(&current_pos) {
            proof {
                lemma_closest_slot_held(game_info.opponent, current_pos);
            }
            self.combat_controller.attack_slot_control(&nearest_slot, game_info);
            let ghost attacked = self.combat_controller.squads@;
            let commands = self.combat_controller.tick(game_info);
            command_scheduler.schedule_commands(commands);
            assert(all_attacked(
                old(self).combat_controller.squads@,
                attacked,
                slot_control_target(*game_info, nearest_slot),
                false,
            ));
        }
    }

    /// Contests the center, matching the opponent's production.
    fn contest_center(&mut self, game_info: &GameInfo)
        requires
            old(self).spawn_controller.wf(),
            game_info.wf(),
        ensures
            final(self).spawn_controller.wf(),
            final(self).spawn_controller.state == SpawnControllerState::SpawnMatchOpponent,
            final(self).combat_controller.state == CombatControllerState::AreaControl,
            ({
                let current = spawn_location(
                    old(self).combat_controller.squads@,
                    *game_info,
                    game_info.bot.start_location,
                );
                let center = location_center(game_info.locations@[Location::Center.spec_index()]);
                let enemies = enemies_near(*game_info, center, CONTROL_AREA_RADIUS);
                if dist_sq(current, center) > CONTROL_AREA_RADIUS * CONTROL_AREA_RADIUS
                    || enemies.len() == 0 {
                    all_moved(old(self).combat_controller.squads@, final(self).combat_controller.squads@, center, false)
                } else {
                    all_attacked(
                        old(self).combat_controller.squads@,
                        final(self).combat_controller.squads@,
                        top_target(*game_info, enemies, attacking_keys(*game_info, current, enemies)),
                        false,
                    )
                }
            }),
    {
        let current_pos = self.combat_controller.get_spawn_location(game_info, &game_info.bot.start_location);
        let center_pos = game_info.locations[Location::Center.index()].position();
        self.spawn_controller.match_opponent_spawn();
        self.spawn_controller.set_spawn_pos(current_pos);
        self.combat_controller.control_area(&current_pos, &center_pos, CONTROL_AREA_RADIUS, game_info);
    }
}

/// One tick of the center strategy: new squads join the fight; with the center
/// held the bot strikes the nearest enemy structure while not behind in tempo
/// and holds the center otherwise; it attacks a center the opponent holds and
/// contests a free one.
pub fn tick(game_info: &mut GameInfo, state: &mut MacroState, command_scheduler: &mut CommandScheduler)
    requires
        old(game_info).wf(),
        old(state).spawn_controller.wf(),
    ensures
        final(state).spawn_controller.wf(),
        same_world(*old(game_info), *final(game_info)),
        final(state).combat_controller.state == match center_owner(*old(game_info)) {
            Some(o) => if o == old(game_info).bot.id && old(game_info).bot.tempo
                >= old(game_info).opponent.tempo {
                if old(game_info).opponent.power_slots@.len() > 0
                    || old(game_info).opponent.token_slots@.len() > 0 {
                    CombatControllerState::AttackSlotControl
                } else {
                    old(state).combat_controller.state
                }
            } else if o == old(game_info).bot.id {
                CombatControllerState::SlotDefense
            } else if attack_target(*final(game_info), Location::Center) is Some {
                CombatControllerState::AttackSlotControl
            } else {
                old(state).combat_controller.state
            },
            None => CombatControllerState::AreaControl,
        },
        final(state).spawn_controller.state == match center_owner(*old(game_info)) {
            Some(o) => if o == old(game_info).bot.id && old(game_info).bot.tempo
                < old(game_info).opponent.tempo {
                SpawnControllerState::SpawnMatchOpponent
            } else {
                SpawnControllerState::SpawnOnLimit
            },
            None => SpawnControllerState::SpawnMatchOpponent,
        },
{
    let mut new_squads = state.spawn_controller.tick(command_scheduler, game_info);
    while new_squads.len() > 0
        invariant
            state.spawn_controller.wf(),
            state.combat_controller.state == old(state).combat_controller.state,
        decreases new_squads@.len(),
    {
        let squad = new_squads.remove(0);
        state.combat_controller.add_squad(squad);
    }
    match state.get_center_owner(game_info) {
        Some(owner) => {
            if owner == game_info.bot.id {
                if game_info.bot.tempo >= game_info.opponent.tempo {
                    proof {
                        lemma_closest_slot_held(
                            game_info.opponent,
                            spawn_location(
                                state.combat_controller.squads@,
                                *game_info,
                                game_info.bot.start_location,
                            ),
                        );
                    }
                    state.attack_closest_slot(game_info, command_scheduler);
                } else {
                    state.defend_center(game_info);
                }
            } else {
                state.attack_center(game_info);
            }
        },
        None => state.contest_center(game_info),
    }
    let commands = state.combat_controller.tick(game_info);
    command_scheduler.schedule_commands(commands);
}

} // verus!
