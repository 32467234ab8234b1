//! The root strategy state machine: each tick it refreshes its controllers'
//! inputs, runs the logic of its current state (which may change the state),
//! and hands the controllers' orders to the scheduler.
use vstd::prelude::*;

use crate::command_scheduler::{Command, CommandScheduler, CreateOrbColor};
use crate::controller::combat_controller::{
    CombatController, CombatControllerState, all_attacked, flatten_commands, kept_squads, all_moved, attacking_keys,
    defense_target, enemies_near, is_opponent_slot, opponent_slot_pos, opponent_slot_position,
    removable, slot_control_target, spawn_location, top_target, DEFENSE_AGGRO_RADIUS,
};
use crate::controller::spawn_controller::{
    SpawnController, SpawnControllerState, same_world, spawn_ticked,
};
use crate::controller::squad_controller::{SquadController, SquadControllerState, squad_ticked};
use crate::game_info::{
    EntityId, GameInfo, ground_presence, seconds_passed, structure_health, tempo_of,
};
use crate::geometry::{Position2D, dist_sq, dist_squared, lemma_square_bound};
use crate::location::{
    Location, get_location_owner, get_next_free_power_slot, get_next_free_token_slot,
    location_center, location_owner, next_free_power_slot, next_free_token_slot,
};

verus! {

/// Radius around an area within which its enemies are fought.
pub const CONTROL_AREA_AGGRO_RADIUS: u32 = 60 * 1000;

/// Power the bot keeps in reserve before it builds a well.
pub const MIN_POWER_BUILD_WELL: u32 = 200;

/// Lead in tempo that counts as an advantage.
pub const MIN_TEMPO_DIFF_ADVANTAGE: i128 = 0;

/// Radius within which enemies put a held area under attack.
pub const DEFEND_LOCATION_AGGRO_RADIUS: u32 = 50 * 1000;

/// Lead in squads from which the bot strikes the structure directly.
pub const NUM_SQUADS_CRITICAL_MASS: i128 = 6;

/// Distance within which an area counts as reached.
pub const LOCATION_REACHED_DIST: u32 = 5 * 1000;

#[derive(Debug, Clone, Copy, PartialEq, Eq, Structural)]
pub enum MacroState {
    MatchStart,
    /// Get ground presence at the next area the bot does not hold.
    GroundPresenceNextLoc,
    /// Fight the enemy squads around an area.
    ControlArea,
    /// Attack an area the opponent holds.
    AttackLoc,
    /// Build a well.
    TakeWell,
    /// Build an orb.
    AdvanceTier,
    /// Wait until all squads are healed.
    HealUnits,
    /// Defend the held areas.
    Defend,
}

/// The areas in order of priority, for a side ahead (or even) or behind, by
/// its start area (the southern lists for any start but the north).
pub open spec fn location_prios(ahead: bool, start: Location) -> Seq<Location> {
    if ahead {
        if start == Location::North {
            ahead_north_list()
        } else {
            ahead_south_list()
        }
    } else {
        if start == Location::North {
            behind_north_list()
        } else {
            behind_south_list()
        }
    }
}

pub open spec fn ahead_south_list() -> Seq<Location> {
    seq![
        Location::South,
        Location::Center,
        Location::Centersouth,
        Location::Centernorth,
        Location::Southeast,
        Location::East,
        Location::West,
        Location::Northwest,
        Location::North,
    ]
}

pub open spec fn ahead_north_list() -> Seq<Location> {
    seq![
        Location::North,
        Location::Center,
        Location::Centernorth,
        Location::Centersouth,
        Location::Northwest,
        Location::West,
        Location::East,
        Location::Southeast,
        Location::South,
    ]
}

pub open spec fn behind_south_list() -> Seq<Location> {
    seq![
        Location::South,
        Location::Southeast,
        Location::East,
        Location::West,
        Location::Centersouth,
        Location::Center,
        Location::Centernorth,
        Location::Northwest,
        Location::North,
    ]
}

pub open spec fn behind_north_list() -> Seq<Location> {
    seq![
        Location::North,
        Location::Northwest,
        Location::West,
        Location::East,
        Location::Centernorth,
        Location::Center,
        Location::Centersouth,
        Location::Southeast,
        Location::South,
    ]
}

fn get_location_prios(ahead: bool, start: Location) -> (r: Vec<Location>)
    ensures
        r@ == location_prios(ahead, start),
        r@.len() == 9,
{
    let r = if ahead {
        if start == Location::North {
            vec![
                Location::North,
                Location::Center,
                Location::Centernorth,
                Location::Centersouth,
                Location::Northwest,
                Location::West,
                Location::East,
                Location::Southeast,
                Location::South,
            ]
        } else {
            vec![
                Location::South,
                Location::Center,
                Location::Centersouth,
                Location::Centernorth,
                Location::Southeast,
                Location::East,
                Location::West,
                Location::Northwest,
                Location::North,
            ]
        }
    } else {
        if start == Location::North {
            vec![
                Location::North,
                Location::Northwest,
                Location::West,
                Location::East,
                Location::Centernorth,
                Location::Center,
                Location::Centersouth,
                Location::Southeast,
                Location::South,
            ]
        } else {
            vec![
                Location::South,
                Location::Southeast,
                Location::East,
                Location::West,
                Location::Centersouth,
                Location::Center,
                Location::Centernorth,
                Location::Northwest,
                Location::North,
            ]
        }
    };
    proof {
        assert(r@ =~= location_prios(ahead, start));
    }
    r
}


/// Whether the bot leads in tempo.
pub open spec fn tempo_advantage(gi: GameInfo) -> bool {
    tempo_of(gi.bot) - tempo_of(gi.opponent) >= MIN_TEMPO_DIFF_ADVANTAGE
}

/// A held area with enemies near it.
pub open spec fn under_attack(gi: GameInfo, loc: Location) -> bool {
    &&& location_owner(gi, loc) == Some(gi.bot.id)
    &&& enemies_near(
        gi,
        location_center(gi.locations@[loc.spec_index()]),
        DEFEND_LOCATION_AGGRO_RADIUS,
    ).len() > 0
}

/// The areas of the first `n` of `prios` that are under attack, in order.
pub open spec fn attacked_prefix(gi: GameInfo, prios: Seq<Location>, n: int) -> Seq<Location>
    decreases n,
{
    if n <= 0 {
        Seq::empty()
    } else {
        let prev = attacked_prefix(gi, prios, n - 1);
        if under_attack(gi, prios[n - 1]) {
            prev.push(prios[n - 1])
        } else {
            prev
        }
    }
}

/// The held areas under attack, in order of priority.
pub open spec fn locations_under_attack(gi: GameInfo) -> Seq<Location> {
    attacked_prefix(gi, location_prios(true, gi.bot.start_location), 9)
}

/// The first area of `prios[i..end]` whose owner is `owner`.
pub open spec fn first_owned(
    gi: GameInfo,
    prios: Seq<Location>,
    owner: Option<EntityId>,
    i: int,
    end: int,
) -> Option<Location>
    decreases end - i,
{
    if i < 0 || i >= end || i >= prios.len() {
        None
    } else if location_owner(gi, prios[i]) == owner {
        Some(prios[i])
    } else {
        first_owned(gi, prios, owner, i + 1, end)
    }
}

/// The next area to take. Ahead: the first area the opponent holds (its home
/// excepted), else its home after five minutes, else the first area nobody
/// holds. Behind: the first area nobody holds. The north when none fits.
pub open spec fn next_attack_focus_loc(gi: GameInfo) -> Location {
    let ahead = tempo_advantage(gi);
    let prios = location_prios(ahead, gi.bot.start_location);
    let free = match first_owned(gi, prios, None, 0, 9) {
        Some(l) => l,
        None => Location::North,
    };
    if ahead {
        match first_owned(gi, prios, Some(gi.opponent.id), 0, 8) {
            Some(l) => l,
            None => if seconds_passed(gi, 300) {
                prios[8]
            } else {
                free
            },
        }
    } else {
        free
    }
}

/// Repair orders for the first `n` of the bot's wells that are damaged.
pub open spec fn power_repairs(gi: GameInfo, n: int) -> Seq<Command>
    decreases n,
{
    if n <= 0 {
        Seq::empty()
    } else {
        let prev = power_repairs(gi, n - 1);
        let id = gi.bot.power_slots@[n - 1].id;
        let h = structure_health(gi, id);
        if h.0 < h.1 {
            prev.push(Command::RepairBuilding { building_id: id })
        } else {
            prev
        }
    }
}

/// Repair orders for the first `n` of the bot's orbs that are damaged.
pub open spec fn token_repairs(gi: GameInfo, n: int) -> Seq<Command>
    decreases n,
{
    if n <= 0 {
        Seq::empty()
    } else {
        let prev = token_repairs(gi, n - 1);
        let id = gi.bot.token_slots@[n - 1].id;
        let h = structure_health(gi, id);
        if h.0 < h.1 {
            prev.push(Command::RepairBuilding { building_id: id })
        } else {
            prev
        }
    }
}

/// The repair orders of a tick: damaged wells, then damaged orbs.
pub open spec fn repair_commands(gi: GameInfo) -> Seq<Command> {
    power_repairs(gi, gi.bot.power_slots@.len() as int) + token_repairs(
        gi,
        gi.bot.token_slots@.len() as int,
    )
}

/// The color of the orb the bot builds when it holds `n` orbs.
pub open spec fn orb_to_build(n: int) -> CreateOrbColor {
    if n == 0 {
        CreateOrbColor::Shadow
    } else {
        CreateOrbColor::Frost
    }
}

fn bot_orb(n: usize) -> (r: CreateOrbColor)
    ensures
        r == orb_to_build(n as int),
{
    if n == 0 {
        CreateOrbColor::Shadow
    } else {
        CreateOrbColor::Frost
    }
}

pub struct MacroController {
    pub state: MacroState,
    pub attack_focus_loc: Location,
    pub latest_owning_loc: Location,
    pub owning_loc_history: Vec<Location>,
    pub combat_controller: CombatController,
    pub spawn_controller: SpawnController,
}

/// The orders a build state schedules: the free structure at the focus area
/// when the bot stands there, else the free structure at the held area.
pub open spec fn build_target(
    focus_slot: Option<EntityId>,
    focus_ok: bool,
    held_slot: Option<EntityId>,
) -> Option<(EntityId, bool)> {
    if focus_slot is Some && focus_ok {
        Some((focus_slot.unwrap(), true))
    } else if held_slot is Some {
        Some((held_slot.unwrap(), false))
    } else {
        None
    }
}

impl MacroController {
    pub fn new() -> (r: MacroController)
        ensures
            r.state == MacroState::MatchStart,
            r.attack_focus_loc == Location::Center,
            r.latest_owning_loc == Location::Center,
            r.owning_loc_history@.len() == 0,
            r.combat_controller.squads@.len() == 0,
            r.spawn_controller.wf(),
    {
        MacroController {
            state: MacroState::MatchStart,
            attack_focus_loc: Location::Center,
            latest_owning_loc: Location::Center,
            owning_loc_history: Vec::new(),
            combat_controller: CombatController::new(Vec::new()),
            spawn_controller: SpawnController::new(),
        }
    }

    /// Whether the bot leads in tempo.
    pub fn tempo_advantage(game_info: &GameInfo) -> (r: bool)
        ensures
            r == tempo_advantage(*game_info),
    {
        game_info.bot.get_tempo() - game_info.opponent.get_tempo() >= MIN_TEMPO_DIFF_ADVANTAGE
    }

    /// The held areas under attack, in order of priority.
    pub fn get_locations_under_attack(&self, game_info: &GameInfo) -> (r: Vec<Location>)
        requires
            game_info.wf(),
        ensures
            r@ == locations_under_attack(*game_info),
    {
        let prios = get_location_prios(true, game_info.bot.start_location);
        let mut r: Vec<Location> = Vec::new();
        let mut i: usize = 0;
        while i < prios.len()
            invariant
                game_info.wf(),
                prios@ == location_prios(true, game_info.bot.start_location),
                prios@.len() == 9,
                i <= 9,
                r@ == attacked_prefix(*game_info, prios@, i as int),
            decreases 9 - i,
        {
            let loc = prios[i];
            let owner = get_location_owner(&loc, game_info);
            if owner == Some(game_info.bot.id) {
                let pos = game_info.locations[loc.index()].position();
                let enemies = game_info.get_enemy_squads_in_range(&pos, DEFEND_LOCATION_AGGRO_RADIUS);
                proof {
                    assert(enemies@.map_values(|k: usize| k as int).len() == enemies@.len());
                }
                if enemies.len() > 0 {
                    r.push(loc);
                }
            }
            i = i + 1;
        }
        r
    }

    fn find_owned(game_info: &GameInfo, prios: &Vec<Location>, owner: Option<EntityId>, end: usize) -> (r:
        Option<Location>)
        requires
            game_info.wf(),
            end <= prios@.len(),
        ensures
            r == first_owned(*game_info, prios@, owner, 0, end as int),
    {
        let mut i: usize = 0;
        while i < end
            invariant
                game_info.wf(),
                end <= prios@.len(),
                i <= end,
                first_owned(*game_info, prios@, owner, 0, end as int) == first_owned(
                    *game_info,
                    prios@,
                    owner,
                    i as int,
                    end as int,
                ),
            decreases end - i,
        {
            if get_location_owner(&prios[i], game_info) == owner {
                return Some(prios[i]);
            }
            i = i + 1;
        }
        None
    }

    /// The next area to take.
    pub fn get_next_attack_focus_loc(&self, game_info: &GameInfo) -> (r: Location)
        requires
            game_info.wf(),
        ensures
            r == next_attack_focus_loc(*game_info),
    {
        let ahead = Self::tempo_advantage(game_info);
        let prios = get_location_prios(ahead, game_info.bot.start_location);
        if ahead {
            if let Some(l) = Self::find_owned(game_info, &prios, Some(game_info.opponent.id), 8) {
                return l;
            }
            if game_info.seconds_have_passed(300) {
                return prios[8];
            }
        }
        match Self::find_owned(game_info, &prios, None, 9) {
            Some(l) => l,
            None => Location::North,
        }
    }

    /// Orders the repair of every damaged structure of the bot.
    fn repair_structures(game_info: &GameInfo, command_scheduler: &mut CommandScheduler)
        requires
            game_info.wf(),
        ensures
            final(command_scheduler).scheduled_commands@ == old(command_scheduler).scheduled_commands@ + repair_commands(*game_info),
            final(command_scheduler).waiting_for_card_spawn == old(command_scheduler).waiting_for_card_spawn,
            final(command_scheduler).waiting_for_power_slot == old(command_scheduler).waiting_for_power_slot,
            final(command_scheduler).tick_last_played_card == old(command_scheduler).tick_last_played_card,
            final(command_scheduler).token_slots_in_progress@ == old(command_scheduler).token_slots_in_progress@,
            final(command_scheduler).current_power == old(command_scheduler).current_power,
            final(command_scheduler).current_tick == old(command_scheduler).current_tick,
    {
        let ghost s0 = command_scheduler.scheduled_commands@;
        let mut i: usize = 0;
        while i < game_info.bot.power_slots.len()
            invariant
                game_info.wf(),
                i <= game_info.bot.power_slots@.len(),
                command_scheduler.scheduled_commands@ == s0 + power_repairs(*game_info, i as int),
                command_scheduler.waiting_for_card_spawn == old(command_scheduler).waiting_for_card_spawn,
                command_scheduler.waiting_for_power_slot == old(command_scheduler).waiting_for_power_slot,
                command_scheduler.tick_last_played_card == old(command_scheduler).tick_last_played_card,
                command_scheduler.token_slots_in_progress@ == old(command_scheduler).token_slots_in_progress@,
                command_scheduler.current_power == old(command_scheduler).current_power,
                command_scheduler.current_tick == old(command_scheduler).current_tick,
            decreases game_info.bot.power_slots@.len() - i,
        {
            let id = game_info.bot.power_slots[i].id;
            let (cur, max) = game_info.get_structure_health(&id);
            if cur < max {
                command_scheduler.schedule_command(Command::RepairBuilding { building_id: id });
                proof {
                    assert(command_scheduler.scheduled_commands@ =~= s0 + power_repairs(*game_info, i + 1));
                }
            }
            i = i + 1;
        }
        let ghost s1 = command_scheduler.scheduled_commands@;
        let mut j: usize = 0;
        while j < game_info.bot.token_slots.len()
            invariant
                game_info.wf(),
                j <= game_info.bot.token_slots@.len(),
                s1 == s0 + power_repairs(*game_info, game_info.bot.power_slots@.len() as int),
                command_scheduler.scheduled_commands@ == s1 + token_repairs(*game_info, j as int),
                command_scheduler.waiting_for_card_spawn == old(command_scheduler).waiting_for_card_spawn,
                command_scheduler.waiting_for_power_slot == old(command_scheduler).waiting_for_power_slot,
                command_scheduler.tick_last_played_card == old(command_scheduler).tick_last_played_card,
                command_scheduler.token_slots_in_progress@ == old(command_scheduler).token_slots_in_progress@,
                command_scheduler.current_power == old(command_scheduler).current_power,
                command_scheduler.current_tick == old(command_scheduler).current_tick,
            decreases game_info.bot.token_slots@.len() - j,
        {
            let id = game_info.bot.token_slots[j].id;
            let (cur, max) = game_info.get_structure_health(&id);
            if cur < max {
                command_scheduler.schedule_command(Command::RepairBuilding { building_id: id });
                proof {
                    assert(command_scheduler.scheduled_commands@ =~= s1 + token_repairs(*game_info, j + 1));
                }
            }
            j = j + 1;
        }
        proof {
            assert(command_scheduler.scheduled_commands@ =~= s0 + repair_commands(*game_info));
        }
    }

    fn set_latest_owning_loc(&mut self, new_loc: Location)
        ensures
            final(self).latest_owning_loc == new_loc,
            final(self).state == old(self).state,
            final(self).attack_focus_loc == old(self).attack_focus_loc,
            final(self).owning_loc_history@.contains(new_loc) || new_loc == old(self).latest_owning_loc,
            final(self).combat_controller.squads@ == old(self).combat_controller.squads@,
            final(self).spawn_controller == old(self).spawn_controller,
    {
        if new_loc != self.latest_owning_loc {
            self.latest_owning_loc = new_loc;
            let mut known = false;
            let mut i: usize = 0;
            while i < self.owning_loc_history.len()
                invariant
                    i <= self.owning_loc_history@.len(),
                    known ==> self.owning_loc_history@.contains(new_loc),
                decreases self.owning_loc_history@.len() - i,
            {
                if self.owning_loc_history[i] == new_loc {
                    known = true;
                }
                i = i + 1;
            }
            if !known {
                self.owning_loc_history.push(new_loc);
                proof {
                    assert(self.owning_loc_history@[self.owning_loc_history@.len() - 1] == new_loc);
                }
            }
        }
    }
}


/// A time threshold for the next tier has been reached.
pub open spec fn tier_time_due(gi: GameInfo) -> bool {
    (seconds_passed(gi, 180) && gi.bot.token_slots@.len() == 1) || (seconds_passed(gi, 420)
        && gi.bot.token_slots@.len() == 2)
}

/// Reasons to build an orb once an area was taken: the opponent is a tier
/// ahead, or a time threshold was reached.
pub open spec fn tier_due(gi: GameInfo) -> bool {
    gi.bot.token_slots@.len() < gi.opponent.token_slots@.len() || tier_time_due(gi)
}

/// The next state of `GroundPresenceNextLoc`, given the focus area, the
/// squads' position, and the number of enemies around the focus area.
pub open spec fn ground_presence_next(
    gi: GameInfo,
    focus: Location,
    current_pos: Position2D,
) -> MacroState {
    let loc_pos = location_center(gi.locations@[focus.spec_index()]);
    let d = dist_sq(current_pos, loc_pos);
    let near = d < CONTROL_AREA_AGGRO_RADIUS * CONTROL_AREA_AGGRO_RADIUS;
    let enemies = enemies_near(gi, loc_pos, CONTROL_AREA_AGGRO_RADIUS).len();
    if location_owner(gi, focus) == Some(gi.opponent.id) && near {
        MacroState::AttackLoc
    } else if enemies > 0 && near {
        MacroState::ControlArea
    } else if enemies == 0 && d < LOCATION_REACHED_DIST * LOCATION_REACHED_DIST {
        if tier_due(gi) {
            MacroState::AdvanceTier
        } else if gi.bot.power_slots@.len() < gi.opponent.power_slots@.len() || gi.bot.power
            > MIN_POWER_BUILD_WELL {
            MacroState::TakeWell
        } else {
            MacroState::GroundPresenceNextLoc
        }
    } else {
        MacroState::GroundPresenceNextLoc
    }
}

/// The next state of `Defend` when no held area is under attack.
pub open spec fn defend_next(gi: GameInfo) -> MacroState {
    let t = gi.bot.token_slots@.len();
    if t < gi.opponent.token_slots@.len() {
        MacroState::AdvanceTier
    } else if seconds_passed(gi, 180) && t == 1 && gi.bot.power >= 200 {
        MacroState::AdvanceTier
    } else if seconds_passed(gi, 420) && t == 2 && gi.bot.power >= 300 {
        MacroState::AdvanceTier
    } else if gi.bot.power_slots@.len() < gi.opponent.power_slots@.len() {
        MacroState::TakeWell
    } else if tempo_advantage(gi) {
        MacroState::GroundPresenceNextLoc
    } else if gi.bot.power >= 300 {
        if gi.bot.power_slots@.len() < 7 {
            MacroState::TakeWell
        } else {
            MacroState::GroundPresenceNextLoc
        }
    } else {
        MacroState::Defend
    }
}

/// Offense resumes with a lead in tempo; otherwise the bot falls back to defense.
pub open spec fn regroup_next(gi: GameInfo) -> MacroState {
    if tempo_advantage(gi) {
        MacroState::GroundPresenceNextLoc
    } else {
        MacroState::Defend
    }
}

/// What a build state does: `Some((slot, at_focus))` names the structure it
/// orders, `None` that it has none to build.
pub open spec fn take_well_target(m: MacroController, gi: GameInfo) -> Option<(EntityId, bool)> {
    build_target(
        next_free_power_slot(gi, m.attack_focus_loc),
        ground_presence(gi, m.attack_focus_loc),
        next_free_power_slot(gi, m.latest_owning_loc),
    )
}

pub open spec fn advance_tier_target(m: MacroController, gi: GameInfo) -> Option<(EntityId, bool)> {
    build_target(
        next_free_token_slot(gi, m.attack_focus_loc),
        true,
        next_free_token_slot(gi, m.latest_owning_loc),
    )
}

/// Every bot squad is at full health.
pub open spec fn all_healed(gi: GameInfo) -> bool {
    forall|k: int|
        0 <= k < gi.bot.squads@.len() ==> #[trigger] crate::game_info::squad_health(
            gi,
            gi.bot.squads@[k].id,
        ).0 >= crate::game_info::squad_health(gi, gi.bot.squads@[k].id).1
}

/// The combat controller is left as it was: no orders this tick.
pub open spec fn combat_untouched(old_m: MacroController, new_m: MacroController) -> bool {
    &&& new_m.combat_controller.state == old_m.combat_controller.state
    &&& new_m.combat_controller.squads@ == old_m.combat_controller.squads@
}

/// Production after the squads are gone: unchanged when offense resumes,
/// stopped when the bot falls back to defense.
pub open spec fn regroup_production(old_m: MacroController, new_m: MacroController, gi: GameInfo) -> bool {
    if tempo_advantage(gi) {
        new_m.spawn_controller.state == old_m.spawn_controller.state
    } else {
        new_m.spawn_controller.state == SpawnControllerState::Waiting
    }
}

/// The areas the controller focuses on and holds stay as they were.
pub open spec fn areas_kept(old_m: MacroController, new_m: MacroController) -> bool {
    &&& new_m.attack_focus_loc == old_m.attack_focus_loc
    &&& new_m.latest_owning_loc == old_m.latest_owning_loc
    &&& new_m.owning_loc_history@ == old_m.owning_loc_history@
}

/// The held areas after structures were lost this tick: the history keeps the
/// start area and the areas still held; when the latest held area was lost,
/// the latest one still held takes its place.
pub open spec fn areas_after_losses(old_m: MacroController, new_m: MacroController, gi: GameInfo) -> bool {
    if gi.bot.destroyed_power_slot_ids@.len() == 0 && gi.bot.destroyed_token_slot_ids@.len() == 0 {
        new_m.owning_loc_history@ == old_m.owning_loc_history@ && new_m.latest_owning_loc
            == old_m.latest_owning_loc
    } else {
        let h = old_m.owning_loc_history@;
        let kept = kept_history(gi, h, h.len() as int);
        &&& new_m.owning_loc_history@ == kept
        &&& if h.len() > 1 && location_owner(gi, h.last()) != Some(gi.bot.id) {
            new_m.latest_owning_loc == kept.last()
        } else {
            new_m.latest_owning_loc == old_m.latest_owning_loc
        }
    }
}

/// Production is left as it was, but for where new squads appear.
pub open spec fn production_kept(a: SpawnController, b: SpawnController) -> bool {
    &&& b.state == a.state
    &&& b.in_offense == a.in_offense
    &&& b.tier1_offense_spawn_policy == a.tier1_offense_spawn_policy
    &&& b.tier2_offense_spawn_policy == a.tier2_offense_spawn_policy
    &&& b.tier3_offense_spawn_policy == a.tier3_offense_spawn_policy
    &&& b.tier2_from_colors == a.tier2_from_colors
    &&& b.tier3_from_colors == a.tier3_from_colors
}

/// The state logic of each state, as its function leaves the controller.
pub open spec fn match_start_step(old_m: MacroController, new_m: MacroController, gi: GameInfo) -> bool {
    &&& (new_m.state == MacroState::GroundPresenceNextLoc)
    &&& (new_m.latest_owning_loc == gi.bot.start_location)
}

pub open spec fn ground_presence_step(old_m: MacroController, new_m: MacroController, gi: GameInfo) -> bool {
    &&& (locations_under_attack(gi).len() > 0 ==> new_m.state == MacroState::Defend)
    &&& (locations_under_attack(gi).len() == 0 && tier_time_due(gi)
                ==> new_m.state == MacroState::AdvanceTier)
    &&& (locations_under_attack(gi).len() == 0 && !tier_time_due(gi) ==> {
                let focus = next_attack_focus_loc(gi);
                let current = spawn_location(
                    old_m.combat_controller.squads@,
                    gi,
                    old_m.latest_owning_loc,
                );
                &&& new_m.attack_focus_loc == focus
                &&& new_m.spawn_controller.in_offense
                &&& new_m.state == ground_presence_next(gi, focus, current)
                &&& new_m.state == MacroState::GroundPresenceNextLoc ==> {
                    &&& new_m.spawn_controller.state == SpawnControllerState::SingleUnit
                    &&& all_moved(
                        old_m.combat_controller.squads@,
                        new_m.combat_controller.squads@,
                        location_center(gi.locations@[focus.spec_index()]),
                        false,
                    )
                }
            })
}

pub open spec fn take_well_step(old_m: MacroController, new_m: MacroController, gi: GameInfo, old_s: CommandScheduler, new_s: CommandScheduler) -> bool {
    &&& (({
                let attacked = locations_under_attack(gi).len() > 0;
                let waiting = old_s.waiting_for_power_slot;
                let built = gi.bot.new_power_slot_ids@.len() > 0;
                let can = !waiting && old_s.current_power >= crate::command_scheduler::POWER_SLOT_COST;
                if attacked {
                    new_m.state == MacroState::Defend && new_s.scheduled_commands@ == old_s.scheduled_commands@
                } else if waiting || (!built && !can) {
                    new_m.state == old_m.state && new_s.scheduled_commands@ == old_s.scheduled_commands@
                } else if built {
                    new_m.state == MacroState::HealUnits && new_s.scheduled_commands@ == old_s.scheduled_commands@
                } else {
                    match take_well_target(old_m, gi) {
                        Some((slot, at_focus)) => {
                            &&& new_m.state == old_m.state
                            &&& CommandScheduler::scheduled(old_s, new_s, Command::PowerSlotBuild { slot_id: slot })
                            &&& at_focus ==> new_m.latest_owning_loc == old_m.attack_focus_loc
                        },
                        None => new_m.state == MacroState::GroundPresenceNextLoc && new_s.scheduled_commands@ == old_s.scheduled_commands@,
                    }
                }
            }))
}

pub open spec fn advance_tier_step(old_m: MacroController, new_m: MacroController, gi: GameInfo, old_s: CommandScheduler, new_s: CommandScheduler) -> bool {
    &&& (({
                let attacked = locations_under_attack(gi).len() > 0;
                let waiting = old_s.token_slots_in_progress@.len() > 0;
                let built = gi.bot.new_token_slot_ids@.len() > 0;
                let t = gi.bot.token_slots@.len();
                let can = old_s.token_slot_buildable(t as int);
                if attacked {
                    new_m.state == MacroState::Defend && new_s.scheduled_commands@ == old_s.scheduled_commands@
                } else if waiting {
                    new_m.state == old_m.state && new_s.scheduled_commands@ == old_s.scheduled_commands@
                } else if built {
                    new_m.state == MacroState::HealUnits && new_s.scheduled_commands@ == old_s.scheduled_commands@
                } else if t == 0 || t == 3 {
                    new_m.state == MacroState::GroundPresenceNextLoc && new_s.scheduled_commands@ == old_s.scheduled_commands@
                } else if !can {
                    new_m.state == old_m.state && new_s.scheduled_commands@ == old_s.scheduled_commands@
                } else {
                    match advance_tier_target(old_m, gi) {
                        Some((slot, at_focus)) => {
                            &&& new_m.state == old_m.state
                            &&& CommandScheduler::scheduled(old_s, new_s, Command::TokenSlotBuild { slot_id: slot, color: orb_to_build(t as int) })
                            &&& at_focus ==> new_m.latest_owning_loc == old_m.attack_focus_loc
                        },
                        None => new_m.state == MacroState::GroundPresenceNextLoc && new_s.scheduled_commands@ == old_s.scheduled_commands@,
                    }
                }
            }))
}

pub open spec fn heal_units_step(old_m: MacroController, new_m: MacroController, gi: GameInfo) -> bool {
    &&& areas_kept(old_m, new_m)
    &&& (!new_m.spawn_controller.in_offense)
    &&& (all_moved(
                old_m.combat_controller.squads@,
                new_m.combat_controller.squads@,
                location_center(gi.locations@[old_m.latest_owning_loc.spec_index()]),
                true,
            ))
    &&& (new_m.state == if !all_healed(gi) {
                if locations_under_attack(gi).len() > 0 {
                    MacroState::Defend
                } else {
                    MacroState::HealUnits
                }
            } else {
                regroup_next(gi)
            })
}

pub open spec fn control_area_step(old_m: MacroController, new_m: MacroController, gi: GameInfo) -> bool {
    &&& (!new_m.spawn_controller.in_offense)
    &&& areas_kept(old_m, new_m)
    &&& (({
                let current = spawn_location(
                    old_m.combat_controller.squads@,
                    gi,
                    old_m.latest_owning_loc,
                );
                let loc_pos = location_center(
                    gi.locations@[old_m.attack_focus_loc.spec_index()],
                );
                let around_us = enemies_near(gi, current, CONTROL_AREA_AGGRO_RADIUS).len();
                let around_loc = enemies_near(gi, loc_pos, CONTROL_AREA_AGGRO_RADIUS).len();
                if old_m.combat_controller.squads@.len() == 0 {
                    &&& new_m.state == regroup_next(gi)
                    &&& regroup_production(old_m, new_m, gi)
                    &&& combat_untouched(old_m, new_m)
                } else if gi.bot.squads@.len() - around_us < -1 {
                    &&& new_m.state == MacroState::HealUnits
                    &&& new_m.spawn_controller.state == SpawnControllerState::Waiting
                    &&& combat_untouched(old_m, new_m)
                } else if around_loc == 0 {
                    &&& new_m.spawn_controller.state == SpawnControllerState::Waiting
                    &&& combat_untouched(old_m, new_m)
                    &&& new_m.state == if tier_due(gi) {
                        MacroState::AdvanceTier
                    } else if gi.bot.power_slots@.len()
                        < gi.opponent.power_slots@.len() || gi.bot.power
                        > MIN_POWER_BUILD_WELL || gi.bot.squads@.len() >= 3 {
                        MacroState::TakeWell
                    } else {
                        MacroState::ControlArea
                    }
                } else {
                    &&& new_m.state == MacroState::ControlArea
                    &&& new_m.spawn_controller.state
                        == SpawnControllerState::SpawnMatchOpponent
                    &&& new_m.combat_controller.state == CombatControllerState::AreaControl
                    &&& if dist_sq(current, loc_pos) > CONTROL_AREA_AGGRO_RADIUS
                        * CONTROL_AREA_AGGRO_RADIUS {
                        all_moved(
                            old_m.combat_controller.squads@,
                            new_m.combat_controller.squads@,
                            loc_pos,
                            false,
                        )
                    } else {
                        let enemies = enemies_near(gi, loc_pos, CONTROL_AREA_AGGRO_RADIUS);
                        all_attacked(
                            old_m.combat_controller.squads@,
                            new_m.combat_controller.squads@,
                            top_target(gi, enemies, attacking_keys(gi, current, enemies)),
                            false,
                        )
                    }
                }
            }))
}

pub open spec fn attack_loc_step(old_m: MacroController, new_m: MacroController, gi: GameInfo) -> bool {
    &&& (new_m.spawn_controller.in_offense)
    &&& areas_kept(old_m, new_m)
    &&& (({
                let current = spawn_location(
                    old_m.combat_controller.squads@,
                    gi,
                    old_m.latest_owning_loc,
                );
                let around_us = enemies_near(gi, current, CONTROL_AREA_AGGRO_RADIUS).len();
                if location_owner(gi, old_m.attack_focus_loc) is None {
                    &&& new_m.state == MacroState::ControlArea
                    &&& new_m.spawn_controller.state == old_m.spawn_controller.state
                    &&& combat_untouched(old_m, new_m)
                } else if old_m.combat_controller.squads@.len() == 0 {
                    &&& new_m.state == regroup_next(gi)
                    &&& regroup_production(old_m, new_m, gi)
                    &&& combat_untouched(old_m, new_m)
                } else if gi.bot.squads@.len() - around_us < -1 {
                    &&& new_m.state == MacroState::HealUnits
                    &&& new_m.spawn_controller.state == SpawnControllerState::Waiting
                    &&& combat_untouched(old_m, new_m)
                } else {
                    &&& new_m.state == MacroState::AttackLoc
                    &&& new_m.spawn_controller.state == SpawnControllerState::SpawnOnLimit
                    &&& match attack_target(gi, old_m.attack_focus_loc) {
                        Some(t) => {
                            let p = opponent_slot_position(gi, t);
                            if gi.bot.squads@.len() - enemies_near(
                                gi,
                                p,
                                CONTROL_AREA_AGGRO_RADIUS,
                            ).len() >= NUM_SQUADS_CRITICAL_MASS {
                                &&& new_m.combat_controller.state
                                    == CombatControllerState::AttackSlotFocus
                                &&& all_attacked(
                                    old_m.combat_controller.squads@,
                                    new_m.combat_controller.squads@,
                                    t,
                                    true,
                                )
                            } else {
                                &&& new_m.combat_controller.state
                                    == CombatControllerState::AttackSlotControl
                                &&& all_attacked(
                                    old_m.combat_controller.squads@,
                                    new_m.combat_controller.squads@,
                                    slot_control_target(gi, t),
                                    false,
                                )
                            }
                        },
                        None => {
                            &&& new_m.combat_controller.state == old_m.combat_controller.state
                            &&& new_m.combat_controller.squads@ == old_m.combat_controller.squads@
                        },
                    }
                }
            }))
}

pub open spec fn defend_step(old_m: MacroController, new_m: MacroController, gi: GameInfo) -> bool {
    &&& areas_kept(old_m, new_m)
    &&& (!new_m.spawn_controller.in_offense)
    &&& (locations_under_attack(gi).len() == 0 ==> new_m.state == defend_next(
                gi,
            ) && new_m.spawn_controller.state == SpawnControllerState::Waiting)
    &&& (locations_under_attack(gi).len() > 0 ==> {
                let loc = locations_under_attack(gi)[0];
                &&& new_m.state == MacroState::Defend
                &&& new_m.spawn_controller.state == SpawnControllerState::SpawnMatchOpponent
                &&& new_m.spawn_controller.spawn_pos == location_center(
                    gi.locations@[loc.spec_index()],
                )
                &&& new_m.combat_controller.state == CombatControllerState::SlotDefense
                &&& {
                    let center = location_center(gi.locations@[loc.spec_index()]);
                    if enemies_near(gi, center, DEFENSE_AGGRO_RADIUS).len() == 0 {
                        all_moved(
                            old_m.combat_controller.squads@,
                            new_m.combat_controller.squads@,
                            center,
                            false,
                        )
                    } else {
                        all_attacked(
                            old_m.combat_controller.squads@,
                            new_m.combat_controller.squads@,
                            defense_target(gi, center),
                            false,
                        )
                    }
                }
            })
}

pub open spec fn prepared(old_m: MacroController, new_m: MacroController, gi: GameInfo, old_s: CommandScheduler, new_s: CommandScheduler) -> bool {
    &&& (new_m.state == old_m.state)
    &&& (new_m.attack_focus_loc == old_m.attack_focus_loc)
    &&& areas_after_losses(old_m, new_m, gi)
    &&& production_kept(old_m.spawn_controller, new_m.spawn_controller)
    &&& new_m.combat_controller.state == old_m.combat_controller.state
    &&& new_m.combat_controller.squads@ == kept_squads(
        old_m.combat_controller.squads@,
        gi,
        old_m.combat_controller.squads@.len() as int,
    )
    &&& ((exists|k: int|
                0 <= k < old_m.combat_controller.squads@.len() && (#[trigger] old_m.combat_controller.squads@[k]).state == SquadControllerState::SpawnError)
                ==> !new_s.waiting_for_card_spawn)
    &&& (!(exists|k: int|
                0 <= k < old_m.combat_controller.squads@.len() && (#[trigger] old_m.combat_controller.squads@[k]).state == SquadControllerState::SpawnError)
                ==> new_s.waiting_for_card_spawn == old_s.waiting_for_card_spawn)
    &&& (forall|k: int|
                0 <= k < new_m.combat_controller.squads@.len() ==> !removable(
                    #[trigger] new_m.combat_controller.squads@[k],
                    gi,
                ))
    &&& (forall|k: int|
                0 <= k < new_m.combat_controller.squads@.len() ==> old_m.combat_controller.squads@.contains(#[trigger] new_m.combat_controller.squads@[k]))
    &&& (forall|k: int|
                0 <= k < old_m.combat_controller.squads@.len() && !removable(
                    #[trigger] old_m.combat_controller.squads@[k],
                    gi,
                ) ==> new_m.combat_controller.squads@.contains(old_m.combat_controller.squads@[k]))
    &&& (new_m.spawn_controller.spawn_pos == spawn_location(
                new_m.combat_controller.squads@,
                gi,
                new_m.latest_owning_loc,
            ))
    &&& (new_s.scheduled_commands@ == old_s.scheduled_commands@ + repair_commands(gi))
    &&& (new_s.waiting_for_power_slot == old_s.waiting_for_power_slot)
    &&& (new_s.tick_last_played_card == old_s.tick_last_played_card)
    &&& (new_s.current_power == old_s.current_power)
    &&& (new_s.current_tick == old_s.current_tick)
}

/// The state logic of the current state of `m1`, as it leaves the controller
/// and the scheduler.
pub open spec fn state_stepped(
    m1: MacroController,
    m2: MacroController,
    gi: GameInfo,
    s1: CommandScheduler,
    s2: CommandScheduler,
) -> bool {
    match m1.state {
        MacroState::MatchStart => match_start_step(m1, m2, gi) && s2 == s1,
        MacroState::GroundPresenceNextLoc => ground_presence_step(m1, m2, gi) && s2 == s1,
        MacroState::TakeWell => take_well_step(m1, m2, gi, s1, s2),
        MacroState::AdvanceTier => advance_tier_step(m1, m2, gi, s1, s2),
        MacroState::HealUnits => heal_units_step(m1, m2, gi) && s2 == s1,
        MacroState::ControlArea => control_area_step(m1, m2, gi) && s2 == s1,
        MacroState::AttackLoc => attack_loc_step(m1, m2, gi) && s2 == s1,
        MacroState::Defend => defend_step(m1, m2, gi) && s2 == s1,
    }
}

/// One tick of the strategy, through its stages: `m1`/`s1` after the
/// preparation, `m2`/`s2` after the state logic; then production orders at
/// most the units `spawned`, which join the fight, and the orders of all
/// squads are appended to the batch.
pub open spec fn ticked(
    old_m: MacroController,
    new_m: MacroController,
    gi: GameInfo,
    old_s: CommandScheduler,
    new_s: CommandScheduler,
) -> bool {
    exists|m1: MacroController, s1: CommandScheduler, m2: MacroController, s2: CommandScheduler, spawned: Seq<SquadController>|
        #[trigger] prepared(old_m, m1, gi, old_s, s1) && #[trigger] state_stepped(m1, m2, gi, s1, s2)
            && #[trigger] spawn_ticked(m2.spawn_controller, new_m.spawn_controller, s2, gi, spawned)
            && new_m.state == m2.state && areas_kept(m2, new_m) && new_s.scheduled_commands@
            == s2.scheduled_commands@ + flatten_commands(m2.combat_controller.squads@ + spawned)
            && new_m.combat_controller.state == m2.combat_controller.state
            && new_m.combat_controller.squads@.len() == m2.combat_controller.squads@.len()
            + spawned.len() && forall|k: int|
            0 <= k < new_m.combat_controller.squads@.len() ==> squad_ticked(
                (m2.combat_controller.squads@ + spawned)[k],
                #[trigger] new_m.combat_controller.squads@[k],
                gi,
            )
}

impl MacroController {
    fn run_match_start(&mut self, game_info: &GameInfo)
        requires
            old(self).spawn_controller.wf(),
        ensures
            final(self).spawn_controller.wf(),
            match_start_step(*old(self), *final(self), *game_info),

    {
        self.set_latest_owning_loc(game_info.bot.start_location);
        self.state = MacroState::GroundPresenceNextLoc;
    }

    fn run_ground_presence_next_loc(&mut self, game_info: &GameInfo)
        requires
            old(self).spawn_controller.wf(),
            game_info.wf(),
            old(self).state == MacroState::GroundPresenceNextLoc,
        ensures
            final(self).spawn_controller.wf(),
            ground_presence_step(*old(self), *final(self), *game_info),

    {
        let attacked = self.get_locations_under_attack(game_info);
        if attacked.len() > 0 {
            self.state = MacroState::Defend;
            return;
        }
        let tokens = game_info.bot.token_slots.len();
        if (game_info.seconds_have_passed(180) && tokens == 1) || (game_info.seconds_have_passed(420)
            && tokens == 2) {
            self.state = MacroState::AdvanceTier;
            return;
        }
        self.spawn_controller.set_in_offense(true);
        let focus = self.get_next_attack_focus_loc(game_info);
        self.attack_focus_loc = focus;

        let current_pos = self.combat_controller.get_spawn_location(game_info, &self.latest_owning_loc);
        let loc_pos = game_info.locations[focus.index()].position();
        let d = dist_squared(&current_pos, &loc_pos);
        let loc_owner = get_location_owner(&focus, game_info);
        let is_enemy_loc = loc_owner == Some(game_info.opponent.id);
        let enemies = game_info.get_enemy_squads_in_range(&loc_pos, CONTROL_AREA_AGGRO_RADIUS);
        proof {
            assert(enemies@.map_values(|k: usize| k as int).len() == enemies@.len());
            lemma_square_bound(CONTROL_AREA_AGGRO_RADIUS as int);
        }
        let near = d < (CONTROL_AREA_AGGRO_RADIUS as u128) * (CONTROL_AREA_AGGRO_RADIUS as u128);
        if is_enemy_loc && near {
            self.state = MacroState::AttackLoc;
            return;
        }
        if enemies.len() > 0 && near {
            self.state = MacroState::ControlArea;
            return;
        }
        if enemies.len() == 0 && d < (LOCATION_REACHED_DIST as u128) * (LOCATION_REACHED_DIST as u128) {
            if game_info.token_slot_diff() < 0 {
                self.state = MacroState::AdvanceTier;
                return;
            }
            if game_info.power_slot_diff() < 0 || game_info.bot.power > MIN_POWER_BUILD_WELL {
                self.state = MacroState::TakeWell;
                return;
            }
        }
        self.spawn_controller.spawn_single_unit();
        self.combat_controller.move_squads(loc_pos, false);
    }

    fn run_take_well(&mut self, command_scheduler: &mut CommandScheduler, game_info: &GameInfo)
        requires
            old(self).spawn_controller.wf(),
            game_info.wf(),
        ensures
            final(self).spawn_controller.wf(),
            take_well_step(*old(self), *final(self), *game_info, *old(command_scheduler), *final(command_scheduler)),

    {
        let attacked = self.get_locations_under_attack(game_info);
        if attacked.len() > 0 {
            self.state = MacroState::Defend;
            return;
        }
        if command_scheduler.waiting_for_power_slot_to_finish() {
            return;
        }
        if game_info.bot.new_power_slot_ids.len() > 0 {
            self.state = MacroState::HealUnits;
            return;
        }
        if command_scheduler.power_slot_can_be_built() {
            let offense_slot = get_next_free_power_slot(&self.attack_focus_loc, game_info);
            if let Some(slot) = offense_slot {
                if game_info.has_ground_presence(&self.attack_focus_loc) {
                    command_scheduler.schedule_command(Command::PowerSlotBuild { slot_id: slot });
                    let focus = self.attack_focus_loc;
                    self.set_latest_owning_loc(focus);
                    return;
                }
            }
            let defense_slot = get_next_free_power_slot(&self.latest_owning_loc, game_info);
            if let Some(slot) = defense_slot {
                command_scheduler.schedule_command(Command::PowerSlotBuild { slot_id: slot });
                return;
            }
            self.state = MacroState::GroundPresenceNextLoc;
        }
    }

    fn run_advance_tier(&mut self, command_scheduler: &mut CommandScheduler, game_info: &GameInfo)
        requires
            old(self).spawn_controller.wf(),
            game_info.wf(),
        ensures
            final(self).spawn_controller.wf(),
            advance_tier_step(*old(self), *final(self), *game_info, *old(command_scheduler), *final(command_scheduler)),

    {
        let attacked = self.get_locations_under_attack(game_info);
        if attacked.len() > 0 {
            self.state = MacroState::Defend;
            return;
        }
        if command_scheduler.waiting_for_token_slot_to_finish() {
            return;
        }
        if game_info.bot.new_token_slot_ids.len() > 0 {
            self.state = MacroState::HealUnits;
            return;
        }
        let t = game_info.bot.token_slots.len();
        if t == 0 || t == 3 {
            self.state = MacroState::GroundPresenceNextLoc;
            return;
        }
        if command_scheduler.token_slot_can_be_built(game_info) {
            let color = bot_orb(t);
            if let Some(slot) = get_next_free_token_slot(&self.attack_focus_loc, game_info) {
                command_scheduler.schedule_command(Command::TokenSlotBuild { slot_id: slot, color });
                let focus = self.attack_focus_loc;
                self.set_latest_owning_loc(focus);
                return;
            }
            if let Some(slot) = get_next_free_token_slot(&self.latest_owning_loc, game_info) {
                command_scheduler.schedule_command(Command::TokenSlotBuild { slot_id: slot, color });
                return;
            }
            self.state = MacroState::GroundPresenceNextLoc;
        }
    }
}


/// The well or orb of `loc` that the bot attacks: the last of its wells that
/// the opponent holds, else its orb when the opponent holds that.
pub open spec fn attack_target_from(gi: GameInfo, loc: Location, n: int) -> Option<EntityId>
    decreases n,
{
    let powers = gi.locations@[loc.spec_index()].powers@;
    if n <= 0 {
        None
    } else {
        match powers[n - 1].entity_id {
            Some(id) if gi.opponent.holds_power_slot(id) => Some(id),
            _ => attack_target_from(gi, loc, n - 1),
        }
    }
}

pub open spec fn attack_target(gi: GameInfo, loc: Location) -> Option<EntityId> {
    let lp = gi.locations@[loc.spec_index()];
    match attack_target_from(gi, loc, lp.powers@.len() as int) {
        Some(id) => Some(id),
        None => match lp.token {
            Some(t) => match t.entity_id {
                Some(id) if gi.opponent.holds_token_slot(id) => Some(id),
                _ => None,
            },
            None => None,
        },
    }
}

/// The structure of the area `loc` to attack, and where it stands.
pub fn find_attack_target(game_info: &GameInfo, loc_id: Location) -> (r: Option<(EntityId, Position2D)>)
    requires
        game_info.wf(),
    ensures
        r matches Some((id, _)) ==> attack_target(*game_info, loc_id) == Some(id)
            && is_opponent_slot(*game_info, id),
        r is None ==> attack_target(*game_info, loc_id) is None,
{
    let loc = &game_info.locations[loc_id.index()];
    let mut target: Option<(EntityId, Position2D)> = None;
    let mut i: usize = 0;
    while i < loc.powers.len()
        invariant
            game_info.wf(),
            loc == game_info.locations@[loc_id.spec_index()],
            i <= loc.powers@.len(),
            match target {
                Some((id, _)) => attack_target_from(*game_info, loc_id, i as int)
                    == Some(id) && game_info.opponent.holds_power_slot(id),
                None => attack_target_from(*game_info, loc_id, i as int) is None,
            },
        decreases loc.powers@.len() - i,
    {
        if let Some(id) = loc.powers[i].entity_id {
            if let Some(k) = game_info.opponent.find_power_slot(id) {
                target = Some((id, game_info.opponent.power_slots[k].position));
            }
        }
        i = i + 1;
    }
    if target.is_some() {
        return target;
    }
    if let Some(token) = loc.token {
        if let Some(id) = token.entity_id {
            if let Some(k) = game_info.opponent.find_token_slot(id) {
                return Some((id, game_info.opponent.token_slots[k].position));
            }
        }
    }
    None
}


impl MacroController {
    fn run_heal_units(&mut self, game_info: &GameInfo)
        requires
            old(self).spawn_controller.wf(),
            game_info.wf(),
            old(self).state == MacroState::HealUnits,
        ensures
            final(self).spawn_controller.wf(),
            heal_units_step(*old(self), *final(self), *game_info),

    {
        self.spawn_controller.set_in_offense(false);
        let attacked = self.get_locations_under_attack(game_info);
        if attacked.len() > 0 {
            self.state = MacroState::Defend;
        }
        let pos = game_info.locations[self.latest_owning_loc.index()].position();
        self.combat_controller.move_squads(pos, true);
        let mut i: usize = 0;
        while i < game_info.bot.squads.len()
            invariant
                game_info.wf(),
                self.spawn_controller.wf(),
                !self.spawn_controller.in_offense,
                self.attack_focus_loc == old(self).attack_focus_loc,
                self.latest_owning_loc == old(self).latest_owning_loc,
                self.owning_loc_history@ == old(self).owning_loc_history@,
                pos == location_center(game_info.locations@[old(self).latest_owning_loc.spec_index()]),
                all_moved(old(self).combat_controller.squads@, self.combat_controller.squads@, pos, true),
                attacked@ == locations_under_attack(*game_info),
                self.state == if attacked@.len() > 0 {
                    MacroState::Defend
                } else {
                    MacroState::HealUnits
                },
                i <= game_info.bot.squads@.len(),
                forall|k: int|
                    0 <= k < i ==> #[trigger] crate::game_info::squad_health(
                        *game_info,
                        game_info.bot.squads@[k].id,
                    ).0 >= crate::game_info::squad_health(*game_info, game_info.bot.squads@[k].id).1,
            decreases game_info.bot.squads@.len() - i,
        {
            let (cur, max) = game_info.get_squad_health(&game_info.bot.squads[i].id);
            if cur < max {
                return;
            }
            i = i + 1;
        }
        if Self::tempo_advantage(game_info) {
            self.state = MacroState::GroundPresenceNextLoc;
        } else {
            self.spawn_controller.stop_spawn();
            self.state = MacroState::Defend;
        }
    }

    fn run_control_area(&mut self, game_info: &GameInfo)
        requires
            old(self).spawn_controller.wf(),
            game_info.wf(),
            old(self).state == MacroState::ControlArea,
        ensures
            final(self).spawn_controller.wf(),
            control_area_step(*old(self), *final(self), *game_info),

    {
        self.spawn_controller.set_in_offense(false);
        let current_pos = self.combat_controller.get_spawn_location(game_info, &self.latest_owning_loc);
        let loc_pos = game_info.locations[self.attack_focus_loc.index()].position();
        if self.combat_controller.get_squads().len() == 0 {
            if Self::tempo_advantage(game_info) {
                self.state = MacroState::GroundPresenceNextLoc;
            } else {
                self.spawn_controller.stop_spawn();
                self.state = MacroState::Defend;
            }
            return;
        }
        let around_us = game_info.get_enemy_squads_in_range(&current_pos, CONTROL_AREA_AGGRO_RADIUS);
        proof {
            assert(around_us@.map_values(|k: usize| k as int).len() == around_us@.len());
        }
        if (game_info.bot.squads.len() as i128) - (around_us.len() as i128) < -1 {
            self.spawn_controller.stop_spawn();
            self.state = MacroState::HealUnits;
            return;
        }
        let around_loc = game_info.get_enemy_squads_in_range(&loc_pos, CONTROL_AREA_AGGRO_RADIUS);
        proof {
            assert(around_loc@.map_values(|k: usize| k as int).len() == around_loc@.len());
        }
        if around_loc.len() == 0 {
            self.spawn_controller.stop_spawn();
            let tokens = game_info.bot.token_slots.len();
            if game_info.token_slot_diff() < 0 || (game_info.seconds_have_passed(180) && tokens == 1)
                || (game_info.seconds_have_passed(420) && tokens == 2) {
                self.state = MacroState::AdvanceTier;
                return;
            }
            if game_info.power_slot_diff() < 0 || game_info.bot.power > MIN_POWER_BUILD_WELL
                || game_info.bot.squads.len() >= 3 {
                self.state = MacroState::TakeWell;
            }
            return;
        }
        self.spawn_controller.match_opponent_spawn();
        self.combat_controller.control_area(&current_pos, &loc_pos, CONTROL_AREA_AGGRO_RADIUS, game_info);
    }

    fn run_attack_loc(&mut self, game_info: &GameInfo)
        requires
            old(self).spawn_controller.wf(),
            game_info.wf(),
            old(self).state == MacroState::AttackLoc,
        ensures
            final(self).spawn_controller.wf(),
            attack_loc_step(*old(self), *final(self), *game_info),

    {
        self.spawn_controller.set_in_offense(true);
        if get_location_owner(&self.attack_focus_loc, game_info).is_none() {
            self.state = MacroState::ControlArea;
            return;
        }
        if self.combat_controller.get_squads().len() == 0 {
            if Self::tempo_advantage(game_info) {
                self.state = MacroState::GroundPresenceNextLoc;
            } else {
                self.spawn_controller.stop_spawn();
                self.state = MacroState::Defend;
            }
            return;
        }
        let current_pos = self.combat_controller.get_spawn_location(game_info, &self.latest_owning_loc);
        let around_us = game_info.get_enemy_squads_in_range(&current_pos, CONTROL_AREA_AGGRO_RADIUS);
        proof {
            assert(around_us@.map_values(|k: usize| k as int).len() == around_us@.len());
        }
        if (game_info.bot.squads.len() as i128) - (around_us.len() as i128) < -1 {
            self.spawn_controller.stop_spawn();
            self.state = MacroState::HealUnits;
            return;
        }
        self.spawn_controller.spawn_on_limit();
        if let Some((target, _)) = find_attack_target(game_info, self.attack_focus_loc) {
            let pos = opponent_slot_pos(game_info, &target).unwrap();
            let around_target = game_info.get_enemy_squads_in_range(&pos, CONTROL_AREA_AGGRO_RADIUS);
            proof {
                assert(around_target@.map_values(|k: usize| k as int).len() == around_target@.len());
            }
            if (game_info.bot.squads.len() as i128) - (around_target.len() as i128)
                >= NUM_SQUADS_CRITICAL_MASS {
                // enough squads to strike the structure directly
                self.combat_controller.attack_slot_focus(&target, game_info);
            } else {
                // fight the squads around it first
                self.combat_controller.attack_slot_control(&target, game_info);
            }
        }
    }

    fn run_defend(&mut self, game_info: &GameInfo)
        requires
            old(self).spawn_controller.wf(),
            game_info.wf(),
            old(self).state == MacroState::Defend,
        ensures
            final(self).spawn_controller.wf(),
            defend_step(*old(self), *final(self), *game_info),

    {
        self.spawn_controller.set_in_offense(false);
        let attacked = self.get_locations_under_attack(game_info);
        if attacked.len() == 0 {
            self.spawn_controller.stop_spawn();
            let tokens = game_info.bot.token_slots.len();
            let power = game_info.bot.power;
            if game_info.token_slot_diff() < 0 {
                self.state = MacroState::AdvanceTier;
                return;
            }
            if game_info.seconds_have_passed(180) && tokens == 1 && power >= 200 {
                self.state = MacroState::AdvanceTier;
                return;
            }
            if game_info.seconds_have_passed(420) && tokens == 2 && power >= 300 {
                self.state = MacroState::AdvanceTier;
                return;
            }
            if game_info.power_slot_diff() < 0 {
                self.state = MacroState::TakeWell;
                return;
            }
            if Self::tempo_advantage(game_info) {
                self.state = MacroState::GroundPresenceNextLoc;
                return;
            }
            if power >= 300 {
                if game_info.bot.power_slots.len() < 7 {
                    self.state = MacroState::TakeWell;
                    return;
                }
                self.state = MacroState::GroundPresenceNextLoc;
                return;
            }
            return;
        }
        let loc_to_defend = attacked[0];
        let loc_pos = game_info.locations[loc_to_defend.index()].position();
        self.spawn_controller.match_opponent_spawn();
        self.spawn_controller.set_spawn_pos(loc_pos);
        self.combat_controller.defend(&loc_to_defend, game_info);
    }
}


/// The history of held areas after structures were lost: the first entry (the
/// start area) stays, later ones stay while the bot still holds them.
pub open spec fn kept_history(gi: GameInfo, h: Seq<Location>, n: int) -> Seq<Location>
    decreases n,
{
    if n <= 0 {
        Seq::empty()
    } else {
        let prev = kept_history(gi, h, n - 1);
        if n - 1 == 0 || location_owner(gi, h[n - 1]) == Some(gi.bot.id) {
            prev.push(h[n - 1])
        } else {
            prev
        }
    }
}

proof fn lemma_kept_history_first(gi: GameInfo, h: Seq<Location>, n: int)
    requires
        0 < n <= h.len(),
    ensures
        kept_history(gi, h, n).len() > 0,
        kept_history(gi, h, n)[0] == h[0],
    decreases n,
{
    if n > 1 {
        lemma_kept_history_first(gi, h, n - 1);
        let prev = kept_history(gi, h, n - 1);
        assert(prev.push(h[n - 1])[0] == prev[0]);
    } else {
        assert(kept_history(gi, h, 0) =~= Seq::<Location>::empty());
        assert(kept_history(gi, h, 1) == Seq::<Location>::empty().push(h[0]));
    }
}

impl MacroController {
    /// After structures were lost, forgets the areas the bot no longer holds;
    /// when the latest held area was lost, the latest one still held takes its place.
    fn handle_destroyed_slots(&mut self, game_info: &GameInfo)
        requires
            game_info.wf(),
        ensures
            final(self).state == old(self).state,
            final(self).attack_focus_loc == old(self).attack_focus_loc,
            final(self).combat_controller.squads@ == old(self).combat_controller.squads@,
            final(self).combat_controller.state == old(self).combat_controller.state,
            areas_after_losses(*old(self), *final(self), *game_info),
            final(self).spawn_controller == old(self).spawn_controller,
    {
        if game_info.bot.destroyed_power_slot_ids.len() == 0
            && game_info.bot.destroyed_token_slot_ids.len() == 0 {
            return;
        }
        let ghost h = self.owning_loc_history@;
        let mut kept: Vec<Location> = Vec::new();
        let mut last_lost = false;
        let mut i: usize = 0;
        while i < self.owning_loc_history.len()
            invariant
                game_info.wf(),
                self.owning_loc_history@ == h,
                i <= h.len(),
                kept@ == kept_history(*game_info, h, i as int),
                i > 0 ==> last_lost == (i - 1 != 0 && location_owner(*game_info, h[i - 1]) != Some(
                    game_info.bot.id,
                )),
            decreases h.len() - i,
        {
            let loc = self.owning_loc_history[i];
            let owner = get_location_owner(&loc, game_info);
            if i == 0 || owner == Some(game_info.bot.id) {
                kept.push(loc);
                last_lost = false;
            } else {
                last_lost = true;
            }
            i = i + 1;
        }
        if last_lost && kept.len() > 0 {
            self.latest_owning_loc = kept[kept.len() - 1];
        }
        proof {
            if h.len() > 0 {
                lemma_kept_history_first(*game_info, h, h.len() as int);
            }
        }
        self.owning_loc_history = kept;
    }

    /// What precedes the state logic of a tick: a failed production unlocks
    /// the production gate, dead and failed squads leave, lost areas are
    /// forgotten, production moves to the rally point, and damaged structures
    /// are repaired.
    pub fn prepare_tick(&mut self, game_info: &GameInfo, command_scheduler: &mut CommandScheduler)
        requires
            old(self).spawn_controller.wf(),
            game_info.wf(),
        ensures
            final(self).spawn_controller.wf(),
            prepared(*old(self), *final(self), *game_info, *old(command_scheduler), *final(command_scheduler)),

    {
        if self.combat_controller.has_errored_squads() {
            command_scheduler.unlock_card_spawn();
        }
        self.combat_controller.remove_dead_and_errored_squads(game_info);
        self.handle_destroyed_slots(game_info);
        let current_pos = self.combat_controller.get_spawn_location(game_info, &self.latest_owning_loc);
        self.spawn_controller.set_spawn_pos(current_pos);
        Self::repair_structures(game_info, command_scheduler);
    }

    /// One tick of the strategy: prepares the controllers, runs the logic of
    /// the current state, lets production order a unit, and hands every order
    /// of the tick to the scheduler.
    pub fn tick(&mut self, game_info: &mut GameInfo, command_scheduler: &mut CommandScheduler)
        requires
            old(self).spawn_controller.wf(),
            old(game_info).wf(),
        ensures
            final(self).spawn_controller.wf(),
            same_world(*old(game_info), *final(game_info)),
            old(self).state == MacroState::MatchStart ==> final(self).state
                == MacroState::GroundPresenceNextLoc,
            old(self).state == MacroState::Defend ==> final(self).state == if locations_under_attack(
                *old(game_info),
            ).len() == 0 {
                defend_next(*old(game_info))
            } else {
                MacroState::Defend
            },
            old(self).state == MacroState::GroundPresenceNextLoc && locations_under_attack(
                *old(game_info),
            ).len() > 0 ==> final(self).state == MacroState::Defend,
            old(self).state == MacroState::TakeWell && locations_under_attack(
                *old(game_info),
            ).len() > 0 ==> final(self).state == MacroState::Defend,
            old(self).state == MacroState::AdvanceTier && locations_under_attack(
                *old(game_info),
            ).len() > 0 ==> final(self).state == MacroState::Defend,
            ticked(*old(self), *final(self), *old(game_info), *old(command_scheduler), *final(command_scheduler)),
    {
        self.prepare_tick(game_info, command_scheduler);
        let ghost m1 = *self;
        let ghost s1 = *command_scheduler;
        match self.state {
            MacroState::MatchStart => self.run_match_start(game_info),
            MacroState::GroundPresenceNextLoc => self.run_ground_presence_next_loc(game_info),
            MacroState::TakeWell => self.run_take_well(command_scheduler, game_info),
            MacroState::AdvanceTier => self.run_advance_tier(command_scheduler, game_info),
            MacroState::HealUnits => self.run_heal_units(game_info),
            MacroState::ControlArea => self.run_control_area(game_info),
            MacroState::AttackLoc => self.run_attack_loc(game_info),
            MacroState::Defend => self.run_defend(game_info),
        }
        let ghost m2 = *self;
        let ghost s2 = *command_scheduler;
        assert(state_stepped(m1, m2, *old(game_info), s1, s2));
        let ghost decided = self.state;
        let mut new_squads = self.spawn_controller.tick(command_scheduler, game_info);
        let ghost spawned = new_squads@;
        let ghost squads2 = self.combat_controller.squads@;
        let ghost sp3 = self.spawn_controller;
        assert(squads2 == m2.combat_controller.squads@);
        while new_squads.len() > 0
            invariant
                self.state == decided,
                self.spawn_controller == sp3,
                areas_kept(m2, *self),
                self.combat_controller.state == m2.combat_controller.state,
                *command_scheduler == s2,
                self.combat_controller.squads@ + new_squads@ == squads2 + spawned,
            decreases new_squads@.len(),
        {
            let ghost before = self.combat_controller.squads@;
            let ghost rest = new_squads@;
            let squad = new_squads.remove(0);
            self.combat_controller.add_squad(squad);
            proof {
                assert(before + rest =~= self.combat_controller.squads@ + new_squads@);
            }
        }
        assert(self.combat_controller.squads@ =~= squads2 + spawned);
        let ghost gi_now = *game_info;
        let squad_commands = self.combat_controller.tick(game_info);
        command_scheduler.schedule_commands(squad_commands);
        proof {
            assert forall|k: int| 0 <= k < self.combat_controller.squads@.len() implies squad_ticked(
                (m2.combat_controller.squads@ + spawned)[k],
                #[trigger] self.combat_controller.squads@[k],
                *old(game_info),
            ) by {
                assert(squad_ticked(
                    (squads2 + spawned)[k],
                    self.combat_controller.squads@[k],
                    gi_now,
                ));
            }
            assert(prepared(*old(self), m1, *old(game_info), *old(command_scheduler), s1));
            assert(spawn_ticked(m2.spawn_controller, self.spawn_controller, s2, *old(game_info), spawned));
            assert(command_scheduler.scheduled_commands@ == s2.scheduled_commands@ + flatten_commands(
                m2.combat_controller.squads@ + spawned,
            ));
        }
    }
}

} // verus!
