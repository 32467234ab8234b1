//! The controller of a set of squads: area control, defense and focus fire,
//! re-derived from the world model on every call.
use vstd::prelude::*;

use crate::command_scheduler::Command;
use crate::controller::squad_controller::{
    SquadController, SquadControllerState, attacked, moved, squad_ticked,
};
use crate::game_info::{EntityId, GameInfo, Squad, ids_of, squad_of, squads_in_range};
use crate::geometry::{Position2D, dist_sq, dist_squared, lemma_square_bound};
use crate::location::{Location, get_squad_position, location_center};
use crate::utils::{
    ThreatKey, attacking_key, defending_key, lemma_threat_order_first, rank_threats, threat_order,
    threat_scores_attacking, threat_scores_defending,
};

verus! {

/// Radius around a defended area within which enemies are engaged.
pub const DEFENSE_AGGRO_RADIUS: u32 = 30 * 1000;

/// Radius around an attacked structure within which enemies are engaged.
pub const ATTACK_AGGR_RADIUS: u32 = 30 * 1000;

#[derive(Debug, Clone, Copy, PartialEq, Eq, Structural)]
pub enum CombatControllerState {
    Idling,
    Moving,
    SlotDefense,
    AreaControl,
    AttackSquad,
    AttackSlotFocus,
    AttackSlotControl,
}

#[derive(Debug)]
pub struct CombatController {
    pub state: CombatControllerState,
    pub squads: Vec<SquadController>,
}

/// Every squad of `new` is the same squad of `old` after `move_squad(dest, force)`.
pub open spec fn all_moved(
    old: Seq<SquadController>,
    new: Seq<SquadController>,
    dest: Position2D,
    force: bool,
) -> bool {
    &&& new.len() == old.len()
    &&& forall|k: int| 0 <= k < old.len() ==> moved(old[k], #[trigger] new[k], dest, force)
}

/// Every squad of `new` is the same squad of `old` after `attack(target, force)`.
pub open spec fn all_attacked(
    old: Seq<SquadController>,
    new: Seq<SquadController>,
    target: EntityId,
    force: bool,
) -> bool {
    &&& new.len() == old.len()
    &&& forall|k: int| 0 <= k < old.len() ==> attacked(old[k], #[trigger] new[k], target, force)
}

/// The enemy squads (as indices into the opponent's view) engaged around
/// `center`, their keys, and the index of the most threatening one.
pub open spec fn enemies_near(gi: GameInfo, center: Position2D, radius: u32) -> Seq<int> {
    squads_in_range(gi.opponent.squads@, center, radius, gi.opponent.squads@.len() as int)
}

pub open spec fn defending_keys(gi: GameInfo, center: Position2D, enemies: Seq<int>) -> Seq<
    ThreatKey,
> {
    enemies.map_values(|k: int| defending_key(gi, center, gi.opponent.squads@[k]))
}

pub open spec fn attacking_keys(gi: GameInfo, own_pos: Position2D, enemies: Seq<int>) -> Seq<
    ThreatKey,
> {
    enemies.map_values(|k: int| attacking_key(gi, own_pos, gi.opponent.squads@[k]))
}

/// The most threatening of the enemies, by the given keys.
pub open spec fn top_target(gi: GameInfo, enemies: Seq<int>, keys: Seq<ThreatKey>) -> EntityId {
    gi.opponent.squads@[enemies[threat_order(keys)[0]]].id
}

/// The target of `defend` at `center`, when there are enemies around it.
pub open spec fn defense_target(gi: GameInfo, center: Position2D) -> EntityId {
    let enemies = enemies_near(gi, center, DEFENSE_AGGRO_RADIUS);
    top_target(gi, enemies, defending_keys(gi, center, enemies))
}

/// Whether the opponent holds the structure `id` (a well or an orb).
pub open spec fn is_opponent_slot(gi: GameInfo, id: EntityId) -> bool {
    gi.opponent.holds_power_slot(id) || gi.opponent.holds_token_slot(id)
}

/// The position of the opponent's structure `id`: its well, else its orb.
pub open spec fn opponent_slot_position(gi: GameInfo, id: EntityId) -> Position2D {
    if gi.opponent.holds_power_slot(id) {
        gi.opponent.power_slots@[ids_of(gi.opponent.power_slots@).index_of(id)].position
    } else {
        gi.opponent.token_slots@[ids_of(gi.opponent.token_slots@).index_of(id)].position
    }
}

/// What `attack_slot_control` attacks: the slot when no enemy squad is around
/// it, else the most threatening squad (ranked from the slot).
pub open spec fn slot_control_target(gi: GameInfo, slot: EntityId) -> EntityId {
    let pos = opponent_slot_position(gi, slot);
    let enemies = enemies_near(gi, pos, ATTACK_AGGR_RADIUS);
    if enemies.len() == 0 {
        slot
    } else {
        top_target(gi, enemies, attacking_keys(gi, pos, enemies))
    }
}

/// Where the opponent's structure `entity_id` stands, if the opponent holds it.
pub fn opponent_slot_pos(game_info: &GameInfo, entity_id: &EntityId) -> (r: Option<Position2D>)
    requires
        game_info.wf(),
    ensures
        r is Some == is_opponent_slot(*game_info, *entity_id),
        r matches Some(p) ==> p == opponent_slot_position(*game_info, *entity_id),
{
    if let Some(k) = game_info.opponent.find_power_slot(*entity_id) {
        proof {
            let s = ids_of(game_info.opponent.power_slots@);
            assert(s[k as int] == *entity_id);
            assert(s[s.index_of(*entity_id)] == *entity_id);
        }
        Some(game_info.opponent.power_slots[k].position)
    } else if let Some(k) = game_info.opponent.find_token_slot(*entity_id) {
        proof {
            let s = ids_of(game_info.opponent.token_slots@);
            assert(s[k as int] == *entity_id);
            assert(s[s.index_of(*entity_id)] == *entity_id);
        }
        Some(game_info.opponent.token_slots[k].position)
    } else {
        None
    }
}

impl CombatController {
    pub fn new(squads: Vec<SquadController>) -> (r: CombatController)
        ensures
            r.state == CombatControllerState::Idling,
            r.squads@ == squads@,
    {
        CombatController { state: CombatControllerState::Idling, squads }
    }

    pub fn add_squad(&mut self, squad: SquadController)
        ensures
            final(self).squads@ == old(self).squads@.push(squad),
            final(self).state == old(self).state,
    {
        self.squads.push(squad);
    }

    pub fn get_squads(&self) -> (r: &Vec<SquadController>)
        ensures
            r@ == self.squads@,
    {
        &self.squads
    }

    /// Where new squads should appear: at the first bound squad, or, with
    /// none, at the center of `owned_location`.
    pub fn get_spawn_location(&self, game_info: &GameInfo, owned_location: &Location) -> (r:
        Position2D)
        requires
            game_info.wf(),
        ensures
            r == spawn_location(self.squads@, *game_info, *owned_location),
    {
        let mut i: usize = 0;
        while i < self.squads.len()
            invariant
                game_info.wf(),
                i <= self.squads@.len(),
                first_ready(self.squads@, 0) == first_ready(self.squads@, i as int),
            decreases self.squads@.len() - i,
        {
            if self.squads[i].initialized() {
                return get_squad_position(self.squads[i].entity_id, game_info);
            }
            i = i + 1;
        }
        game_info.locations[owned_location.index()].position()
    }

    /// Moves every squad to `pos`.
    pub fn move_squads(&mut self, pos: Position2D, force: bool)
        ensures
            final(self).state == CombatControllerState::Moving,
            all_moved(old(self).squads@, final(self).squads@, pos, force),
    {
        self.state = CombatControllerState::Moving;
        self.move_all(pos, force);
    }

    fn move_all(&mut self, pos: Position2D, force: bool)
        ensures
            final(self).state == old(self).state,
            all_moved(old(self).squads@, final(self).squads@, pos, force),
    {
        let ghost s0 = self.squads@;
        let mut i: usize = 0;
        while i < self.squads.len()
            invariant
                self.squads@.len() == s0.len(),
                i <= s0.len(),
                self.state == old(self).state,
                forall|k: int| 0 <= k < i ==> moved(s0[k], #[trigger] self.squads@[k], pos, force),
                forall|k: int| i <= k < s0.len() ==> #[trigger] self.squads@[k] == s0[k],
            decreases s0.len() - i,
        {
            self.squads[i].move_squad(pos, force);
            i = i + 1;
        }
    }

    fn attack_all(&mut self, target: EntityId, force: bool)
        ensures
            final(self).state == old(self).state,
            all_attacked(old(self).squads@, final(self).squads@, target, force),
    {
        let ghost s0 = self.squads@;
        let mut i: usize = 0;
        while i < self.squads.len()
            invariant
                self.squads@.len() == s0.len(),
                i <= s0.len(),
                self.state == old(self).state,
                forall|k: int|
                    0 <= k < i ==> attacked(s0[k], #[trigger] self.squads@[k], target, force),
                forall|k: int| i <= k < s0.len() ==> #[trigger] self.squads@[k] == s0[k],
            decreases s0.len() - i,
        {
            self.squads[i].attack(&target, force);
            i = i + 1;
        }
    }

    /// The most threatening enemy of `enemies`, ranked from `from`.
    fn top_threat(
        game_info: &GameInfo,
        from: &Position2D,
        enemies: &Vec<usize>,
        defending: bool,
    ) -> (r: EntityId)
        requires
            game_info.wf(),
            enemies@.len() > 0,
            forall|k: int| 0 <= k < enemies@.len() ==> enemies@[k] < game_info.opponent.squads@.len(),
        ensures
            ({
                let e = enemies@.map_values(|k: usize| k as int);
                r == top_target(
                    *game_info,
                    e,
                    if defending {
                        defending_keys(*game_info, *from, e)
                    } else {
                        attacking_keys(*game_info, *from, e)
                    },
                )
            }),
    {
        let ghost e = enemies@.map_values(|k: usize| k as int);
        let ghost spec_keys = if defending {
            defending_keys(*game_info, *from, e)
        } else {
            attacking_keys(*game_info, *from, e)
        };
        let mut keys: Vec<ThreatKey> = Vec::new();
        let mut i: usize = 0;
        while i < enemies.len()
            invariant
                game_info.wf(),
                i <= enemies@.len(),
                e == enemies@.map_values(|k: usize| k as int),
                spec_keys == if defending {
                    defending_keys(*game_info, *from, e)
                } else {
                    attacking_keys(*game_info, *from, e)
                },
                forall|k: int| 0 <= k < enemies@.len() ==> enemies@[k] < game_info.opponent.squads@.len(),
                keys@ == spec_keys.subrange(0, i as int),
            decreases enemies@.len() - i,
        {
            let target: &Squad = &game_info.opponent.squads[enemies[i]];
            let key = if defending {
                threat_scores_defending(from, target, game_info)
            } else {
                threat_scores_attacking(from, target, game_info)
            };
            keys.push(key);
            proof {
                assert(keys@ =~= spec_keys.subrange(0, i + 1));
            }
            i = i + 1;
        }
        proof {
            assert(keys@ =~= spec_keys);
            lemma_threat_order_first(spec_keys);
        }
        let order = rank_threats(&keys);
        proof {
            assert(order@.map_values(|k: usize| k as int)[0] == order@[0] as int);
        }
        game_info.opponent.squads[enemies[order[0]]].id
    }

    /// Defends the area `location`: with no enemy around it the squads move
    /// to it, else they all attack the most threatening enemy.
    pub fn defend(&mut self, location: &Location, game_info: &GameInfo)
        requires
            game_info.wf(),
        ensures
            final(self).state == CombatControllerState::SlotDefense,
            ({
                let center = location_center(game_info.locations@[location.spec_index()]);
                if enemies_near(*game_info, center, DEFENSE_AGGRO_RADIUS).len() == 0 {
                    all_moved(old(self).squads@, final(self).squads@, center, false)
                } else {
                    all_attacked(
                        old(self).squads@,
                        final(self).squads@,
                        defense_target(*game_info, center),
                        false,
                    )
                }
            }),
    {
        self.state = CombatControllerState::SlotDefense;
        let location_pos = game_info.locations[location.index()].position();
        let enemies = game_info.get_enemy_squads_in_range(&location_pos, DEFENSE_AGGRO_RADIUS);
        if enemies.len() == 0 {
            self.move_all(location_pos, false);
        } else {
            let target = Self::top_threat(game_info, &location_pos, &enemies, true);
            self.attack_all(target, false);
        }
    }

    /// Controls the area of radius `radius` around `center`: outside it the
    /// squads move to its center; inside they attack the most threatening
    /// enemy in it, or move to its center when it is clear.
    pub fn control_area(
        &mut self,
        own_pos: &Position2D,
        center: &Position2D,
        radius: u32,
        game_info: &GameInfo,
    )
        requires
            game_info.wf(),
        ensures
            final(self).state == CombatControllerState::AreaControl,
            ({
                let enemies = enemies_near(*game_info, *center, radius);
                if dist_sq(*own_pos, *center) > radius * radius || enemies.len() == 0 {
                    all_moved(old(self).squads@, final(self).squads@, *center, false)
                } else {
                    all_attacked(
                        old(self).squads@,
                        final(self).squads@,
                        top_target(*game_info, enemies, attacking_keys(*game_info, *own_pos, enemies)),
                        false,
                    )
                }
            }),
    {
        self.state = CombatControllerState::AreaControl;
        let d = dist_squared(own_pos, center);
        proof {
            lemma_square_bound(radius as int);
        }
        if d > (radius as u128) * (radius as u128) {
            self.move_all(*center, false);
            return;
        }
        let enemies = game_info.get_enemy_squads_in_range(center, radius);
        if enemies.len() == 0 {
            self.move_all(*center, false);
            return;
        }
        let target = Self::top_threat(game_info, own_pos, &enemies, false);
        self.attack_all(target, false);
    }

    /// Attacks an enemy squad with all squads; a target that is not an enemy
    /// squad is refused.
    pub fn attack_squad(&mut self, entity_id: &EntityId, game_info: &GameInfo)
        ensures
            game_info.opponent.holds_squad(*entity_id) ==> final(self).state
                == CombatControllerState::AttackSquad && all_attacked(
                old(self).squads@,
                final(self).squads@,
                *entity_id,
                true,
            ),
            !game_info.opponent.holds_squad(*entity_id) ==> final(self).state == old(self).state
                && final(self).squads@ == old(self).squads@,
    {
        if game_info.opponent.find_squad(*entity_id).is_none() {
            return;
        }
        self.state = CombatControllerState::AttackSquad;
        self.attack_all(*entity_id, true);
    }

    /// Whether `entity_id` is a structure the opponent holds.
    pub fn slot_is_valid_target(&self, entity_id: &EntityId, game_info: &GameInfo) -> (r: bool)
        ensures
            r == is_opponent_slot(*game_info, *entity_id),
    {
        game_info.opponent.find_power_slot(*entity_id).is_some()
            || game_info.opponent.find_token_slot(*entity_id).is_some()
    }

    /// Attacks an enemy structure with all squads, ignoring enemy squads.
    pub fn attack_slot_focus(&mut self, entity_id: &EntityId, game_info: &GameInfo)
        ensures
            is_opponent_slot(*game_info, *entity_id) ==> final(self).state
                == CombatControllerState::AttackSlotFocus && all_attacked(
                old(self).squads@,
                final(self).squads@,
                *entity_id,
                true,
            ),
            !is_opponent_slot(*game_info, *entity_id) ==> final(self).state == old(self).state
                && final(self).squads@ == old(self).squads@,
    {
        if !self.slot_is_valid_target(entity_id, game_info) {
            return;
        }
        self.state = CombatControllerState::AttackSlotFocus;
        self.attack_all(*entity_id, true);
    }

    /// Attacks an enemy structure, fighting the enemy squads around it first.
    pub fn attack_slot_control(&mut self, entity_id: &EntityId, game_info: &GameInfo)
        requires
            game_info.wf(),
        ensures
            is_opponent_slot(*game_info, *entity_id) ==> final(self).state
                == CombatControllerState::AttackSlotControl && all_attacked(
                old(self).squads@,
                final(self).squads@,
                slot_control_target(*game_info, *entity_id),
                false,
            ),
            !is_opponent_slot(*game_info, *entity_id) ==> final(self).state == old(self).state
                && final(self).squads@ == old(self).squads@,
    {
        if !self.slot_is_valid_target(entity_id, game_info) {
            return;
        }
        self.state = CombatControllerState::AttackSlotControl;
        let slot_position = match opponent_slot_pos(game_info, entity_id) {
            Some(p) => p,
            None => {
                return;
            },
        };
        let enemies = game_info.get_enemy_squads_in_range(&slot_position, ATTACK_AGGR_RADIUS);
        if enemies.len() == 0 {
            self.attack_all(*entity_id, false);
        } else {
            let target = Self::top_threat(game_info, &slot_position, &enemies, false);
            self.attack_all(target, false);
        }
    }

    /// Drops the squads that died this tick or failed to appear.
    pub fn remove_dead_and_errored_squads(&mut self, game_info: &GameInfo)
        ensures
            final(self).state == old(self).state,
            forall|k: int|
                0 <= k < final(self).squads@.len() ==> !(#[trigger] removable(
                    final(self).squads@[k],
                    *game_info,
                )),
            forall|k: int|
                0 <= k < old(self).squads@.len() && !removable(
                    #[trigger] old(self).squads@[k],
                    *game_info,
                ) ==> final(self).squads@.contains(old(self).squads@[k]),
            forall|k: int|
                0 <= k < final(self).squads@.len() ==> old(self).squads@.contains(
                    #[trigger] final(self).squads@[k],
                ),
            final(self).squads@ == kept_squads(
                old(self).squads@,
                *game_info,
                old(self).squads@.len() as int,
            ),
    {
        let ghost s0 = self.squads@;
        let mut old_squads: Vec<SquadController> = Vec::new();
        std::mem::swap(&mut old_squads, &mut self.squads);
        let mut i: usize = 0;
        while i < old_squads.len()
            invariant
                old_squads@.len() == s0.len(),
                i <= s0.len(),
                self.state == old(self).state,
                forall|k: int| i <= k < s0.len() ==> #[trigger] old_squads@[k] == s0[k],
                forall|k: int|
                    0 <= k < self.squads@.len() ==> !(#[trigger] removable(
                        self.squads@[k],
                        *game_info,
                    )),
                forall|k: int|
                    0 <= k < i && !removable(#[trigger] s0[k], *game_info) ==> self.squads@.contains(
                        s0[k],
                    ),
                forall|k: int| 0 <= k < self.squads@.len() ==> s0.contains(#[trigger] self.squads@[k]),
                self.squads@ == kept_squads(s0, *game_info, i as int),
            decreases s0.len() - i,
        {
            let mut squad = SquadController::new(String::new());
            old_squads.set_and_swap(i, &mut squad);
            let ghost w0 = self.squads@;
            let dead = crate::game_info::contains_id(&game_info.bot.dead_squad_ids, squad.entity_id);
            if !(dead || squad.has_spawn_error()) {
                self.squads.push(squad);
                proof {
                    assert(self.squads@[w0.len() as int] == s0[i as int]);
                    assert forall|k: int| 0 <= k < i + 1 && !removable(#[trigger] s0[k], *game_info) implies self.squads@.contains(s0[k]) by {
                        if k < i {
                            let j = choose|j: int| 0 <= j < w0.len() && w0[j] == s0[k];
                            assert(self.squads@[j] == s0[k]);
                        } else {
                            assert(self.squads@[w0.len() as int] == s0[k]);
                        }
                    }
                    assert forall|k: int| 0 <= k < self.squads@.len() implies s0.contains(#[trigger] self.squads@[k]) by {
                        if k < w0.len() {
                            assert(self.squads@[k] == w0[k]);
                        } else {
                            assert(s0[i as int] == self.squads@[k]);
                        }
                    }
                }
            }
            i = i + 1;
        }
    }

    /// Whether a squad failed to appear.
    pub fn has_errored_squads(&self) -> (r: bool)
        ensures
            r == exists|k: int|
                0 <= k < self.squads@.len() && (#[trigger] self.squads@[k]).state
                    == SquadControllerState::SpawnError,
    {
        let mut i: usize = 0;
        while i < self.squads.len()
            invariant
                i <= self.squads@.len(),
                forall|k: int|
                    0 <= k < i ==> (#[trigger] self.squads@[k]).state
                        != SquadControllerState::SpawnError,
            decreases self.squads@.len() - i,
        {
            if self.squads[i].has_spawn_error() {
                return true;
            }
            i = i + 1;
        }
        false
    }

    /// Collects the orders of all squads, in squad order, and advances each.
    pub fn tick(&mut self, game_info: &GameInfo) -> (r: Vec<Command>)
        requires
            game_info.wf(),
        ensures
            final(self).state == old(self).state,
            final(self).squads@.len() == old(self).squads@.len(),
            r@ == flatten_commands(old(self).squads@),
            forall|k: int|
                0 <= k < old(self).squads@.len() ==> squad_ticked(
                    old(self).squads@[k],
                    #[trigger] final(self).squads@[k],
                    *game_info,
                ),
    {
        let ghost s0 = self.squads@;
        let mut commands: Vec<Command> = Vec::new();
        let mut i: usize = 0;
        while i < self.squads.len()
            invariant
                game_info.wf(),
                self.squads@.len() == s0.len(),
                i <= s0.len(),
                self.state == old(self).state,
                forall|k: int| i <= k < s0.len() ==> #[trigger] self.squads@[k] == s0[k],
                forall|k: int| 0 <= k < i ==> squad_ticked(s0[k], #[trigger] self.squads@[k], *game_info),
                commands@ == flatten_commands(s0.subrange(0, i as int)),
            decreases s0.len() - i,
        {
            let mut out = self.squads[i].tick(game_info);
            proof {
                assert(s0.subrange(0, i + 1).drop_last() =~= s0.subrange(0, i as int));
            }
            commands.append(&mut out);
            i = i + 1;
        }
        proof {
            assert(s0.subrange(0, s0.len() as int) =~= s0);
        }
        commands
    }
}

/// The first squad, from index `i` on, that is bound to an entity.
pub open spec fn first_ready(s: Seq<SquadController>, i: int) -> Option<int>
    decreases s.len() - i,
{
    if i < 0 || i >= s.len() {
        None
    } else if s[i].state != SquadControllerState::NotInitialized && s[i].state
        != SquadControllerState::SpawnCommandSent {
        Some(i)
    } else {
        first_ready(s, i + 1)
    }
}

/// Where new squads should appear: at the first bound squad, or, with none,
/// at the center of `owned`.
pub open spec fn spawn_location(s: Seq<SquadController>, gi: GameInfo, owned: Location) -> Position2D {
    match first_ready(s, 0) {
        Some(k) => match squad_of(gi, s[k].entity_id) {
            Some(q) => q.position,
            None => Position2D { x: 0, y: 0 },
        },
        None => location_center(gi.locations@[owned.spec_index()]),
    }
}

/// The first `n` squads of `s` that stay, in order.
pub open spec fn kept_squads(s: Seq<SquadController>, gi: GameInfo, n: int) -> Seq<SquadController>
    decreases n,
{
    if n <= 0 {
        Seq::empty()
    } else {
        let prev = kept_squads(s, gi, n - 1);
        if removable(s[n - 1], gi) {
            prev
        } else {
            prev.push(s[n - 1])
        }
    }
}

/// A squad leaves the combat controller when it died this tick or failed to appear.
pub open spec fn removable(s: SquadController, gi: GameInfo) -> bool {
    gi.bot.dead_squad_ids@.contains(s.entity_id) || s.state == SquadControllerState::SpawnError
}

/// The buffered orders of a list of squads, in order.
pub open spec fn flatten_commands(s: Seq<SquadController>) -> Seq<Command>
    decreases s.len(),
{
    if s.len() == 0 {
        Seq::empty()
    } else {
        flatten_commands(s.drop_last()) + s.last().commands@
    }
}

} // verus!
