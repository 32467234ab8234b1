//! The controller of one squad: from "move to" and "attack" intents to at
//! most one order per change of intent, and the binding of a produced squad.
use vstd::prelude::*;

use crate::bot::DeckCard;
use crate::command_scheduler::{Command, WalkMode};
use crate::game_info::{EntityId, GameInfo, Tick, ids_of};
use crate::geometry::{Position2D, in_radius, within};

verus! {

/// Distance under which a destination counts as reached, or as unchanged.
pub const DEST_REACHED_MARGIN: u32 = 5 * 1000;

/// Ticks to wait for a produced squad to appear.
pub const SPAWN_WAIT_TIMEOUT_TICKS: u32 = 10;

#[derive(Debug, Clone, Copy, PartialEq, Eq, Structural)]
pub enum SquadControllerState {
    NotInitialized,
    Idling,
    SpawnCommandSent,
    Moving,
    Attacking,
    SpawnError,
}

#[derive(Debug)]
pub struct SquadController {
    pub entity_id: EntityId,
    pub state: SquadControllerState,
    /// Orders decided since the last tick.
    pub commands: Vec<Command>,
    pub current_destination: Option<Position2D>,
    pub name: String,
    pub current_target: Option<EntityId>,
    pub command_sent_tick: Option<Tick>,
}

/// Whether `dest` differs materially from the current destination.
pub open spec fn new_destination(current: Option<Position2D>, dest: Position2D) -> bool {
    match current {
        Some(c) => !in_radius(c, dest, DEST_REACHED_MARGIN),
        None => true,
    }
}

/// Whether a move order is issued: from idle or moving when the destination
/// changed, and always from attacking.
pub open spec fn issues_move(s: SquadController, dest: Position2D) -> bool {
    ((s.state == SquadControllerState::Idling || s.state == SquadControllerState::Moving)
        && new_destination(s.current_destination, dest)) || s.state
        == SquadControllerState::Attacking
}

/// Whether an attack order is issued: from idle or moving, and from attacking
/// when the target changed.
pub open spec fn issues_attack(s: SquadController, target: EntityId) -> bool {
    s.state == SquadControllerState::Idling || s.state == SquadControllerState::Moving || (
    s.state == SquadControllerState::Attacking && s.current_target != Some(target))
}

pub open spec fn walk_mode_of(force: bool) -> WalkMode {
    if force {
        WalkMode::Force
    } else {
        WalkMode::Normal
    }
}

/// The fields that neither a move nor an attack changes.
pub open spec fn same_identity(a: SquadController, b: SquadController) -> bool {
    &&& b.entity_id == a.entity_id
    &&& b.name@ == a.name@
    &&& b.command_sent_tick == a.command_sent_tick
}

/// `new` is `old` after `move_squad(dest, force)`.
pub open spec fn moved(old: SquadController, new: SquadController, dest: Position2D, force: bool) -> bool {
    &&& same_identity(old, new)
    &&& new.current_target == old.current_target
    &&& if issues_move(old, dest) {
        &&& new.commands@ == old.commands@.push(
            Command::GroupGoto {
                squad: old.entity_id,
                position: dest,
                walk_mode: walk_mode_of(force),
            },
        )
        &&& new.current_destination == Some(dest)
        &&& new.state == SquadControllerState::Moving
    } else {
        &&& new.commands@ == old.commands@
        &&& new.current_destination == old.current_destination
        &&& new.state == old.state
    }
}

/// `new` is `old` after `attack(target, force)`.
pub open spec fn attacked(old: SquadController, new: SquadController, target: EntityId, force: bool) -> bool {
    &&& same_identity(old, new)
    &&& new.current_destination == old.current_destination
    &&& if issues_attack(old, target) {
        &&& new.commands@ == old.commands@.push(
            Command::GroupAttack { squad: old.entity_id, target_entity_id: target, force_attack: force },
        )
        &&& new.current_target == Some(target)
        &&& new.state == SquadControllerState::Attacking
    } else {
        &&& new.commands@ == old.commands@
        &&& new.current_target == old.current_target
        &&& new.state == old.state
    }
}

/// Whether the wait for a produced squad has run out.
pub open spec fn spawn_timed_out(now: Option<Tick>, sent: Option<Tick>) -> bool {
    match (now, sent) {
        (Some(n), Some(s)) => n > s + SPAWN_WAIT_TIMEOUT_TICKS,
        _ => false,
    }
}

/// Whether the bot's squad of the controller stands at its destination.
pub open spec fn reached_destination(s: SquadController, gi: GameInfo) -> bool {
    match s.current_destination {
        Some(d) => gi.bot.holds_squad(s.entity_id) && in_radius(
            gi.bot.squads@[ids_of(gi.bot.squads@).index_of(s.entity_id)].position,
            d,
            DEST_REACHED_MARGIN,
        ),
        None => false,
    }
}

/// What a tick does to a squad controller (besides handing out its orders):
/// the buffer empties; a produced squad binds to the single new squad of the
/// tick, or fails once the wait has run out; a moving squad that reached its
/// destination goes idle; nothing else changes.
pub open spec fn squad_ticked(old_s: SquadController, new_s: SquadController, gi: GameInfo) -> bool {
    &&& new_s.commands@.len() == 0
    &&& new_s.name@ == old_s.name@
    &&& new_s.current_destination == old_s.current_destination
    &&& new_s.current_target == old_s.current_target
    &&& new_s.command_sent_tick == old_s.command_sent_tick
    &&& if old_s.state == SquadControllerState::SpawnCommandSent {
        if gi.bot.new_squad_ids@.len() == 1 {
            &&& new_s.entity_id == gi.bot.new_squad_ids@[0]
            &&& new_s.state == SquadControllerState::Idling
        } else if spawn_timed_out(gi.current_tick, old_s.command_sent_tick) {
            &&& new_s.entity_id == old_s.entity_id
            &&& new_s.state == SquadControllerState::SpawnError
        } else {
            &&& new_s.entity_id == old_s.entity_id
            &&& new_s.state == old_s.state
        }
    } else if old_s.state == SquadControllerState::Moving {
        &&& new_s.entity_id == old_s.entity_id
        &&& if reached_destination(old_s, gi) {
            new_s.state == SquadControllerState::Idling
        } else {
            new_s.state == old_s.state
        }
    } else {
        new_s.entity_id == old_s.entity_id && new_s.state == old_s.state
    }
}

impl SquadController {
    pub fn new(name: String) -> (r: SquadController)
        ensures
            r.state == SquadControllerState::NotInitialized,
            r.commands@.len() == 0,
            r.current_destination is None,
            r.current_target is None,
            r.command_sent_tick is None,
            r.name@ == name@,
    {
        SquadController {
            entity_id: EntityId(1),
            state: SquadControllerState::NotInitialized,
            commands: Vec::new(),
            current_destination: None,
            name,
            current_target: None,
            command_sent_tick: None,
        }
    }

    /// Orders the production of `card` at `position`; only from the
    /// uninitialized state.
    pub fn spawn(&mut self, card: DeckCard, position: Position2D, game_info: &GameInfo)
        ensures
            final(self).entity_id == old(self).entity_id,
            final(self).name@ == old(self).name@,
            final(self).current_destination == old(self).current_destination,
            final(self).current_target == old(self).current_target,
            old(self).state == SquadControllerState::NotInitialized ==> {
                &&& final(self).commands@ == old(self).commands@.push(
                    Command::ProduceSquad { card_position: card.spec_position() as u8, xy: position },
                )
                &&& final(self).command_sent_tick == game_info.current_tick
                &&& final(self).state == SquadControllerState::SpawnCommandSent
            },
            old(self).state != SquadControllerState::NotInitialized ==> {
                &&& final(self).commands@ == old(self).commands@
                &&& final(self).command_sent_tick == old(self).command_sent_tick
                &&& final(self).state == old(self).state
            },
    {
        if self.state == SquadControllerState::NotInitialized {
            self.commands.push(Command::ProduceSquad { card_position: card.position(), xy: position });
            self.command_sent_tick = game_info.current_tick;
            self.state = SquadControllerState::SpawnCommandSent;
        }
    }

    /// Whether the squad is bound to an entity (or has failed to appear).
    pub fn initialized(&self) -> (r: bool)
        ensures
            r == (self.state != SquadControllerState::NotInitialized && self.state
                != SquadControllerState::SpawnCommandSent),
    {
        self.state != SquadControllerState::NotInitialized && self.state
            != SquadControllerState::SpawnCommandSent
    }

    /// Moves the squad to `new_dest`; repeated calls with an unchanged
    /// destination issue nothing.
    pub fn move_squad(&mut self, new_dest: Position2D, force: bool)
        ensures
            moved(*old(self), *final(self), new_dest, force),
            old(self).state == SquadControllerState::Moving && !new_destination(
                old(self).current_destination,
                new_dest,
            ) ==> final(self).commands@ == old(self).commands@ && final(self).state
                == old(self).state,
    {
        let new_destination_provided = match self.current_destination {
            Some(cur_dest) => !within(&cur_dest, &new_dest, DEST_REACHED_MARGIN),
            None => true,
        };
        if ((self.state == SquadControllerState::Idling || self.state == SquadControllerState::Moving)
            && new_destination_provided) || self.state == SquadControllerState::Attacking {
            let walk_mode = if force {
                WalkMode::Force
            } else {
                WalkMode::Normal
            };
            self.commands.push(
                Command::GroupGoto { squad: self.entity_id, position: new_dest, walk_mode },
            );
            self.current_destination = Some(new_dest);
            self.state = SquadControllerState::Moving;
        }
    }

    /// Attacks `target`; repeated calls with an unchanged target while
    /// attacking issue nothing.
    pub fn attack(&mut self, target: &EntityId, force: bool)
        ensures
            attacked(*old(self), *final(self), *target, force),
            old(self).state == SquadControllerState::Attacking && old(self).current_target == Some(
                *target,
            ) ==> final(self).commands@ == old(self).commands@ && final(self).state == old(self).state,
    {
        let new_target_provided = match self.current_target {
            Some(cur_target) => *target != cur_target,
            None => true,
        };
        if self.state == SquadControllerState::Idling || self.state == SquadControllerState::Moving
            || (self.state == SquadControllerState::Attacking && new_target_provided) {
            self.commands.push(
                Command::GroupAttack {
                    squad: self.entity_id,
                    target_entity_id: *target,
                    force_attack: force,
                },
            );
            self.current_target = Some(*target);
            self.state = SquadControllerState::Attacking;
        }
    }

    pub fn has_spawn_error(&self) -> (r: bool)
        ensures
            r == (self.state == SquadControllerState::SpawnError),
    {
        self.state == SquadControllerState::SpawnError
    }

    /// Hands out the orders decided since the last tick, then advances the
    /// state: a produced squad binds to the single new squad of the tick, or
    /// fails once the wait has run out; a moving squad that reached its
    /// destination goes idle.
    pub fn tick(&mut self, game_info: &GameInfo) -> (r: Vec<Command>)
        requires
            game_info.wf(),
        ensures
            r@ == old(self).commands@,
            squad_ticked(*old(self), *final(self), *game_info),
    {
        let mut new_commands: Vec<Command> = Vec::new();
        std::mem::swap(&mut new_commands, &mut self.commands);

        if self.state == SquadControllerState::SpawnCommandSent {
            if game_info.bot.new_squad_ids.len() == 1 {
                self.entity_id = game_info.bot.new_squad_ids[0];
                self.state = SquadControllerState::Idling;
            } else if let (Some(now), Some(sent)) = (game_info.current_tick, self.command_sent_tick) {
                if now as u64 > sent as u64 + SPAWN_WAIT_TIMEOUT_TICKS as u64 {
                    self.state = SquadControllerState::SpawnError;
                }
            }
        } else if self.state == SquadControllerState::Moving {
            if let Some(k) = game_info.bot.find_squad(self.entity_id) {
                if let Some(dest) = self.current_destination {
                    proof {
                        let s = ids_of(game_info.bot.squads@);
                        assert(s[k as int] == self.entity_id);
                        assert(s[s.index_of(self.entity_id)] == self.entity_id);
                    }
                    if within(&game_info.bot.squads[k].position, &dest, DEST_REACHED_MARGIN) {
                        self.state = SquadControllerState::Idling;
                    }
                }
            }
        }
        new_commands
    }
}

} // verus!
