//! The single gate for outgoing commands: production cooldown, resource
//! gating and one pending operation per kind.
use vstd::prelude::*;

use crate::bot::DeckCard;
use crate::card_data::{lookup_card_info, orbs_satisfy};
use crate::game_info::{BuildState, EntityId, GameInfo, PlayerInfo, Tick, contains_id, ids_of};
use crate::geometry::Position2D;

verus! {

/// Ticks that must pass between two production commands.
pub const CARD_PLAY_TICK_TIMEOUT: u32 = 10;

/// Power needed before a well is built.
pub const POWER_SLOT_COST: u32 = 100;

/// Power needed before the second orb is built.
pub const TIER2_TOKEN_SLOT_COST: u32 = 150;

/// Power needed before the third orb is built.
pub const TIER3_TOKEN_SLOT_COST: u32 = 250;

/// The color of an orb to build.
#[derive(Debug, Clone, Copy, PartialEq, Eq, Structural)]
pub enum CreateOrbColor {
    Fire,
    Shadow,
    Nature,
    Frost,
}

/// How a group moves: normally, or ignoring engagements on the way.
#[derive(Debug, Clone, Copy, PartialEq, Eq, Structural)]
pub enum WalkMode {
    Normal,
    Force,
}

/// An instruction for the host.
#[derive(Debug, Clone, Copy, PartialEq, Eq, Structural)]
pub enum Command {
    ProduceSquad { card_position: u8, xy: Position2D },
    GroupGoto { squad: EntityId, position: Position2D, walk_mode: WalkMode },
    GroupAttack { squad: EntityId, target_entity_id: EntityId, force_attack: bool },
    PowerSlotBuild { slot_id: EntityId },
    TokenSlotBuild { slot_id: EntityId, color: CreateOrbColor },
    RepairBuilding { building_id: EntityId },
}

/// Whether the orb `id` of the side is fully built.
pub open spec fn token_slot_built(p: PlayerInfo, id: EntityId) -> bool {
    p.holds_token_slot(id) && p.token_slots@[ids_of(p.token_slots@).index_of(id)].state
        == BuildState::Build
}

/// The first `n` orbs of `list` that are not fully built yet, in order.
pub open spec fn unbuilt(p: PlayerInfo, list: Seq<EntityId>, n: int) -> Seq<EntityId>
    decreases n,
{
    if n <= 0 {
        Seq::empty()
    } else {
        let prev = unbuilt(p, list, n - 1);
        if token_slot_built(p, list[n - 1]) {
            prev
        } else {
            prev.push(list[n - 1])
        }
    }
}

/// What reading a tick's world model does to the scheduler: a single new squad
/// ends the wait for production, a single new well the wait for a well, fully
/// built orbs leave the list of orbs in progress (the others stay, in order),
/// and the power and tick are taken over.
pub open spec fn scheduler_updated(old_s: CommandScheduler, new_s: CommandScheduler, gi: GameInfo) -> bool {
    &&& new_s.waiting_for_card_spawn == (old_s.waiting_for_card_spawn
        && gi.bot.new_squad_ids@.len() != 1)
    &&& new_s.waiting_for_power_slot == (old_s.waiting_for_power_slot
        && gi.bot.new_power_slot_ids@.len() != 1)
    &&& new_s.token_slots_in_progress@ == unbuilt(
        gi.bot,
        old_s.token_slots_in_progress@,
        old_s.token_slots_in_progress@.len() as int,
    )
    &&& new_s.current_power == gi.bot.power
    &&& new_s.current_tick == gi.current_tick
    &&& new_s.tick_last_played_card == old_s.tick_last_played_card
    &&& new_s.scheduled_commands@ == old_s.scheduled_commands@
}

#[derive(Debug)]
pub struct CommandScheduler {
    pub tick_last_played_card: Option<Tick>,
    pub waiting_for_card_spawn: bool,
    pub waiting_for_power_slot: bool,
    pub token_slots_in_progress: Vec<EntityId>,
    pub current_power: u32,
    pub scheduled_commands: Vec<Command>,
    pub current_tick: Option<Tick>,
}

impl CommandScheduler {
    /// Whether the production cooldown has run out.
    pub open spec fn cooldown_elapsed(&self) -> bool {
        match (self.current_tick, self.tick_last_played_card) {
            (Some(now), Some(last)) => now >= last + CARD_PLAY_TICK_TIMEOUT,
            _ => true,
        }
    }

    /// The production gate for `card`.
    pub open spec fn card_playable(&self, card: DeckCard, gi: GameInfo) -> bool {
        let info = lookup_card_info(gi.card_data.data@, gi.deck.spec_card_id(card));
        &&& self.current_tick is Some
        &&& !self.waiting_for_card_spawn
        &&& self.cooldown_elapsed()
        &&& orbs_satisfy(gi.bot.token_slots@, info.orb_requirements)
        &&& self.current_power >= info.power_cost
    }

    /// Whether an orb may be built, for a side that holds `num_token_slots` orbs.
    pub open spec fn token_slot_buildable(&self, num_token_slots: int) -> bool {
        &&& self.token_slots_in_progress@.len() == 0
        &&& if num_token_slots == 1 {
            self.current_power >= TIER2_TOKEN_SLOT_COST
        } else if num_token_slots == 2 {
            self.current_power >= TIER3_TOKEN_SLOT_COST
        } else {
            false
        }
    }

    pub fn new() -> (r: CommandScheduler)
        ensures
            r.tick_last_played_card is None,
            !r.waiting_for_card_spawn,
            !r.waiting_for_power_slot,
            r.token_slots_in_progress@.len() == 0,
            r.current_power == 0,
            r.scheduled_commands@.len() == 0,
            r.current_tick is None,
    {
        CommandScheduler {
            tick_last_played_card: None,
            waiting_for_card_spawn: false,
            waiting_for_power_slot: false,
            token_slots_in_progress: Vec::new(),
            current_power: 0,
            scheduled_commands: Vec::new(),
            current_tick: None,
        }
    }

    /// Hands out the batch of this tick and empties it.
    pub fn get_scheduled_commands(&mut self) -> (r: Vec<Command>)
        ensures
            r@ == old(self).scheduled_commands@,
            final(self).scheduled_commands@.len() == 0,
            final(self).tick_last_played_card == old(self).tick_last_played_card,
            final(self).waiting_for_card_spawn == old(self).waiting_for_card_spawn,
            final(self).waiting_for_power_slot == old(self).waiting_for_power_slot,
            final(self).token_slots_in_progress@ == old(self).token_slots_in_progress@,
            final(self).current_power == old(self).current_power,
            final(self).current_tick == old(self).current_tick,
    {
        let mut batch: Vec<Command> = Vec::new();
        std::mem::swap(&mut batch, &mut self.scheduled_commands);
        batch
    }

    /// Reads the world model of this tick: a single new squad ends the wait
    /// for production, a single new well the wait for a well, and orbs that
    /// are fully built leave the list of orbs in progress.
    pub fn update_state(&mut self, game_info: &GameInfo)
        requires
            game_info.wf(),
        ensures
            scheduler_updated(*old(self), *final(self), *game_info),
    {
        if game_info.bot.new_squad_ids.len() == 1 {
            self.waiting_for_card_spawn = false;
        }
        if game_info.bot.new_power_slot_ids.len() == 1 {
            self.waiting_for_power_slot = false;
        }
        let ghost old_list = self.token_slots_in_progress@;
        let mut kept: Vec<EntityId> = Vec::new();
        let mut i: usize = 0;
        while i < self.token_slots_in_progress.len()
            invariant
                game_info.wf(),
                self.token_slots_in_progress@ == old_list,
                i <= old_list.len(),
                kept@ == unbuilt(game_info.bot, old_list, i as int),
            decreases old_list.len() - i,
        {
            let id = self.token_slots_in_progress[i];
            let mut built = false;
            if let Some(k) = game_info.bot.find_token_slot(id) {
                proof {
                    let s = ids_of(game_info.bot.token_slots@);
                    assert(s[k as int] == id);
                    assert(s[s.index_of(id)] == id);
                }
                built = game_info.bot.token_slots[k].state == BuildState::Build;
            }
            if !built {
                kept.push(id);
            }
            i = i + 1;
        }
        self.token_slots_in_progress = kept;
        self.current_power = game_info.bot.power;
        self.current_tick = game_info.current_tick;
    }

    /// Lifts the wait for a production that will not complete.
    pub fn unlock_card_spawn(&mut self)
        ensures
            !final(self).waiting_for_card_spawn,
            final(self).tick_last_played_card == old(self).tick_last_played_card,
            final(self).waiting_for_power_slot == old(self).waiting_for_power_slot,
            final(self).token_slots_in_progress@ == old(self).token_slots_in_progress@,
            final(self).current_power == old(self).current_power,
            final(self).scheduled_commands@ == old(self).scheduled_commands@,
            final(self).current_tick == old(self).current_tick,
    {
        self.waiting_for_card_spawn = false;
    }

    /// What scheduling `command` does to the scheduler.
    pub open spec fn scheduled(old_s: CommandScheduler, new_s: CommandScheduler, command: Command) -> bool {
        &&& new_s.scheduled_commands@ == old_s.scheduled_commands@.push(command)
        &&& new_s.current_power == old_s.current_power
        &&& new_s.current_tick == old_s.current_tick
        &&& match command {
            Command::ProduceSquad { .. } => {
                &&& new_s.waiting_for_card_spawn
                &&& new_s.tick_last_played_card == old_s.current_tick
                &&& new_s.waiting_for_power_slot == old_s.waiting_for_power_slot
                &&& new_s.token_slots_in_progress@ == old_s.token_slots_in_progress@
            },
            Command::PowerSlotBuild { .. } => {
                &&& new_s.waiting_for_card_spawn == old_s.waiting_for_card_spawn
                &&& new_s.tick_last_played_card == old_s.tick_last_played_card
                &&& new_s.waiting_for_power_slot
                &&& new_s.token_slots_in_progress@ == old_s.token_slots_in_progress@
            },
            Command::TokenSlotBuild { slot_id, .. } => {
                &&& new_s.waiting_for_card_spawn == old_s.waiting_for_card_spawn
                &&& new_s.tick_last_played_card == old_s.tick_last_played_card
                &&& new_s.waiting_for_power_slot == old_s.waiting_for_power_slot
                &&& new_s.token_slots_in_progress@ == old_s.token_slots_in_progress@.push(slot_id)
            },
            _ => {
                &&& new_s.waiting_for_card_spawn == old_s.waiting_for_card_spawn
                &&& new_s.tick_last_played_card == old_s.tick_last_played_card
                &&& new_s.waiting_for_power_slot == old_s.waiting_for_power_slot
                &&& new_s.token_slots_in_progress@ == old_s.token_slots_in_progress@
            },
        }
    }

    /// Appends `command` to the batch; production and build commands set
    /// their pending flag at once.
    pub fn schedule_command(&mut self, command: Command)
        ensures
            Self::scheduled(*old(self), *final(self), command),
    {
        match command {
            Command::ProduceSquad { .. } => {
                self.waiting_for_card_spawn = true;
                self.tick_last_played_card = self.current_tick;
            },
            Command::PowerSlotBuild { .. } => {
                self.waiting_for_power_slot = true;
            },
            Command::TokenSlotBuild { slot_id, .. } => {
                self.token_slots_in_progress.push(slot_id);
            },
            _ => {},
        }
        self.scheduled_commands.push(command);
    }

    /// Schedules each command in order.
    pub fn schedule_commands(&mut self, commands: Vec<Command>)
        ensures
            final(self).scheduled_commands@ == old(self).scheduled_commands@ + commands@,
            final(self).current_power == old(self).current_power,
            final(self).current_tick == old(self).current_tick,
    {
        let mut i: usize = 0;
        while i < commands.len()
            invariant
                i <= commands@.len(),
                self.scheduled_commands@ == old(self).scheduled_commands@ + commands@.subrange(
                    0,
                    i as int,
                ),
                self.current_power == old(self).current_power,
                self.current_tick == old(self).current_tick,
            decreases commands@.len() - i,
        {
            self.schedule_command(commands[i]);
            proof {
                assert(commands@.subrange(0, i + 1) =~= commands@.subrange(0, i as int).push(
                    commands@[i as int],
                ));
            }
            i = i + 1;
        }
        proof {
            assert(commands@.subrange(0, commands@.len() as int) =~= commands@);
        }
    }

    /// Whether the card may be produced now.
    pub fn card_can_be_played(&self, card: DeckCard, game_info: &mut GameInfo) -> (r: bool)
        requires
            old(game_info).wf(),
        ensures
            final(game_info).wf(),
            final(game_info).card_data.data@ == old(game_info).card_data.data@,
            final(game_info).bot == old(game_info).bot,
            final(game_info).opponent == old(game_info).opponent,
            final(game_info).locations@ == old(game_info).locations@,
            final(game_info).deck == old(game_info).deck,
            final(game_info).current_tick == old(game_info).current_tick,
            final(game_info).figures@ == old(game_info).figures@,
            r == self.card_playable(card, *old(game_info)),
    {
        if self.current_tick.is_none() {
            return false;
        }
        if self.waiting_for_card_spawn {
            return false;
        }
        if let Some(last) = self.tick_last_played_card {
            let now = self.current_tick.unwrap();
            if (now as u64) < last as u64 + CARD_PLAY_TICK_TIMEOUT as u64 {
                return false;
            }
        }
        let card_id = game_info.deck.card_id(card);
        if !game_info.card_data.player_fullfills_orb_requirements(card_id, &game_info.bot) {
            return false;
        }
        let info = game_info.card_data.get_card_info_from_id(card_id);
        self.current_power >= info.power_cost
    }

    /// Whether a well may be built now.
    pub fn power_slot_can_be_built(&self) -> (r: bool)
        ensures
            r == (!self.waiting_for_power_slot && self.current_power >= POWER_SLOT_COST),
    {
        if self.waiting_for_power_slot {
            return false;
        }
        self.current_power >= POWER_SLOT_COST
    }

    pub fn waiting_for_power_slot_to_finish(&self) -> (r: bool)
        ensures
            r == self.waiting_for_power_slot,
    {
        self.waiting_for_power_slot
    }

    /// Whether an orb may be built now: none in progress, and enough power
    /// for the next tier; never beyond the third orb.
    pub fn token_slot_can_be_built(&self, game_info: &GameInfo) -> (r: bool)
        ensures
            r == self.token_slot_buildable(game_info.bot.token_slots@.len() as int),
    {
        if self.token_slots_in_progress.len() > 0 {
            return false;
        }
        let num_token_slots = game_info.bot.token_slots.len();
        if num_token_slots == 1 {
            self.current_power >= TIER2_TOKEN_SLOT_COST
        } else if num_token_slots == 2 {
            self.current_power >= TIER3_TOKEN_SLOT_COST
        } else {
            false
        }
    }

    pub fn waiting_for_token_slot_to_finish(&self) -> (r: bool)
        ensures
            r == (self.token_slots_in_progress@.len() > 0),
    {
        self.token_slots_in_progress.len() > 0
    }
}

/// The production gate stays closed during the cooldown: before
/// `CARD_PLAY_TICK_TIMEOUT` ticks have passed since the last production
/// command, no card may be played, whatever the power and the orbs.
/// `schedule_command` records that tick; `update_state` and
/// `unlock_card_spawn` keep it.
pub proof fn lemma_production_cooldown(s: CommandScheduler, card: DeckCard, gi: GameInfo, t: Tick, now: Tick)
    requires
        s.tick_last_played_card == Some(t),
        s.current_tick == Some(now),
        now < t + CARD_PLAY_TICK_TIMEOUT,
    ensures
        !s.card_playable(card, gi),
{
}

} // verus!
