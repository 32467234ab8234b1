//! The bot's deck and the fixed choices that go with it.
use vstd::prelude::*;

use crate::card_data::CardData;
use crate::command_scheduler::{Command, CommandScheduler};
use crate::controller::macro_controller::{MacroController, MacroState};
use crate::command_scheduler::scheduler_updated;
use crate::controller::macro_controller::ticked;
use crate::game_info::{GameInfo, GameStartState, GameState, side_updated, started, state_parsed};

verus! {

/// Number of cards in a deck.
pub const DECK_SIZE: usize = 20;

/// The cards of the bot's deck, in deck order.
#[derive(Debug, Clone, Copy, PartialEq, Eq, Structural, PartialOrd, Ord, Hash)]
pub enum DeckCard {
    Dreadcharger,
    Forsaken,
    NoxTrooper,
    Executor,
    Motivate,
    NastySurprise,
    LifeWeaving,
    FrostBiteAShadow,
    GlacierShell,
    KoboldTrick,
    DarkelfAssassins,
    Nightcrawler,
    StormsingerANature,
    LostReaverAShadow,
    Coldsnap,
    AuraofCorruption,
    TimelessOne,
    SilverwindLancers,
    Tremor,
    LostGrigoriAFire,
}

impl DeckCard {
    /// Position of the card in the deck.
    pub open spec fn spec_position(self) -> int {
        match self {
            DeckCard::Dreadcharger => 0,
            DeckCard::Forsaken => 1,
            DeckCard::NoxTrooper => 2,
            DeckCard::Executor => 3,
            DeckCard::Motivate => 4,
            DeckCard::NastySurprise => 5,
            DeckCard::LifeWeaving => 6,
            DeckCard::FrostBiteAShadow => 7,
            DeckCard::GlacierShell => 8,
            DeckCard::KoboldTrick => 9,
            DeckCard::DarkelfAssassins => 10,
            DeckCard::Nightcrawler => 11,
            DeckCard::StormsingerANature => 12,
            DeckCard::LostReaverAShadow => 13,
            DeckCard::Coldsnap => 14,
            DeckCard::AuraofCorruption => 15,
            DeckCard::TimelessOne => 16,
            DeckCard::SilverwindLancers => 17,
            DeckCard::Tremor => 18,
            DeckCard::LostGrigoriAFire => 19,
        }
    }

    pub fn position(self) -> (r: u8)
        ensures
            r == self.spec_position(),
            r < DECK_SIZE,
    {
        match self {
            DeckCard::Dreadcharger => 0,
            DeckCard::Forsaken => 1,
            DeckCard::NoxTrooper => 2,
            DeckCard::Executor => 3,
            DeckCard::Motivate => 4,
            DeckCard::NastySurprise => 5,
            DeckCard::LifeWeaving => 6,
            DeckCard::FrostBiteAShadow => 7,
            DeckCard::GlacierShell => 8,
            DeckCard::KoboldTrick => 9,
            DeckCard::DarkelfAssassins => 10,
            DeckCard::Nightcrawler => 11,
            DeckCard::StormsingerANature => 12,
            DeckCard::LostReaverAShadow => 13,
            DeckCard::Coldsnap => 14,
            DeckCard::AuraofCorruption => 15,
            DeckCard::TimelessOne => 16,
            DeckCard::SilverwindLancers => 17,
            DeckCard::Tremor => 18,
            DeckCard::LostGrigoriAFire => 19,
        }
    }

    /// The card at a position of the deck.
    pub open spec fn spec_at(position: int) -> DeckCard {
        if position == 0 {
            DeckCard::Dreadcharger
        } else if position == 1 {
            DeckCard::Forsaken
        } else if position == 2 {
            DeckCard::NoxTrooper
        } else if position == 3 {
            DeckCard::Executor
        } else if position == 4 {
            DeckCard::Motivate
        } else if position == 5 {
            DeckCard::NastySurprise
        } else if position == 6 {
            DeckCard::LifeWeaving
        } else if position == 7 {
            DeckCard::FrostBiteAShadow
        } else if position == 8 {
            DeckCard::GlacierShell
        } else if position == 9 {
            DeckCard::KoboldTrick
        } else if position == 10 {
            DeckCard::DarkelfAssassins
        } else if position == 11 {
            DeckCard::Nightcrawler
        } else if position == 12 {
            DeckCard::StormsingerANature
        } else if position == 13 {
            DeckCard::LostReaverAShadow
        } else if position == 14 {
            DeckCard::Coldsnap
        } else if position == 15 {
            DeckCard::AuraofCorruption
        } else if position == 16 {
            DeckCard::TimelessOne
        } else if position == 17 {
            DeckCard::SilverwindLancers
        } else if position == 18 {
            DeckCard::Tremor
        } else {
            DeckCard::LostGrigoriAFire
        }
    }

    pub fn at(position: usize) -> (r: DeckCard)
        requires
            position < DECK_SIZE,
        ensures
            r == Self::spec_at(position as int),
            r.spec_position() == position,
    {
        match position {
            0 => DeckCard::Dreadcharger,
            1 => DeckCard::Forsaken,
            2 => DeckCard::NoxTrooper,
            3 => DeckCard::Executor,
            4 => DeckCard::Motivate,
            5 => DeckCard::NastySurprise,
            6 => DeckCard::LifeWeaving,
            7 => DeckCard::FrostBiteAShadow,
            8 => DeckCard::GlacierShell,
            9 => DeckCard::KoboldTrick,
            10 => DeckCard::DarkelfAssassins,
            11 => DeckCard::Nightcrawler,
            12 => DeckCard::StormsingerANature,
            13 => DeckCard::LostReaverAShadow,
            14 => DeckCard::Coldsnap,
            15 => DeckCard::AuraofCorruption,
            16 => DeckCard::TimelessOne,
            17 => DeckCard::SilverwindLancers,
            18 => DeckCard::Tremor,
            _ => DeckCard::LostGrigoriAFire,
        }
    }
}

/// The card ids of the deck (with their upgrade level), in deck order.
#[derive(Debug)]
pub struct Deck {
    pub card_ids: Vec<u32>,
}

impl Deck {
    pub open spec fn wf(&self) -> bool {
        self.card_ids@.len() == DECK_SIZE
    }

    /// The card id of a card of the deck.
    pub open spec fn spec_card_id(&self, card: DeckCard) -> u32 {
        self.card_ids@[card.spec_position()]
    }

    pub fn card_id(&self, card: DeckCard) -> (r: u32)
        requires
            self.wf(),
        ensures
            r == self.spec_card_id(card),
    {
        self.card_ids[card.position() as usize]
    }
}

/// Deck positions of the units of each tier.
pub open spec fn tier_units(tier: int) -> Seq<int> {
    if tier == 1 {
        seq![0, 1, 2, 3]
    } else if tier == 2 {
        seq![10, 11, 12, 13]
    } else {
        seq![17, 18, 19]
    }
}


/// The whole bot: the world model, the strategy and the command gate.
pub struct SkylordsRebot {
    pub game_info: GameInfo,
    pub macro_controller: MacroController,
    pub command_scheduler: CommandScheduler,
}

impl SkylordsRebot {
    pub open spec fn wf(&self) -> bool {
        &&& self.game_info.wf()
        &&& self.macro_controller.spawn_controller.wf()
    }

    /// A bot before its match, with the dataset and its deck.
    pub fn new(card_data: CardData, deck: Deck) -> (r: SkylordsRebot)
        requires
            card_data.wf(),
            deck.wf(),
        ensures
            r.wf(),
            r.game_info.current_tick is None,
            r.game_info.bot.squads@.len() == 0,
            r.game_info.bot.power_slots@.len() == 0,
            r.game_info.bot.token_slots@.len() == 0,
            r.game_info.opponent.squads@.len() == 0,
            r.game_info.opponent.power_slots@.len() == 0,
            r.game_info.opponent.token_slots@.len() == 0,
            r.macro_controller.state == MacroState::MatchStart,
            r.command_scheduler.scheduled_commands@.len() == 0,
    {
        SkylordsRebot {
            game_info: GameInfo::new(card_data, deck),
            macro_controller: MacroController::new(),
            command_scheduler: CommandScheduler::new(),
        }
    }

    /// Takes in the start-of-match snapshot.
    pub fn match_start(&mut self, state: GameStartState)
        requires
            old(self).wf(),
            old(self).game_info.bot.squads@.len() == 0,
            old(self).game_info.bot.power_slots@.len() == 0,
            old(self).game_info.bot.token_slots@.len() == 0,
            old(self).game_info.opponent.squads@.len() == 0,
            old(self).game_info.opponent.power_slots@.len() == 0,
            old(self).game_info.opponent.token_slots@.len() == 0,
        ensures
            final(self).wf(),
            started(old(self).game_info, final(self).game_info, state),
    {
        self.game_info.init(state);
    }

    /// One tick: the snapshot updates the world model and the scheduler, the
    /// strategy runs, and the batch of orders of the tick comes back.
    pub fn tick(&mut self, state: GameState) -> (r: Vec<Command>)
        requires
            old(self).wf(),
        ensures
            final(self).wf(),
            final(self).game_info.current_tick == Some(state.current_tick),
            side_updated(old(self).game_info.bot, final(self).game_info.bot, state, None),
            side_updated(
                old(self).game_info.opponent,
                final(self).game_info.opponent,
                state,
                Some(old(self).game_info.bot.id),
            ),
            final(self).command_scheduler.scheduled_commands@.len() == 0,
            exists|gi: GameInfo, s1: CommandScheduler, s2: CommandScheduler|
                #[trigger] state_parsed(old(self).game_info, gi, state) && #[trigger] scheduler_updated(
                    old(self).command_scheduler,
                    s1,
                    gi,
                ) && #[trigger] ticked(old(self).macro_controller, final(self).macro_controller, gi, s1, s2)
                    && r@ == s2.scheduled_commands@,
    {
        self.game_info.parse_state(state);
        let ghost gi = self.game_info;
        self.command_scheduler.update_state(&self.game_info);
        let ghost s1 = self.command_scheduler;
        self.macro_controller.tick(&mut self.game_info, &mut self.command_scheduler);
        let ghost s2 = self.command_scheduler;
        let r = self.command_scheduler.get_scheduled_commands();
        proof {
            assert(state_parsed(old(self).game_info, gi, state));
            assert(scheduler_updated(old(self).command_scheduler, s1, gi));
            assert(ticked(old(self).macro_controller, self.macro_controller, gi, s1, s2));
        }
        r
    }
}

} // verus!
