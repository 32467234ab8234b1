//! The production policy: which unit to produce next, and when.
use vstd::prelude::*;

use crate::bot::{DeckCard, tier_units};
use crate::card_data::{CardDefenseType, CardInfo, CardOffenseType, lookup_card_info};
use crate::command_scheduler::{Command, CommandScheduler};
use crate::controller::squad_controller::{SquadController, SquadControllerState};
use crate::game_info::{GameInfo, OrbColor, bound_power_sum};
use crate::geometry::Position2D;
use crate::utils::{is_most_frequent, most_frequent_element};

verus! {

/// Lead in bound power the opponent needs before production matches it.
pub const MIN_POWER_DIFF_SPAWN: u32 = 30;

#[derive(Debug, Clone, Copy, PartialEq, Eq, Structural)]
pub enum Tier {
    Tier1,
    Tier2,
    Tier3,
}

#[derive(Debug, Clone, Copy, PartialEq, Eq, Structural)]
pub enum SpawnControllerState {
    Waiting,
    SingleUnit,
    SpawnMatchOpponent,
    SpawnOnLimit,
}

#[derive(Debug)]
pub struct SpawnController {
    pub state: SpawnControllerState,
    pub spawn_pos: Position2D,
    pub tier1_offense_spawn_policy: Option<Vec<DeckCard>>,
    pub tier2_offense_spawn_policy: Option<Vec<DeckCard>>,
    pub tier3_offense_spawn_policy: Option<Vec<DeckCard>>,
    /// Whether the tier-2 policy was taken from the opponent's orb colors.
    pub tier2_from_colors: bool,
    /// Whether the tier-3 policy was taken from the opponent's orb colors.
    pub tier3_from_colors: bool,
    pub in_offense: bool,
}

/// An offense class matches a defense class of the same size.
pub open spec fn classes_match(o: CardOffenseType, d: CardDefenseType) -> bool {
    (o == CardOffenseType::S && d == CardDefenseType::S) || (o == CardOffenseType::M && d
        == CardDefenseType::M) || (o == CardOffenseType::L && d == CardDefenseType::L) || (o
        == CardOffenseType::XL && d == CardDefenseType::XL)
}

/// The defender rules in order of preference: (0) the attacker's offense does
/// not match the defender's defense while the defender's offense matches the
/// attacker's defense; (1) the defender's offense matches the attacker's
/// defense, unless a melee defender would face a ranged attacker whose offense
/// matches it; (2) the attacker's offense does not match the defender's defense.
pub open spec fn defender_fits(rule: int, attacker: CardInfo, defender: CardInfo) -> bool {
    if rule == 0 {
        !classes_match(attacker.offense_type, defender.defense_type) && classes_match(
            defender.offense_type,
            attacker.defense_type,
        )
    } else if rule == 1 {
        classes_match(defender.offense_type, attacker.defense_type) && !(!attacker.melee
            && defender.melee && classes_match(attacker.offense_type, defender.defense_type))
    } else {
        !classes_match(attacker.offense_type, defender.defense_type)
    }
}

pub open spec fn deck_card_info(gi: GameInfo, card: DeckCard) -> CardInfo {
    lookup_card_info(gi.card_data.data@, gi.deck.spec_card_id(card))
}

/// The first unit of `units`, from index `i` on, that fits `rule` against `attacker`.
pub open spec fn first_fitting(
    gi: GameInfo,
    units: Seq<int>,
    attacker: CardInfo,
    rule: int,
    i: int,
) -> Option<DeckCard>
    decreases units.len() - i,
{
    if i < 0 || i >= units.len() {
        None
    } else if defender_fits(rule, attacker, deck_card_info(gi, DeckCard::spec_at(units[i]))) {
        Some(DeckCard::spec_at(units[i]))
    } else {
        first_fitting(gi, units, attacker, rule, i + 1)
    }
}

pub open spec fn tier_number(tier: Tier) -> int {
    match tier {
        Tier::Tier1 => 1,
        Tier::Tier2 => 2,
        Tier::Tier3 => 3,
    }
}

/// The defender of `tier` chosen against `attacker`.
pub open spec fn defense_choice(gi: GameInfo, tier: Tier, attacker: CardInfo) -> DeckCard {
    let units = tier_units(tier_number(tier));
    match first_fitting(gi, units, attacker, 0, 0) {
        Some(c) => c,
        None => match first_fitting(gi, units, attacker, 1, 0) {
            Some(c) => c,
            None => match first_fitting(gi, units, attacker, 2, 0) {
                Some(c) => c,
                None => DeckCard::spec_at(units[0]),
            },
        },
    }
}

/// The template ids of the opponent's squads.
pub open spec fn opponent_unit_ids(gi: GameInfo) -> Seq<u32> {
    gi.opponent.squads@.map_values(|q: crate::game_info::Squad| lookup_card_info(gi.card_data.data@, q.card_id).id)
}

/// The defender to produce in `tier`: against the opponent's most frequent
/// unit, or the tier's first unit when the opponent has no squad.
pub open spec fn defense_policy(gi: GameInfo, tier: Tier, card: DeckCard) -> bool {
    if gi.opponent.squads@.len() == 0 {
        card == DeckCard::spec_at(tier_units(tier_number(tier))[0])
    } else {
        exists|a: u32|
            is_most_frequent(opponent_unit_ids(gi), a) && card == defense_choice(
                gi,
                tier,
                lookup_card_info(gi.card_data.data@, a),
            )
    }
}

/// The offense policy of tier 1 against the opponent's first orb color.
pub open spec fn tier1_policy(color: OrbColor) -> Seq<DeckCard> {
    match color {
        OrbColor::Fire | OrbColor::Shadow => seq![DeckCard::Dreadcharger, DeckCard::Forsaken],
        OrbColor::Frost | OrbColor::Nature => seq![
            DeckCard::Dreadcharger,
            DeckCard::Forsaken,
            DeckCard::NoxTrooper,
        ],
        _ => seq![],
    }
}

pub open spec fn is_color(c: OrbColor) -> bool {
    c == OrbColor::Fire || c == OrbColor::Shadow || c == OrbColor::Nature || c == OrbColor::Frost
}

/// The offense policy of tier 2 against the opponent's two orb colors (in
/// either order).
pub open spec fn tier2_policy(a: OrbColor, b: OrbColor) -> Seq<DeckCard> {
    if !is_color(a) || !is_color(b) {
        seq![]
    } else if a == OrbColor::Fire && b == OrbColor::Fire {
        seq![DeckCard::Nightcrawler, DeckCard::LostReaverAShadow]
    } else if a == OrbColor::Nature && b == OrbColor::Nature {
        seq![DeckCard::Nightcrawler, DeckCard::DarkelfAssassins, DeckCard::Nightcrawler]
    } else if a == OrbColor::Frost && b == OrbColor::Frost {
        seq![DeckCard::Nightcrawler, DeckCard::DarkelfAssassins]
    } else {
        seq![DeckCard::Nightcrawler, DeckCard::LostReaverAShadow, DeckCard::DarkelfAssassins]
    }
}

/// The tier-2 policy when the bot is a tier ahead of the opponent.
pub open spec fn tier2_universal() -> Seq<DeckCard> {
    seq![DeckCard::Nightcrawler, DeckCard::LostReaverAShadow, DeckCard::DarkelfAssassins]
}

/// The tier-3 policy, whatever the opponent's colors.
pub open spec fn tier3_policy() -> Seq<DeckCard> {
    seq![DeckCard::SilverwindLancers, DeckCard::Tremor]
}

/// The entry of a policy for the side's `n`-th squad: the last entry repeats;
/// with no policy the first unit of the deck is produced.
pub open spec fn policy_pick(policy: Seq<DeckCard>, n: int) -> DeckCard {
    if policy.len() == 0 {
        DeckCard::Dreadcharger
    } else if n < policy.len() {
        policy[n]
    } else {
        policy.last()
    }
}

pub open spec fn policy_view(p: Option<Vec<DeckCard>>) -> Seq<DeckCard> {
    match p {
        Some(v) => v@,
        None => seq![],
    }
}

/// The tier the bot produces in, by its number of orbs.
pub open spec fn bot_tier(gi: GameInfo) -> Tier {
    if gi.bot.token_slots@.len() == 3 {
        Tier::Tier3
    } else if gi.bot.token_slots@.len() == 2 {
        Tier::Tier2
    } else {
        Tier::Tier1
    }
}

fn vec_of(s: &[DeckCard]) -> (r: Vec<DeckCard>)
    ensures
        r@ == s@,
{
    let mut v: Vec<DeckCard> = Vec::new();
    let mut i: usize = 0;
    while i < s.len()
        invariant
            i <= s@.len(),
            v@ == s@.subrange(0, i as int),
        decreases s@.len() - i,
    {
        v.push(s[i]);
        proof {
            assert(s@.subrange(0, i + 1) =~= s@.subrange(0, i as int).push(s@[i as int]));
        }
        i = i + 1;
    }
    proof {
        assert(s@.subrange(0, s@.len() as int) =~= s@);
    }
    v
}

impl SpawnController {
    /// The stored offense policies are entries of the policy tables.
    pub open spec fn wf(&self) -> bool {
        &&& match self.tier1_offense_spawn_policy {
            Some(v) => exists|c: OrbColor| v@ == tier1_policy(c),
            None => true,
        }
        &&& match self.tier2_offense_spawn_policy {
            Some(v) => v@ == tier2_universal() || exists|a: OrbColor, b: OrbColor|
                v@ == tier2_policy(a, b),
            None => true,
        }
        &&& match self.tier3_offense_spawn_policy {
            Some(v) => v@ == tier3_policy(),
            None => true,
        }
    }

    pub fn new() -> (r: SpawnController)
        ensures
            r.wf(),
            r.state == SpawnControllerState::Waiting,
            r.spawn_pos == (Position2D { x: 0, y: 0 }),
            r.tier1_offense_spawn_policy is None,
            r.tier2_offense_spawn_policy is None,
            r.tier3_offense_spawn_policy is None,
            r.in_offense,
    {
        SpawnController {
            state: SpawnControllerState::Waiting,
            spawn_pos: Position2D { x: 0, y: 0 },
            tier1_offense_spawn_policy: None,
            tier2_offense_spawn_policy: None,
            tier3_offense_spawn_policy: None,
            tier2_from_colors: false,
            tier3_from_colors: false,
            in_offense: true,
        }
    }

    pub fn set_spawn_pos(&mut self, spawn_pos: Position2D)
        ensures
            final(self).spawn_pos == spawn_pos,
            final(self).tier2_from_colors == old(self).tier2_from_colors,
            final(self).tier3_from_colors == old(self).tier3_from_colors,
            final(self).state == old(self).state,
            final(self).in_offense == old(self).in_offense,
            final(self).tier1_offense_spawn_policy == old(self).tier1_offense_spawn_policy,
            final(self).tier2_offense_spawn_policy == old(self).tier2_offense_spawn_policy,
            final(self).tier3_offense_spawn_policy == old(self).tier3_offense_spawn_policy,
    {
        self.spawn_pos = spawn_pos;
    }

    pub fn spawn_single_unit(&mut self)
        ensures
            final(self).state == SpawnControllerState::SingleUnit,
            final(self).spawn_pos == old(self).spawn_pos,
            final(self).in_offense == old(self).in_offense,
            final(self).tier1_offense_spawn_policy == old(self).tier1_offense_spawn_policy,
            final(self).tier2_offense_spawn_policy == old(self).tier2_offense_spawn_policy,
            final(self).tier3_offense_spawn_policy == old(self).tier3_offense_spawn_policy,
    {
        self.state = SpawnControllerState::SingleUnit;
    }

    pub fn stop_spawn(&mut self)
        ensures
            final(self).state == SpawnControllerState::Waiting,
            final(self).spawn_pos == old(self).spawn_pos,
            final(self).in_offense == old(self).in_offense,
            final(self).tier1_offense_spawn_policy == old(self).tier1_offense_spawn_policy,
            final(self).tier2_offense_spawn_policy == old(self).tier2_offense_spawn_policy,
            final(self).tier3_offense_spawn_policy == old(self).tier3_offense_spawn_policy,
    {
        self.state = SpawnControllerState::Waiting;
    }

    pub fn match_opponent_spawn(&mut self)
        ensures
            final(self).state == SpawnControllerState::SpawnMatchOpponent,
            final(self).spawn_pos == old(self).spawn_pos,
            final(self).in_offense == old(self).in_offense,
            final(self).tier1_offense_spawn_policy == old(self).tier1_offense_spawn_policy,
            final(self).tier2_offense_spawn_policy == old(self).tier2_offense_spawn_policy,
            final(self).tier3_offense_spawn_policy == old(self).tier3_offense_spawn_policy,
    {
        self.state = SpawnControllerState::SpawnMatchOpponent;
    }

    pub fn spawn_on_limit(&mut self)
        ensures
            final(self).state == SpawnControllerState::SpawnOnLimit,
            final(self).spawn_pos == old(self).spawn_pos,
            final(self).in_offense == old(self).in_offense,
            final(self).tier1_offense_spawn_policy == old(self).tier1_offense_spawn_policy,
            final(self).tier2_offense_spawn_policy == old(self).tier2_offense_spawn_policy,
            final(self).tier3_offense_spawn_policy == old(self).tier3_offense_spawn_policy,
    {
        self.state = SpawnControllerState::SpawnOnLimit;
    }

    pub fn set_in_offense(&mut self, in_offense: bool)
        ensures
            final(self).in_offense == in_offense,
            final(self).state == old(self).state,
            final(self).spawn_pos == old(self).spawn_pos,
            final(self).tier1_offense_spawn_policy == old(self).tier1_offense_spawn_policy,
            final(self).tier2_offense_spawn_policy == old(self).tier2_offense_spawn_policy,
            final(self).tier3_offense_spawn_policy == old(self).tier3_offense_spawn_policy,
    {
        self.in_offense = in_offense;
    }

    pub fn get_tier1_offense_spawn_policy(opponent_color: OrbColor) -> (r: Vec<DeckCard>)
        ensures
            r@ == tier1_policy(opponent_color),
    {
        match opponent_color {
            OrbColor::Fire | OrbColor::Shadow => vec_of(&[DeckCard::Dreadcharger, DeckCard::Forsaken]),
            OrbColor::Frost | OrbColor::Nature => vec_of(
                &[DeckCard::Dreadcharger, DeckCard::Forsaken, DeckCard::NoxTrooper],
            ),
            _ => Vec::new(),
        }
    }

    pub fn get_tier2_univeral_spawn_policy() -> (r: Vec<DeckCard>)
        ensures
            r@ == tier2_universal(),
    {
        vec_of(&[DeckCard::Nightcrawler, DeckCard::LostReaverAShadow, DeckCard::DarkelfAssassins])
    }

    pub fn get_tier2_offense_spawn_policy(a: OrbColor, b: OrbColor) -> (r: Vec<DeckCard>)
        ensures
            r@ == tier2_policy(a, b),
    {
        let colored = |c: OrbColor| -> (r: bool)
            ensures
                r == is_color(c),
            {
                c == OrbColor::Fire || c == OrbColor::Shadow || c == OrbColor::Nature || c
                    == OrbColor::Frost
            };
        if !colored(a) || !colored(b) {
            Vec::new()
        } else if a == OrbColor::Fire && b == OrbColor::Fire {
            vec_of(&[DeckCard::Nightcrawler, DeckCard::LostReaverAShadow])
        } else if a == OrbColor::Nature && b == OrbColor::Nature {
            vec_of(&[DeckCard::Nightcrawler, DeckCard::DarkelfAssassins, DeckCard::Nightcrawler])
        } else if a == OrbColor::Frost && b == OrbColor::Frost {
            vec_of(&[DeckCard::Nightcrawler, DeckCard::DarkelfAssassins])
        } else {
            vec_of(&[DeckCard::Nightcrawler, DeckCard::LostReaverAShadow, DeckCard::DarkelfAssassins])
        }
    }

    pub fn get_tier3_offense_spawn_policy() -> (r: Vec<DeckCard>)
        ensures
            r@ == tier3_policy(),
    {
        vec_of(&[DeckCard::SilverwindLancers, DeckCard::Tremor])
    }
}


/// The stored offense policy of a tier.
pub open spec fn stored_policy(s: SpawnController, tier: Tier) -> Option<Vec<DeckCard>> {
    match tier {
        Tier::Tier1 => s.tier1_offense_spawn_policy,
        Tier::Tier2 => s.tier2_offense_spawn_policy,
        Tier::Tier3 => s.tier3_offense_spawn_policy,
    }
}

/// Whether `card` is what the controller `s` produces next in `gi`.
pub open spec fn next_card_choice(s: SpawnController, gi: GameInfo, card: DeckCard) -> bool {
    let tier = bot_tier(gi);
    if s.in_offense {
        card == policy_pick(policy_view(stored_policy(s, tier)), gi.bot.squads@.len() as int)
    } else {
        defense_policy(gi, tier, card)
    }
}

/// How the offense policies follow the opponent's orbs. The tier-1 policy is
/// fixed by the opponent's first orb color once it has one (while that is the
/// starting orb, nothing changes). A tier-2 or tier-3 policy is taken from the
/// opponent's orb colors the first time it holds that many orbs, and never
/// changes after; before that, when the bot reaches the tier first, the
/// universal list stands in.
pub open spec fn policies_updated(old_s: SpawnController, new_s: SpawnController, gi: GameInfo) -> bool {
    let nb = gi.bot.token_slots@.len();
    let no = gi.opponent.token_slots@.len();
    let opp = gi.opponent.token_slots@;
    let t1_due = no == 1 && old_s.tier1_offense_spawn_policy is None;
    let t2_colors = no == 2 && !old_s.tier2_from_colors;
    let t2_universal = !t2_colors && nb == 2 && old_s.tier2_offense_spawn_policy is None;
    let t3_colors = no == 3 && !old_s.tier3_from_colors;
    let t3_universal = !t3_colors && nb == 3 && old_s.tier3_offense_spawn_policy is None;
    &&& new_s.state == old_s.state
    &&& new_s.spawn_pos == old_s.spawn_pos
    &&& new_s.in_offense == old_s.in_offense
    &&& if t1_due && opp[0].color == OrbColor::Starting {
        &&& new_s.tier1_offense_spawn_policy == old_s.tier1_offense_spawn_policy
        &&& new_s.tier2_offense_spawn_policy == old_s.tier2_offense_spawn_policy
        &&& new_s.tier3_offense_spawn_policy == old_s.tier3_offense_spawn_policy
        &&& new_s.tier2_from_colors == old_s.tier2_from_colors
        &&& new_s.tier3_from_colors == old_s.tier3_from_colors
    } else {
        &&& if t1_due {
            new_s.tier1_offense_spawn_policy is Some && policy_view(
                new_s.tier1_offense_spawn_policy,
            ) == tier1_policy(opp[0].color)
        } else {
            new_s.tier1_offense_spawn_policy == old_s.tier1_offense_spawn_policy
        }
        &&& if t2_colors {
            &&& new_s.tier2_offense_spawn_policy is Some
            &&& policy_view(new_s.tier2_offense_spawn_policy) == tier2_policy(
                opp[0].color,
                opp[1].color,
            )
            &&& new_s.tier2_from_colors
        } else if t2_universal {
            &&& new_s.tier2_offense_spawn_policy is Some
            &&& policy_view(new_s.tier2_offense_spawn_policy) == tier2_universal()
            &&& new_s.tier2_from_colors == old_s.tier2_from_colors
        } else {
            &&& new_s.tier2_offense_spawn_policy == old_s.tier2_offense_spawn_policy
            &&& new_s.tier2_from_colors == old_s.tier2_from_colors
        }
        &&& if t3_colors || t3_universal {
            &&& new_s.tier3_offense_spawn_policy is Some
            &&& policy_view(new_s.tier3_offense_spawn_policy) == tier3_policy()
            &&& new_s.tier3_from_colors == (old_s.tier3_from_colors || t3_colors)
        } else {
            &&& new_s.tier3_offense_spawn_policy == old_s.tier3_offense_spawn_policy
            &&& new_s.tier3_from_colors == old_s.tier3_from_colors
        }
    }
}

/// What a production tick does: the policies follow the opponent's orbs, and
/// at most one unit is ordered, the next one of the policy, exactly when the
/// production state and the scheduler allow it.
pub open spec fn spawn_ticked(
    old_s: SpawnController,
    new_s: SpawnController,
    sched: CommandScheduler,
    gi: GameInfo,
    spawned: Seq<SquadController>,
) -> bool {
    &&& policies_updated(old_s, new_s, gi)
    &&& spawned.len() <= 1
    &&& exists|card: DeckCard|
        #[trigger] next_card_choice(new_s, gi, card) && (spawned.len() == 1 <==> state_allows(
            new_s,
            gi,
        ) && sched.card_playable(card, gi)) && (spawned.len() == 1 ==> fresh_spawn(
            spawned[0],
            card,
            new_s.spawn_pos,
            gi,
        ))
}

/// Whether the production state lets a unit be produced now (the scheduler
/// decides the rest).
pub open spec fn state_allows(s: SpawnController, gi: GameInfo) -> bool {
    match s.state {
        SpawnControllerState::Waiting => false,
        SpawnControllerState::SingleUnit => gi.bot.squads@.len() == 0,
        SpawnControllerState::SpawnMatchOpponent => bound_power_sum(gi.opponent.squads@)
            - bound_power_sum(gi.bot.squads@) >= MIN_POWER_DIFF_SPAWN,
        SpawnControllerState::SpawnOnLimit => true,
    }
}

/// A controller that has just ordered the production of `card` at `pos`.
pub open spec fn fresh_spawn(q: SquadController, card: DeckCard, pos: Position2D, gi: GameInfo) -> bool {
    &&& q.state == SquadControllerState::SpawnCommandSent
    &&& q.commands@ == seq![
        Command::ProduceSquad { card_position: card.spec_position() as u8, xy: pos },
    ]
    &&& q.command_sent_tick == gi.current_tick
    &&& q.current_destination is None
    &&& q.current_target is None
}

/// The part of the world model that card lookups leave as it is.
pub open spec fn same_world(a: GameInfo, b: GameInfo) -> bool {
    &&& b.wf()
    &&& b.bot == a.bot
    &&& b.opponent == a.opponent
    &&& b.locations@ == a.locations@
    &&& b.figures@ == a.figures@
    &&& b.deck == a.deck
    &&& b.current_tick == a.current_tick
    &&& b.card_data.data@ == a.card_data.data@
}

fn classes_match_exec(o: CardOffenseType, d: CardDefenseType) -> (r: bool)
    ensures
        r == classes_match(o, d),
{
    match (o, d) {
        (CardOffenseType::S, CardDefenseType::S) => true,
        (CardOffenseType::M, CardDefenseType::M) => true,
        (CardOffenseType::L, CardDefenseType::L) => true,
        (CardOffenseType::XL, CardDefenseType::XL) => true,
        _ => false,
    }
}

fn fits(rule: u8, attacker: &CardInfo, defender: &CardInfo) -> (r: bool)
    ensures
        r == defender_fits(rule as int, *attacker, *defender),
{
    if rule == 0 {
        !classes_match_exec(attacker.offense_type, defender.defense_type) && classes_match_exec(
            defender.offense_type,
            attacker.defense_type,
        )
    } else if rule == 1 {
        classes_match_exec(defender.offense_type, attacker.defense_type) && !(!attacker.melee
            && defender.melee && classes_match_exec(attacker.offense_type, defender.defense_type))
    } else {
        !classes_match_exec(attacker.offense_type, defender.defense_type)
    }
}

/// Deck positions of the units of a tier.
fn tier_unit_positions(tier: Tier) -> (r: Vec<usize>)
    ensures
        r@.map_values(|k: usize| k as int) == tier_units(tier_number(tier)),
        forall|k: int| 0 <= k < r@.len() ==> r@[k] < crate::bot::DECK_SIZE,
        r@.len() > 0,
{
    let r = match tier {
        Tier::Tier1 => vec![0, 1, 2, 3],
        Tier::Tier2 => vec![10, 11, 12, 13],
        Tier::Tier3 => vec![17, 18, 19],
    };
    proof {
        assert(r@.map_values(|k: usize| k as int) =~= tier_units(tier_number(tier)));
    }
    r
}

fn find_fitting(gi: &GameInfo, units: &Vec<usize>, attacker: &CardInfo, rule: u8) -> (r: Option<
    DeckCard,
>)
    requires
        gi.wf(),
        forall|k: int| 0 <= k < units@.len() ==> units@[k] < crate::bot::DECK_SIZE,
    ensures
        r == first_fitting(*gi, units@.map_values(|k: usize| k as int), *attacker, rule as int, 0),
{
    let ghost u = units@.map_values(|k: usize| k as int);
    let mut i: usize = 0;
    while i < units.len()
        invariant
            gi.wf(),
            i <= units@.len(),
            u == units@.map_values(|k: usize| k as int),
            forall|k: int| 0 <= k < units@.len() ==> units@[k] < crate::bot::DECK_SIZE,
            first_fitting(*gi, u, *attacker, rule as int, 0) == first_fitting(
                *gi,
                u,
                *attacker,
                rule as int,
                i as int,
            ),
        decreases units@.len() - i,
    {
        let card = DeckCard::at(units[i]);
        let defender = gi.card_data.card_info(gi.deck.card_id(card));
        if fits(rule, attacker, &defender) {
            return Some(card);
        }
        i = i + 1;
    }
    None
}

impl SpawnController {
    /// The defender of `tier` to produce against the opponent's most frequent unit.
    pub fn get_defense_spawn_policy(&self, game_info: &GameInfo, tier: Tier) -> (r: DeckCard)
        requires
            game_info.wf(),
        ensures
            defense_policy(*game_info, tier, r),
    {
        let units = tier_unit_positions(tier);
        proof {
            assert(units@.map_values(|k: usize| k as int)[0] == units@[0] as int);
        }
        if game_info.opponent.squads.len() == 0 {
            return DeckCard::at(units[0]);
        }
        let ghost spec_ids = opponent_unit_ids(*game_info);
        let mut ids: Vec<u32> = Vec::new();
        let mut i: usize = 0;
        while i < game_info.opponent.squads.len()
            invariant
                game_info.wf(),
                i <= game_info.opponent.squads@.len(),
                spec_ids == opponent_unit_ids(*game_info),
                ids@ == spec_ids.subrange(0, i as int),
            decreases game_info.opponent.squads@.len() - i,
        {
            let info = game_info.card_data.card_info(game_info.opponent.squads[i].card_id);
            ids.push(info.id);
            proof {
                assert(ids@ =~= spec_ids.subrange(0, i + 1));
            }
            i = i + 1;
        }
        proof {
            assert(ids@ =~= spec_ids);
        }
        let most = most_frequent_element(ids);
        let a = match most {
            Some(a) => a,
            None => {
                return DeckCard::at(units[0]);
            },
        };
        let attacker = game_info.card_data.card_info(a);
        let chosen = if let Some(c) = find_fitting(game_info, &units, &attacker, 0) {
            c
        } else if let Some(c) = find_fitting(game_info, &units, &attacker, 1) {
            c
        } else if let Some(c) = find_fitting(game_info, &units, &attacker, 2) {
            c
        } else {
            DeckCard::at(units[0])
        };
        chosen
    }

    /// The unit to produce next.
    fn get_next_card(&self, game_info: &GameInfo) -> (r: DeckCard)
        requires
            game_info.wf(),
        ensures
            next_card_choice(*self, *game_info, r),
    {
        let num_tokens = game_info.bot.token_slots.len();
        let tier = if num_tokens == 3 {
            Tier::Tier3
        } else if num_tokens == 2 {
            Tier::Tier2
        } else {
            Tier::Tier1
        };
        if !self.in_offense {
            return self.get_defense_spawn_policy(game_info, tier);
        }
        let policy = match tier {
            Tier::Tier1 => &self.tier1_offense_spawn_policy,
            Tier::Tier2 => &self.tier2_offense_spawn_policy,
            Tier::Tier3 => &self.tier3_offense_spawn_policy,
        };
        let n = game_info.bot.squads.len();
        match policy {
            Some(p) => {
                if p.len() == 0 {
                    DeckCard::Dreadcharger
                } else if n < p.len() {
                    p[n]
                } else {
                    p[p.len() - 1]
                }
            },
            None => DeckCard::Dreadcharger,
        }
    }

    /// Sets the offense policies from the opponent's orbs.
    fn set_offense_spawn_policy(&mut self, game_info: &GameInfo)
        requires
            old(self).wf(),
        ensures
            final(self).wf(),
            policies_updated(*old(self), *final(self), *game_info),
    {
        let num_bot_token_slots = game_info.bot.token_slots.len();
        let num_opponent_token_slots = game_info.opponent.token_slots.len();
        let opp = &game_info.opponent.token_slots;

        if num_opponent_token_slots == 1 && self.tier1_offense_spawn_policy.is_none() {
            let orb_color = opp[0].color;
            if orb_color == OrbColor::Starting {
                // wait for the first real orb
                return;
            }
            self.tier1_offense_spawn_policy = Some(Self::get_tier1_offense_spawn_policy(orb_color));
        }

        if num_opponent_token_slots == 2 && !self.tier2_from_colors {
            // the opponent reached tier 2: its colors decide, once
            self.tier2_offense_spawn_policy = Some(
                Self::get_tier2_offense_spawn_policy(opp[0].color, opp[1].color),
            );
            self.tier2_from_colors = true;
        } else if num_bot_token_slots == 2 && self.tier2_offense_spawn_policy.is_none() {
            self.tier2_offense_spawn_policy = Some(Self::get_tier2_univeral_spawn_policy());
        }

        if num_opponent_token_slots == 3 && !self.tier3_from_colors {
            self.tier3_offense_spawn_policy = Some(Self::get_tier3_offense_spawn_policy());
            self.tier3_from_colors = true;
        } else if num_bot_token_slots == 3 && self.tier3_offense_spawn_policy.is_none() {
            self.tier3_offense_spawn_policy = Some(Self::get_tier3_offense_spawn_policy());
        }
    }

    fn spawn_squad(&self, card: DeckCard, game_info: &GameInfo) -> (r: SquadController)
        ensures
            fresh_spawn(r, card, self.spawn_pos, *game_info),
    {
        let mut squad = SquadController::new(String::new());
        squad.spawn(card, self.spawn_pos, game_info);
        assert(squad.commands@ =~= seq![
            Command::ProduceSquad { card_position: card.spec_position() as u8, xy: self.spawn_pos },
        ]);
        squad
    }

    /// Updates the policies, then orders at most one unit: the next unit of the
    /// policy, when the production state and the scheduler allow it.
    pub fn tick(&mut self, command_scheduler: &CommandScheduler, game_info: &mut GameInfo) -> (r:
        Vec<SquadController>)
        requires
            old(game_info).wf(),
            old(self).wf(),
        ensures
            final(self).wf(),
            same_world(*old(game_info), *final(game_info)),
            spawn_ticked(*old(self), *final(self), *command_scheduler, *old(game_info), r@),
    {
        self.set_offense_spawn_policy(game_info);
        let next_card = self.get_next_card(game_info);
        let allowed = match self.state {
            SpawnControllerState::Waiting => false,
            SpawnControllerState::SingleUnit => game_info.bot.squads.len() == 0,
            SpawnControllerState::SpawnMatchOpponent => {
                let theirs = game_info.opponent.bound_power();
                let ours = game_info.bot.bound_power();
                theirs >= ours && theirs - ours >= MIN_POWER_DIFF_SPAWN as u128
            },
            SpawnControllerState::SpawnOnLimit => true,
        };
        let mut spawned: Vec<SquadController> = Vec::new();
        if allowed && command_scheduler.card_can_be_played(next_card, game_info) {
            let squad = self.spawn_squad(next_card, game_info);
            spawned.push(squad);
        }
        spawned
    }
}


/// While the bot holds no squad and produces in tier 1 on offense, the unit it
/// produces is the first unit of the deck, the first entry of every tier-1
/// policy.
pub proof fn lemma_first_tier1_unit(s: SpawnController, gi: GameInfo, card: DeckCard)
    requires
        s.wf(),
        s.in_offense,
        bot_tier(gi) == Tier::Tier1,
        gi.bot.squads@.len() == 0,
        next_card_choice(s, gi, card),
    ensures
        card == DeckCard::Dreadcharger,
{
    match s.tier1_offense_spawn_policy {
        Some(v) => {
            let c = choose|c: OrbColor| v@ == tier1_policy(c);
            assert(v@ == tier1_policy(c));
        },
        None => {},
    }
}

} // verus!
