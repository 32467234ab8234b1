use skylords_rebot::bot::{Deck, DeckCard, SkylordsRebot, DECK_SIZE};
use skylords_rebot::card_data::{
    orbs_fulfill_requirements, CardData, CardDefenseType, CardInfo, CardJson, CardOffenseType,
    CardOrbRequirements, UPGRADE_U3,
};
use skylords_rebot::command_scheduler::{Command, CommandScheduler, CreateOrbColor, WalkMode};
use skylords_rebot::controller::combat_controller::CombatController;
use skylords_rebot::controller::macro_controller::{MacroController, MacroState};
use skylords_rebot::controller::spawn_controller::SpawnController;
use skylords_rebot::controller::squad_controller::{SquadController, SquadControllerState};
use skylords_rebot::game_info::{
    BuildState, EntityId, Figure, GameInfo, GameStartState, GameState, Health, OrbColor,
    PlayerEntity, PlayerState, PowerSlot, Squad, TokenSlot,
};
use skylords_rebot::geometry::{average_pos, dist_squared, within, Position2D};
use skylords_rebot::macro_behavior;
use skylords_rebot::controller::combat_controller::CombatControllerState;
use skylords_rebot::controller::spawn_controller::SpawnControllerState;
use skylords_rebot::location::{
    get_location_owner, get_next_free_power_slot, Location,
};
use skylords_rebot::utils::{key_less, most_frequent_element, rank_threats, ThreatKey};

const BOT: EntityId = EntityId(1);
const OPP: EntityId = EntityId(2);

fn pos(x: u32, y: u32) -> Position2D {
    Position2D { x, y }
}

fn card_json(id: u32, cost: u32, melee: bool, offense: i64, defense: i64) -> CardJson {
    CardJson {
        official_card_ids: vec![id],
        power_cost: cost,
        orbs_total: 1,
        orbs_neutral: 1,
        orbs_fire: 0,
        orbs_shadow: 0,
        orbs_nature: 0,
        orbs_frost: 0,
        offense_type: offense,
        defense_type: defense,
        card_slug: format!("unit{}", id),
        ability_names: vec![],
        attack_type: if melee { "0".to_string() } else { "1".to_string() },
    }
}

/// A dataset with one entry per deck card (ids 100..120) and a deck of their
/// fully upgraded cards.
fn dataset() -> (CardData, Deck) {
    let mut records = Vec::new();
    for i in 0..DECK_SIZE as u32 {
        records.push(card_json(100 + i, 50, true, 1, 1));
    }
    let mut data = CardData::new();
    data.load(records);
    let deck = Deck { card_ids: (0..DECK_SIZE as u32).map(|i| 100 + i + UPGRADE_U3).collect() };
    (data, deck)
}

fn power_slot(id: u32, player: Option<EntityId>, p: Position2D) -> PowerSlot {
    PowerSlot { id: EntityId(id), player, position: p, health: Some(Health { current: 10, max: 10 }) }
}

fn token_slot(id: u32, player: Option<EntityId>, p: Position2D, color: OrbColor) -> TokenSlot {
    TokenSlot {
        id: EntityId(id),
        player,
        position: p,
        health: Some(Health { current: 10, max: 10 }),
        color,
        state: BuildState::Build,
    }
}

fn squad(id: u32, player: EntityId, p: Position2D, bound: u32) -> Squad {
    Squad { id: EntityId(id), player: Some(player), card_id: 100 + UPGRADE_U3, position: p, bound_power: bound, figures: vec![] }
}

// North: orb 50, wells 51, 52. South: orb 60, wells 61, 62. Center: orb 70, wells 71..74.
fn start_structures() -> (Vec<PowerSlot>, Vec<TokenSlot>) {
    let powers = vec![
        power_slot(51, Some(OPP), pos(183452, 317313)),
        power_slot(52, None, pos(169452, 317313)),
        power_slot(61, None, pos(185021, 37605)),
        power_slot(62, None, pos(169356, 37712)),
        power_slot(71, None, pos(184676, 181149)),
        power_slot(72, None, pos(180309, 185299)),
        power_slot(73, None, pos(168406, 174496)),
        power_slot(74, None, pos(172745, 169985)),
    ];
    let tokens = vec![
        token_slot(50, Some(OPP), pos(176452, 317313), OrbColor::Fire),
        token_slot(60, Some(BOT), pos(177340, 37703), OrbColor::Starting),
        token_slot(70, None, pos(176400, 177800), OrbColor::Other),
    ];
    (powers, tokens)
}

fn start_state() -> GameStartState {
    let (power_slots, token_slots) = start_structures();
    GameStartState {
        your_player_id: BOT,
        players: vec![PlayerEntity { id: BOT, team: 1 }, PlayerEntity { id: OPP, team: 2 }],
        power_slots,
        token_slots,
        figures: vec![],
    }
}

fn tick_state(tick: u32, bot_power: u32, squads: Vec<Squad>) -> GameState {
    let (power_slots, token_slots) = start_structures();
    GameState {
        current_tick: tick,
        players: vec![
            PlayerState { id: BOT, power: bot_power, void_power: 0 },
            PlayerState { id: OPP, power: 0, void_power: 0 },
        ],
        squads,
        power_slots,
        token_slots,
        figures: vec![],
    }
}

fn started_world() -> GameInfo {
    let (data, deck) = dataset();
    let mut gi = GameInfo::new(data, deck);
    gi.init(start_state());
    gi
}

#[test]
fn init_resolves_sides_and_locations() {
    let gi = started_world();
    assert_eq!(gi.bot.id, BOT);
    assert_eq!(gi.opponent.id, OPP);
    assert_eq!(gi.bot.team, 1);
    assert_eq!(gi.opponent.team, 2);
    assert_eq!(gi.bot.start_location, Location::South);
    assert_eq!(gi.opponent.start_location, Location::North);
    assert_eq!(gi.bot.start_token, Some(EntityId(60)));
    assert_eq!(get_location_owner(&Location::North, &gi), Some(OPP));
    assert_eq!(get_location_owner(&Location::South, &gi), Some(BOT));
    assert_eq!(get_location_owner(&Location::Center, &gi), None);
    assert_eq!(gi.locations[Location::South.index()].powers[0].entity_id, Some(EntityId(61)));
}

#[test]
fn free_wells_only_where_nobody_else_holds() {
    let gi = started_world();
    assert_eq!(get_next_free_power_slot(&Location::South, &gi), Some(EntityId(61)));
    assert_eq!(get_next_free_power_slot(&Location::Center, &gi), Some(EntityId(71)));
    assert_eq!(get_next_free_power_slot(&Location::North, &gi), None);
}

#[test]
fn new_squads_go_to_exactly_one_side() {
    let mut gi = started_world();
    gi.parse_state(tick_state(1, 0, vec![squad(10, BOT, pos(0, 0), 5), squad(11, OPP, pos(0, 0), 5)]));
    assert_eq!(gi.bot.new_squad_ids, vec![EntityId(10)]);
    assert_eq!(gi.opponent.new_squad_ids, vec![EntityId(11)]);
    // seen again: no longer new
    gi.parse_state(tick_state(2, 0, vec![squad(10, BOT, pos(0, 0), 5), squad(11, OPP, pos(0, 0), 5)]));
    assert!(gi.bot.new_squad_ids.is_empty());
    assert!(gi.opponent.new_squad_ids.is_empty());
    // gone: dead
    gi.parse_state(tick_state(3, 0, vec![squad(11, OPP, pos(0, 0), 5)]));
    assert_eq!(gi.bot.dead_squad_ids, vec![EntityId(10)]);
    assert!(gi.bot.squads.is_empty());
    assert_eq!(gi.opponent.squads.len(), 1);
}

#[test]
fn destroyed_structures_leave_the_view() {
    let mut gi = started_world();
    let mut state = tick_state(1, 0, vec![]);
    state.power_slots[0].player = None;
    gi.parse_state(state);
    assert_eq!(gi.opponent.destroyed_power_slot_ids, vec![EntityId(51)]);
    assert!(gi.opponent.power_slots.is_empty());
    let mut state = tick_state(2, 0, vec![]);
    state.power_slots[2].player = Some(BOT);
    gi.parse_state(state);
    assert_eq!(gi.bot.new_power_slot_ids, vec![EntityId(61)]);
}

#[test]
fn tempo_is_power_plus_bound_minus_void() {
    let mut gi = started_world();
    let mut state = tick_state(1, 100, vec![squad(10, BOT, pos(0, 0), 30), squad(12, BOT, pos(0, 0), 40)]);
    state.players[0].void_power = 20;
    gi.parse_state(state);
    assert_eq!(gi.bot.bound_power(), 70);
    assert_eq!(gi.bot.get_tempo(), 150);
    assert_eq!(gi.bot.tempo, 150);
    let mut again = tick_state(2, 100, vec![squad(10, BOT, pos(0, 0), 30), squad(12, BOT, pos(0, 0), 40)]);
    again.players[0].void_power = 20;
    gi.parse_state(again);
    assert_eq!(gi.bot.tempo, 150);
}

#[test]
fn extra_colored_orb_keeps_requirements_met() {
    let req = CardOrbRequirements { total: 2, neutral: 1, fire: 1, shadow: 0, nature: 0, frost: 0 };
    let fire = token_slot(1, Some(BOT), pos(0, 0), OrbColor::Fire);
    let shadow = token_slot(2, Some(BOT), pos(0, 0), OrbColor::Shadow);
    assert!(!orbs_fulfill_requirements(&vec![fire], &req));
    assert!(orbs_fulfill_requirements(&vec![fire, shadow], &req));
    assert!(orbs_fulfill_requirements(&vec![fire, shadow, fire], &req));
    let start = token_slot(3, Some(BOT), pos(0, 0), OrbColor::Starting);
    assert!(!orbs_fulfill_requirements(&vec![start, fire, shadow], &req));
    let single = CardOrbRequirements { total: 1, neutral: 1, fire: 0, shadow: 0, nature: 0, frost: 0 };
    assert!(orbs_fulfill_requirements(&vec![start], &single));
    assert!(!orbs_fulfill_requirements(&vec![], &single));
}

#[test]
fn squad_orders_are_idempotent() {
    let mut s = SquadController::new(String::new());
    s.state = SquadControllerState::Idling;
    s.move_squad(pos(10_000, 10_000), false);
    assert_eq!(s.commands.len(), 1);
    s.move_squad(pos(11_000, 10_000), false);
    assert_eq!(s.commands.len(), 1);
    s.move_squad(pos(20_000, 10_000), true);
    assert_eq!(s.commands.len(), 2);
    assert_eq!(
        s.commands[1],
        Command::GroupGoto { squad: s.entity_id, position: pos(20_000, 10_000), walk_mode: WalkMode::Force }
    );
    s.attack(&EntityId(9), false);
    s.attack(&EntityId(9), false);
    assert_eq!(s.commands.len(), 3);
    assert_eq!(s.state, SquadControllerState::Attacking);
    s.attack(&EntityId(8), true);
    assert_eq!(s.commands.len(), 4);
}

#[test]
fn produced_squad_binds_to_the_single_new_squad() {
    let mut gi = started_world();
    gi.parse_state(tick_state(100, 0, vec![]));
    let mut s = SquadController::new(String::new());
    s.spawn(DeckCard::Forsaken, pos(5, 5), &gi);
    assert_eq!(s.state, SquadControllerState::SpawnCommandSent);
    let out = s.tick(&gi);
    assert_eq!(out, vec![Command::ProduceSquad { card_position: 1, xy: pos(5, 5) }]);
    gi.parse_state(tick_state(101, 0, vec![squad(10, BOT, pos(0, 0), 5)]));
    s.tick(&gi);
    assert_eq!(s.state, SquadControllerState::Idling);
    assert_eq!(s.entity_id, EntityId(10));
}

#[test]
fn spawn_times_out_and_unlocks_production() {
    let mut gi = started_world();
    gi.parse_state(tick_state(100, 0, vec![]));
    let mut scheduler = CommandScheduler::new();
    scheduler.update_state(&gi);
    let mut m = MacroController::new();
    let mut s = SquadController::new(String::new());
    s.spawn(DeckCard::Dreadcharger, pos(5, 5), &gi);
    m.combat_controller.add_squad(s);
    let cmds = m.combat_controller.tick(&gi);
    scheduler.schedule_commands(cmds);
    assert!(scheduler.waiting_for_card_spawn);
    for t in 101..=110 {
        gi.parse_state(tick_state(t, 0, vec![]));
        m.combat_controller.tick(&gi);
        assert_eq!(m.combat_controller.squads[0].state, SquadControllerState::SpawnCommandSent);
    }
    gi.parse_state(tick_state(111, 0, vec![]));
    m.combat_controller.tick(&gi);
    assert!(m.combat_controller.has_errored_squads());
    m.prepare_tick(&gi, &mut scheduler);
    assert!(!scheduler.waiting_for_card_spawn);
    assert!(m.combat_controller.squads.is_empty());
}

#[test]
fn single_unit_is_produced_once_then_waits() {
    let mut gi = started_world();
    let mut scheduler = CommandScheduler::new();
    let mut spawn = SpawnController::new();
    spawn.spawn_single_unit();
    gi.parse_state(tick_state(100, 200, vec![]));
    scheduler.update_state(&gi);
    let mut produced = spawn.tick(&scheduler, &mut gi);
    assert_eq!(produced.len(), 1);
    let cmds = produced[0].tick(&gi);
    assert_eq!(cmds, vec![Command::ProduceSquad { card_position: 0, xy: pos(0, 0) }]);
    scheduler.schedule_commands(cmds);
    for t in 101..=110 {
        gi.parse_state(tick_state(t, 200, vec![]));
        scheduler.update_state(&gi);
        assert!(spawn.tick(&scheduler, &mut gi).is_empty());
    }
}

#[test]
fn production_cooldown_holds_after_unlock() {
    let mut gi = started_world();
    let mut scheduler = CommandScheduler::new();
    assert!(!scheduler.card_can_be_played(DeckCard::Dreadcharger, &mut gi));
    gi.parse_state(tick_state(100, 200, vec![]));
    scheduler.update_state(&gi);
    assert!(scheduler.card_can_be_played(DeckCard::Dreadcharger, &mut gi));
    scheduler.schedule_command(Command::ProduceSquad { card_position: 0, xy: pos(0, 0) });
    scheduler.unlock_card_spawn();
    gi.parse_state(tick_state(109, 200, vec![]));
    scheduler.update_state(&gi);
    assert!(!scheduler.card_can_be_played(DeckCard::Dreadcharger, &mut gi));
    gi.parse_state(tick_state(110, 200, vec![]));
    scheduler.update_state(&gi);
    assert!(scheduler.card_can_be_played(DeckCard::Dreadcharger, &mut gi));
    gi.parse_state(tick_state(111, 40, vec![]));
    scheduler.update_state(&gi);
    assert!(!scheduler.card_can_be_played(DeckCard::Dreadcharger, &mut gi));
}

#[test]
fn well_deficit_leads_to_take_well_and_a_build() {
    let (data, deck) = dataset();
    let mut bot = SkylordsRebot::new(data, deck);
    bot.match_start(start_state());
    bot.macro_controller.state = MacroState::Defend;
    bot.macro_controller.latest_owning_loc = Location::South;
    let first = bot.tick(tick_state(1, 250, vec![]));
    assert_eq!(bot.macro_controller.state, MacroState::TakeWell);
    assert!(first.is_empty());
    let second = bot.tick(tick_state(2, 250, vec![]));
    assert_eq!(second, vec![Command::PowerSlotBuild { slot_id: EntityId(61) }]);
    assert!(bot.command_scheduler.waiting_for_power_slot);
}

#[test]
fn orb_build_uses_the_tier_color() {
    let mut gi = started_world();
    gi.parse_state(tick_state(1, 200, vec![]));
    let mut scheduler = CommandScheduler::new();
    scheduler.update_state(&gi);
    assert!(scheduler.token_slot_can_be_built(&gi));
    scheduler.schedule_command(Command::TokenSlotBuild { slot_id: EntityId(70), color: CreateOrbColor::Frost });
    assert!(scheduler.waiting_for_token_slot_to_finish());
    assert!(!scheduler.token_slot_can_be_built(&gi));
}

#[test]
fn threat_ranking_is_stable() {
    let keys = vec![
        ThreatKey { class: 1, health_cur: 5, health_max: 10, dist: 100 },
        ThreatKey { class: 0, health_cur: 9, health_max: 10, dist: 900 },
        ThreatKey { class: 1, health_cur: 1, health_max: 2, dist: 50 },
        ThreatKey { class: 1, health_cur: 0, health_max: 0, dist: 1 },
        ThreatKey { class: 1, health_cur: 5, health_max: 10, dist: 100 },
    ];
    let first = rank_threats(&keys);
    let second = rank_threats(&keys);
    assert_eq!(first, second);
    assert_eq!(first, vec![1, 2, 0, 4, 3]);
    assert!(key_less(&keys[2], &keys[0]));
    assert!(!key_less(&keys[0], &keys[4]));
}

#[test]
fn defend_attacks_the_most_threatening_enemy() {
    let mut gi = started_world();
    let south = gi.locations[Location::South.index()].position();
    gi.parse_state(tick_state(
        1,
        0,
        vec![
            squad(20, OPP, pos(south.x + 20_000, south.y), 5),
            squad(21, OPP, pos(south.x + 5_000, south.y), 5),
        ],
    ));
    let mut s = SquadController::new(String::new());
    s.state = SquadControllerState::Idling;
    let mut combat = CombatController::new(vec![s]);
    combat.defend(&Location::South, &gi);
    assert_eq!(
        combat.squads[0].commands,
        vec![Command::GroupAttack { squad: EntityId(1), target_entity_id: EntityId(21), force_attack: false }]
    );
}

#[test]
fn most_frequent_prefers_the_largest_on_ties() {
    assert_eq!(most_frequent_element(vec![]), None);
    assert_eq!(most_frequent_element(vec![3, 1, 3, 1, 2]), Some(3));
    assert_eq!(most_frequent_element(vec![5, 1, 1]), Some(1));
}

#[test]
fn card_attributes_from_the_dataset() {
    let mut j = card_json(7, 60, false, 4, 3);
    j.card_slug = "SunStriders".to_string();
    j.ability_names = vec!["Siege".to_string()];
    let info = CardInfo::from_card_json(&j);
    assert_eq!(info.id, 7);
    assert_eq!(info.power_cost, 60);
    assert_eq!(info.offense_type, CardOffenseType::Special);
    assert_eq!(info.defense_type, CardDefenseType::XL);
    assert!(!info.melee);
    assert!(!info.siege);
    j.card_slug = "Firedancer".to_string();
    assert!(CardInfo::from_card_json(&j).siege);
    j.official_card_ids = vec![7, 8];
    assert_eq!(CardInfo::from_card_json(&j).id, 0);
    j.offense_type = 9;
    assert_eq!(CardInfo::from_card_json(&j).offense_type, CardOffenseType::S);
    assert_eq!(CardData::card_id_without_upgrade(UPGRADE_U3 + 42), 42);
    assert_eq!(CardData::card_id_without_upgrade(42), 42);
}

#[test]
fn card_lookup_strips_upgrade_and_caches() {
    let (mut data, _) = dataset();
    let a = data.get_card_info_from_id(103 + UPGRADE_U3);
    assert_eq!(a.id, 103);
    let b = data.get_card_info_from_id(103 + UPGRADE_U3);
    assert_eq!(a, b);
    assert_eq!(data.card_info_cache.len(), 1);
    assert_eq!(data.get_card_info_from_id(999), CardInfo::new());
}

#[test]
fn geometry_helpers() {
    assert_eq!(dist_squared(&pos(0, 0), &pos(3, 4)), 25);
    assert!(within(&pos(0, 0), &pos(3, 4), 6));
    assert!(!within(&pos(0, 0), &pos(3, 4), 5));
    assert_eq!(average_pos(&vec![pos(0, 0), pos(4, 2), pos(5, 1)]), pos(3, 1));
}

#[test]
fn health_sums_figures_and_defaults_to_unknown() {
    let mut gi = started_world();
    let mut sq = squad(10, BOT, pos(0, 0), 5);
    sq.figures = vec![EntityId(30), EntityId(31)];
    let mut state = tick_state(1, 0, vec![sq]);
    state.figures = vec![
        Figure { id: EntityId(30), health: Some(Health { current: 3, max: 10 }) },
        Figure { id: EntityId(31), health: Some(Health { current: 10, max: 10 }) },
    ];
    gi.parse_state(state);
    assert_eq!(gi.get_squad_health(&EntityId(10)), (13, 20));
    assert_eq!(gi.get_squad_health(&EntityId(99)), (0, 0));
    assert_eq!(gi.get_structure_health(&EntityId(60)), (10, 10));
    assert_eq!(gi.get_structure_health(&EntityId(999)), (0, 0));
}

#[test]
fn center_strategy_contests_a_free_center() {
    let mut gi = started_world();
    gi.parse_state(tick_state(1, 0, vec![]));
    let mut state = macro_behavior::MacroState::new();
    let mut scheduler = CommandScheduler::new();
    assert_eq!(state.get_center_owner(&gi), None);
    macro_behavior::tick(&mut gi, &mut state, &mut scheduler);
    assert_eq!(state.spawn_controller.state, SpawnControllerState::SpawnMatchOpponent);
    assert_eq!(state.combat_controller.state, CombatControllerState::AreaControl);
    let mut held = tick_state(2, 0, vec![]);
    held.power_slots[4].player = Some(OPP);
    gi.parse_state(held);
    assert_eq!(state.get_center_owner(&gi), Some(OPP));
    macro_behavior::tick(&mut gi, &mut state, &mut scheduler);
    assert_eq!(state.spawn_controller.state, SpawnControllerState::SpawnOnLimit);
}

#[test]
fn class_names_round_trip() {
    assert_eq!(CardOffenseType::XL.to_string(), "XL");
    assert_eq!(CardDefenseType::M.to_string(), "M");
    assert_eq!(CardOffenseType::from_name(&"Special".to_string()), Some(CardOffenseType::Special));
    assert_eq!(CardOffenseType::from_name(&"XXL".to_string()), None);
    assert_eq!(CardDefenseType::from_name(&"L".to_string()), Some(CardDefenseType::L));
    assert_eq!(CardDefenseType::from_name(&"Special".to_string()), None);
}

#[test]
fn structures_missing_from_the_snapshot_are_destroyed() {
    let mut gi = started_world();
    let mut state = tick_state(1, 0, vec![]);
    state.power_slots.remove(0);
    gi.parse_state(state);
    assert_eq!(gi.opponent.destroyed_power_slot_ids, vec![EntityId(51)]);
    assert!(gi.opponent.power_slots.is_empty());
}

#[test]
fn a_free_well_is_held_by_neither_side() {
    let mut gi = started_world();
    let mut state = tick_state(1, 0, vec![]);
    state.power_slots[2].player = Some(OPP);
    gi.parse_state(state);
    assert_eq!(get_location_owner(&Location::South, &gi), Some(BOT));
    assert_eq!(get_next_free_power_slot(&Location::South, &gi), Some(EntityId(62)));
}

#[test]
fn tier_two_policy_is_fixed_at_first_sight() {
    let mut gi = started_world();
    let scheduler = CommandScheduler::new();
    let mut spawn = SpawnController::new();
    let mut state = tick_state(1, 0, vec![]);
    state.token_slots[2].player = Some(OPP);
    state.token_slots[2].color = OrbColor::Fire;
    gi.parse_state(state);
    spawn.tick(&scheduler, &mut gi);
    assert_eq!(spawn.tier2_offense_spawn_policy, Some(vec![DeckCard::Nightcrawler, DeckCard::LostReaverAShadow]));
    let mut state = tick_state(2, 0, vec![]);
    state.token_slots[2].player = Some(OPP);
    state.token_slots[2].color = OrbColor::Nature;
    gi.parse_state(state);
    spawn.tick(&scheduler, &mut gi);
    assert_eq!(spawn.tier2_offense_spawn_policy, Some(vec![DeckCard::Nightcrawler, DeckCard::LostReaverAShadow]));
}

#[test]
fn views_and_range_queries_follow_id_order() {
    let mut gi = started_world();
    gi.parse_state(tick_state(
        1,
        0,
        vec![squad(12, OPP, pos(1000, 1000), 5), squad(10, OPP, pos(1000, 1000), 5), squad(11, OPP, pos(900_000, 900_000), 5)],
    ));
    let ids: Vec<u32> = gi.opponent.squads.iter().map(|q| q.id.0).collect();
    assert_eq!(ids, vec![10, 11, 12]);
    assert_eq!(gi.opponent.new_squad_ids, vec![EntityId(12), EntityId(10), EntityId(11)]);
    assert_eq!(gi.get_enemy_squads_in_range(&pos(1000, 1000), 1000), vec![0, 2]);
    gi.parse_state(tick_state(2, 0, vec![]));
    assert_eq!(gi.opponent.dead_squad_ids, vec![EntityId(10), EntityId(11), EntityId(12)]);
}

#[test]
fn a_structure_taken_over_leaves_the_former_owner() {
    let mut gi = started_world();
    let mut state = tick_state(1, 0, vec![]);
    state.power_slots[0].player = Some(BOT);
    gi.parse_state(state);
    assert_eq!(gi.opponent.destroyed_power_slot_ids, vec![EntityId(51)]);
    assert!(gi.opponent.power_slots.is_empty());
    assert_eq!(gi.bot.new_power_slot_ids, vec![EntityId(51)]);
}

#[test]
fn losing_squads_stops_production_on_retreat() {
    let mut gi = started_world();
    let mut state = tick_state(1, 0, vec![]);
    state.players[1].power = 500;
    gi.parse_state(state);
    let mut scheduler = CommandScheduler::new();
    scheduler.update_state(&gi);
    let mut m = MacroController::new();
    m.state = MacroState::AttackLoc;
    m.attack_focus_loc = Location::North;
    m.spawn_controller.spawn_on_limit();
    m.tick(&mut gi, &mut scheduler);
    assert_eq!(m.state, MacroState::Defend);
    assert_eq!(m.spawn_controller.state, SpawnControllerState::Waiting);
}
