//! The named areas of the map, their sub-slots, and who holds them.
use vstd::prelude::*;

use crate::game_info::{EntityId, GameInfo, ids_of, squad_of};
use crate::geometry::{Position2D, average_pos, centroid};

verus! {

/// Number of named areas.
pub const NUM_LOCATIONS: usize = 11;

/// A named area of the map.
#[derive(Debug, PartialEq, Eq, Clone, Copy, Structural, PartialOrd, Ord, Hash)]
pub enum Location {
    North,
    Northeast,
    East,
    Southeast,
    South,
    Southwest,
    West,
    Northwest,
    Centernorth,
    Centersouth,
    Center,
}

impl Location {
    /// Position of the area in the location table.
    pub open spec fn spec_index(self) -> int {
        match self {
            Location::North => 0,
            Location::Northeast => 1,
            Location::East => 2,
            Location::Southeast => 3,
            Location::South => 4,
            Location::Southwest => 5,
            Location::West => 6,
            Location::Northwest => 7,
            Location::Centernorth => 8,
            Location::Centersouth => 9,
            Location::Center => 10,
        }
    }

    pub fn index(&self) -> (r: usize)
        ensures
            r == self.spec_index(),
            r < NUM_LOCATIONS,
    {
        match self {
            Location::North => 0,
            Location::Northeast => 1,
            Location::East => 2,
            Location::Southeast => 3,
            Location::South => 4,
            Location::Southwest => 5,
            Location::West => 6,
            Location::Northwest => 7,
            Location::Centernorth => 8,
            Location::Centersouth => 9,
            Location::Center => 10,
        }
    }
}

/// The objective (orb) sub-slot of an area: its position and, once resolved,
/// the id of the structure that stands there.
#[derive(Debug, Copy, Clone, PartialEq, Eq, Structural)]
pub struct TokenSubLocation {
    pub position: Position2D,
    pub entity_id: Option<EntityId>,
}

/// A resource (well) sub-slot of an area.
#[derive(Debug, Copy, Clone, PartialEq, Eq, Structural)]
pub struct PowerSubLocation {
    pub position: Position2D,
    pub entity_id: Option<EntityId>,
}

/// The sub-slots of one area.
#[derive(Debug)]
pub struct LocationPosition {
    pub token: Option<TokenSubLocation>,
    pub powers: Vec<PowerSubLocation>,
}

/// Positions of the sub-slots of an area: the orb first, then the wells.
pub open spec fn sub_positions(lp: LocationPosition) -> Seq<Position2D> {
    let powers = lp.powers@.map_values(|p: PowerSubLocation| p.position);
    match lp.token {
        Some(t) => seq![t.position] + powers,
        None => powers,
    }
}

/// The center of an area: the centroid of its sub-slots.
pub open spec fn location_center(lp: LocationPosition) -> Position2D {
    centroid(sub_positions(lp))
}

impl LocationPosition {
    pub open spec fn wf(&self) -> bool {
        self.powers@.len() > 0
    }

    pub fn position(&self) -> (r: Position2D)
        requires
            self.wf(),
        ensures
            r == location_center(*self),
    {
        let mut positions: Vec<Position2D> = Vec::new();
        if let Some(token) = self.token {
            positions.push(token.position);
        }
        let ghost start = positions@;
        let mut i: usize = 0;
        while i < self.powers.len()
            invariant
                i <= self.powers@.len(),
                positions@ == start + self.powers@.subrange(0, i as int).map_values(
                    |p: PowerSubLocation| p.position,
                ),
            decreases self.powers@.len() - i,
        {
            positions.push(self.powers[i].position);
            proof {
                assert(self.powers@.subrange(0, i + 1).map_values(|p: PowerSubLocation| p.position)
                    =~= self.powers@.subrange(0, i as int).map_values(
                    |p: PowerSubLocation| p.position,
                ).push(self.powers@[i as int].position));
            }
            i = i + 1;
        }
        proof {
            assert(self.powers@.subrange(0, self.powers@.len() as int) =~= self.powers@);
            assert(positions@ =~= sub_positions(*self));
        }
        average_pos(&positions)
    }
}

fn power_sub(x: u32, y: u32) -> (r: PowerSubLocation)
    ensures
        r.position == (Position2D { x, y }),
        r.entity_id is None,
{
    PowerSubLocation { position: Position2D { x, y }, entity_id: None }
}

fn token_sub(x: u32, y: u32) -> (r: Option<TokenSubLocation>)
    ensures
        r matches Some(t) && t.position == (Position2D { x, y }) && t.entity_id is None,
{
    Some(TokenSubLocation { position: Position2D { x, y }, entity_id: None })
}

/// A location table is well formed when it has one entry per area and each
/// area has at least one well.
pub open spec fn table_wf(t: Seq<LocationPosition>) -> bool {
    &&& t.len() == NUM_LOCATIONS
    &&& forall|i: int| 0 <= i < t.len() ==> (#[trigger] t[i]).wf()
}

/// No sub-slot of the table is resolved to a structure yet.
pub open spec fn table_unresolved(t: Seq<LocationPosition>) -> bool {
    forall|i: int|
        0 <= i < t.len() ==> {
            &&& (#[trigger] t[i]).token matches Some(tok) ==> tok.entity_id is None
            &&& forall|j: int| 0 <= j < t[i].powers@.len() ==> t[i].powers@[j].entity_id is None
        }
}

/// The map's geometry: for each area, in the order of `Location`, the
/// position of its orb (if it has one) and the positions of its wells.
pub open spec fn location_table() -> Seq<(Option<Position2D>, Seq<Position2D>)> {
    seq![
        // North
        (Some(Position2D { x: 176452, y: 317313 }), seq![Position2D { x: 183452, y: 317313 }, Position2D { x: 169452, y: 317313 }]),
        // Northeast
        (None, seq![Position2D { x: 239850, y: 254339 }, Position2D { x: 233547, y: 254294 }]),
        // East
        (Some(Position2D { x: 292796, y: 181025 }), seq![Position2D { x: 296376, y: 176025 }, Position2D { x: 289292, y: 176025 }]),
        // Southeast
        (Some(Position2D { x: 238322, y: 93763 }), seq![Position2D { x: 245307, y: 87248 }]),
        // South
        (Some(Position2D { x: 177340, y: 37703 }), seq![Position2D { x: 185021, y: 37605 }, Position2D { x: 169356, y: 37712 }]),
        // Southwest
        (None, seq![Position2D { x: 120783, y: 98971 }, Position2D { x: 114183, y: 98971 }]),
        // West
        (Some(Position2D { x: 72055, y: 176000 }), seq![Position2D { x: 75434, y: 181315 }, Position2D { x: 69050, y: 181315 }]),
        // Northwest
        (Some(Position2D { x: 113509, y: 261200 }), seq![Position2D { x: 106232, y: 267453 }]),
        // Centernorth
        (Some(Position2D { x: 176400, y: 238663 }), seq![Position2D { x: 183400, y: 237160 }, Position2D { x: 169400, y: 237160 }]),
        // Centersouth
        (Some(Position2D { x: 176677, y: 116776 }), seq![Position2D { x: 182995, y: 117626 }, Position2D { x: 170421, y: 117626 }]),
        // Center
        (Some(Position2D { x: 176400, y: 177800 }), seq![Position2D { x: 184676, y: 181149 }, Position2D { x: 180309, y: 185299 }, Position2D { x: 168406, y: 174496 }, Position2D { x: 172745, y: 169985 }]),
    ]
}

/// The sub-slot positions of a table entry.
pub open spec fn entry_positions(lp: LocationPosition) -> (Option<Position2D>, Seq<Position2D>) {
    (
        match lp.token {
            Some(t) => Some(t.position),
            None => None,
        },
        lp.powers@.map_values(|p: PowerSubLocation| p.position),
    )
}

/// The static map geometry, one entry per area in the order of `Location`.
pub fn get_location_positions() -> (r: Vec<LocationPosition>)
    ensures
        table_wf(r@),
        table_unresolved(r@),
        forall|i: int| 0 <= i < NUM_LOCATIONS ==> entry_positions(#[trigger] r@[i]) == location_table()[i],
{
    let mut t: Vec<LocationPosition> = Vec::new();
    // North
    t.push(LocationPosition {
        token: token_sub(176452, 317313),
        powers: vec![power_sub(183452, 317313), power_sub(169452, 317313)],
    });
    // Northeast
    t.push(LocationPosition {
        token: None,
        powers: vec![power_sub(239850, 254339), power_sub(233547, 254294)],
    });
    // East
    t.push(LocationPosition {
        token: token_sub(292796, 181025),
        powers: vec![power_sub(296376, 176025), power_sub(289292, 176025)],
    });
    // Southeast
    t.push(LocationPosition {
        token: token_sub(238322, 93763),
        powers: vec![power_sub(245307, 87248)],
    });
    // South
    t.push(LocationPosition {
        token: token_sub(177340, 37703),
        powers: vec![power_sub(185021, 37605), power_sub(169356, 37712)],
    });
    // Southwest
    t.push(LocationPosition {
        token: None,
        powers: vec![power_sub(120783, 98971), power_sub(114183, 98971)],
    });
    // West
    t.push(LocationPosition {
        token: token_sub(72055, 176000),
        powers: vec![power_sub(75434, 181315), power_sub(69050, 181315)],
    });
    // Northwest
    t.push(LocationPosition {
        token: token_sub(113509, 261200),
        powers: vec![power_sub(106232, 267453)],
    });
    // Centernorth
    t.push(LocationPosition {
        token: token_sub(176400, 238663),
        powers: vec![power_sub(183400, 237160), power_sub(169400, 237160)],
    });
    // Centersouth
    t.push(LocationPosition {
        token: token_sub(176677, 116776),
        powers: vec![power_sub(182995, 117626), power_sub(170421, 117626)],
    });
    // Center
    t.push(LocationPosition {
        token: token_sub(176400, 177800),
        powers: vec![power_sub(184676, 181149), power_sub(180309, 185299), power_sub(168406, 174496), power_sub(172745, 169985)],
    });
    proof {
        assert forall|i: int| 0 <= i < t@.len() implies (#[trigger] t@[i]).wf() by {}
        assert(entry_positions(t@[0]).1 =~= location_table()[0].1);
        assert(entry_positions(t@[1]).1 =~= location_table()[1].1);
        assert(entry_positions(t@[2]).1 =~= location_table()[2].1);
        assert(entry_positions(t@[3]).1 =~= location_table()[3].1);
        assert(entry_positions(t@[4]).1 =~= location_table()[4].1);
        assert(entry_positions(t@[5]).1 =~= location_table()[5].1);
        assert(entry_positions(t@[6]).1 =~= location_table()[6].1);
        assert(entry_positions(t@[7]).1 =~= location_table()[7].1);
        assert(entry_positions(t@[8]).1 =~= location_table()[8].1);
        assert(entry_positions(t@[9]).1 =~= location_table()[9].1);
        assert(entry_positions(t@[10]).1 =~= location_table()[10].1);
    }
    t
}


/// The side that holds the orb structure of an area, if any.
pub open spec fn token_owner(gi: GameInfo, lp: LocationPosition) -> Option<EntityId> {
    match lp.token {
        Some(t) => match t.entity_id {
            Some(id) => if gi.bot.holds_token_slot(id) {
                Some(gi.bot.id)
            } else if gi.opponent.holds_token_slot(id) {
                Some(gi.opponent.id)
            } else {
                None
            },
            None => None,
        },
        None => None,
    }
}

/// The side that holds the first held well of `powers`, from index `i` on.
pub open spec fn power_owner_from(gi: GameInfo, powers: Seq<PowerSubLocation>, i: int) -> Option<
    EntityId,
>
    decreases powers.len() - i,
{
    if i < 0 || i >= powers.len() {
        None
    } else {
        match powers[i].entity_id {
            Some(id) => if gi.bot.holds_power_slot(id) {
                Some(gi.bot.id)
            } else if gi.opponent.holds_power_slot(id) {
                Some(gi.opponent.id)
            } else {
                power_owner_from(gi, powers, i + 1)
            },
            None => power_owner_from(gi, powers, i + 1),
        }
    }
}

/// An area belongs to the side holding its orb structure, else to the side
/// holding one of its wells, else to nobody.
pub open spec fn location_owner(gi: GameInfo, loc: Location) -> Option<EntityId> {
    let lp = gi.locations@[loc.spec_index()];
    match token_owner(gi, lp) {
        Some(o) => Some(o),
        None => power_owner_from(gi, lp.powers@, 0),
    }
}

/// The first resolved well of `powers`, from index `i` on, that neither side holds.
pub open spec fn free_power_from(gi: GameInfo, powers: Seq<PowerSubLocation>, i: int) -> Option<
    EntityId,
>
    decreases powers.len() - i,
{
    if i < 0 || i >= powers.len() {
        None
    } else {
        match powers[i].entity_id {
            Some(id) => if !gi.bot.holds_power_slot(id) && !gi.opponent.holds_power_slot(id) {
                Some(id)
            } else {
                free_power_from(gi, powers, i + 1)
            },
            None => free_power_from(gi, powers, i + 1),
        }
    }
}

/// Whether someone other than the bot holds the area.
pub open spec fn held_by_other(gi: GameInfo, loc: Location) -> bool {
    location_owner(gi, loc) matches Some(o) && o != gi.bot.id
}

/// A well held by neither side that the bot may build, at an area it holds or
/// that nobody holds.
pub open spec fn next_free_power_slot(gi: GameInfo, loc: Location) -> Option<EntityId> {
    if held_by_other(gi, loc) {
        None
    } else {
        free_power_from(gi, gi.locations@[loc.spec_index()].powers@, 0)
    }
}

/// An orb structure held by neither side that the bot may build, at an area it
/// holds or that nobody holds.
pub open spec fn next_free_token_slot(gi: GameInfo, loc: Location) -> Option<EntityId> {
    if held_by_other(gi, loc) {
        None
    } else {
        match gi.locations@[loc.spec_index()].token {
            Some(t) => match t.entity_id {
                Some(id) => if !gi.bot.holds_token_slot(id) && !gi.opponent.holds_token_slot(id) {
                    Some(id)
                } else {
                    None
                },
                None => None,
            },
            None => None,
        }
    }
}

pub fn get_location_owner(location: &Location, game_info: &GameInfo) -> (r: Option<EntityId>)
    requires
        game_info.wf(),
    ensures
        r == location_owner(*game_info, *location),
{
    let loc = &game_info.locations[location.index()];
    if let Some(token) = loc.token {
        if let Some(token_id) = token.entity_id {
            if game_info.bot.find_token_slot(token_id).is_some() {
                return Some(game_info.bot.id);
            }
            if game_info.opponent.find_token_slot(token_id).is_some() {
                return Some(game_info.opponent.id);
            }
        }
    }
    let mut i: usize = 0;
    while i < loc.powers.len()
        invariant
            game_info.wf(),
            loc == game_info.locations@[location.spec_index()],
            token_owner(*game_info, *loc) is None,
            i <= loc.powers@.len(),
            power_owner_from(*game_info, loc.powers@, 0) == power_owner_from(
                *game_info,
                loc.powers@,
                i as int,
            ),
        decreases loc.powers@.len() - i,
    {
        if let Some(power_id) = loc.powers[i].entity_id {
            if game_info.bot.find_power_slot(power_id).is_some() {
                return Some(game_info.bot.id);
            }
            if game_info.opponent.find_power_slot(power_id).is_some() {
                return Some(game_info.opponent.id);
            }
        }
        i = i + 1;
    }
    None
}

pub fn get_next_free_power_slot(location: &Location, game_info: &GameInfo) -> (r: Option<EntityId>)
    requires
        game_info.wf(),
    ensures
        r == next_free_power_slot(*game_info, *location),
{
    if let Some(owner_id) = get_location_owner(location, game_info) {
        if owner_id != game_info.bot.id {
            return None;
        }
    }
    let loc = &game_info.locations[location.index()];
    let mut i: usize = 0;
    while i < loc.powers.len()
        invariant
            game_info.wf(),
            loc == game_info.locations@[location.spec_index()],
            !held_by_other(*game_info, *location),
            i <= loc.powers@.len(),
            free_power_from(*game_info, loc.powers@, 0) == free_power_from(
                *game_info,
                loc.powers@,
                i as int,
            ),
        decreases loc.powers@.len() - i,
    {
        if let Some(power_id) = loc.powers[i].entity_id {
            if game_info.bot.find_power_slot(power_id).is_none()
                && game_info.opponent.find_power_slot(power_id).is_none() {
                return Some(power_id);
            }
        }
        i = i + 1;
    }
    None
}

pub fn get_next_free_token_slot(location: &Location, game_info: &GameInfo) -> (r: Option<EntityId>)
    requires
        game_info.wf(),
    ensures
        r == next_free_token_slot(*game_info, *location),
{
    if let Some(owner_id) = get_location_owner(location, game_info) {
        if owner_id != game_info.bot.id {
            return None;
        }
    }
    let loc = &game_info.locations[location.index()];
    if let Some(token) = loc.token {
        if let Some(token_id) = token.entity_id {
            if game_info.bot.find_token_slot(token_id).is_none()
                && game_info.opponent.find_token_slot(token_id).is_none() {
                return Some(token_id);
            }
        }
    }
    None
}


/// The position of the squad `entity_id` of either side, or the origin when
/// there is no such squad.
pub fn get_squad_position(entity_id: EntityId, game_info: &GameInfo) -> (r: Position2D)
    requires
        game_info.wf(),
    ensures
        r == match squad_of(*game_info, entity_id) {
            Some(q) => q.position,
            None => Position2D { x: 0, y: 0 },
        },
{
    if let Some(k) = game_info.bot.find_squad(entity_id) {
        proof {
            let s = ids_of(game_info.bot.squads@);
            assert(s[k as int] == entity_id);
            assert(s[s.index_of(entity_id)] == entity_id);
        }
        return game_info.bot.squads[k].position;
    }
    if let Some(k) = game_info.opponent.find_squad(entity_id) {
        proof {
            let s = ids_of(game_info.opponent.squads@);
            assert(s[k as int] == entity_id);
            assert(s[s.index_of(entity_id)] == entity_id);
        }
        return game_info.opponent.squads[k].position;
    }
    Position2D { x: 0, y: 0 }
}

} // verus!
