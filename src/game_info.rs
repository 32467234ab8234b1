//! The world model: the per-side view that successive snapshots are folded into.
use vstd::prelude::*;


use crate::bot::Deck;
use crate::card_data::CardData;
use crate::geometry::{Position2D, dist_sq, dist_squared, in_radius, within};
use crate::location::{
    location_center,
    Location, LocationPosition, PowerSubLocation, TokenSubLocation, get_location_positions,
    table_unresolved,
    table_wf,
};


verus! {

/// A stable handle to an object of the match.
#[derive(Clone, Copy, Debug, PartialEq, Eq, Structural, PartialOrd, Ord, Hash)]
pub struct EntityId(pub u32);

/// A game tick.
pub type Tick = u32;

/// Current and maximum hit points.
#[derive(Clone, Copy, Debug, PartialEq, Eq, Structural)]
pub struct Health {
    pub current: u32,
    pub max: u32,
}

#[derive(Clone, Copy, Debug, PartialEq, Eq, Structural)]
pub enum OrbColor {
    Starting,
    Fire,
    Shadow,
    Nature,
    Frost,
    Other,
}

#[derive(Clone, Copy, Debug, PartialEq, Eq, Structural)]
pub enum BuildState {
    Build,
    InProgress,
}

/// A group of units.
#[derive(Debug)]
pub struct Squad {
    pub id: EntityId,
    pub player: Option<EntityId>,
    pub card_id: u32,
    pub position: Position2D,
    /// Power committed to this squad.
    pub bound_power: u32,
    /// Its sub-units.
    pub figures: Vec<EntityId>,
}

/// A sub-unit of a squad.
#[derive(Clone, Copy, Debug, PartialEq, Eq, Structural)]
pub struct Figure {
    pub id: EntityId,
    pub health: Option<Health>,
}

/// A resource-producing structure (a well).
#[derive(Clone, Copy, Debug, PartialEq, Eq, Structural)]
pub struct PowerSlot {
    pub id: EntityId,
    pub player: Option<EntityId>,
    pub position: Position2D,
    pub health: Option<Health>,
}

/// An orb structure.
#[derive(Clone, Copy, Debug, PartialEq, Eq, Structural)]
pub struct TokenSlot {
    pub id: EntityId,
    pub player: Option<EntityId>,
    pub position: Position2D,
    pub health: Option<Health>,
    pub color: OrbColor,
    pub state: BuildState,
}


/// One side's view of the match.
#[derive(Debug)]
pub struct PlayerInfo {
    pub id: EntityId,
    pub team: u8,
    pub power_slots: Vec<PowerSlot>,
    pub token_slots: Vec<TokenSlot>,
    pub power: u32,
    pub void_power: u32,
    /// Power plus bound power minus void power, as of the latest snapshot.
    pub tempo: i128,
    pub squads: Vec<Squad>,
    /// Squads that appeared in the latest snapshot.
    pub new_squad_ids: Vec<EntityId>,
    /// Squads that disappeared in the latest snapshot.
    pub dead_squad_ids: Vec<EntityId>,
    pub start_token: Option<EntityId>,
    pub start_location: Location,
    pub new_power_slot_ids: Vec<EntityId>,
    pub new_token_slot_ids: Vec<EntityId>,
    pub destroyed_power_slot_ids: Vec<EntityId>,
    pub destroyed_token_slot_ids: Vec<EntityId>,
}

/// The whole world model.
#[derive(Debug)]
pub struct GameInfo {
    pub bot: PlayerInfo,
    pub opponent: PlayerInfo,
    pub current_tick: Option<Tick>,
    /// One entry per area, in the order of `Location`.
    pub locations: Vec<LocationPosition>,
    pub figures: Vec<Figure>,
    pub card_data: CardData,
    /// The bot's deck.
    pub deck: Deck,
}

/// What the world model reads of any entity of a snapshot.
pub trait Entity: Sized {
    spec fn spec_id(&self) -> EntityId;

    spec fn spec_player(&self) -> Option<EntityId>;

    spec fn spec_position(&self) -> Position2D;

    fn entity_position(&self) -> (r: Position2D)
        ensures
            r == self.spec_position(),
    ;

    fn entity_id(&self) -> (r: EntityId)
        ensures
            r == self.spec_id(),
    ;

    fn player_id(&self) -> (r: Option<EntityId>)
        ensures
            r == self.spec_player(),
    ;

    /// A value to leave behind when an entity is moved out of a list.
    fn placeholder() -> Self;
}

impl Entity for Squad {
    open spec fn spec_id(&self) -> EntityId {
        self.id
    }

    open spec fn spec_position(&self) -> Position2D {
        self.position
    }

    fn entity_position(&self) -> (r: Position2D) {
        self.position
    }

    open spec fn spec_player(&self) -> Option<EntityId> {
        self.player
    }

    fn entity_id(&self) -> (r: EntityId) {
        self.id
    }

    fn player_id(&self) -> (r: Option<EntityId>) {
        self.player
    }

    fn placeholder() -> Self {
        Squad {
            id: EntityId(0),
            player: None,
            card_id: 0,
            position: Position2D { x: 0, y: 0 },
            bound_power: 0,
            figures: Vec::new(),
        }
    }
}

impl Entity for PowerSlot {
    open spec fn spec_id(&self) -> EntityId {
        self.id
    }

    open spec fn spec_position(&self) -> Position2D {
        self.position
    }

    fn entity_position(&self) -> (r: Position2D) {
        self.position
    }

    open spec fn spec_player(&self) -> Option<EntityId> {
        self.player
    }

    fn entity_id(&self) -> (r: EntityId) {
        self.id
    }

    fn player_id(&self) -> (r: Option<EntityId>) {
        self.player
    }

    fn placeholder() -> Self {
        PowerSlot { id: EntityId(0), player: None, position: Position2D { x: 0, y: 0 }, health: None }
    }
}

impl Entity for TokenSlot {
    open spec fn spec_id(&self) -> EntityId {
        self.id
    }

    open spec fn spec_position(&self) -> Position2D {
        self.position
    }

    fn entity_position(&self) -> (r: Position2D) {
        self.position
    }

    open spec fn spec_player(&self) -> Option<EntityId> {
        self.player
    }

    fn entity_id(&self) -> (r: EntityId) {
        self.id
    }

    fn player_id(&self) -> (r: Option<EntityId>) {
        self.player
    }

    fn placeholder() -> Self {
        TokenSlot {
            id: EntityId(0),
            player: None,
            position: Position2D { x: 0, y: 0 },
            health: None,
            color: OrbColor::Other,
            state: BuildState::InProgress,
        }
    }
}

/// The ids of a list of entities, in order.
pub open spec fn ids_of<T: Entity>(s: Seq<T>) -> Seq<EntityId> {
    s.map_values(|x: T| x.spec_id())
}

/// The position of the entity `id` in `v`.
pub fn index_of<T: Entity>(v: &Vec<T>, id: EntityId) -> (r: Option<usize>)
    ensures
        r matches Some(i) ==> i < v@.len() && v@[i as int].spec_id() == id,
        r is Some == ids_of(v@).contains(id),
{
    let mut i: usize = 0;
    while i < v.len()
        invariant
            i <= v@.len(),
            forall|k: int| 0 <= k < i ==> v@[k].spec_id() != id,
        decreases v@.len() - i,
    {
        if v[i].entity_id() == id {
            assert(ids_of(v@)[i as int] == id);
            return Some(i);
        }
        i = i + 1;
    }
    assert(!ids_of(v@).contains(id)) by {
        if ids_of(v@).contains(id) {
            let k = choose|k: int| 0 <= k < v@.len() && ids_of(v@)[k] == id;
            assert(v@[k].spec_id() == id);
        }
    }
    None
}

/// Whether `id` is listed in `v`.
pub fn contains_id(v: &Vec<EntityId>, id: EntityId) -> (r: bool)
    ensures
        r == v@.contains(id),
{
    let mut i: usize = 0;
    while i < v.len()
        invariant
            i <= v@.len(),
            forall|k: int| 0 <= k < i ==> v@[k] != id,
        decreases v@.len() - i,
    {
        if v[i] == id {
            return true;
        }
        i = i + 1;
    }
    false
}

impl PlayerInfo {
    /// Each collection holds an entity at most once, in ascending order of id,
    /// and only entities the side owns.
    pub open spec fn wf(&self) -> bool {
        &&& ids_of(self.squads@).no_duplicates()
        &&& ids_of(self.power_slots@).no_duplicates()
        &&& ids_of(self.token_slots@).no_duplicates()
        &&& sorted_by_id(self.squads@)
        &&& sorted_by_id(self.power_slots@)
        &&& sorted_by_id(self.token_slots@)
        &&& forall|k: int| 0 <= k < self.squads@.len() ==> (#[trigger] self.squads@[k]).player == Some(self.id)
        &&& forall|k: int|
            0 <= k < self.power_slots@.len() ==> (#[trigger] self.power_slots@[k]).player == Some(self.id)
        &&& forall|k: int|
            0 <= k < self.token_slots@.len() ==> (#[trigger] self.token_slots@[k]).player == Some(self.id)
    }

    pub open spec fn holds_squad(&self, id: EntityId) -> bool {
        ids_of(self.squads@).contains(id)
    }

    pub open spec fn holds_power_slot(&self, id: EntityId) -> bool {
        ids_of(self.power_slots@).contains(id)
    }

    pub open spec fn holds_token_slot(&self, id: EntityId) -> bool {
        ids_of(self.token_slots@).contains(id)
    }

    pub fn find_squad(&self, id: EntityId) -> (r: Option<usize>)
        ensures
            r matches Some(i) ==> i < self.squads@.len() && self.squads@[i as int].id == id,
            r is Some == self.holds_squad(id),
    {
        index_of(&self.squads, id)
    }

    pub fn find_power_slot(&self, id: EntityId) -> (r: Option<usize>)
        ensures
            r matches Some(i) ==> i < self.power_slots@.len() && self.power_slots@[i as int].id
                == id,
            r is Some == self.holds_power_slot(id),
    {
        index_of(&self.power_slots, id)
    }

    pub fn find_token_slot(&self, id: EntityId) -> (r: Option<usize>)
        ensures
            r matches Some(i) ==> i < self.token_slots@.len() && self.token_slots@[i as int].id
                == id,
            r is Some == self.holds_token_slot(id),
    {
        index_of(&self.token_slots, id)
    }
}

impl GameInfo {
    pub open spec fn wf(&self) -> bool {
        &&& self.bot.wf()
        &&& self.opponent.wf()
        &&& table_wf(self.locations@)
        &&& self.card_data.wf()
        &&& self.deck.wf()
    }
}


/// An entity owned by `player` goes to the side `side`; `before` is the side
/// that was served first (the bot's, when filling the opponent's view).
pub open spec fn goes_to(player: Option<EntityId>, side: EntityId, before: Option<EntityId>) -> bool {
    player == Some(side) && player != before
}

/// Whether `snap` lists the entity `id` as going to `side`.
pub open spec fn claimed<T: Entity>(
    snap: Seq<T>,
    id: EntityId,
    side: EntityId,
    before: Option<EntityId>,
) -> bool {
    exists|j: int|
        0 <= j < snap.len() && (#[trigger] snap[j]).spec_id() == id && goes_to(
            snap[j].spec_player(),
            side,
            before,
        )
}

/// Whether `snap` lists the entity `id` as owned by `side`.
pub open spec fn listed_for<T: Entity>(snap: Seq<T>, id: EntityId, side: EntityId) -> bool {
    exists|j: int| 0 <= j < snap.len() && (#[trigger] snap[j]).spec_id() == id && snap[j].spec_player() == Some(side)
}

/// Whether `snap` lists the entity `id` as owned by nobody.
pub open spec fn listed_unowned<T: Entity>(snap: Seq<T>, id: EntityId) -> bool {
    exists|j: int| 0 <= j < snap.len() && (#[trigger] snap[j]).spec_id() == id && snap[j].spec_player() is None
}

proof fn lemma_claimed_step<T: Entity>(
    snap: Seq<T>,
    i: int,
    side: EntityId,
    before: Option<EntityId>,
)
    requires
        0 <= i < snap.len(),
    ensures
        forall|id: EntityId|
            claimed(snap.subrange(0, i + 1), id, side, before) == (claimed(
                snap.subrange(0, i),
                id,
                side,
                before,
            ) || (snap[i].spec_id() == id && goes_to(snap[i].spec_player(), side, before))),
{
    let p = snap.subrange(0, i);
    let q = snap.subrange(0, i + 1);
    assert forall|id: EntityId|
        claimed(q, id, side, before) == (claimed(p, id, side, before) || (snap[i].spec_id() == id
            && goes_to(snap[i].spec_player(), side, before))) by {
        if claimed(q, id, side, before) {
            let j = choose|j: int|
                0 <= j < q.len() && (#[trigger] q[j]).spec_id() == id && goes_to(
                    q[j].spec_player(),
                    side,
                    before,
                );
            if j < i {
                assert(p[j] == q[j]);
            }
        }
        if claimed(p, id, side, before) {
            let j = choose|j: int|
                0 <= j < p.len() && (#[trigger] p[j]).spec_id() == id && goes_to(
                    p[j].spec_player(),
                    side,
                    before,
                );
            assert(q[j] == p[j]);
        }
        if snap[i].spec_id() == id && goes_to(snap[i].spec_player(), side, before) {
            assert(q[i] == snap[i]);
        }
    }
}

proof fn lemma_push_contains<A>(s: Seq<A>, x: A)
    ensures
        forall|a: A| #[trigger] s.push(x).contains(a) == (s.contains(a) || a == x),
{
    assert forall|a: A| #[trigger] s.push(x).contains(a) == (s.contains(a) || a == x) by {
        if s.push(x).contains(a) && a != x {
            let j = choose|j: int| 0 <= j < s.push(x).len() && s.push(x)[j] == a;
            assert(s[j] == a);
        }
        if s.contains(a) {
            let j = choose|j: int| 0 <= j < s.len() && s[j] == a;
            assert(s.push(x)[j] == a);
        }
        if a == x {
            assert(s.push(x)[s.len() as int] == a);
        }
    }
}

proof fn lemma_push_no_duplicates<A>(s: Seq<A>, x: A)
    requires
        s.no_duplicates(),
        !s.contains(x),
    ensures
        s.push(x).no_duplicates(),
{
    let t = s.push(x);
    assert forall|i: int, j: int| 0 <= i < t.len() && 0 <= j < t.len() && i != j implies t[i]
        != t[j] by {
        if i == s.len() {
            assert(s[j] == t[j]);
        } else if j == s.len() {
            assert(s[i] == t[i]);
        }
    }
}

/// Where an entity of a side's view comes from after an update: an entity the
/// snapshot lists for the side is a record of the snapshot, any other one is
/// the record the view held before.
pub open spec fn record_from<T: Entity>(
    x: T,
    snap: Seq<T>,
    side: EntityId,
    before: Option<EntityId>,
    old_view: Seq<T>,
) -> bool {
    if claimed(snap, x.spec_id(), side, before) {
        exists|j: int|
            0 <= j < snap.len() && snap[j] == x && goes_to(
                #[trigger] snap[j].spec_player(),
                side,
                before,
            )
    } else {
        old_view.contains(x)
    }
}

/// The ids of the first `n` entities of `snap` that are first sightings for
/// `side`: entities going to the side, not in the view `known`, and not
/// listed for the side earlier in the snapshot; in snapshot order.
pub open spec fn first_sightings<T: Entity>(
    snap: Seq<T>,
    side: EntityId,
    before: Option<EntityId>,
    known: Seq<EntityId>,
    n: int,
) -> Seq<EntityId>
    decreases n,
{
    if n <= 0 {
        Seq::empty()
    } else {
        let prev = first_sightings(snap, side, before, known, n - 1);
        let x = snap[n - 1];
        if goes_to(x.spec_player(), side, before) && !known.contains(x.spec_id()) && !claimed(
            snap.subrange(0, n - 1),
            x.spec_id(),
            side,
            before,
        ) {
            prev.push(x.spec_id())
        } else {
            prev
        }
    }
}

/// A list of ids in ascending order.
pub open spec fn ascending(s: Seq<EntityId>) -> bool {
    forall|i: int, j: int| 0 <= i < j < s.len() ==> (#[trigger] s[i]).0 < (#[trigger] s[j]).0
}

/// The entities of a list in ascending order of id.
pub open spec fn sorted_by_id<T: Entity>(s: Seq<T>) -> bool {
    forall|i: int, j: int| 0 <= i < j < s.len() ==> (#[trigger] s[i]).spec_id().0 < (#[trigger] s[j]).spec_id().0
}

proof fn lemma_sorted_no_duplicates<T: Entity>(s: Seq<T>)
    requires
        sorted_by_id(s),
    ensures
        ids_of(s).no_duplicates(),
{
    assert forall|i: int, j: int| 0 <= i < ids_of(s).len() && 0 <= j < ids_of(s).len() && i != j implies ids_of(s)[i] != ids_of(s)[j] by {
        if i < j {
            assert(s[i].spec_id().0 < s[j].spec_id().0);
        } else {
            assert(s[j].spec_id().0 < s[i].spec_id().0);
        }
    }
}

/// Inserts `x` into `view`, or replaces the entity of the same id; a first
/// sighting is recorded in `new_ids`. The view stays in ascending order of id.
fn upsert<T: Entity>(view: &mut Vec<T>, new_ids: &mut Vec<EntityId>, x: T)
    requires
        ids_of(old(view)@).no_duplicates(),
        sorted_by_id(old(view)@),
    ensures
        ids_of(final(view)@).no_duplicates(),
        sorted_by_id(final(view)@),
        forall|id: EntityId|
            ids_of(final(view)@).contains(id) == (ids_of(old(view)@).contains(id) || id
                == x.spec_id()),
        forall|id: EntityId|
            final(new_ids)@.contains(id) == (old(new_ids)@.contains(id) || (id == x.spec_id()
                && !ids_of(old(view)@).contains(id))),
        final(new_ids)@ == old(new_ids)@ || (final(new_ids)@ == old(new_ids)@.push(x.spec_id())
            && !ids_of(old(view)@).contains(x.spec_id())),
        forall|k: int|
            0 <= k < final(view)@.len() ==> #[trigger] final(view)@[k] == x || (old(view)@.contains(final(view)@[k]) && final(view)@[k].spec_id() != x.spec_id()),
{
    let ghost v0 = view@;
    let id = x.entity_id();
    match index_of(view, id) {
        Some(k) => {
            view.set(k, x);
            proof {
                assert(ids_of(view@) =~= ids_of(v0));
                assert forall|m: int| 0 <= m < view@.len() implies #[trigger] view@[m] == x || (
                v0.contains(view@[m]) && view@[m].spec_id() != x.spec_id()) by {
                    if m != k {
                        assert(view@[m] == v0[m]);
                        assert(ids_of(v0)[m] != ids_of(v0)[k as int]);
                    }
                }
            }
        },
        None => {
            let ghost n0 = new_ids@;
            let mut p: usize = 0;
            while p < view.len() && view[p].entity_id().0 < id.0
                invariant
                    view@ == v0,
                    p <= v0.len(),
                    forall|k: int| 0 <= k < p ==> (#[trigger] v0[k]).spec_id().0 < id.0,
                decreases v0.len() - p,
            {
                p = p + 1;
            }
            proof {
                assert forall|k: int| p <= k < v0.len() implies id.0 < (#[trigger] v0[k]).spec_id().0 by {
                    assert(ids_of(v0)[k] == v0[k].spec_id());
                    if k > p {
                        assert(v0[p as int].spec_id().0 < v0[k].spec_id().0);
                    }
                    assert(v0[k].spec_id() != id);
                    assert(v0[k].spec_id().0 != id.0);
                }
            }
            view.insert(p, x);
            new_ids.push(id);
            proof {
                assert(view@ == v0.insert(p as int, x));
                assert forall|i: int, j: int| 0 <= i < j < view@.len() implies (#[trigger] view@[i]).spec_id().0 < (#[trigger] view@[j]).spec_id().0 by {
                    if j < p {
                        assert(view@[i] == v0[i] && view@[j] == v0[j]);
                    } else if j == p {
                        assert(view@[i] == v0[i]);
                    } else if i < p {
                        assert(view@[i] == v0[i] && view@[j] == v0[j - 1]);
                    } else if i == p {
                        assert(view@[j] == v0[j - 1]);
                    } else {
                        assert(view@[i] == v0[i - 1] && view@[j] == v0[j - 1]);
                    }
                }
                lemma_sorted_no_duplicates(view@);
                assert forall|a: EntityId| #[trigger] ids_of(view@).contains(a) == (ids_of(v0).contains(a) || a == id) by {
                    if ids_of(view@).contains(a) {
                        let m = choose|m: int| 0 <= m < ids_of(view@).len() && ids_of(view@)[m] == a;
                        if m < p {
                            assert(ids_of(v0)[m] == a);
                        } else if m > p {
                            assert(ids_of(v0)[m - 1] == a);
                        }
                    }
                    if ids_of(v0).contains(a) {
                        let m = choose|m: int| 0 <= m < ids_of(v0).len() && ids_of(v0)[m] == a;
                        if m < p {
                            assert(ids_of(view@)[m] == a);
                        } else {
                            assert(ids_of(view@)[m + 1] == a);
                        }
                    }
                    if a == id {
                        assert(ids_of(view@)[p as int] == a);
                    }
                }
                lemma_push_contains(n0, id);
                assert forall|m: int| 0 <= m < view@.len() implies #[trigger] view@[m] == x || (
                v0.contains(view@[m]) && view@[m].spec_id() != x.spec_id()) by {
                    if m < p {
                        assert(view@[m] == v0[m]);
                        assert(ids_of(v0)[m] == v0[m].spec_id());
                    } else if m > p {
                        assert(view@[m] == v0[m - 1]);
                        assert(ids_of(v0)[m - 1] == v0[m - 1].spec_id());
                    }
                }
            }
        },
    }
}

/// Folds the entities of a snapshot into both sides' views, in snapshot order.
fn assign<T: Entity>(
    bot_view: &mut Vec<T>,
    bot_new: &mut Vec<EntityId>,
    opp_view: &mut Vec<T>,
    opp_new: &mut Vec<EntityId>,
    bot_id: EntityId,
    opp_id: EntityId,
    snapshot: Vec<T>,
)
    requires
        ids_of(old(bot_view)@).no_duplicates(),
        ids_of(old(opp_view)@).no_duplicates(),
        sorted_by_id(old(bot_view)@),
        sorted_by_id(old(opp_view)@),
        old(bot_new)@.len() == 0,
        old(opp_new)@.len() == 0,
    ensures
        ids_of(final(bot_view)@).no_duplicates(),
        ids_of(final(opp_view)@).no_duplicates(),
        sorted_by_id(final(bot_view)@),
        sorted_by_id(final(opp_view)@),
        final(bot_new)@.no_duplicates(),
        final(opp_new)@.no_duplicates(),
        final(bot_new)@ == first_sightings(
            snapshot@,
            bot_id,
            None,
            ids_of(old(bot_view)@),
            snapshot@.len() as int,
        ),
        final(opp_new)@ == first_sightings(
            snapshot@,
            opp_id,
            Some(bot_id),
            ids_of(old(opp_view)@),
            snapshot@.len() as int,
        ),
        forall|id: EntityId|
            ids_of(final(bot_view)@).contains(id) == (ids_of(old(bot_view)@).contains(id)
                || claimed(snapshot@, id, bot_id, None)),
        forall|id: EntityId|
            final(bot_new)@.contains(id) == (old(bot_new)@.contains(id) || (!ids_of(
                old(bot_view)@,
            ).contains(id) && claimed(snapshot@, id, bot_id, None))),
        forall|id: EntityId|
            ids_of(final(opp_view)@).contains(id) == (ids_of(old(opp_view)@).contains(id)
                || claimed(snapshot@, id, opp_id, Some(bot_id))),
        forall|id: EntityId|
            final(opp_new)@.contains(id) == (old(opp_new)@.contains(id) || (!ids_of(
                old(opp_view)@,
            ).contains(id) && claimed(snapshot@, id, opp_id, Some(bot_id)))),
        forall|k: int|
            0 <= k < final(bot_view)@.len() ==> record_from(
                #[trigger] final(bot_view)@[k],
                snapshot@,
                bot_id,
                None,
                old(bot_view)@,
            ),
        forall|k: int|
            0 <= k < final(opp_view)@.len() ==> record_from(
                #[trigger] final(opp_view)@[k],
                snapshot@,
                opp_id,
                Some(bot_id),
                old(opp_view)@,
            ),
{
    let ghost snap = snapshot@;
    let ghost bv0 = bot_view@;
    let ghost bn0 = bot_new@;
    let ghost ov0 = opp_view@;
    let ghost on0 = opp_new@;
    let mut snapshot = snapshot;
    let mut i: usize = 0;
    while i < snapshot.len()
        invariant
            snapshot@.len() == snap.len(),
            i <= snap.len(),
            forall|k: int| i <= k < snap.len() ==> snapshot@[k] == snap[k],
            ids_of(bot_view@).no_duplicates(),
            ids_of(opp_view@).no_duplicates(),
            sorted_by_id(bot_view@),
            sorted_by_id(opp_view@),
            bot_new@.no_duplicates(),
            opp_new@.no_duplicates(),
            bot_new@ == first_sightings(snap, bot_id, None, ids_of(bv0), i as int),
            opp_new@ == first_sightings(snap, opp_id, Some(bot_id), ids_of(ov0), i as int),
            forall|id: EntityId| #[trigger] bot_new@.contains(id) ==> ids_of(bot_view@).contains(id),
            forall|id: EntityId| #[trigger] opp_new@.contains(id) ==> ids_of(opp_view@).contains(id),
            forall|id: EntityId|
                ids_of(bot_view@).contains(id) == (ids_of(bv0).contains(id) || claimed(
                    snap.subrange(0, i as int),
                    id,
                    bot_id,
                    None,
                )),
            forall|id: EntityId|
                bot_new@.contains(id) == (bn0.contains(id) || (!ids_of(bv0).contains(id)
                    && claimed(snap.subrange(0, i as int), id, bot_id, None))),
            forall|id: EntityId|
                ids_of(opp_view@).contains(id) == (ids_of(ov0).contains(id) || claimed(
                    snap.subrange(0, i as int),
                    id,
                    opp_id,
                    Some(bot_id),
                )),
            forall|id: EntityId|
                opp_new@.contains(id) == (on0.contains(id) || (!ids_of(ov0).contains(id)
                    && claimed(snap.subrange(0, i as int), id, opp_id, Some(bot_id)))),
            forall|k: int|
                0 <= k < bot_view@.len() ==> record_from(
                    #[trigger] bot_view@[k],
                    snap.subrange(0, i as int),
                    bot_id,
                    None,
                    bv0,
                ),
            forall|k: int|
                0 <= k < opp_view@.len() ==> record_from(
                    #[trigger] opp_view@[k],
                    snap.subrange(0, i as int),
                    opp_id,
                    Some(bot_id),
                    ov0,
                ),
        decreases snap.len() - i,
    {
        proof {
            lemma_claimed_step(snap, i as int, bot_id, None);
            lemma_claimed_step(snap, i as int, opp_id, Some(bot_id));
        }
        let mut x = T::placeholder();
        snapshot.set_and_swap(i, &mut x);
        assert(x == snap[i as int]);
        let ghost xi = x.spec_id();
        let ghost xp = x.spec_player();
        let ghost x_ghost = x;
        let ghost bv1 = bot_view@;
        let ghost ov1 = opp_view@;
        let ghost bn1 = bot_new@;
        let ghost on1 = opp_new@;
        match x.player_id() {
            Some(p) => {
                if p == bot_id {
                    upsert(bot_view, bot_new, x);
                } else if p == opp_id {
                    upsert(opp_view, opp_new, x);
                }
            },
            None => {},
        }
        proof {
            assert(snap.subrange(0, i + 1)[i as int] == snap[i as int]);
            assert(snap.subrange(0, i + 1).subrange(0, i as int) =~= snap.subrange(0, i as int));
            assert(ids_of(bv1).contains(xi) == (ids_of(bv0).contains(xi) || claimed(
                snap.subrange(0, i as int),
                xi,
                bot_id,
                None,
            )));
            assert(ids_of(ov1).contains(xi) == (ids_of(ov0).contains(xi) || claimed(
                snap.subrange(0, i as int),
                xi,
                opp_id,
                Some(bot_id),
            )));
            if goes_to(xp, bot_id, None) && !ids_of(bv1).contains(xi) {
                assert(!bn1.contains(xi));
                assert(bot_new@ == bn1.push(xi));
            }
            if goes_to(xp, opp_id, Some(bot_id)) && !ids_of(ov1).contains(xi) {
                assert(!on1.contains(xi));
                assert(opp_new@ == on1.push(xi));
            }
            if bot_new@ != bn1 {
                assert(!bn1.contains(xi));
                lemma_push_no_duplicates(bn1, xi);
            }
            if opp_new@ != on1 {
                assert(!on1.contains(xi));
                lemma_push_no_duplicates(on1, xi);
            }
            assert(xi == snap[i as int].spec_id());
            assert(xp == snap[i as int].spec_player());
            assert forall|id: EntityId|
                #[trigger] ids_of(bot_view@).contains(id) == (ids_of(bv1).contains(id) || (xi == id
                    && goes_to(xp, bot_id, None))) by {}
            assert forall|id: EntityId|
                #[trigger] ids_of(opp_view@).contains(id) == (ids_of(ov1).contains(id) || (xi == id
                    && goes_to(xp, opp_id, Some(bot_id)))) by {}
            assert forall|id: EntityId|
                #[trigger] ids_of(bot_view@).contains(id) == (ids_of(bv0).contains(id) || claimed(
                    snap.subrange(0, i + 1),
                    id,
                    bot_id,
                    None,
                )) by {
                assert(ids_of(bv1).contains(id) == (ids_of(bv0).contains(id) || claimed(
                    snap.subrange(0, i as int),
                    id,
                    bot_id,
                    None,
                )));
            }
            assert forall|id: EntityId|
                #[trigger] ids_of(opp_view@).contains(id) == (ids_of(ov0).contains(id) || claimed(
                    snap.subrange(0, i + 1),
                    id,
                    opp_id,
                    Some(bot_id),
                )) by {
                assert(ids_of(ov1).contains(id) == (ids_of(ov0).contains(id) || claimed(
                    snap.subrange(0, i as int),
                    id,
                    opp_id,
                    Some(bot_id),
                )));
            }
            let p = snap.subrange(0, i as int);
            let q = snap.subrange(0, i + 1);
            assert(q[i as int] == snap[i as int]);
            assert forall|k: int| 0 <= k < bot_view@.len() implies record_from(
                #[trigger] bot_view@[k],
                q,
                bot_id,
                None,
                bv0,
            ) by {
                let y = bot_view@[k];
                if y == x_ghost && goes_to(xp, bot_id, None) {
                    assert(q[i as int] == y);
                } else {
                    assert(bv1.contains(y));
                    let m = choose|m: int| 0 <= m < bv1.len() && bv1[m] == y;
                    assert(record_from(bv1[m], p, bot_id, None, bv0));
                    if claimed(p, y.spec_id(), bot_id, None) {
                        let j = choose|j: int|
                            0 <= j < p.len() && p[j] == y && goes_to(
                                #[trigger] p[j].spec_player(),
                                bot_id,
                                None,
                            );
                        assert(q[j] == p[j]);
                    }
                }
            }
            assert forall|k: int| 0 <= k < opp_view@.len() implies record_from(
                #[trigger] opp_view@[k],
                q,
                opp_id,
                Some(bot_id),
                ov0,
            ) by {
                let y = opp_view@[k];
                if y == x_ghost && goes_to(xp, opp_id, Some(bot_id)) {
                    assert(q[i as int] == y);
                } else {
                    assert(ov1.contains(y));
                    let m = choose|m: int| 0 <= m < ov1.len() && ov1[m] == y;
                    assert(record_from(ov1[m], p, opp_id, Some(bot_id), ov0));
                    if claimed(p, y.spec_id(), opp_id, Some(bot_id)) {
                        let j = choose|j: int|
                            0 <= j < p.len() && p[j] == y && goes_to(
                                #[trigger] p[j].spec_player(),
                                opp_id,
                                Some(bot_id),
                            );
                        assert(q[j] == p[j]);
                    }
                }
            }
        }
        i = i + 1;
    }
    proof {
        assert(snap.subrange(0, snap.len() as int) =~= snap);
        assert(i == snap.len());
        assert forall|id: EntityId|
            #[trigger] ids_of(opp_view@).contains(id) == (ids_of(ov0).contains(id) || claimed(
                snap,
                id,
                opp_id,
                Some(bot_id),
            )) by {
            assert(ids_of(opp_view@).contains(id) == (ids_of(ov0).contains(id) || claimed(
                snap.subrange(0, i as int),
                id,
                opp_id,
                Some(bot_id),
            )));
        }
        assert forall|id: EntityId|
            #[trigger] ids_of(bot_view@).contains(id) == (ids_of(bv0).contains(id) || claimed(
                snap,
                id,
                bot_id,
                None,
            )) by {
            assert(ids_of(bot_view@).contains(id) == (ids_of(bv0).contains(id) || claimed(
                snap.subrange(0, i as int),
                id,
                bot_id,
                None,
            )));
        }
    }
}

/// Removes from `view` the entities whose listing in `list` equals
/// `remove_if_listed`, keeping the order of the others, and records their ids
/// in `removed`.
fn sweep<T: Entity>(
    view: &mut Vec<T>,
    removed: &mut Vec<EntityId>,
    list: &Vec<EntityId>,
    remove_if_listed: bool,
)
    requires
        ids_of(old(view)@).no_duplicates(),
        sorted_by_id(old(view)@),
        old(removed)@.len() == 0,
    ensures
        ids_of(final(view)@).no_duplicates(),
        sorted_by_id(final(view)@),
        final(removed)@.no_duplicates(),
        ascending(final(removed)@),
        forall|id: EntityId|
            #[trigger] ids_of(final(view)@).contains(id) == (ids_of(old(view)@).contains(id)
                && list@.contains(id) != remove_if_listed),
        forall|id: EntityId|
            #[trigger] final(removed)@.contains(id) == (old(removed)@.contains(id) || (ids_of(
                old(view)@,
            ).contains(id) && list@.contains(id) == remove_if_listed)),
        forall|k: int|
            0 <= k < final(view)@.len() ==> old(view)@.contains(#[trigger] final(view)@[k]),
{
    let ghost v0 = view@;
    let ghost r0 = removed@;
    let mut old_view: Vec<T> = Vec::new();
    std::mem::swap(view, &mut old_view);
    let mut i: usize = 0;
    while i < old_view.len()
        invariant
            old_view@.len() == v0.len(),
            i <= v0.len(),
            forall|k: int| i <= k < v0.len() ==> old_view@[k] == v0[k],
            ids_of(v0).no_duplicates(),
            ids_of(view@).no_duplicates(),
            sorted_by_id(v0),
            sorted_by_id(view@),
            r0.len() == 0,
            removed@.no_duplicates(),
            ascending(removed@),
            forall|id: EntityId|
                #[trigger] ids_of(view@).contains(id) == (ids_of(v0.subrange(0, i as int)).contains(
                    id,
                ) && list@.contains(id) != remove_if_listed),
            forall|id: EntityId|
                #[trigger] removed@.contains(id) == (r0.contains(id) || (ids_of(
                    v0.subrange(0, i as int),
                ).contains(id) && list@.contains(id) == remove_if_listed)),
            forall|k: int| 0 <= k < view@.len() ==> v0.contains(#[trigger] view@[k]),
        decreases v0.len() - i,
    {
        let mut x = T::placeholder();
        old_view.set_and_swap(i, &mut x);
        let ghost xi = x.spec_id();
        let ghost pre = ids_of(v0.subrange(0, i as int));
        let ghost w0 = view@;
        let ghost rm0 = removed@;
        proof {
            assert(x == v0[i as int]);
            assert(ids_of(v0.subrange(0, i + 1)) =~= pre.push(xi));
            lemma_push_contains(pre, xi);
            assert(!pre.contains(xi)) by {
                if pre.contains(xi) {
                    let j = choose|j: int| 0 <= j < pre.len() && pre[j] == xi;
                    assert(ids_of(v0)[j] == ids_of(v0)[i as int]);
                }
            }
        }
        let id = x.entity_id();
        if contains_id(list, id) == remove_if_listed {
            removed.push(id);
            proof {
                lemma_push_contains(rm0, id);
                assert(!rm0.contains(id));
                lemma_push_no_duplicates(rm0, id);
                assert forall|k: int| 0 <= k < rm0.len() implies (#[trigger] rm0[k]).0 < id.0 by {
                    assert(rm0.contains(rm0[k]));
                    assert(pre.contains(rm0[k]));
                    let j = choose|j: int| 0 <= j < pre.len() && pre[j] == rm0[k];
                    assert(v0[j].spec_id().0 < v0[i as int].spec_id().0);
                }
                assert forall|a: int, b: int| 0 <= a < b < removed@.len() implies (#[trigger] removed@[a]).0 < (#[trigger] removed@[b]).0 by {
                    if b < rm0.len() {
                        assert(removed@[a] == rm0[a] && removed@[b] == rm0[b]);
                    } else {
                        assert(removed@[a] == rm0[a]);
                    }
                }
            }
        } else {
            view.push(x);
            proof {
                assert forall|k: int| 0 <= k < w0.len() implies (#[trigger] w0[k]).spec_id().0 < xi.0 by {
                    assert(ids_of(w0)[k] == w0[k].spec_id());
                    assert(ids_of(w0).contains(w0[k].spec_id()));
                    assert(pre.contains(w0[k].spec_id()));
                    let j = choose|j: int| 0 <= j < pre.len() && pre[j] == w0[k].spec_id();
                    assert(v0[j].spec_id().0 < v0[i as int].spec_id().0);
                }
                assert forall|a: int, b: int| 0 <= a < b < view@.len() implies (#[trigger] view@[a]).spec_id().0 < (#[trigger] view@[b]).spec_id().0 by {
                    if b < w0.len() {
                        assert(view@[a] == w0[a] && view@[b] == w0[b]);
                    } else {
                        assert(view@[a] == w0[a]);
                    }
                }
                assert(ids_of(view@) =~= ids_of(w0).push(xi));
                assert(!ids_of(w0).contains(xi));
                lemma_push_no_duplicates(ids_of(w0), xi);
                lemma_push_contains(ids_of(w0), xi);
                lemma_push_contains(w0, x);
                assert(v0[i as int] == x);
                assert forall|k: int| 0 <= k < view@.len() implies v0.contains(
                    #[trigger] view@[k],
                ) by {
                    if k < w0.len() {
                        assert(view@[k] == w0[k]);
                    }
                }
            }
        }
        i = i + 1;
    }
    proof {
        assert(v0.subrange(0, v0.len() as int) =~= v0);
    }
}

/// The ids of the entities of a list that are owned by nobody.
fn collect_unowned_ids<T: Entity>(v: &Vec<T>) -> (r: Vec<EntityId>)
    ensures
        forall|id: EntityId| r@.contains(id) == listed_unowned(v@, id),
{
    let mut r: Vec<EntityId> = Vec::new();
    let mut i: usize = 0;
    while i < v.len()
        invariant
            i <= v@.len(),
            forall|id: EntityId| #[trigger] r@.contains(id) == listed_unowned(v@.subrange(0, i as int), id),
        decreases v@.len() - i,
    {
        let ghost r0 = r@;
        let ghost p = v@.subrange(0, i as int);
        let ghost q = v@.subrange(0, i + 1);
        proof {
            assert forall|id: EntityId|
                listed_unowned(q, id) == (listed_unowned(p, id) || (v@[i as int].spec_id() == id
                    && v@[i as int].spec_player() is None)) by {
                if listed_unowned(q, id) {
                    let j = choose|j: int|
                        0 <= j < q.len() && (#[trigger] q[j]).spec_id() == id
                            && q[j].spec_player() is None;
                    if j < i {
                        assert(p[j] == q[j]);
                    }
                }
                if listed_unowned(p, id) {
                    let j = choose|j: int|
                        0 <= j < p.len() && (#[trigger] p[j]).spec_id() == id
                            && p[j].spec_player() is None;
                    assert(q[j] == p[j]);
                }
                if v@[i as int].spec_id() == id && v@[i as int].spec_player() is None {
                    assert(q[i as int] == v@[i as int]);
                }
            }
        }
        if v[i].player_id().is_none() {
            r.push(v[i].entity_id());
            proof {
                lemma_push_contains(r0, v@[i as int].spec_id());
            }
        }
        i = i + 1;
    }
    proof {
        assert(v@.subrange(0, v@.len() as int) =~= v@);
    }
    r
}

/// The ids of the entities of a list that `side` owns.
fn collect_owned_by<T: Entity>(v: &Vec<T>, side: EntityId) -> (r: Vec<EntityId>)
    ensures
        forall|id: EntityId| r@.contains(id) == listed_for(v@, id, side),
{
    let mut r: Vec<EntityId> = Vec::new();
    let mut i: usize = 0;
    while i < v.len()
        invariant
            i <= v@.len(),
            forall|id: EntityId| #[trigger] r@.contains(id) == listed_for(v@.subrange(0, i as int), id, side),
        decreases v@.len() - i,
    {
        let ghost r0 = r@;
        let ghost p = v@.subrange(0, i as int);
        let ghost q = v@.subrange(0, i + 1);
        proof {
            assert forall|id: EntityId|
                listed_for(q, id, side) == (listed_for(p, id, side) || (v@[i as int].spec_id() == id
                    && v@[i as int].spec_player() == Some(side))) by {
                if listed_for(q, id, side) {
                    let j = choose|j: int|
                        0 <= j < q.len() && (#[trigger] q[j]).spec_id() == id
                            && q[j].spec_player() == Some(side);
                    if j < i {
                        assert(p[j] == q[j]);
                    }
                }
                if listed_for(p, id, side) {
                    let j = choose|j: int|
                        0 <= j < p.len() && (#[trigger] p[j]).spec_id() == id
                            && p[j].spec_player() == Some(side);
                    assert(q[j] == p[j]);
                }
                if v@[i as int].spec_id() == id && v@[i as int].spec_player() == Some(side) {
                    assert(q[i as int] == v@[i as int]);
                }
            }
        }
        if v[i].player_id() == Some(side) {
            r.push(v[i].entity_id());
            proof {
                lemma_push_contains(r0, v@[i as int].spec_id());
            }
        }
        i = i + 1;
    }
    proof {
        assert(v@.subrange(0, v@.len() as int) =~= v@);
    }
    r
}

/// A player as the start-of-match snapshot lists it.
#[derive(Clone, Copy, Debug, PartialEq, Eq, Structural)]
pub struct PlayerEntity {
    pub id: EntityId,
    pub team: u8,
}

/// The one-time snapshot at the start of a match.
#[derive(Debug)]
pub struct GameStartState {
    pub your_player_id: EntityId,
    pub players: Vec<PlayerEntity>,
    pub power_slots: Vec<PowerSlot>,
    pub token_slots: Vec<TokenSlot>,
    pub figures: Vec<Figure>,
}

/// A player's resources as a tick snapshot lists them.
#[derive(Clone, Copy, Debug, PartialEq, Eq, Structural)]
pub struct PlayerState {
    pub id: EntityId,
    pub power: u32,
    pub void_power: u32,
}

/// The snapshot of one tick.
#[derive(Debug)]
pub struct GameState {
    pub current_tick: Tick,
    pub players: Vec<PlayerState>,
    pub squads: Vec<Squad>,
    pub power_slots: Vec<PowerSlot>,
    pub token_slots: Vec<TokenSlot>,
    pub figures: Vec<Figure>,
}

/// Total power bound in a list of squads.
pub open spec fn bound_power_sum(s: Seq<Squad>) -> int
    decreases s.len(),
{
    if s.len() == 0 {
        0
    } else {
        bound_power_sum(s.drop_last()) + s.last().bound_power
    }
}

/// Tempo: free power plus bound power minus void power.
pub open spec fn tempo_of(p: PlayerInfo) -> int {
    p.power + bound_power_sum(p.squads@) - p.void_power
}

proof fn lemma_bound_power_sum_bounds(s: Seq<Squad>)
    ensures
        0 <= bound_power_sum(s) <= s.len() * (u32::MAX as int),
    decreases s.len(),
{
    if s.len() > 0 {
        lemma_bound_power_sum_bounds(s.drop_last());
    }
}

/// The last entry of `players` that is about the player `id`.
pub open spec fn latest_player(players: Seq<PlayerState>, id: EntityId) -> Option<PlayerState>
    decreases players.len(),
{
    if players.len() == 0 {
        None
    } else if players.last().id == id {
        Some(players.last())
    } else {
        latest_player(players.drop_last(), id)
    }
}

/// Whether an entity counts as gone from `side`'s view after a snapshot: it
/// is gone unless the snapshot lists it as the side's own; a structure
/// (`by_absence` false) is gone too when the snapshot also lists it as owned by
/// nobody.
pub open spec fn gone<T: Entity>(snap: Seq<T>, id: EntityId, by_absence: bool, side: EntityId) -> bool {
    if by_absence {
        !listed_for(snap, id, side)
    } else {
        !listed_for(snap, id, side) || listed_unowned(snap, id)
    }
}

/// The ids of a snapshot's entities that are not gone from `side`'s view.
fn collect_kept_ids<T: Entity>(v: &Vec<T>, by_absence: bool, side: EntityId) -> (r: Vec<EntityId>)
    ensures
        forall|id: EntityId| #[trigger] r@.contains(id) == !gone(v@, id, by_absence, side),
{
    let owned = collect_owned_by(v, side);
    if by_absence {
        return owned;
    }
    let unowned = collect_unowned_ids(v);
    let mut r: Vec<EntityId> = Vec::new();
    let mut i: usize = 0;
    while i < owned.len()
        invariant
            i <= owned@.len(),
            forall|id: EntityId| owned@.contains(id) == listed_for(v@, id, side),
            forall|id: EntityId| unowned@.contains(id) == listed_unowned(v@, id),
            forall|id: EntityId|
                #[trigger] r@.contains(id) == (owned@.subrange(0, i as int).contains(id)
                    && !listed_unowned(v@, id)),
        decreases owned@.len() - i,
    {
        let ghost r0 = r@;
        let id = owned[i];
        proof {
            assert(owned@.subrange(0, i + 1) =~= owned@.subrange(0, i as int).push(id));
            lemma_push_contains(owned@.subrange(0, i as int), id);
        }
        if !contains_id(&unowned, id) {
            r.push(id);
            proof {
                lemma_push_contains(r0, id);
            }
        }
        i = i + 1;
    }
    proof {
        assert(owned@.subrange(0, owned@.len() as int) =~= owned@);
    }
    r
}

/// What the update of one tick makes of one side's view. `before` is the side
/// whose entities were assigned first (the bot's, for the opponent).
pub open spec fn side_updated(
    old_p: PlayerInfo,
    new_p: PlayerInfo,
    state: GameState,
    before: Option<EntityId>,
) -> bool {
    let side = old_p.id;
    let squads = state.squads@;
    let powers = state.power_slots@;
    let tokens = state.token_slots@;
    &&& new_p.wf()
    &&& new_p.id == old_p.id
    &&& new_p.team == old_p.team
    &&& new_p.start_token == old_p.start_token
    &&& new_p.start_location == old_p.start_location
    &&& (match latest_player(state.players@, side) {
        Some(ps) if Some(side) != before => new_p.power == ps.power && new_p.void_power
            == ps.void_power,
        _ => new_p.power == old_p.power && new_p.void_power == old_p.void_power,
    })
    &&& new_p.tempo == tempo_of(new_p)
    &&& new_p.new_squad_ids@.no_duplicates()
    &&& new_p.dead_squad_ids@.no_duplicates()
    &&& new_p.new_power_slot_ids@.no_duplicates()
    &&& new_p.destroyed_power_slot_ids@.no_duplicates()
    &&& new_p.new_token_slot_ids@.no_duplicates()
    &&& new_p.destroyed_token_slot_ids@.no_duplicates()
    &&& new_p.new_squad_ids@ == first_sightings(
        squads,
        side,
        before,
        ids_of(old_p.squads@),
        squads.len() as int,
    )
    &&& new_p.new_power_slot_ids@ == first_sightings(
        powers,
        side,
        before,
        ids_of(old_p.power_slots@),
        powers.len() as int,
    )
    &&& new_p.new_token_slot_ids@ == first_sightings(
        tokens,
        side,
        before,
        ids_of(old_p.token_slots@),
        tokens.len() as int,
    )
    &&& ascending(new_p.dead_squad_ids@)
    &&& ascending(new_p.destroyed_power_slot_ids@)
    &&& ascending(new_p.destroyed_token_slot_ids@)
    &&& forall|id: EntityId|
        #[trigger] new_p.new_squad_ids@.contains(id) == (!old_p.holds_squad(id) && claimed(
            squads,
            id,
            side,
            before,
        ))
    &&& forall|id: EntityId|
        #[trigger] new_p.dead_squad_ids@.contains(id) == ((old_p.holds_squad(id) || claimed(
            squads,
            id,
            side,
            before,
        )) && gone(squads, id, true, side))
    &&& forall|id: EntityId|
        #[trigger] new_p.holds_squad(id) == ((old_p.holds_squad(id) || claimed(
            squads,
            id,
            side,
            before,
        )) && !gone(squads, id, true, side))
    &&& forall|id: EntityId|
        #[trigger] new_p.new_power_slot_ids@.contains(id) == (!old_p.holds_power_slot(id)
            && claimed(powers, id, side, before))
    &&& forall|id: EntityId|
        #[trigger] new_p.destroyed_power_slot_ids@.contains(id) == ((old_p.holds_power_slot(id)
            || claimed(powers, id, side, before)) && gone(powers, id, false, side))
    &&& forall|id: EntityId|
        #[trigger] new_p.holds_power_slot(id) == ((old_p.holds_power_slot(id) || claimed(
            powers,
            id,
            side,
            before,
        )) && !gone(powers, id, false, side))
    &&& forall|id: EntityId|
        #[trigger] new_p.new_token_slot_ids@.contains(id) == (!old_p.holds_token_slot(id)
            && claimed(tokens, id, side, before))
    &&& forall|id: EntityId|
        #[trigger] new_p.destroyed_token_slot_ids@.contains(id) == ((old_p.holds_token_slot(id)
            || claimed(tokens, id, side, before)) && gone(tokens, id, false, side))
    &&& forall|id: EntityId|
        #[trigger] new_p.holds_token_slot(id) == ((old_p.holds_token_slot(id) || claimed(
            tokens,
            id,
            side,
            before,
        )) && !gone(tokens, id, false, side))
    &&& forall|k: int|
        0 <= k < new_p.squads@.len() ==> record_from(
            #[trigger] new_p.squads@[k],
            squads,
            side,
            before,
            old_p.squads@,
        )
    &&& forall|k: int|
        0 <= k < new_p.power_slots@.len() ==> record_from(
            #[trigger] new_p.power_slots@[k],
            powers,
            side,
            before,
            old_p.power_slots@,
        )
    &&& forall|k: int|
        0 <= k < new_p.token_slots@.len() ==> record_from(
            #[trigger] new_p.token_slots@[k],
            tokens,
            side,
            before,
            old_p.token_slots@,
        )
}

/// Tempo carries nothing over from earlier ticks: after an update, a side's
/// stored tempo is its free power, plus the power bound in the squads it now
/// holds, minus its void power, all as of that update.
pub proof fn lemma_tempo_recomputed(
    old_p: PlayerInfo,
    new_p: PlayerInfo,
    state: GameState,
    before: Option<EntityId>,
)
    requires
        side_updated(old_p, new_p, state, before),
    ensures
        new_p.tempo == new_p.power + bound_power_sum(new_p.squads@) - new_p.void_power,
        (match latest_player(state.players@, old_p.id) {
            Some(ps) if Some(old_p.id) != before => new_p.tempo == ps.power + bound_power_sum(
                new_p.squads@,
            ) - ps.void_power,
            _ => true,
        }),
{
}

/// A squad that a snapshot lists for one of the two sides, and that neither
/// side's view held before, is recorded as new for exactly one side.
pub proof fn lemma_new_squad_recorded_once(
    old_gi: GameInfo,
    new_gi: GameInfo,
    state: GameState,
    id: EntityId,
)
    requires
        ids_of(state.squads@).no_duplicates(),
        old_gi.bot.id != old_gi.opponent.id,
        side_updated(old_gi.bot, new_gi.bot, state, None),
        side_updated(old_gi.opponent, new_gi.opponent, state, Some(old_gi.bot.id)),
        exists|j: int|
            0 <= j < state.squads@.len() && (#[trigger] state.squads@[j]).id == id && (
            state.squads@[j].player == Some(old_gi.bot.id) || state.squads@[j].player == Some(
                old_gi.opponent.id,
            )),
        !old_gi.bot.holds_squad(id),
        !old_gi.opponent.holds_squad(id),
    ensures
        new_gi.bot.new_squad_ids@.contains(id) != new_gi.opponent.new_squad_ids@.contains(id),
{
    let squads = state.squads@;
    let j = choose|j: int|
        0 <= j < squads.len() && (#[trigger] squads[j]).id == id && (squads[j].player == Some(
            old_gi.bot.id,
        ) || squads[j].player == Some(old_gi.opponent.id));
    let b = old_gi.bot.id;
    let o = old_gi.opponent.id;
    assert(new_gi.bot.new_squad_ids@.contains(id) == claimed(squads, id, b, None));
    assert(new_gi.opponent.new_squad_ids@.contains(id) == claimed(squads, id, o, Some(b)));
    assert(squads[j].spec_id() == id);
    if claimed(squads, id, b, None) && claimed(squads, id, o, Some(b)) {
        let j1 = choose|j1: int|
            0 <= j1 < squads.len() && (#[trigger] squads[j1]).spec_id() == id && goes_to(
                squads[j1].spec_player(),
                b,
                None,
            );
        let j2 = choose|j2: int|
            0 <= j2 < squads.len() && (#[trigger] squads[j2]).spec_id() == id && goes_to(
                squads[j2].spec_player(),
                o,
                Some(b),
            );
        assert(ids_of(squads)[j1] == ids_of(squads)[j2]);
    }
}

impl PlayerInfo {
    fn new_view() -> (r: PlayerInfo)
        ensures
            r.wf(),
            r.squads@.len() == 0,
            r.power_slots@.len() == 0,
            r.token_slots@.len() == 0,
    {
        PlayerInfo {
            id: EntityId(1),
            team: 0,
            power_slots: Vec::new(),
            token_slots: Vec::new(),
            power: 0,
            void_power: 0,
            tempo: 0,
            squads: Vec::new(),
            new_squad_ids: Vec::new(),
            dead_squad_ids: Vec::new(),
            start_token: None,
            start_location: Location::Center,
            new_power_slot_ids: Vec::new(),
            new_token_slot_ids: Vec::new(),
            destroyed_power_slot_ids: Vec::new(),
            destroyed_token_slot_ids: Vec::new(),
        }
    }

    /// Power bound in the side's live squads.
    pub fn bound_power(&self) -> (r: u128)
        ensures
            r == bound_power_sum(self.squads@),
    {
        let mut sum: u128 = 0;
        let mut i: usize = 0;
        while i < self.squads.len()
            invariant
                i <= self.squads@.len(),
                sum == bound_power_sum(self.squads@.subrange(0, i as int)),
            decreases self.squads@.len() - i,
        {
            proof {
                let p = self.squads@.subrange(0, i as int);
                assert(self.squads@.subrange(0, i + 1).drop_last() =~= p);
                lemma_bound_power_sum_bounds(p);
                assert(p.len() * (u32::MAX as int) <= 0x1_0000_0000_0000_0000 * (u32::MAX as int))
                    by (nonlinear_arith)
                    requires
                        p.len() <= 0x1_0000_0000_0000_0000,
                ;
            }
            sum = sum + self.squads[i].bound_power as u128;
            i = i + 1;
        }
        proof {
            assert(self.squads@.subrange(0, self.squads@.len() as int) =~= self.squads@);
        }
        sum
    }

    /// Free power plus bound power minus void power.
    pub fn get_tempo(&self) -> (r: i128)
        ensures
            r == tempo_of(*self),
            -0x1_0000_0000 <= r <= 0x2_0000_0000_0000_0000_0000_0000,
    {
        let n: usize = self.squads.len();
        proof {
            lemma_bound_power_sum_bounds(self.squads@);
            assert(self.squads@.len() * (u32::MAX as int) <= 0x1_0000_0000_0000_0000 * (
            u32::MAX as int)) by (nonlinear_arith)
                requires
                    self.squads@.len() <= 0x1_0000_0000_0000_0000,
            ;
        }
        let bound = self.bound_power();
        self.power as i128 + bound as i128 - self.void_power as i128
    }
}

proof fn lemma_latest_player_step(players: Seq<PlayerState>, i: int, id: EntityId)
    requires
        0 <= i < players.len(),
    ensures
        latest_player(players.subrange(0, i + 1), id) == if players[i].id == id {
            Some(players[i])
        } else {
            latest_player(players.subrange(0, i), id)
        },
{
    assert(players.subrange(0, i + 1).drop_last() =~= players.subrange(0, i));
}

/// The resources of both sides after the players of a snapshot were read.
fn read_powers(players: &Vec<PlayerState>, bot: &PlayerInfo, opponent: &PlayerInfo) -> (r: (
    u32,
    u32,
    u32,
    u32,
))
    ensures
        (match latest_player(players@, bot.id) {
            Some(ps) => r.0 == ps.power && r.1 == ps.void_power,
            None => r.0 == bot.power && r.1 == bot.void_power,
        }),
        (match latest_player(players@, opponent.id) {
            Some(ps) if Some(opponent.id) != Some(bot.id) => r.2 == ps.power && r.3
                == ps.void_power,
            _ => r.2 == opponent.power && r.3 == opponent.void_power,
        }),
{
    let mut bot_power = bot.power;
    let mut bot_void = bot.void_power;
    let mut opp_power = opponent.power;
    let mut opp_void = opponent.void_power;
    let mut i: usize = 0;
    while i < players.len()
        invariant
            i <= players@.len(),
            (match latest_player(players@.subrange(0, i as int), bot.id) {
                Some(ps) => bot_power == ps.power && bot_void == ps.void_power,
                None => bot_power == bot.power && bot_void == bot.void_power,
            }),
            (match latest_player(players@.subrange(0, i as int), opponent.id) {
                Some(ps) if Some(opponent.id) != Some(bot.id) => opp_power == ps.power && opp_void
                    == ps.void_power,
                _ => opp_power == opponent.power && opp_void == opponent.void_power,
            }),
        decreases players@.len() - i,
    {
        proof {
            lemma_latest_player_step(players@, i as int, bot.id);
            lemma_latest_player_step(players@, i as int, opponent.id);
        }
        if players[i].id == bot.id {
            bot_power = players[i].power;
            bot_void = players[i].void_power;
        } else if players[i].id == opponent.id {
            opp_power = players[i].power;
            opp_void = players[i].void_power;
        }
        i = i + 1;
    }
    proof {
        assert(players@.subrange(0, players@.len() as int) =~= players@);
    }
    (bot_power, bot_void, opp_power, opp_void)
}

/// Folds one kind of entity of a snapshot into both sides' views, records the
/// new ones, then removes (and records) the gone ones.
fn update_entities<T: Entity>(
    bot_view: &mut Vec<T>,
    bot_new: &mut Vec<EntityId>,
    bot_gone: &mut Vec<EntityId>,
    opp_view: &mut Vec<T>,
    opp_new: &mut Vec<EntityId>,
    opp_gone: &mut Vec<EntityId>,
    bot_id: EntityId,
    opp_id: EntityId,
    snapshot: Vec<T>,
    by_absence: bool,
)
    requires
        ids_of(old(bot_view)@).no_duplicates(),
        ids_of(old(opp_view)@).no_duplicates(),
        sorted_by_id(old(bot_view)@),
        sorted_by_id(old(opp_view)@),
        old(bot_new)@.len() == 0,
        old(bot_gone)@.len() == 0,
        old(opp_new)@.len() == 0,
        old(opp_gone)@.len() == 0,
    ensures
        ids_of(final(bot_view)@).no_duplicates(),
        ids_of(final(opp_view)@).no_duplicates(),
        sorted_by_id(final(bot_view)@),
        sorted_by_id(final(opp_view)@),
        final(bot_new)@.no_duplicates(),
        final(bot_gone)@.no_duplicates(),
        ascending(final(bot_gone)@),
        ascending(final(opp_gone)@),
        final(bot_new)@ == first_sightings(
            snapshot@,
            bot_id,
            None,
            ids_of(old(bot_view)@),
            snapshot@.len() as int,
        ),
        final(opp_new)@ == first_sightings(
            snapshot@,
            opp_id,
            Some(bot_id),
            ids_of(old(opp_view)@),
            snapshot@.len() as int,
        ),
        final(opp_new)@.no_duplicates(),
        final(opp_gone)@.no_duplicates(),
        forall|id: EntityId|
            #[trigger] final(bot_new)@.contains(id) == (!ids_of(old(bot_view)@).contains(id)
                && claimed(snapshot@, id, bot_id, None)),
        forall|id: EntityId|
            #[trigger] final(bot_gone)@.contains(id) == ((ids_of(old(bot_view)@).contains(id)
                || claimed(snapshot@, id, bot_id, None)) && gone(snapshot@, id, by_absence, bot_id)),
        forall|id: EntityId|
            #[trigger] ids_of(final(bot_view)@).contains(id) == ((ids_of(old(bot_view)@).contains(
                id,
            ) || claimed(snapshot@, id, bot_id, None)) && !gone(snapshot@, id, by_absence, bot_id)),
        forall|id: EntityId|
            #[trigger] final(opp_new)@.contains(id) == (!ids_of(old(opp_view)@).contains(id)
                && claimed(snapshot@, id, opp_id, Some(bot_id))),
        forall|id: EntityId|
            #[trigger] final(opp_gone)@.contains(id) == ((ids_of(old(opp_view)@).contains(id)
                || claimed(snapshot@, id, opp_id, Some(bot_id))) && gone(
                snapshot@,
                id,
                by_absence,
                opp_id,
            )),
        forall|id: EntityId|
            #[trigger] ids_of(final(opp_view)@).contains(id) == ((ids_of(old(opp_view)@).contains(
                id,
            ) || claimed(snapshot@, id, opp_id, Some(bot_id))) && !gone(
                snapshot@,
                id,
                by_absence,
                opp_id,
            )),
        forall|k: int|
            0 <= k < final(bot_view)@.len() ==> record_from(
                #[trigger] final(bot_view)@[k],
                snapshot@,
                bot_id,
                None,
                old(bot_view)@,
            ),
        forall|k: int|
            0 <= k < final(opp_view)@.len() ==> record_from(
                #[trigger] final(opp_view)@[k],
                snapshot@,
                opp_id,
                Some(bot_id),
                old(opp_view)@,
            ),
{
    let ghost snap = snapshot@;
    let ghost bv0 = bot_view@;
    let ghost ov0 = opp_view@;
    let bot_list = collect_kept_ids(&snapshot, by_absence, bot_id);
    let opp_list = collect_kept_ids(&snapshot, by_absence, opp_id);
    assign(bot_view, bot_new, opp_view, opp_new, bot_id, opp_id, snapshot);
    let ghost bv1 = bot_view@;
    let ghost ov1 = opp_view@;
    sweep(bot_view, bot_gone, &bot_list, false);
    sweep(opp_view, opp_gone, &opp_list, false);
    proof {
        assert forall|k: int| 0 <= k < bot_view@.len() implies record_from(
            #[trigger] bot_view@[k],
            snap,
            bot_id,
            None,
            bv0,
        ) by {
            let m = choose|m: int| 0 <= m < bv1.len() && bv1[m] == bot_view@[k];
            assert(record_from(bv1[m], snap, bot_id, None, bv0));
        }
        assert forall|k: int| 0 <= k < opp_view@.len() implies record_from(
            #[trigger] opp_view@[k],
            snap,
            opp_id,
            Some(bot_id),
            ov0,
        ) by {
            let m = choose|m: int| 0 <= m < ov1.len() && ov1[m] == opp_view@[k];
            assert(record_from(ov1[m], snap, opp_id, Some(bot_id), ov0));
        }
    }
}


/// The last structure of `slots` that stands exactly at `pos`.
pub open spec fn last_power_at(slots: Seq<PowerSlot>, pos: Position2D) -> Option<EntityId>
    decreases slots.len(),
{
    if slots.len() == 0 {
        None
    } else if slots.last().position == pos {
        Some(slots.last().id)
    } else {
        last_power_at(slots.drop_last(), pos)
    }
}

/// The last orb structure of `slots` that stands exactly at `pos`.
pub open spec fn last_token_at(slots: Seq<TokenSlot>, pos: Position2D) -> Option<EntityId>
    decreases slots.len(),
{
    if slots.len() == 0 {
        None
    } else if slots.last().position == pos {
        Some(slots.last().id)
    } else {
        last_token_at(slots.drop_last(), pos)
    }
}

/// A sub-slot id after resolution: the structure found at its position, else
/// what it held before.
pub open spec fn resolved_id(found: Option<EntityId>, before: Option<EntityId>) -> Option<EntityId> {
    match found {
        Some(id) => Some(id),
        None => before,
    }
}

/// `new_lp` is `old_lp` with its sub-slots resolved against the structures of
/// the start snapshot, by exact position.
pub open spec fn location_resolved(
    old_lp: LocationPosition,
    new_lp: LocationPosition,
    powers: Seq<PowerSlot>,
    tokens: Seq<TokenSlot>,
) -> bool {
    &&& (match old_lp.token {
        Some(t) => new_lp.token == Some(
            TokenSubLocation {
                position: t.position,
                entity_id: resolved_id(last_token_at(tokens, t.position), t.entity_id),
            },
        ),
        None => new_lp.token is None,
    })
    &&& new_lp.powers@.len() == old_lp.powers@.len()
    &&& forall|k: int|
        0 <= k < old_lp.powers@.len() ==> #[trigger] new_lp.powers@[k] == (PowerSubLocation {
            position: old_lp.powers@[k].position,
            entity_id: resolved_id(
                last_power_at(powers, old_lp.powers@[k].position),
                old_lp.powers@[k].entity_id,
            ),
        })
}

fn find_power_at(slots: &Vec<PowerSlot>, pos: Position2D) -> (r: Option<EntityId>)
    ensures
        r == last_power_at(slots@, pos),
{
    let mut found: Option<EntityId> = None;
    let mut i: usize = 0;
    while i < slots.len()
        invariant
            i <= slots@.len(),
            found == last_power_at(slots@.subrange(0, i as int), pos),
        decreases slots@.len() - i,
    {
        proof {
            assert(slots@.subrange(0, i + 1).drop_last() =~= slots@.subrange(0, i as int));
        }
        if slots[i].position == pos {
            found = Some(slots[i].id);
        }
        i = i + 1;
    }
    proof {
        assert(slots@.subrange(0, slots@.len() as int) =~= slots@);
    }
    found
}

fn find_token_at(slots: &Vec<TokenSlot>, pos: Position2D) -> (r: Option<EntityId>)
    ensures
        r == last_token_at(slots@, pos),
{
    let mut found: Option<EntityId> = None;
    let mut i: usize = 0;
    while i < slots.len()
        invariant
            i <= slots@.len(),
            found == last_token_at(slots@.subrange(0, i as int), pos),
        decreases slots@.len() - i,
    {
        proof {
            assert(slots@.subrange(0, i + 1).drop_last() =~= slots@.subrange(0, i as int));
        }
        if slots[i].position == pos {
            found = Some(slots[i].id);
        }
        i = i + 1;
    }
    proof {
        assert(slots@.subrange(0, slots@.len() as int) =~= slots@);
    }
    found
}

fn resolve_location(lp: &LocationPosition, powers: &Vec<PowerSlot>, tokens: &Vec<TokenSlot>) -> (r:
    LocationPosition)
    ensures
        location_resolved(*lp, r, powers@, tokens@),
{
    let token = match lp.token {
        Some(t) => {
            let found = find_token_at(tokens, t.position);
            let entity_id = match found {
                Some(id) => Some(id),
                None => t.entity_id,
            };
            Some(TokenSubLocation { position: t.position, entity_id })
        },
        None => None,
    };
    let mut subs: Vec<PowerSubLocation> = Vec::new();
    let mut k: usize = 0;
    while k < lp.powers.len()
        invariant
            k <= lp.powers@.len(),
            subs@.len() == k,
            forall|j: int|
                0 <= j < k ==> #[trigger] subs@[j] == (PowerSubLocation {
                    position: lp.powers@[j].position,
                    entity_id: resolved_id(
                        last_power_at(powers@, lp.powers@[j].position),
                        lp.powers@[j].entity_id,
                    ),
                }),
        decreases lp.powers@.len() - k,
    {
        let sub = lp.powers[k];
        let found = find_power_at(powers, sub.position);
        let entity_id = match found {
            Some(id) => Some(id),
            None => sub.entity_id,
        };
        subs.push(PowerSubLocation { position: sub.position, entity_id });
        k = k + 1;
    }
    LocationPosition { token, powers: subs }
}

/// The team of the first listed player `id`.
pub open spec fn first_team(players: Seq<PlayerEntity>, id: EntityId, i: int) -> Option<u8>
    decreases players.len() - i,
{
    if i < 0 || i >= players.len() {
        None
    } else if players[i].id == id {
        Some(players[i].team)
    } else {
        first_team(players, id, i + 1)
    }
}

/// The first listed player other than `id`.
pub open spec fn first_other(players: Seq<PlayerEntity>, id: EntityId, i: int) -> Option<EntityId>
    decreases players.len() - i,
{
    if i < 0 || i >= players.len() {
        None
    } else if players[i].id != id {
        Some(players[i].id)
    } else {
        first_other(players, id, i + 1)
    }
}

fn find_team(players: &Vec<PlayerEntity>, id: EntityId) -> (r: Option<u8>)
    ensures
        r == first_team(players@, id, 0),
{
    let mut i: usize = 0;
    while i < players.len()
        invariant
            i <= players@.len(),
            first_team(players@, id, 0) == first_team(players@, id, i as int),
        decreases players@.len() - i,
    {
        if players[i].id == id {
            return Some(players[i].team);
        }
        i = i + 1;
    }
    None
}

fn find_other(players: &Vec<PlayerEntity>, id: EntityId) -> (r: Option<EntityId>)
    ensures
        r == first_other(players@, id, 0),
{
    let mut i: usize = 0;
    while i < players.len()
        invariant
            i <= players@.len(),
            first_other(players@, id, 0) == first_other(players@, id, i as int),
        decreases players@.len() - i,
    {
        if players[i].id != id {
            return Some(players[i].id);
        }
        i = i + 1;
    }
    None
}

/// The last orb structure of `slots` that goes to `side`.
pub open spec fn last_claimed_token(
    slots: Seq<TokenSlot>,
    side: EntityId,
    before: Option<EntityId>,
) -> Option<EntityId>
    decreases slots.len(),
{
    if slots.len() == 0 {
        None
    } else if goes_to(slots.last().player, side, before) {
        Some(slots.last().id)
    } else {
        last_claimed_token(slots.drop_last(), side, before)
    }
}

fn find_start_tokens(slots: &Vec<TokenSlot>, bot_id: EntityId, opp_id: EntityId) -> (r: (
    Option<EntityId>,
    Option<EntityId>,
))
    ensures
        r.0 == last_claimed_token(slots@, bot_id, None),
        r.1 == last_claimed_token(slots@, opp_id, Some(bot_id)),
{
    let mut bot_token: Option<EntityId> = None;
    let mut opp_token: Option<EntityId> = None;
    let mut i: usize = 0;
    while i < slots.len()
        invariant
            i <= slots@.len(),
            bot_token == last_claimed_token(slots@.subrange(0, i as int), bot_id, None),
            opp_token == last_claimed_token(slots@.subrange(0, i as int), opp_id, Some(bot_id)),
        decreases slots@.len() - i,
    {
        proof {
            assert(slots@.subrange(0, i + 1).drop_last() =~= slots@.subrange(0, i as int));
        }
        if let Some(p) = slots[i].player {
            if p == bot_id {
                bot_token = Some(slots[i].id);
            } else if p == opp_id {
                opp_token = Some(slots[i].id);
            }
        }
        i = i + 1;
    }
    proof {
        assert(slots@.subrange(0, slots@.len() as int) =~= slots@);
    }
    (bot_token, opp_token)
}

/// What taking in the start-of-match snapshot makes of the world model: the
/// sides' ids and teams, the structures each side starts with, the resolution
/// of the map's sub-slots against the structures' positions, and the sides'
/// start areas.
pub open spec fn started(old_gi: GameInfo, new_gi: GameInfo, start: GameStartState) -> bool {
    let bot = new_gi.bot.id;
    let opp = new_gi.opponent.id;
    &&& new_gi.wf()
    &&& bot == start.your_player_id
    &&& new_gi.bot.team == match first_team(start.players@, start.your_player_id, 0) {
        Some(t) => t,
        None => old_gi.bot.team,
    }
    &&& opp == match first_other(start.players@, start.your_player_id, 0) {
        Some(o) => o,
        None => old_gi.opponent.id,
    }
    &&& new_gi.opponent.team == match first_team(start.players@, opp, 0) {
        Some(t) => t,
        None => old_gi.opponent.team,
    }
    &&& new_gi.locations@.len() == old_gi.locations@.len()
    &&& forall|i: int|
        0 <= i < old_gi.locations@.len() ==> location_resolved(
            old_gi.locations@[i],
            #[trigger] new_gi.locations@[i],
            start.power_slots@,
            start.token_slots@,
        )
    &&& forall|id: EntityId|
        #[trigger] new_gi.bot.holds_power_slot(id) == (old_gi.bot.holds_power_slot(id) || claimed(
            start.power_slots@,
            id,
            bot,
            None,
        ))
    &&& forall|id: EntityId|
        #[trigger] new_gi.opponent.holds_power_slot(id) == (old_gi.opponent.holds_power_slot(id)
            || claimed(start.power_slots@, id, opp, Some(bot)))
    &&& forall|id: EntityId|
        #[trigger] new_gi.bot.holds_token_slot(id) == (old_gi.bot.holds_token_slot(id) || claimed(
            start.token_slots@,
            id,
            bot,
            None,
        ))
    &&& forall|id: EntityId|
        #[trigger] new_gi.opponent.holds_token_slot(id) == (old_gi.opponent.holds_token_slot(id)
            || claimed(start.token_slots@, id, opp, Some(bot)))
    &&& new_gi.bot.start_token == resolved_id(
        last_claimed_token(start.token_slots@, bot, None),
        old_gi.bot.start_token,
    )
    &&& new_gi.opponent.start_token == resolved_id(
        last_claimed_token(start.token_slots@, opp, Some(bot)),
        old_gi.opponent.start_token,
    )
    &&& ({
        let north = new_gi.locations@[Location::North.spec_index()].token;
        if north matches Some(t) && t.entity_id matches Some(n) && new_gi.bot.holds_token_slot(n) {
            new_gi.bot.start_location == Location::North && new_gi.opponent.start_location
                == Location::South
        } else if north matches Some(t) && t.entity_id matches Some(n)
            && new_gi.opponent.holds_token_slot(n) {
            new_gi.bot.start_location == Location::South && new_gi.opponent.start_location
                == Location::North
        } else {
            new_gi.bot.start_location == old_gi.bot.start_location
                && new_gi.opponent.start_location == old_gi.opponent.start_location
        }
    })
    &&& new_gi.figures@ == start.figures@
    &&& new_gi.card_data == old_gi.card_data
    &&& new_gi.deck == old_gi.deck
    &&& new_gi.current_tick == old_gi.current_tick
}

/// What folding the snapshot of a tick into the world model makes of it.
pub open spec fn state_parsed(old_gi: GameInfo, new_gi: GameInfo, state: GameState) -> bool {
    &&& new_gi.wf()
    &&& new_gi.current_tick == Some(state.current_tick)
    &&& side_updated(old_gi.bot, new_gi.bot, state, None)
    &&& side_updated(old_gi.opponent, new_gi.opponent, state, Some(old_gi.bot.id))
    &&& new_gi.figures@ == state.figures@
    &&& new_gi.locations@ == old_gi.locations@
    &&& new_gi.card_data == old_gi.card_data
    &&& new_gi.deck == old_gi.deck
}

impl GameInfo {
    /// A world model before the start of a match, with the given dataset.
    pub fn new(card_data: CardData, deck: Deck) -> (r: GameInfo)
        requires
            card_data.wf(),
            deck.wf(),
        ensures
            r.wf(),
            r.current_tick is None,
            r.bot.squads@.len() == 0,
            r.opponent.squads@.len() == 0,
            r.bot.power_slots@.len() == 0,
            r.opponent.power_slots@.len() == 0,
            r.bot.token_slots@.len() == 0,
            r.opponent.token_slots@.len() == 0,
            r.card_data == card_data,
            r.deck == deck,
            table_unresolved(r.locations@),
    {
        GameInfo {
            bot: PlayerInfo::new_view(),
            opponent: PlayerInfo::new_view(),
            current_tick: None,
            locations: get_location_positions(),
            figures: Vec::new(),
            card_data,
            deck,
        }
    }

    /// Takes in the start-of-match snapshot, once, before any structure or
    /// squad is known: the sides' ids and teams, the
    /// structures each side starts with, the resolution of the map's sub-slots
    /// against the structures' positions, and the sides' start areas.
    pub fn init(&mut self, start_state: GameStartState)
        requires
            old(self).wf(),
            old(self).bot.squads@.len() == 0,
            old(self).bot.power_slots@.len() == 0,
            old(self).bot.token_slots@.len() == 0,
            old(self).opponent.squads@.len() == 0,
            old(self).opponent.power_slots@.len() == 0,
            old(self).opponent.token_slots@.len() == 0,
        ensures
            started(*old(self), *final(self), start_state),
    {
        let GameStartState { your_player_id, players, power_slots, token_slots, figures } =
            start_state;
        self.bot.id = your_player_id;
        if let Some(team) = find_team(&players, your_player_id) {
            self.bot.team = team;
        }
        if let Some(other) = find_other(&players, your_player_id) {
            self.opponent.id = other;
        }
        if let Some(team) = find_team(&players, self.opponent.id) {
            self.opponent.team = team;
        }

        // resolve the map's sub-slots against the structures' positions
        let ghost t0 = self.locations@;
        let mut old_table: Vec<LocationPosition> = Vec::new();
        std::mem::swap(&mut self.locations, &mut old_table);
        let mut table: Vec<LocationPosition> = Vec::new();
        let mut i: usize = 0;
        while i < old_table.len()
            invariant
                old_table@.len() == t0.len(),
                i <= t0.len(),
                forall|k: int| i <= k < t0.len() ==> old_table@[k] == t0[k],
                table@.len() == i,
                forall|k: int|
                    0 <= k < i ==> location_resolved(
                        t0[k],
                        #[trigger] table@[k],
                        power_slots@,
                        token_slots@,
                    ),
            decreases t0.len() - i,
        {
            let mut entry = LocationPosition { token: None, powers: Vec::new() };
            old_table.set_and_swap(i, &mut entry);
            let resolved = resolve_location(&entry, &power_slots, &token_slots);
            table.push(resolved);
            i = i + 1;
        }
        self.locations = table;
        proof {
            assert forall|k: int| 0 <= k < self.locations@.len() implies (
            #[trigger] self.locations@[k]).wf() by {
                assert(location_resolved(t0[k], self.locations@[k], power_slots@, token_slots@));
                assert(t0[k].wf());
            }
        }

        let bot_id = self.bot.id;
        let opp_id = self.opponent.id;
        let (bot_token, opp_token) = find_start_tokens(&token_slots, bot_id, opp_id);
        if bot_token.is_some() {
            self.bot.start_token = bot_token;
        }
        if opp_token.is_some() {
            self.opponent.start_token = opp_token;
        }
        let mut bot_new: Vec<EntityId> = Vec::new();
        let mut opp_new: Vec<EntityId> = Vec::new();
        assign(
            &mut self.bot.power_slots,
            &mut bot_new,
            &mut self.opponent.power_slots,
            &mut opp_new,
            bot_id,
            opp_id,
            power_slots,
        );
        let mut bot_new_tokens: Vec<EntityId> = Vec::new();
        let mut opp_new_tokens: Vec<EntityId> = Vec::new();
        assign(
            &mut self.bot.token_slots,
            &mut bot_new_tokens,
            &mut self.opponent.token_slots,
            &mut opp_new_tokens,
            bot_id,
            opp_id,
            token_slots,
        );

        // the side holding the northern orb started in the north
        let north = self.locations[Location::North.index()].token;
        if let Some(t) = north {
            if let Some(north_id) = t.entity_id {
                if self.bot.find_token_slot(north_id).is_some() {
                    self.bot.start_location = Location::North;
                    self.opponent.start_location = Location::South;
                } else if self.opponent.find_token_slot(north_id).is_some() {
                    self.bot.start_location = Location::South;
                    self.opponent.start_location = Location::North;
                }
            }
        }
        self.figures = figures;
    }

    /// Folds the snapshot of a tick into the view: advances the tick, clears
    /// the delta sets, reads the resources, records new, dead, built and
    /// destroyed entities, and recomputes tempo.
    pub fn parse_state(&mut self, state: GameState)
        requires
            old(self).wf(),
        ensures
            state_parsed(*old(self), *final(self), state),
    {
        let GameState { current_tick, players, squads, power_slots, token_slots, figures } = state;
        self.current_tick = Some(current_tick);

        self.bot.new_squad_ids.clear();
        self.opponent.new_squad_ids.clear();
        self.bot.dead_squad_ids.clear();
        self.opponent.dead_squad_ids.clear();
        self.bot.new_power_slot_ids.clear();
        self.opponent.new_power_slot_ids.clear();
        self.bot.new_token_slot_ids.clear();
        self.opponent.new_token_slot_ids.clear();
        self.bot.destroyed_power_slot_ids.clear();
        self.opponent.destroyed_power_slot_ids.clear();
        self.bot.destroyed_token_slot_ids.clear();
        self.opponent.destroyed_token_slot_ids.clear();

        let (bot_power, bot_void, opp_power, opp_void) = read_powers(
            &players,
            &self.bot,
            &self.opponent,
        );
        self.bot.power = bot_power;
        self.bot.void_power = bot_void;
        self.opponent.power = opp_power;
        self.opponent.void_power = opp_void;

        let bot_id = self.bot.id;
        let opp_id = self.opponent.id;

        // squads that the snapshot no longer lists died
        update_entities(
            &mut self.bot.squads,
            &mut self.bot.new_squad_ids,
            &mut self.bot.dead_squad_ids,
            &mut self.opponent.squads,
            &mut self.opponent.new_squad_ids,
            &mut self.opponent.dead_squad_ids,
            bot_id,
            opp_id,
            squads,
            true,
        );
        // structures that the snapshot lists as owned by nobody were destroyed
        update_entities(
            &mut self.bot.power_slots,
            &mut self.bot.new_power_slot_ids,
            &mut self.bot.destroyed_power_slot_ids,
            &mut self.opponent.power_slots,
            &mut self.opponent.new_power_slot_ids,
            &mut self.opponent.destroyed_power_slot_ids,
            bot_id,
            opp_id,
            power_slots,
            false,
        );
        update_entities(
            &mut self.bot.token_slots,
            &mut self.bot.new_token_slot_ids,
            &mut self.bot.destroyed_token_slot_ids,
            &mut self.opponent.token_slots,
            &mut self.opponent.new_token_slot_ids,
            &mut self.opponent.destroyed_token_slot_ids,
            bot_id,
            opp_id,
            token_slots,
            false,
        );

        self.figures = figures;
        self.bot.tempo = self.bot.get_tempo();
        self.opponent.tempo = self.opponent.get_tempo();
    }
}


/// Distance within which the bot's squads count as present at an area.
pub const GROUND_PRESENCE_MIN_DIST: u32 = 5 * 1000;

/// Game ticks per second.
pub const TICKS_PER_SECOND: u32 = 10;

/// The indices, in order, of the first `n` squads of `s` that stand strictly
/// closer to `center` than `radius`.
pub open spec fn squads_in_range(s: Seq<Squad>, center: Position2D, radius: u32, n: int) -> Seq<
    int,
>
    decreases n,
{
    if n <= 0 {
        Seq::empty()
    } else {
        let prev = squads_in_range(s, center, radius, n - 1);
        if in_radius(center, s[n - 1].position, radius) {
            prev.push(n - 1)
        } else {
            prev
        }
    }
}

/// Whether one of the bot's squads stands at the area `loc`.
pub open spec fn ground_presence(gi: GameInfo, loc: Location) -> bool {
    exists|k: int|
        0 <= k < gi.bot.squads@.len() && in_radius(
            location_center(gi.locations@[loc.spec_index()]),
            #[trigger] gi.bot.squads@[k].position,
            GROUND_PRESENCE_MIN_DIST,
        )
}

/// Whether the match has run for at least `seconds`.
pub open spec fn seconds_passed(gi: GameInfo, seconds: u32) -> bool {
    gi.current_tick matches Some(t) && t >= seconds * TICKS_PER_SECOND
}

/// Saturating addition in `u64`.
pub open spec fn sat_add(a: int, b: int) -> int {
    if a + b > u64::MAX {
        u64::MAX as int
    } else {
        a + b
    }
}

/// Hit points (current, maximum, and whether any figure was found) of the
/// figures of `world` whose id is `fid`, summed with saturation.
pub open spec fn figure_health(world: Seq<Figure>, fid: EntityId) -> (int, int, bool)
    decreases world.len(),
{
    if world.len() == 0 {
        (0, 0, false)
    } else {
        let prev = figure_health(world.drop_last(), fid);
        let f = world.last();
        if f.id == fid {
            match f.health {
                Some(h) => (sat_add(prev.0, h.current as int), sat_add(prev.1, h.max as int), true),
                None => (prev.0, prev.1, true),
            }
        } else {
            prev
        }
    }
}

/// Hit points of a group of figure ids, summed with saturation.
pub open spec fn group_health(world: Seq<Figure>, fids: Seq<EntityId>) -> (int, int, bool)
    decreases fids.len(),
{
    if fids.len() == 0 {
        (0, 0, false)
    } else {
        let prev = group_health(world, fids.drop_last());
        let h = figure_health(world, fids.last());
        (sat_add(prev.0, h.0), sat_add(prev.1, h.1), prev.2 || h.2)
    }
}

/// The squad `id` of either side, the bot's first.
pub open spec fn squad_of(gi: GameInfo, id: EntityId) -> Option<Squad> {
    if gi.bot.holds_squad(id) {
        Some(gi.bot.squads@[ids_of(gi.bot.squads@).index_of(id)])
    } else if gi.opponent.holds_squad(id) {
        Some(gi.opponent.squads@[ids_of(gi.opponent.squads@).index_of(id)])
    } else {
        None
    }
}

/// Current and maximum health of a squad: the sums over its figures, or 0/0
/// (unknown) when the squad or all of its figures are missing.
pub open spec fn squad_health(gi: GameInfo, id: EntityId) -> (int, int) {
    match squad_of(gi, id) {
        Some(q) => {
            let h = group_health(gi.figures@, q.figures@);
            if h.2 {
                (h.0, h.1)
            } else {
                (0, 0)
            }
        },
        None => (0, 0),
    }
}

proof fn lemma_index_of_unique(s: Seq<EntityId>, k: int)
    requires
        s.no_duplicates(),
        0 <= k < s.len(),
    ensures
        s.contains(s[k]),
        s.index_of(s[k]) == k,
{
    assert(s.contains(s[k]));
    let j = s.index_of(s[k]);
    assert(s[j] == s[k]);
}

impl GameInfo {
    /// The opponent's squads strictly closer to `center` than `radius`, as
    /// indices into its view, in order (which is ascending order of id).
    pub fn get_enemy_squads_in_range(&self, center: &Position2D, radius: u32) -> (r: Vec<usize>)
        ensures
            r@.map_values(|k: usize| k as int) == squads_in_range(
                self.opponent.squads@,
                *center,
                radius,
                self.opponent.squads@.len() as int,
            ),
            forall|k: int| 0 <= k < r@.len() ==> r@[k] < self.opponent.squads@.len(),
            forall|a: int, b: int| 0 <= a < b < r@.len() ==> r@[a] < r@[b],
            self.opponent.wf() ==> forall|a: int, b: int|
                0 <= a < b < r@.len() ==> (#[trigger] self.opponent.squads@[r@[a] as int]).id.0
                    < (#[trigger] self.opponent.squads@[r@[b] as int]).id.0,
    {
        let mut r: Vec<usize> = Vec::new();
        let mut i: usize = 0;
        while i < self.opponent.squads.len()
            invariant
                i <= self.opponent.squads@.len(),
                r@.map_values(|k: usize| k as int) == squads_in_range(
                    self.opponent.squads@,
                    *center,
                    radius,
                    i as int,
                ),
                forall|k: int| 0 <= k < r@.len() ==> r@[k] < i,
                forall|a: int, b: int| 0 <= a < b < r@.len() ==> r@[a] < r@[b],
            decreases self.opponent.squads@.len() - i,
        {
            let ghost r0 = r@;
            if within(center, &self.opponent.squads[i].position, radius) {
                r.push(i);
                proof {
                    assert(r@.map_values(|k: usize| k as int) =~= r0.map_values(|k: usize| k as int).push(
                        i as int,
                    ));
                }
            }
            i = i + 1;
        }
        r
    }

    /// Whether one of the bot's squads stands at the area `location`.
    pub fn has_ground_presence(&self, location: &Location) -> (r: bool)
        requires
            self.wf(),
        ensures
            r == ground_presence(*self, *location),
    {
        let loc_pos = self.locations[location.index()].position();
        let mut i: usize = 0;
        while i < self.bot.squads.len()
            invariant
                self.wf(),
                loc_pos == location_center(self.locations@[location.spec_index()]),
                i <= self.bot.squads@.len(),
                forall|k: int|
                    0 <= k < i ==> !in_radius(
                        loc_pos,
                        #[trigger] self.bot.squads@[k].position,
                        GROUND_PRESENCE_MIN_DIST,
                    ),
            decreases self.bot.squads@.len() - i,
        {
            if within(&loc_pos, &self.bot.squads[i].position, GROUND_PRESENCE_MIN_DIST) {
                return true;
            }
            i = i + 1;
        }
        false
    }

    fn figure_health_of(&self, fid: EntityId) -> (r: (u64, u64, bool))
        ensures
            (r.0 as int, r.1 as int, r.2) == figure_health(self.figures@, fid),
    {
        let mut cur: u64 = 0;
        let mut max: u64 = 0;
        let mut found = false;
        let mut i: usize = 0;
        while i < self.figures.len()
            invariant
                i <= self.figures@.len(),
                (cur as int, max as int, found) == figure_health(
                    self.figures@.subrange(0, i as int),
                    fid,
                ),
            decreases self.figures@.len() - i,
        {
            proof {
                assert(self.figures@.subrange(0, i + 1).drop_last() =~= self.figures@.subrange(
                    0,
                    i as int,
                ));
            }
            let f = self.figures[i];
            if f.id == fid {
                found = true;
                if let Some(h) = f.health {
                    cur = cur.saturating_add(h.current as u64);
                    max = max.saturating_add(h.max as u64);
                }
            }
            i = i + 1;
        }
        proof {
            assert(self.figures@.subrange(0, self.figures@.len() as int) =~= self.figures@);
        }
        (cur, max, found)
    }

    /// Current and maximum health of the squad `entity_id`; 0/0 when unknown.
    pub fn get_squad_health(&self, entity_id: &EntityId) -> (r: (u64, u64))
        requires
            self.wf(),
        ensures
            (r.0 as int, r.1 as int) == squad_health(*self, *entity_id),
    {
        let figures: &Vec<EntityId>;
        if let Some(k) = self.bot.find_squad(*entity_id) {
            proof {
                lemma_index_of_unique(ids_of(self.bot.squads@), k as int);
            }
            figures = &self.bot.squads[k].figures;
        } else if let Some(k) = self.opponent.find_squad(*entity_id) {
            proof {
                lemma_index_of_unique(ids_of(self.opponent.squads@), k as int);
            }
            figures = &self.opponent.squads[k].figures;
        } else {
            return (0, 0);
        }
        let mut cur: u64 = 0;
        let mut max: u64 = 0;
        let mut found = false;
        let mut i: usize = 0;
        while i < figures.len()
            invariant
                i <= figures@.len(),
                (cur as int, max as int, found) == group_health(
                    self.figures@,
                    figures@.subrange(0, i as int),
                ),
            decreases figures@.len() - i,
        {
            proof {
                assert(figures@.subrange(0, i + 1).drop_last() =~= figures@.subrange(0, i as int));
            }
            let h = self.figure_health_of(figures[i]);
            cur = cur.saturating_add(h.0);
            max = max.saturating_add(h.1);
            found = found || h.2;
            i = i + 1;
        }
        proof {
            assert(figures@.subrange(0, figures@.len() as int) =~= figures@);
        }
        if found {
            (cur, max)
        } else {
            (0, 0)
        }
    }

    /// Wells of the bot minus wells of the opponent.
    pub fn power_slot_diff(&self) -> (r: i128)
        ensures
            r == self.bot.power_slots@.len() - self.opponent.power_slots@.len(),
    {
        self.bot.power_slots.len() as i128 - self.opponent.power_slots.len() as i128
    }

    /// Orbs of the bot minus orbs of the opponent.
    pub fn token_slot_diff(&self) -> (r: i128)
        ensures
            r == self.bot.token_slots@.len() - self.opponent.token_slots@.len(),
    {
        self.bot.token_slots.len() as i128 - self.opponent.token_slots.len() as i128
    }

    /// Whether the match has run for at least `seconds`.
    pub fn seconds_have_passed(&self, seconds: u32) -> (r: bool)
        ensures
            r == seconds_passed(*self, seconds),
    {
        assert(seconds * TICKS_PER_SECOND <= u32::MAX * 10) by (nonlinear_arith)
            requires
                seconds <= u32::MAX,
                TICKS_PER_SECOND == 10,
        ;
        match self.current_tick {
            Some(t) => t as u64 >= seconds as u64 * TICKS_PER_SECOND as u64,
            None => false,
        }
    }
}


/// The health of the structure `id` of either side: wells before orbs, the
/// bot's before the opponent's; 0/0 when it or its health is unknown.
pub open spec fn structure_health(gi: GameInfo, id: EntityId) -> (u32, u32) {
    let h = if gi.bot.holds_power_slot(id) {
        gi.bot.power_slots@[ids_of(gi.bot.power_slots@).index_of(id)].health
    } else if gi.opponent.holds_power_slot(id) {
        gi.opponent.power_slots@[ids_of(gi.opponent.power_slots@).index_of(id)].health
    } else if gi.bot.holds_token_slot(id) {
        gi.bot.token_slots@[ids_of(gi.bot.token_slots@).index_of(id)].health
    } else if gi.opponent.holds_token_slot(id) {
        gi.opponent.token_slots@[ids_of(gi.opponent.token_slots@).index_of(id)].health
    } else {
        None
    };
    match h {
        Some(h) => (h.current, h.max),
        None => (0, 0),
    }
}

/// Index of the entity among the first `n` of `s` that is nearest to `pos`;
/// the earliest one on ties.
pub open spec fn closest_in<T: Entity>(s: Seq<T>, pos: Position2D, n: int) -> Option<int>
    decreases n,
{
    if n <= 0 {
        None
    } else {
        match closest_in(s, pos, n - 1) {
            None => Some(n - 1),
            Some(k) => if dist_sq(pos, s[n - 1].spec_position()) < dist_sq(
                pos,
                s[k].spec_position(),
            ) {
                Some(n - 1)
            } else {
                Some(k)
            },
        }
    }
}

/// The side's structure nearest to `pos`: its nearest well, or, when it has
/// no well, its nearest orb.
pub open spec fn closest_slot(p: PlayerInfo, pos: Position2D) -> Option<EntityId> {
    match closest_in(p.power_slots@, pos, p.power_slots@.len() as int) {
        Some(k) => Some(p.power_slots@[k].id),
        None => match closest_in(p.token_slots@, pos, p.token_slots@.len() as int) {
            Some(k) => Some(p.token_slots@[k].id),
            None => None,
        },
    }
}

proof fn lemma_closest_in_bounds<T: Entity>(s: Seq<T>, pos: Position2D, n: int)
    ensures
        closest_in(s, pos, n) matches Some(k) ==> 0 <= k < n,
        n > 0 ==> closest_in(s, pos, n) is Some,
    decreases n,
{
    if n > 0 {
        lemma_closest_in_bounds(s, pos, n - 1);
    }
}

/// The nearest structure of a side is one the side holds, and there is one
/// whenever the side holds any structure.
pub proof fn lemma_closest_slot_held(p: PlayerInfo, pos: Position2D)
    ensures
        closest_slot(p, pos) matches Some(id) ==> p.holds_power_slot(id) || p.holds_token_slot(id),
        p.power_slots@.len() > 0 || p.token_slots@.len() > 0 ==> closest_slot(p, pos) is Some,
{
    lemma_closest_in_bounds(p.power_slots@, pos, p.power_slots@.len() as int);
    lemma_closest_in_bounds(p.token_slots@, pos, p.token_slots@.len() as int);
    match closest_in(p.power_slots@, pos, p.power_slots@.len() as int) {
        Some(k) => {
            assert(ids_of(p.power_slots@)[k] == p.power_slots@[k].id);
        },
        None => match closest_in(p.token_slots@, pos, p.token_slots@.len() as int) {
            Some(k) => {
                assert(ids_of(p.token_slots@)[k] == p.token_slots@[k].id);
            },
            None => {},
        },
    }
}

fn find_closest<T: Entity>(s: &Vec<T>, pos: &Position2D) -> (r: Option<usize>)
    ensures
        r matches Some(k) ==> k < s@.len(),
        (match r {
            Some(k) => closest_in(s@, *pos, s@.len() as int) == Some(k as int),
            None => closest_in(s@, *pos, s@.len() as int) is None,
        }),
{
    let mut best: Option<usize> = None;
    let mut best_dist: u128 = 0;
    let mut i: usize = 0;
    while i < s.len()
        invariant
            i <= s@.len(),
            (match best {
                Some(k) => k < i && closest_in(s@, *pos, i as int) == Some(k as int) && best_dist
                    == dist_sq(*pos, s@[k as int].spec_position()),
                None => closest_in(s@, *pos, i as int) is None,
            }),
        decreases s@.len() - i,
    {
        let d = dist_squared(pos, &s[i].entity_position());
        match best {
            None => {
                best = Some(i);
                best_dist = d;
            },
            Some(_) => {
                if d < best_dist {
                    best = Some(i);
                    best_dist = d;
                }
            },
        }
        i = i + 1;
    }
    best
}

impl GameInfo {
    /// Current and maximum health of a structure; 0/0 when unknown.
    pub fn get_structure_health(&self, entity_id: &EntityId) -> (r: (u32, u32))
        requires
            self.wf(),
        ensures
            r == structure_health(*self, *entity_id),
    {
        let health: Option<Health>;
        if let Some(k) = self.bot.find_power_slot(*entity_id) {
            proof {
                lemma_index_of_unique(ids_of(self.bot.power_slots@), k as int);
            }
            health = self.bot.power_slots[k].health;
        } else if let Some(k) = self.opponent.find_power_slot(*entity_id) {
            proof {
                lemma_index_of_unique(ids_of(self.opponent.power_slots@), k as int);
            }
            health = self.opponent.power_slots[k].health;
        } else if let Some(k) = self.bot.find_token_slot(*entity_id) {
            proof {
                lemma_index_of_unique(ids_of(self.bot.token_slots@), k as int);
            }
            health = self.bot.token_slots[k].health;
        } else if let Some(k) = self.opponent.find_token_slot(*entity_id) {
            proof {
                lemma_index_of_unique(ids_of(self.opponent.token_slots@), k as int);
            }
            health = self.opponent.token_slots[k].health;
        } else {
            health = None;
        }
        match health {
            Some(h) => (h.current, h.max),
            None => (0, 0),
        }
    }
}

impl PlayerInfo {
    /// The side's structure nearest to `pos` (wells first, then orbs).
    pub fn get_closest_slot(&self, pos: &Position2D) -> (r: Option<EntityId>)
        ensures
            r == closest_slot(*self, *pos),
    {
        if let Some(k) = find_closest(&self.power_slots, pos) {
            return Some(self.power_slots[k].id);
        }
        if let Some(k) = find_closest(&self.token_slots, pos) {
            return Some(self.token_slots[k].id);
        }
        None
    }
}


/// The squads of a snapshot that `side` owns, in snapshot order.
pub open spec fn owned_squads(snap: Seq<Squad>, side: EntityId) -> Seq<Squad>
    decreases snap.len(),
{
    if snap.len() == 0 {
        Seq::empty()
    } else {
        let prev = owned_squads(snap.drop_last(), side);
        if snap.last().player == Some(side) {
            prev.push(snap.last())
        } else {
            prev
        }
    }
}

proof fn lemma_owned_squads(snap: Seq<Squad>, side: EntityId)
    requires
        ids_of(snap).no_duplicates(),
    ensures
        ids_of(owned_squads(snap, side)).no_duplicates(),
        forall|x: Squad|
            #[trigger] owned_squads(snap, side).contains(x) == (snap.contains(x) && x.player == Some(
                side,
            )),
    decreases snap.len(),
{
    if snap.len() > 0 {
        let d = snap.drop_last();
        assert(ids_of(d) =~= ids_of(snap).drop_last());
        assert(ids_of(d).no_duplicates()) by {
            assert forall|i: int, j: int|
                0 <= i < ids_of(d).len() && 0 <= j < ids_of(d).len() && i != j implies ids_of(d)[i]
                != ids_of(d)[j] by {
                assert(ids_of(d)[i] == ids_of(snap)[i] && ids_of(d)[j] == ids_of(snap)[j]);
            }
        }
        lemma_owned_squads(d, side);
        let prev = owned_squads(d, side);
        let x = snap.last();
        assert(snap =~= d.push(x));
        lemma_push_contains(d, x);
        if x.player == Some(side) {
            lemma_push_contains(prev, x);
            assert(ids_of(prev.push(x)) =~= ids_of(prev).push(x.id));
            assert(!ids_of(prev).contains(x.id)) by {
                if ids_of(prev).contains(x.id) {
                    let k = choose|k: int| 0 <= k < ids_of(prev).len() && ids_of(prev)[k] == x.id;
                    assert(prev.contains(prev[k]));
                    assert(d.contains(prev[k]));
                    let m = choose|m: int| 0 <= m < d.len() && d[m] == prev[k];
                    assert(ids_of(snap)[m] == ids_of(snap)[snap.len() - 1]);
                }
            }
            lemma_push_no_duplicates(ids_of(prev), x.id);
        }
    }
}

proof fn lemma_sum_remove(s: Seq<Squad>, i: int)
    requires
        0 <= i < s.len(),
    ensures
        bound_power_sum(s) == bound_power_sum(s.remove(i)) + s[i].bound_power,
    decreases s.len(),
{
    if i == s.len() - 1 {
        assert(s.remove(i) =~= s.drop_last());
    } else {
        lemma_sum_remove(s.drop_last(), i);
        assert(s.remove(i).drop_last() =~= s.drop_last().remove(i));
        assert(s.remove(i).last() == s.last());
    }
}

proof fn lemma_remove_no_duplicates(s: Seq<Squad>, i: int)
    requires
        0 <= i < s.len(),
        ids_of(s).no_duplicates(),
    ensures
        ids_of(s.remove(i)).no_duplicates(),
        forall|y: Squad| #[trigger] s.remove(i).contains(y) == (s.contains(y) && y != s[i]),
{
    let r = s.remove(i);
    assert forall|a: int, b: int| 0 <= a < ids_of(r).len() && 0 <= b < ids_of(r).len() && a != b implies ids_of(r)[a] != ids_of(r)[b] by {
        let a2 = if a < i { a } else { a + 1 };
        let b2 = if b < i { b } else { b + 1 };
        assert(r[a] == s[a2] && r[b] == s[b2]);
        assert(ids_of(s)[a2] != ids_of(s)[b2]);
    }
    assert forall|y: Squad| #[trigger] r.contains(y) == (s.contains(y) && y != s[i]) by {
        if r.contains(y) {
            let a = choose|a: int| 0 <= a < r.len() && r[a] == y;
            let a2 = if a < i { a } else { a + 1 };
            assert(s[a2] == y);
            assert(ids_of(s)[a2] != ids_of(s)[i]);
        }
        if s.contains(y) && y != s[i] {
            let a = choose|a: int| 0 <= a < s.len() && s[a] == y;
            if a < i {
                assert(r[a] == y);
            } else {
                assert(r[a - 1] == y);
            }
        }
    }
}

proof fn lemma_sum_same_squads(a: Seq<Squad>, b: Seq<Squad>)
    requires
        ids_of(a).no_duplicates(),
        ids_of(b).no_duplicates(),
        forall|x: Squad| #[trigger] a.contains(x) == b.contains(x),
    ensures
        bound_power_sum(a) == bound_power_sum(b),
    decreases a.len(),
{
    if a.len() == 0 {
        if b.len() > 0 {
            assert(b.contains(b[0]));
            assert(a.contains(b[0]));
        }
        assert(b.len() == 0);
    } else {
        let x = a.last();
        assert(a.contains(x));
        let j = choose|j: int| 0 <= j < b.len() && b[j] == x;
        let a2 = a.drop_last();
        let b2 = b.remove(j);
        lemma_remove_no_duplicates(a, a.len() - 1);
        assert(a.remove(a.len() - 1) =~= a2);
        lemma_remove_no_duplicates(b, j);
        lemma_sum_remove(b, j);
        assert forall|y: Squad| #[trigger] a2.contains(y) == b2.contains(y) by {
            assert(a.remove(a.len() - 1).contains(y) == (a.contains(y) && y != a[a.len() - 1]));
            assert(b2.contains(y) == (b.contains(y) && y != b[j]));
            assert(a.contains(y) == b.contains(y));
        }
        lemma_sum_same_squads(a2, b2);
        assert(a2.len() + 1 == a.len());
        assert(a.drop_last() == a2);
    }
}

/// Tempo carries nothing over from earlier ticks, and no record of earlier
/// snapshots counts: after an update with a snapshot whose squad ids are
/// unique, a side's tempo is the power and void power the snapshot gives it,
/// plus the power bound in the snapshot's squads that the side owns.
pub proof fn lemma_tempo_from_snapshot(
    old_p: PlayerInfo,
    new_p: PlayerInfo,
    state: GameState,
    before: Option<EntityId>,
    ps: PlayerState,
)
    requires
        side_updated(old_p, new_p, state, before),
        before != Some(old_p.id),
        ids_of(state.squads@).no_duplicates(),
        latest_player(state.players@, old_p.id) == Some(ps),
    ensures
        new_p.tempo == ps.power + bound_power_sum(owned_squads(state.squads@, old_p.id))
            - ps.void_power,
{
    let snap = state.squads@;
    let side = old_p.id;
    let v = new_p.squads@;
    let o = owned_squads(snap, side);
    lemma_owned_squads(snap, side);
    assert forall|x: Squad| #[trigger] v.contains(x) == o.contains(x) by {
        if v.contains(x) {
            let k = choose|k: int| 0 <= k < v.len() && v[k] == x;
            assert(ids_of(v)[k] == x.id);
            assert(new_p.holds_squad(x.id));
            assert(listed_for(snap, x.id, side));
            let j0 = choose|j: int| 0 <= j < snap.len() && (#[trigger] snap[j]).spec_id() == x.id && snap[j].spec_player() == Some(side);
            assert(claimed(snap, x.id, side, before));
            assert(record_from(v[k], snap, side, before, old_p.squads@));
            let j = choose|j: int|
                0 <= j < snap.len() && snap[j] == x && goes_to(#[trigger] snap[j].spec_player(), side, before);
            assert(snap.contains(x));
        }
        if o.contains(x) {
            assert(snap.contains(x));
            let j = choose|j: int| 0 <= j < snap.len() && snap[j] == x;
            assert(snap[j].spec_id() == x.id);
            assert(listed_for(snap, x.id, side));
            assert(claimed(snap, x.id, side, before));
            assert(new_p.holds_squad(x.id));
            let k = choose|k: int| 0 <= k < ids_of(v).len() && ids_of(v)[k] == x.id;
            assert(record_from(v[k], snap, side, before, old_p.squads@));
            let j2 = choose|j2: int|
                0 <= j2 < snap.len() && snap[j2] == v[k] && goes_to(#[trigger] snap[j2].spec_player(), side, before);
            assert(ids_of(snap)[j2] == ids_of(snap)[j]);
            assert(v[k] == x);
        }
    }
    lemma_sum_same_squads(v, o);
}

} // verus!
