//! Threat ranking of enemy squads, and the most frequent element of a list.
use vstd::prelude::*;

use crate::card_data::lookup_card_info;
use crate::game_info::{GameInfo, Squad, squad_health};
use crate::geometry::{Position2D, dist_sq, dist_squared};

verus! {

/// How dangerous a target is; lower keys rank first.
#[derive(Debug, Clone, Copy, PartialEq, Eq, Structural)]
pub struct ThreatKey {
    /// Attack class: the lower, the more dangerous.
    pub class: u8,
    /// Current hit points.
    pub health_cur: u64,
    /// Maximum hit points; 0 when unknown.
    pub health_max: u64,
    /// Squared distance to the observer.
    pub dist: u128,
}

/// Health fraction `a` is lower than `b`. An unknown fraction (maximum 0)
/// ranks after every known one.
pub open spec fn health_lt(a: ThreatKey, b: ThreatKey) -> bool {
    if a.health_max == 0 {
        false
    } else if b.health_max == 0 {
        true
    } else {
        a.health_cur * b.health_max < b.health_cur * a.health_max
    }
}

/// Health fractions `a` and `b` are equal (or both unknown).
pub open spec fn health_eq(a: ThreatKey, b: ThreatKey) -> bool {
    !health_lt(a, b) && !health_lt(b, a)
}

/// The lexicographic order on keys: class, then health fraction, then distance.
pub open spec fn key_lt(a: ThreatKey, b: ThreatKey) -> bool {
    a.class < b.class || (a.class == b.class && (health_lt(a, b) || (health_eq(a, b) && a.dist
        < b.dist)))
}

/// Where candidate `i` goes in `order` (a ranking of earlier candidates): before
/// the first one whose key it is strictly lower than, from position `p` on.
pub open spec fn insert_pos(order: Seq<int>, keys: Seq<ThreatKey>, i: int, p: int) -> int
    decreases order.len() - p,
{
    if p < 0 || p >= order.len() {
        order.len() as int
    } else if key_lt(keys[i], keys[order[p]]) {
        p
    } else {
        insert_pos(order, keys, i, p + 1)
    }
}

/// The ranking of the first `n` candidates: a stable sort of their indices by key.
pub open spec fn threat_order_prefix(keys: Seq<ThreatKey>, n: int) -> Seq<int>
    decreases n,
{
    if n <= 0 {
        Seq::empty()
    } else {
        let prev = threat_order_prefix(keys, n - 1);
        prev.insert(insert_pos(prev, keys, n - 1, 0), n - 1)
    }
}

/// The ranking of all candidates, most threatening first.
pub open spec fn threat_order(keys: Seq<ThreatKey>) -> Seq<int> {
    threat_order_prefix(keys, keys.len() as int)
}

/// Ranking the same candidates twice gives the same order: the ranking is a
/// function of the keys alone, ties broken by the candidates' positions.
pub proof fn lemma_threat_order_deterministic(a: Seq<ThreatKey>, b: Seq<ThreatKey>)
    requires
        a == b,
    ensures
        threat_order(a) == threat_order(b),
{
}

pub(crate) proof fn lemma_prefix_len_range(keys: Seq<ThreatKey>, n: int)
    requires
        n >= 0,
    ensures
        threat_order_prefix(keys, n).len() == n,
        forall|k: int|
            0 <= k < n ==> 0 <= #[trigger] threat_order_prefix(keys, n)[k] < n,
    decreases n,
{
    if n > 0 {
        lemma_prefix_len_range(keys, n - 1);
        let prev = threat_order_prefix(keys, n - 1);
        lemma_insert_pos_range(prev, keys, n - 1, 0);
        let p = insert_pos(prev, keys, n - 1, 0);
        let cur = prev.insert(p, n - 1);
        assert forall|k: int| 0 <= k < n implies 0 <= #[trigger] cur[k] < n by {
            if k < p {
                assert(cur[k] == prev[k]);
            } else if k > p {
                assert(cur[k] == prev[k - 1]);
            }
        }
    }
}

proof fn lemma_insert_pos_range(order: Seq<int>, keys: Seq<ThreatKey>, i: int, p: int)
    requires
        0 <= p <= order.len(),
    ensures
        p <= insert_pos(order, keys, i, p) <= order.len(),
    decreases order.len() - p,
{
    if p < order.len() && !key_lt(keys[i], keys[order[p]]) {
        lemma_insert_pos_range(order, keys, i, p + 1);
    }
}

/// The first of a non-empty ranking is one of the candidates.
pub(crate) proof fn lemma_threat_order_first(keys: Seq<ThreatKey>)
    requires
        keys.len() > 0,
    ensures
        0 <= threat_order(keys)[0] < keys.len(),
{
    lemma_prefix_len_range(keys, keys.len() as int);
}

/// Ranks candidates by their keys, most threatening first (ties keep the
/// candidates' order).
pub fn rank_threats(keys: &Vec<ThreatKey>) -> (r: Vec<usize>)
    ensures
        r@.map_values(|k: usize| k as int) == threat_order(keys@),
        r@.len() == keys@.len(),
        forall|k: int| 0 <= k < r@.len() ==> r@[k] < keys@.len(),
{
    let mut order: Vec<usize> = Vec::new();
    let mut i: usize = 0;
    while i < keys.len()
        invariant
            i <= keys@.len(),
            order@.map_values(|k: usize| k as int) == threat_order_prefix(keys@, i as int),
        decreases keys@.len() - i,
    {
        proof {
            lemma_prefix_len_range(keys@, i as int);
        }
        let ghost prev = threat_order_prefix(keys@, i as int);
        let mut p: usize = 0;
        while p < order.len() && !key_less(&keys[i], &keys[order[p]])
            invariant
                i < keys@.len(),
                order@.map_values(|k: usize| k as int) == prev,
                prev.len() == i,
                forall|k: int| 0 <= k < i ==> 0 <= #[trigger] prev[k] < i,
                p <= order@.len(),
                insert_pos(prev, keys@, i as int, 0) == insert_pos(prev, keys@, i as int, p as int),
            decreases order@.len() - p,
        {
            p = p + 1;
        }
        order.insert(p, i);
        proof {
            assert(order@.map_values(|k: usize| k as int) =~= prev.insert(p as int, i as int));
        }
        i = i + 1;
    }
    proof {
        lemma_prefix_len_range(keys@, keys@.len() as int);
        assert forall|k: int| 0 <= k < order@.len() implies order@[k] < keys@.len() by {
            assert(order@.map_values(|k: usize| k as int)[k] == order@[k] as int);
        }
    }
    order
}

/// Whether key `a` ranks strictly before key `b`.
pub fn key_less(a: &ThreatKey, b: &ThreatKey) -> (r: bool)
    ensures
        r == key_lt(*a, *b),
{
    if a.class != b.class {
        return a.class < b.class;
    }
    let a_lt_b = health_less(a, b);
    if a_lt_b {
        return true;
    }
    if health_less(b, a) {
        return false;
    }
    a.dist < b.dist
}

fn health_less(a: &ThreatKey, b: &ThreatKey) -> (r: bool)
    ensures
        r == health_lt(*a, *b),
{
    if a.health_max == 0 {
        false
    } else if b.health_max == 0 {
        true
    } else {
        proof {
            lemma_mul_fits(a.health_cur, b.health_max);
            lemma_mul_fits(b.health_cur, a.health_max);
        }
        (a.health_cur as u128) * (b.health_max as u128) < (b.health_cur as u128) * (
        a.health_max as u128)
    }
}

proof fn lemma_mul_fits(x: u64, y: u64)
    ensures
        0 <= x * y <= u128::MAX,
{
    assert(0 <= x * y <= u128::MAX) by (nonlinear_arith)
        requires
            0 <= x <= u64::MAX,
            0 <= y <= u64::MAX,
    ;
}

/// Threat key of a target when defending: siege units first, then melee, then
/// ranged; then lower health; then nearer.
pub open spec fn defending_key(gi: GameInfo, own_pos: Position2D, target: Squad) -> ThreatKey {
    let info = lookup_card_info(gi.card_data.data@, target.card_id);
    let h = squad_health(gi, target.id);
    ThreatKey {
        class: if info.siege {
            0
        } else if info.melee {
            1
        } else {
            2
        },
        health_cur: h.0 as u64,
        health_max: h.1 as u64,
        dist: dist_sq(own_pos, target.position) as u128,
    }
}

/// Threat key of a target when attacking: melee units first; then lower
/// health; then nearer.
pub open spec fn attacking_key(gi: GameInfo, own_pos: Position2D, target: Squad) -> ThreatKey {
    let info = lookup_card_info(gi.card_data.data@, target.card_id);
    let h = squad_health(gi, target.id);
    ThreatKey {
        class: if info.melee {
            0
        } else {
            1
        },
        health_cur: h.0 as u64,
        health_max: h.1 as u64,
        dist: dist_sq(own_pos, target.position) as u128,
    }
}

pub fn threat_scores_defending(own_pos: &Position2D, target: &Squad, game_info: &GameInfo) -> (r:
    ThreatKey)
    requires
        game_info.wf(),
    ensures
        r == defending_key(*game_info, *own_pos, *target),
{
    let info = game_info.card_data.card_info(target.card_id);
    let class: u8 = if info.siege {
        0
    } else if info.melee {
        1
    } else {
        2
    };
    let (cur, max) = game_info.get_squad_health(&target.id);
    ThreatKey { class, health_cur: cur, health_max: max, dist: dist_squared(own_pos, &target.position) }
}

pub fn threat_scores_attacking(own_pos: &Position2D, target: &Squad, game_info: &GameInfo) -> (r:
    ThreatKey)
    requires
        game_info.wf(),
    ensures
        r == attacking_key(*game_info, *own_pos, *target),
{
    let info = game_info.card_data.card_info(target.card_id);
    let class: u8 = if info.melee {
        0
    } else {
        1
    };
    let (cur, max) = game_info.get_squad_health(&target.id);
    ThreatKey { class, health_cur: cur, health_max: max, dist: dist_squared(own_pos, &target.position) }
}

/// Number of occurrences of `x` in `s`.
pub open spec fn count_of(s: Seq<u32>, x: u32) -> int
    decreases s.len(),
{
    if s.len() == 0 {
        0
    } else {
        count_of(s.drop_last(), x) + if s.last() == x {
            1int
        } else {
            0int
        }
    }
}

/// `x` occurs in `s` at least as often as any other element, and is the
/// largest of those that occur as often.
pub open spec fn is_most_frequent(s: Seq<u32>, x: u32) -> bool {
    &&& s.contains(x)
    &&& forall|y: u32|
        #[trigger] s.contains(y) ==> count_of(s, y) < count_of(s, x) || (count_of(s, y)
            == count_of(s, x) && y <= x)
}

fn count_in(v: &Vec<u32>, x: u32) -> (r: usize)
    ensures
        r == count_of(v@, x),
{
    let mut c: usize = 0;
    let mut i: usize = 0;
    while i < v.len()
        invariant
            i <= v@.len(),
            c == count_of(v@.subrange(0, i as int), x),
            c <= i,
        decreases v@.len() - i,
    {
        proof {
            assert(v@.subrange(0, i + 1).drop_last() =~= v@.subrange(0, i as int));
        }
        if v[i] == x {
            c = c + 1;
        }
        i = i + 1;
    }
    proof {
        assert(v@.subrange(0, v@.len() as int) =~= v@);
    }
    c
}

/// The most frequent element (the largest of them on ties), or `None` for an
/// empty list.
pub fn most_frequent_element(v: Vec<u32>) -> (r: Option<u32>)
    ensures
        v@.len() == 0 ==> r is None,
        v@.len() > 0 ==> (r matches Some(x) && is_most_frequent(v@, x)),
{
    if v.len() == 0 {
        return None;
    }
    let mut best: u32 = v[0];
    let mut best_count: usize = count_in(&v, v[0]);
    let mut i: usize = 1;
    while i < v.len()
        invariant
            1 <= i <= v@.len(),
            v@.contains(best),
            best_count == count_of(v@, best),
            forall|j: int|
                0 <= j < i ==> count_of(v@, #[trigger] v@[j]) < best_count || (count_of(
                    v@,
                    v@[j],
                ) == best_count && v@[j] <= best),
        decreases v@.len() - i,
    {
        let c = count_in(&v, v[i]);
        if c > best_count || (c == best_count && v[i] > best) {
            best = v[i];
            best_count = c;
        }
        i = i + 1;
    }
    proof {
        assert forall|y: u32| #[trigger] v@.contains(y) implies count_of(v@, y) < count_of(v@, best)
            || (count_of(v@, y) == count_of(v@, best) && y <= best) by {
            let j = choose|j: int| 0 <= j < v@.len() && v@[j] == y;
            assert(count_of(v@, v@[j]) < best_count || (count_of(v@, v@[j]) == best_count && v@[j]
                <= best));
        }
    }
    Some(best)
}

} // verus!
