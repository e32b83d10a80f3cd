//! The utility scorer and the action selector's choice rule: rank a
//! candidate object against an agent's current motives and distance, and
//! pick the best-scoring object deterministically.

use vstd::prelude::*;

use crate::geometry::{distance_milli, spec_distance};
use crate::motives::{BasicMotives, MOTIVE_COUNT, MOTIVE_SCALE};
use crate::world::{WorldObject, WorldObjectCatalog, WorldPosition};

verus! {

/// A selection only happens when the best score strictly exceeds this
/// threshold; below it the agent stays idle (a normal outcome, not an
/// error). Tunable balance constant.
pub const MIN_UTILITY_SCORE: u64 = 10_000;

/// The distance penalty divides the raw benefit by
/// `(DISTANCE_PENALTY_BASE + distance) / DISTANCE_PENALTY_BASE`, i.e. by
/// `1 + distance` in world units.
pub const DISTANCE_PENALTY_BASE: u64 = 1000;

/// An action a fella can decide on: travel to and use the world object with
/// the given identity.
#[derive(Clone, Copy, Debug, PartialEq, Eq, Structural)]
pub enum FellaAction {
    UseObject(u64),
}

/// The weighted benefit of the first `n` channels: each channel's effect
/// counts for more the more depleted the motive is.
pub open spec fn benefit_prefix(m: Seq<int>, e: Seq<int>, n: int) -> int
    decreases n,
{
    if n <= 0 {
        0
    } else {
        benefit_prefix(m, e, n - 1) + e[n - 1] * (MOTIVE_SCALE as int - m[n - 1])
    }
}

/// The raw (distance-free) benefit of an effect against a motive vector.
pub open spec fn spec_raw_benefit(m: Seq<int>, e: Seq<int>) -> int {
    benefit_prefix(m, e, MOTIVE_COUNT as int)
}

/// The utility score: the raw benefit, floored at zero, shrunk by a penalty
/// that strictly grows with distance.
pub open spec fn spec_score(m: Seq<int>, e: Seq<int>, d: int) -> int {
    let raw = spec_raw_benefit(m, e);
    if raw <= 0 {
        0
    } else {
        raw * (DISTANCE_PENALTY_BASE as int) / (DISTANCE_PENALTY_BASE as int + d)
    }
}

/// The score of one catalog object as seen from a position.
pub open spec fn spec_object_score(m: Seq<int>, o: WorldObject, from: WorldPosition) -> int {
    spec_score(m, o.effect@, spec_distance(from, o.position))
}

/// Scores a candidate object: deterministic and pure, monotonically
/// non-increasing in distance.
pub fn score_action(motives: &BasicMotives, object: &WorldObject, distance: u64) -> (r: u64)
    requires
        motives.wf(),
        object.wf(),
        distance <= u64::MAX - DISTANCE_PENALTY_BASE,
    ensures
        r == spec_score(motives@, object.effect@, distance as int),
{
    let mut sum: i64 = 0;
    let mut i: usize = 0;
    while i < MOTIVE_COUNT
        invariant
            i <= MOTIVE_COUNT,
            motives.wf(),
            object.wf(),
            sum == benefit_prefix(motives@, object.effect@, i as int),
            -8_000_000_000_000 <= sum <= 8_000_000_000_000,
            -(i as int) * 1_000_000_000_000 <= sum <= (i as int) * 1_000_000_000_000,
        decreases MOTIVE_COUNT - i,
    {
        let e: i64 = object.effect.0[i];
        let m: i64 = motives.0[i].0;
        proof {
            assert(e as int == object.effect@[i as int]);
            assert(m as int == motives@[i as int]);
            assert(-1_000_000_000_000 <= e as int * (MOTIVE_SCALE as int - m as int)
                <= 1_000_000_000_000) by (nonlinear_arith)
                requires
                    -1_000_000 <= e as int <= 1_000_000,
                    0 <= m as int <= 1_000_000,
            ;
        }
        sum = sum + e * (MOTIVE_SCALE - m);
        i = i + 1;
    }
    if sum <= 0 {
        0
    } else {
        proof {
            vstd::arithmetic::div_mod::lemma_div_is_ordered(
                sum as int * DISTANCE_PENALTY_BASE as int,
                8_000_000_000_000_000,
                DISTANCE_PENALTY_BASE as int + distance as int,
            );
        }
        (sum as u64 * DISTANCE_PENALTY_BASE) / (DISTANCE_PENALTY_BASE + distance)
    }
}

/// Distance-penalty monotonicity: with the motives and the effect fixed, a
/// nearer object never scores worse than a farther one.
pub proof fn lemma_score_distance_monotone(m: Seq<int>, e: Seq<int>, d1: int, d2: int)
    requires
        0 <= d1 <= d2,
    ensures
        spec_score(m, e, d1) >= spec_score(m, e, d2),
{
    let raw = spec_raw_benefit(m, e);
    if raw > 0 {
        assert(raw * (DISTANCE_PENALTY_BASE as int) >= 0) by (nonlinear_arith)
            requires
                raw > 0,
        ;
        vstd::arithmetic::div_mod::lemma_div_is_ordered_by_denominator(
            raw * (DISTANCE_PENALTY_BASE as int),
            DISTANCE_PENALTY_BASE as int + d1,
            DISTANCE_PENALTY_BASE as int + d2,
        );
    }
}

/// `a` is at least as good a choice as `b`: it scores higher, or ties and
/// does not lose the stable identity tie break.
pub open spec fn at_least_as_good(
    m: Seq<int>,
    from: WorldPosition,
    a: WorldObject,
    b: WorldObject,
) -> bool {
    ||| spec_object_score(m, a, from) > spec_object_score(m, b, from)
    ||| (spec_object_score(m, a, from) == spec_object_score(m, b, from) && a.id <= b.id)
}

/// What the action selector owes: `None` exactly when nothing on offer
/// exceeds the minimum-utility threshold, otherwise a catalog object that
/// beats the threshold and every other entry (ties broken toward the
/// smaller identity).
pub open spec fn is_best_selection(
    c: Seq<WorldObject>,
    m: Seq<int>,
    from: WorldPosition,
    r: Option<WorldObject>,
) -> bool {
    match r {
        None => forall|i: int|
            0 <= i < c.len() ==> spec_object_score(m, #[trigger] c[i], from)
                <= MIN_UTILITY_SCORE as int,
        Some(o) => {
            &&& c.contains(o)
            &&& spec_object_score(m, o, from) > MIN_UTILITY_SCORE as int
            &&& forall|i: int| 0 <= i < c.len() ==> at_least_as_good(m, from, o, #[trigger] c[i])
        },
    }
}

/// Picks the best-scoring catalog object seen from `from`, if it clears the
/// minimum-utility threshold. Deterministic: ties are broken by the stable
/// object identity, not by catalog order.
pub fn select_best(
    catalog: &WorldObjectCatalog,
    motives: &BasicMotives,
    from: &WorldPosition,
) -> (r: Option<usize>)
    requires
        catalog.wf(),
        motives.wf(),
        from.wf(),
    ensures
        r matches Some(j) ==> j < catalog@.len() && is_best_selection(
            catalog@,
            motives@,
            *from,
            Some(catalog@[j as int]),
        ),
        r is None ==> is_best_selection(catalog@, motives@, *from, None::<WorldObject>),
{
    let n: usize = catalog.len();
    if n == 0 {
        return None;
    }
    let first = catalog.object_at(0);
    let d0: u64 = distance_milli(from, &first.position);
    let mut best_i: usize = 0;
    let mut best_id: u64 = first.id;
    let mut best_score: u64 = score_action(motives, first, d0);
    let mut i: usize = 1;
    while i < n
        invariant
            1 <= i <= n,
            n == catalog@.len(),
            catalog.wf(),
            motives.wf(),
            from.wf(),
            best_i < i,
            best_id == catalog@[best_i as int].id,
            best_score == spec_object_score(motives@, catalog@[best_i as int], *from),
            forall|k: int|
                0 <= k < i ==> at_least_as_good(
                    motives@,
                    *from,
                    catalog@[best_i as int],
                    #[trigger] catalog@[k],
                ),
        decreases n - i,
    {
        let candidate = catalog.object_at(i);
        let d: u64 = distance_milli(from, &candidate.position);
        let s: u64 = score_action(motives, candidate, d);
        if s > best_score || (s == best_score && candidate.id < best_id) {
            best_i = i;
            best_id = candidate.id;
            best_score = s;
        }
        i = i + 1;
    }
    if best_score > MIN_UTILITY_SCORE {
        Some(best_i)
    } else {
        None
    }
}

/// Turns the selector's choice into the action to take: travel to and use
/// the chosen object.
pub fn select_action(
    catalog: &WorldObjectCatalog,
    motives: &BasicMotives,
    from: &WorldPosition,
) -> (r: Option<FellaAction>)
    requires
        catalog.wf(),
        motives.wf(),
        from.wf(),
    ensures
        r matches Some(a) ==> a matches FellaAction::UseObject(id) && exists|i: int|
            0 <= i < catalog@.len() && (#[trigger] catalog@[i]).id == id && is_best_selection(
                catalog@,
                motives@,
                *from,
                Some(catalog@[i]),
            ),
        r is None ==> is_best_selection(catalog@, motives@, *from, None::<WorldObject>),
{
    match select_best(catalog, motives, from) {
        Some(j) => Some(FellaAction::UseObject(catalog.object_at(j).id)),
        None => None,
    }
}

/// Selection is stable under catalog permutation: any two selections made
/// from catalogs holding the same objects agree — both decline, or both
/// pick the same identity (and the same score).
pub proof fn lemma_selection_permutation_stable(
    c1: Seq<WorldObject>,
    c2: Seq<WorldObject>,
    m: Seq<int>,
    from: WorldPosition,
    r1: Option<WorldObject>,
    r2: Option<WorldObject>,
)
    requires
        c1.to_multiset() == c2.to_multiset(),
        forall|i: int, j: int|
            0 <= i < c1.len() && 0 <= j < c1.len() && i != j ==> c1[i].id != c1[j].id,
        is_best_selection(c1, m, from, r1),
        is_best_selection(c2, m, from, r2),
    ensures
        r1 == r2,
        r1 matches Some(a) ==> r2 matches Some(b) && a.id == b.id && spec_object_score(m, a, from)
            == spec_object_score(m, b, from),
{
    broadcast use vstd::seq_lib::group_to_multiset_ensures;

    match (r1, r2) {
        (Some(a), Some(b)) => {
            assert(c1.contains(a) && c2.contains(b));
            assert(c1.to_multiset().count(a) > 0 && c2.to_multiset().count(b) > 0);
            assert(c2.to_multiset().count(a) > 0 && c1.to_multiset().count(b) > 0);
            assert(c2.contains(a) && c1.contains(b));
            let ia = choose|i: int| 0 <= i < c2.len() && c2[i] == a;
            let ib = choose|i: int| 0 <= i < c1.len() && c1[i] == b;
            assert(at_least_as_good(m, from, b, c2[ia]));
            assert(at_least_as_good(m, from, a, c1[ib]));
            assert(a.id == b.id);
            // With identities unique, the equal identities force the same
            // object.
            let ja = choose|i: int| 0 <= i < c1.len() && c1[i] == a;
            assert(c1[ja] == a && c1[ib] == b);
            assert(ja == ib);
        },
        (Some(a), None) => {
            assert(c1.to_multiset().count(a) > 0);
            assert(c2.to_multiset().count(a) > 0);
            assert(c2.contains(a));
            let ia = choose|i: int| 0 <= i < c2.len() && c2[i] == a;
            assert(spec_object_score(m, c2[ia], from) <= MIN_UTILITY_SCORE as int);
        },
        (None, Some(b)) => {
            assert(c2.to_multiset().count(b) > 0);
            assert(c1.to_multiset().count(b) > 0);
            assert(c1.contains(b));
            let ib = choose|i: int| 0 <= i < c1.len() && c1[i] == b;
            assert(spec_object_score(m, c1[ib], from) <= MIN_UTILITY_SCORE as int);
        },
        (None, None) => {},
    }
}

} // verus!
