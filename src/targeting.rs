use vstd::prelude::*;

use crate::game::Object;
use crate::geometry::Location;
use crate::rng;

verus! {

// ------------------------------- Distance ----------------------------------

/// The squared Euclidean distance.
pub open spec fn dist2(a: Location, b: Location) -> int {
    (b.0 - a.0) * (b.0 - a.0) + (b.1 - a.1) * (b.1 - a.1)
}

/// The least `k` from `from` to `range` with `d2 < (k + 1)²`: the distance
/// rounded down, when it is at most `range`.
pub open spec fn distance_key(d2: int, from: int, range: int) -> Option<int>
    decreases range + 1 - from,
{
    if from > range {
        None
    } else if d2 < (from + 1) * (from + 1) {
        Some(from)
    } else {
        distance_key(d2, from + 1, range)
    }
}

proof fn lemma_distance_key_bounds(d2: int, from: int, range: int)
    ensures
        distance_key(d2, from, range) matches Some(k) ==> from <= k <= range,
    decreases range + 1 - from,
{
    if from <= range && d2 >= (from + 1) * (from + 1) {
        lemma_distance_key_bounds(d2, from + 1, range);
    }
}

/// The distance from `a` to `b` rounded down, if it is at most `range`.
pub fn distance_within(a: &Location, b: &Location, range: i32) -> (r: Option<i32>)
    ensures
        r == match distance_key(dist2(*a, *b), 0, range as int) {
            Some(k) => Some(k as i32),
            None => None::<i32>,
        },
{
    let dx: i128 = b.0 as i128 - a.0 as i128;
    let dy: i128 = b.1 as i128 - a.1 as i128;
    proof {
        assert(dx * dx <= 0x1_0000_0000_0000_0000) by (nonlinear_arith)
            requires
                -0x1_0000_0000 <= dx <= 0x1_0000_0000,
        ;
        assert(dy * dy <= 0x1_0000_0000_0000_0000) by (nonlinear_arith)
            requires
                -0x1_0000_0000 <= dy <= 0x1_0000_0000,
        ;
        assert(dx * dx >= 0 && dy * dy >= 0) by (nonlinear_arith);
    }
    let d2: i128 = dx * dx + dy * dy;
    proof {
        lemma_distance_key_bounds(d2 as int, 0, range as int);
    }
    let mut k: i32 = 0;
    if range < 0 {
        return None;
    }
    while k <= range
        invariant
            0 <= k <= range as int + 1,
            range >= 0,
            d2 == dist2(*a, *b),
            distance_key(d2 as int, 0, range as int) == distance_key(d2 as int, k as int, range as int),
        decreases range as int + 1 - k,
    {
        let k1: i128 = k as i128 + 1;
        proof {
            assert(k1 * k1 <= 0x1_0000_0000_0000_0000) by (nonlinear_arith)
                requires
                    0 <= k1 <= 0x1_0000_0000,
            ;
            assert(k1 * k1 >= 0) by (nonlinear_arith);
        }
        if d2 < k1 * k1 {
            return Some(k);
        }
        if k == range {
            proof {
                assert(distance_key(d2 as int, k as int + 1, range as int) is None);
            }
            return None;
        }
        k = k + 1;
    }
    None
}

/// The target key of object `j` for object `id`: its distance rounded down,
/// for a fighter other than `id` within `range`.
pub open spec fn target_key(objects: Seq<Object>, id: int, j: int, range: int) -> Option<int> {
    if j != id && objects[j].fighter is Some {
        distance_key(dist2(objects[id].loc, objects[j].loc), 0, range)
    } else {
        None
    }
}

pub open spec fn target_keys(objects: Seq<Object>, id: int, range: int) -> Seq<Option<int>> {
    Seq::new(objects.len(), |j: int| target_key(objects, id, j, range))
}

/// The indices below `n` whose key is `k`, in increasing order.
pub open spec fn level(keys: Seq<Option<int>>, k: int, n: int) -> Seq<usize>
    decreases n,
{
    if n <= 0 {
        Seq::empty()
    } else {
        level(keys, k, n - 1) + if keys[n - 1] == Some(k) {
            seq![(n - 1) as usize]
        } else {
            Seq::empty()
        }
    }
}

/// The indices with keys from `hi` down to `lo`: farthest first, and by
/// index among equals.
pub open spec fn levels(keys: Seq<Option<int>>, hi: int, lo: int) -> Seq<usize>
    decreases hi - lo + 1,
{
    if hi < lo {
        Seq::empty()
    } else {
        levels(keys, hi, lo + 1) + level(keys, lo, keys.len() as int)
    }
}

/// The fighters other than `id` within `range`, farthest first.
pub open spec fn by_distance(objects: Seq<Object>, id: int, range: int) -> Seq<usize> {
    levels(target_keys(objects, id, range), range, 0)
}

/// The fighters within range of the object, farthest first; among those at
/// the same (rounded down) distance, by index.
pub fn fighters_by_distance(id: usize, objects: &[Object], range: i32) -> (r: Vec<usize>)
    requires
        id < objects@.len(),
    ensures
        r@ == by_distance(objects@, id as int, range as int),
        forall|p: int| 0 <= p < r@.len() ==> (#[trigger] r@[p]) < objects@.len() && r@[p] != id
            && objects@[r@[p] as int].fighter is Some,
{
    let ghost keys = target_keys(objects@, id as int, range as int);
    let mut ks: Vec<Option<i32>> = Vec::new();
    let n = objects.len();
    let mut j: usize = 0;
    while j < n
        invariant
            n == objects@.len(),
            id < n,
            0 <= j <= n,
            keys == target_keys(objects@, id as int, range as int),
            ks@.len() == j,
            forall|i: int| 0 <= i < j ==> keys[i] == match #[trigger] ks@[i] {
                Some(k) => Some(k as int),
                None => None::<int>,
            },
        decreases n - j,
    {
        let key = if j != id && objects[j].fighter.is_some() {
            distance_within(&objects[id].loc, &objects[j].loc, range)
        } else {
            None
        };
        proof {
            lemma_distance_key_bounds(dist2(objects@[id as int].loc, objects@[j as int].loc), 0, range as int);
        }
        ks.push(key);
        j = j + 1;
    }
    let mut r: Vec<usize> = Vec::new();
    if range < 0 {
        return r;
    }
    let mut k: i32 = range;
    while k >= 0
        invariant
            n == objects@.len(),
            id < n,
            -1 <= k <= range,
            keys == target_keys(objects@, id as int, range as int),
            keys.len() == n,
            ks@.len() == n,
            forall|i: int| 0 <= i < n ==> keys[i] == match #[trigger] ks@[i] {
                Some(k) => Some(k as int),
                None => None::<int>,
            },
            r@ == levels(keys, range as int, k + 1),
            forall|p: int| 0 <= p < r@.len() ==> (#[trigger] r@[p]) < n && keys[r@[p] as int] is Some,
        decreases k + 1,
    {
        let mut i: usize = 0;
        let ghost before = r@;
        while i < n
            invariant
                n == objects@.len(),
                0 <= i <= n,
                0 <= k <= range,
                keys.len() == n,
                ks@.len() == n,
                forall|i: int| 0 <= i < n ==> keys[i] == match #[trigger] ks@[i] {
                    Some(k) => Some(k as int),
                    None => None::<int>,
                },
                before == levels(keys, range as int, k + 1),
                r@ == before + level(keys, k as int, i as int),
                forall|p: int| 0 <= p < r@.len() ==> (#[trigger] r@[p]) < n && keys[r@[p] as int] is Some,
            decreases n - i,
        {
            proof {
                assert(level(keys, k as int, i as int + 1) == level(keys, k as int, i as int) + if keys[i as int] == Some(k as int) {
                    seq![i]
                } else {
                    Seq::empty()
                });
            }
            if ks[i] == Some(k) {
                r.push(i);
                proof {
                    assert(r@ =~= before + level(keys, k as int, i as int + 1));
                }
            } else {
                proof {
                    assert(r@ =~= before + level(keys, k as int, i as int + 1));
                }
            }
            i = i + 1;
        }
        k = k - 1;
    }
    proof {
        assert forall|p: int| 0 <= p < r@.len() implies (#[trigger] r@[p]) < objects@.len() && r@[p] != id
            && objects@[r@[p] as int].fighter is Some by {
            assert(keys[r@[p] as int] == target_key(objects@, id as int, r@[p] as int, range as int));
        }
    }
    r
}

/// A fighter other than `id` no farther than `range`.
pub open spec fn in_reach(objects: Seq<Object>, id: int, j: int, range: int) -> bool {
    range >= 0 && 0 <= j < objects.len() && j != id && objects[j].fighter is Some
        && dist2(objects[id].loc, objects[j].loc) <= range * range
}

/// The fighters other than `id` no farther than `range`, in index order.
fn fighters_in_reach(id: usize, objects: &[Object], range: i32) -> (r: Vec<usize>)
    requires
        id < objects@.len(),
    ensures
        forall|p: int| 0 <= p < r@.len() ==> in_reach(objects@, id as int, #[trigger] r@[p] as int, range as int),
        forall|j: int| in_reach(objects@, id as int, j, range as int) ==> r@.contains(j as usize),
{
    let mut r: Vec<usize> = Vec::new();
    if range < 0 {
        return r;
    }
    proof {
        assert(range * range <= 0x1_0000_0000_0000_0000) by (nonlinear_arith)
            requires
                0 <= range <= 0x1_0000_0000,
        ;
        assert(range * range >= 0) by (nonlinear_arith);
    }
    let rr: i128 = range as i128 * range as i128;
    let mut j: usize = 0;
    while j < objects.len()
        invariant
            0 <= j <= objects@.len(),
            id < objects@.len(),
            rr == range * range,
            range >= 0,
            forall|p: int| 0 <= p < r@.len() ==> in_reach(objects@, id as int, #[trigger] r@[p] as int, range as int),
            forall|i: int| 0 <= i < j && in_reach(objects@, id as int, i, range as int) ==> r@.contains(i as usize),
        decreases objects@.len() - j,
    {
        if j != id && objects[j].fighter.is_some() {
            let a = objects[id].loc;
            let b = objects[j].loc;
            let dx: i128 = b.0 as i128 - a.0 as i128;
            let dy: i128 = b.1 as i128 - a.1 as i128;
            proof {
                assert(dx * dx <= 0x1_0000_0000_0000_0000) by (nonlinear_arith)
                    requires
                        -0x1_0000_0000 <= dx <= 0x1_0000_0000,
                ;
                assert(dy * dy <= 0x1_0000_0000_0000_0000) by (nonlinear_arith)
                    requires
                        -0x1_0000_0000 <= dy <= 0x1_0000_0000,
                ;
                assert(dx * dx >= 0 && dy * dy >= 0) by (nonlinear_arith);
            }
            if dx * dx + dy * dy <= rr {
                let ghost before = r@;
                r.push(j);
                proof {
                    assert(r@[r@.len() - 1] == j);
                    assert forall|i: int| 0 <= i < j && in_reach(objects@, id as int, i, range as int) implies r@.contains(i as usize) by {
                        let k = choose|k: int| 0 <= k < before.len() && before[k] == i as usize;
                        assert(r@[k] == i as usize);
                    }
                }
            }
        }
        j = j + 1;
    }
    r
}

/// A fighter picked at random among those within range.
pub fn random_fighter(id: usize, objects: &[Object], range: i32) -> (r: Option<usize>)
    requires
        id < objects@.len(),
    ensures
        r matches Some(t) ==> in_reach(objects@, id as int, t as int, range as int),
        r is None ==> forall|j: int| !in_reach(objects@, id as int, j, range as int),
{
    let targets = fighters_in_reach(id, objects, range);
    match rng::pick(targets.as_slice()) {
        Some(t) => Some(*t),
        None => {
            proof {
                assert forall|j: int| !in_reach(objects@, id as int, j, range as int) by {
                    if in_reach(objects@, id as int, j, range as int) {
                        assert(targets@.contains(j as usize));
                    }
                }
            }
            None
        },
    }
}

/// The nearest fighter within range: the last of `by_distance`.
pub open spec fn closest(objects: Seq<Object>, id: int, range: int) -> Option<usize> {
    let s = by_distance(objects, id, range);
    if s.len() > 0 {
        Some(s.last())
    } else {
        None
    }
}

/// Find the closest fighter within range.
pub fn closest_fighter(id: usize, objects: &[Object], range: i32) -> (r: Option<usize>)
    requires
        id < objects@.len(),
    ensures
        r == closest(objects@, id as int, range as int),
        r matches Some(t) ==> t < objects@.len() && t != id && objects@[t as int].fighter is Some,
{
    let mut v = fighters_by_distance(id, objects, range);
    v.pop()
}

} // verus!
