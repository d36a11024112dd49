//! The nearest hit among the primitives of a scene.
//!
//! The scene is walked in order. Each primitive is asked for its hit below
//! the nearest parameter found so far, so that a primitive hidden behind an
//! earlier one misses; what is left at the end is the nearest hit, and of
//! several primitives hit at the same parameter the first.

use vstd::prelude::*;
use crate::scalar::Scalar;
use crate::sphere::{lemma_selected_under_lower_bound, Crossing, within};

verus! {

/// The nearest hit of a scene: which primitive, and at which parameter.
#[derive(Clone, Copy, Debug, PartialEq, Eq, Structural)]
pub struct Nearest {
    pub index: usize,
    pub t: Scalar,
}

/// The upper bound that the next primitive is asked with: the parameter of
/// the nearest hit so far, or `t_max` while there is none.
pub open spec fn bound_after(found: Option<Nearest>, t_max: Scalar) -> Scalar {
    match found {
        Some(n) => n.t,
        None => t_max,
    }
}

/// The walk over a scene, told from its last primitive backwards: the last
/// primitive is asked below what the walk over the others has found, and
/// replaces it where it hits.
pub open spec fn scan(scene: Seq<Crossing>, t_min: Scalar, t_max: Scalar) -> Option<Nearest>
    decreases scene.len(),
{
    if scene.len() == 0 {
        None
    } else {
        let found = scan(scene.drop_last(), t_min, t_max);
        match scene.last().selected(t_min, bound_after(found, t_max)) {
            Some(t) => Some(Nearest { index: (scene.len() - 1) as usize, t }),
            None => found,
        }
    }
}

/// Every primitive of the scene has its two parameters in order.
pub open spec fn all_ordered(scene: Seq<Crossing>) -> bool {
    forall|j: int| 0 <= j < scene.len() ==> (#[trigger] scene[j]).ordered()
}

/// `found` is the nearest of the hits that the primitives of `scene` have
/// inside `(t_min, t_max)`, each taken by itself: no primitive has a hit below
/// it, and every primitive before it has its hit strictly above; and it is
/// none exactly where no primitive has a hit.
pub open spec fn is_nearest(
    scene: Seq<Crossing>,
    t_min: Scalar,
    t_max: Scalar,
    found: Option<Nearest>,
) -> bool {
    match found {
        Some(n) => {
            &&& n.index < scene.len()
            &&& scene[n.index as int].selected(t_min, t_max) == Some(n.t)
            &&& forall|j: int|
                0 <= j < scene.len() ==> match (#[trigger] scene[j]).selected(t_min, t_max) {
                    Some(u) => !u.lt(n.t),
                    None => true,
                }
            &&& forall|j: int|
                0 <= j < n.index ==> match (#[trigger] scene[j]).selected(t_min, t_max) {
                    Some(u) => n.t.lt(u),
                    None => true,
                }
        },
        None => forall|j: int|
            0 <= j < scene.len() ==> (#[trigger] scene[j]).selected(t_min, t_max) is None,
    }
}

/// Finds the nearest hit of a scene inside `(t_min, t_max)`.
pub fn nearest_hit(
    scene: &Vec<Crossing>,
    t_min: Scalar,
    t_max: Scalar,
) -> (found: Option<Nearest>)
    ensures
        found == scan(scene@, t_min, t_max),
        all_ordered(scene@) ==> is_nearest(scene@, t_min, t_max, found),
{
    let mut found: Option<Nearest> = None;
    let mut closest = t_max;
    let mut i: usize = 0;
    while i < scene.len()
        invariant
            i <= scene.len(),
            found == scan(scene@.take(i as int), t_min, t_max),
            closest == bound_after(found, t_max),
        decreases scene.len() - i,
    {
        proof {
            assert(scene@.take(i + 1).drop_last() =~= scene@.take(i as int));
        }
        match scene[i].select(t_min, closest) {
            Some(t) => {
                closest = t;
                found = Some(Nearest { index: i, t });
            },
            None => {},
        }
        i += 1;
    }
    proof {
        assert(scene@.take(i as int) =~= scene@);
        if all_ordered(scene@) {
            lemma_scan_is_nearest(scene@, t_min, t_max);
        }
    }
    found
}

/// What the walk finds lies strictly inside `(t_min, t_max)` and is a
/// parameter of the primitive that it names.
pub proof fn lemma_scan_is_inside(scene: Seq<Crossing>, t_min: Scalar, t_max: Scalar)
    requires
        scene.len() <= usize::MAX,
    ensures
        match scan(scene, t_min, t_max) {
            Some(n) => {
                &&& n.index < scene.len()
                &&& within(n.t, t_min, t_max)
                &&& n.t == scene[n.index as int].near || n.t == scene[n.index as int].far
                &&& scene[n.index as int].discriminant.positive()
            },
            None => true,
        },
    decreases scene.len(),
{
    if scene.len() > 0 {
        lemma_scan_is_inside(scene.drop_last(), t_min, t_max);
    }
}

/// Over primitives whose parameters are in order, the walk finds the nearest
/// of their hits, the first of them where several are equally near, and
/// nothing only where no primitive has a hit.
pub proof fn lemma_scan_is_nearest(scene: Seq<Crossing>, t_min: Scalar, t_max: Scalar)
    requires
        scene.len() <= usize::MAX,
        all_ordered(scene),
    ensures
        is_nearest(scene, t_min, t_max, scan(scene, t_min, t_max)),
    decreases scene.len(),
{
    if scene.len() > 0 {
        let rest = scene.drop_last();
        let last = scene.last();
        assert(all_ordered(rest)) by {
            assert forall|j: int| 0 <= j < rest.len() implies (#[trigger] rest[j]).ordered() by {
                assert(rest[j] == scene[j]);
            }
        }
        lemma_scan_is_nearest(rest, t_min, t_max);
        lemma_scan_is_inside(rest, t_min, t_max);
        let before = scan(rest, t_min, t_max);
        let bound = bound_after(before, t_max);
        assert(last == scene[scene.len() - 1]);
        lemma_selected_under_lower_bound(last, t_min, t_max, bound);
        let found = scan(scene, t_min, t_max);
        assert forall|j: int| 0 <= j < rest.len() implies rest[j] == #[trigger] scene[j] by {}
        match found {
            Some(n) => {
                assert forall|j: int| 0 <= j < scene.len() implies match (#[trigger] scene[j]).selected(
                    t_min,
                    t_max,
                ) {
                    Some(u) => !u.lt(n.t),
                    None => true,
                } by {
                    if j < rest.len() {
                        assert(rest[j] == scene[j]);
                    }
                }
                assert forall|j: int| 0 <= j < n.index implies match (#[trigger] scene[j]).selected(
                    t_min,
                    t_max,
                ) {
                    Some(u) => n.t.lt(u),
                    None => true,
                } by {
                    assert(rest[j] == scene[j]);
                }
            },
            None => {
                assert forall|j: int| 0 <= j < scene.len() implies (#[trigger] scene[j]).selected(
                    t_min,
                    t_max,
                ) is None by {
                    if j < rest.len() {
                        assert(rest[j] == scene[j]);
                    }
                }
            },
        }
    }
}

/// What occurs in one of two scenes that hold the same primitives occurs in
/// the other.
proof fn lemma_same_members(first: Seq<Crossing>, second: Seq<Crossing>, c: Crossing)
    requires
        first.to_multiset() == second.to_multiset(),
        first.contains(c),
    ensures
        second.contains(c),
{
    first.to_multiset_ensures();
    second.to_multiset_ensures();
    assert(first.to_multiset().count(c) > 0);
    assert(second.to_multiset().count(c) > 0);
}

/// The nearest hit does not depend on the order of the primitives: two
/// scenes that hold the same primitives, each as often as the other, are both
/// missed or are hit at the same number.
pub proof fn lemma_scan_order_independent(
    first: Seq<Crossing>,
    second: Seq<Crossing>,
    t_min: Scalar,
    t_max: Scalar,
)
    requires
        first.len() <= usize::MAX,
        all_ordered(first),
        first.to_multiset() == second.to_multiset(),
    ensures
        match (scan(first, t_min, t_max), scan(second, t_min, t_max)) {
            (Some(m), Some(n)) => m.t.same_number(n.t),
            (None, None) => true,
            _ => false,
        },
{
    first.to_multiset_ensures();
    second.to_multiset_ensures();
    assert(second.len() == first.len());
    assert(all_ordered(second)) by {
        assert forall|j: int| 0 <= j < second.len() implies (#[trigger] second[j]).ordered() by {
            lemma_same_members(second, first, second[j]);
        }
    }
    lemma_scan_is_nearest(first, t_min, t_max);
    lemma_scan_is_nearest(second, t_min, t_max);
    lemma_scan_is_inside(first, t_min, t_max);
    lemma_scan_is_inside(second, t_min, t_max);
    match scan(first, t_min, t_max) {
        Some(m) => {
            let c = first[m.index as int];
            lemma_same_members(first, second, c);
            let k = choose|k: int| 0 <= k < second.len() && second[k] == c;
            assert(second[k].selected(t_min, t_max) == Some(m.t));
        },
        None => {},
    }
    match scan(second, t_min, t_max) {
        Some(n) => {
            let c = second[n.index as int];
            lemma_same_members(second, first, c);
            let k = choose|k: int| 0 <= k < first.len() && first[k] == c;
            assert(first[k].selected(t_min, t_max) == Some(n.t));
        },
        None => {},
    }
}

} // verus!
