//! The intersection resolver: the nearest hit of a ray among all the shapes
//! of a scene, by a linear scan.

use vstd::prelude::*;
use crate::scalar::{Scalar, MAX_BITS};
use crate::traceable::{HitInfo, RayTraceable};
use crate::vector::Vec3f;

verus! {

/// The distance that the next hit has to beat: that of the best hit so far,
/// or the largest finite value while there is none.
pub open spec fn bound(best: Option<HitInfo>) -> Scalar {
    match best {
        Some(hit) => hit.distance,
        None => Scalar { bits: MAX_BITS },
    }
}

/// One step of the scan: the candidate replaces the best hit so far only if
/// it is strictly nearer. A miss, a tie, and a distance that is a NaN change
/// nothing.
pub open spec fn closer(best: Option<HitInfo>, candidate: Option<HitInfo>) -> Option<HitInfo> {
    match candidate {
        Some(hit) => if hit.distance.less_than(bound(best)) {
            Some(hit)
        } else {
            best
        },
        None => best,
    }
}

/// The result of scanning the answers from first to last.
pub open spec fn nearest(answers: Seq<Option<HitInfo>>) -> Option<HitInfo>
    decreases answers.len(),
{
    if answers.len() == 0 {
        None
    } else {
        closer(nearest(answers.drop_last()), answers.last())
    }
}

/// A hit that the scan may return at all: its distance is below the largest
/// finite value (so no infinity and no NaN).
pub open spec fn in_range(hit: HitInfo) -> bool {
    hit.distance.less_than(Scalar { bits: MAX_BITS })
}

/// The scan returns one of the answers it was given, and that one is in range.
pub proof fn lemma_nearest_is_an_answer(answers: Seq<Option<HitInfo>>)
    ensures
        nearest(answers) matches Some(hit) ==> in_range(hit) && exists|i: int|
            0 <= i < answers.len() && #[trigger] answers[i] == Some(hit),
    decreases answers.len(),
{
    if answers.len() > 0 {
        let front = answers.drop_last();
        lemma_nearest_is_an_answer(front);
        if let Some(hit) = nearest(answers) {
            if nearest(front) == Some(hit) {
                let i = choose|i: int| 0 <= i < front.len() && #[trigger] front[i] == Some(hit);
                assert(answers[i] == Some(hit));
            } else {
                assert(answers[answers.len() - 1] == Some(hit));
            }
        }
    }
}

/// The scan returns a globally nearest hit: no answer is strictly nearer
/// than the one returned.
pub proof fn lemma_nearest_is_minimal(answers: Seq<Option<HitInfo>>, i: int)
    requires
        0 <= i < answers.len(),
    ensures
        (nearest(answers), answers[i]) matches (Some(hit), Some(other))
            ==> !other.distance.less_than(hit.distance),
    decreases answers.len(),
{
    let front = answers.drop_last();
    if i < answers.len() - 1 {
        assert(front[i] == answers[i]);
        lemma_nearest_is_minimal(front, i);
        lemma_nearest_none(front);
    }
}

/// The scan returns nothing exactly when no answer is in range.
pub proof fn lemma_nearest_none(answers: Seq<Option<HitInfo>>)
    ensures
        nearest(answers) is None <==> forall|i: int|
            0 <= i < answers.len() ==> (#[trigger] answers[i] matches Some(hit) ==> !in_range(
                hit,
            )),
    decreases answers.len(),
{
    if answers.len() > 0 {
        let front = answers.drop_last();
        lemma_nearest_none(front);
        lemma_nearest_is_an_answer(front);
        if nearest(answers) is None {
            assert forall|i: int| 0 <= i < answers.len() implies (
            #[trigger] answers[i] matches Some(hit) ==> !in_range(hit)) by {
                if i < answers.len() - 1 {
                    assert(front[i] == answers[i]);
                }
            }
        } else {
            lemma_nearest_is_an_answer(answers);
        }
    }
}

/// Among answers at the same distance the scan returns the first: every
/// answer before the one returned is strictly farther, a miss, or a hit
/// whose distance is a NaN.
pub proof fn lemma_nearest_is_first(answers: Seq<Option<HitInfo>>)
    ensures
        nearest(answers) matches Some(hit) ==> exists|i: int|
            0 <= i < answers.len() && #[trigger] answers[i] == Some(hit) && forall|j: int|
                0 <= j < i ==> (#[trigger] answers[j] matches Some(other)
                    ==> hit.distance.less_than(other.distance) || other.distance.nan()),
    decreases answers.len(),
{
    if answers.len() > 0 {
        let front = answers.drop_last();
        lemma_nearest_is_first(front);
        if let Some(hit) = nearest(answers) {
            if nearest(front) == Some(hit) {
                let i = choose|i: int|
                    0 <= i < front.len() && #[trigger] front[i] == Some(hit) && forall|j: int|
                        0 <= j < i ==> (#[trigger] front[j] matches Some(other)
                            ==> hit.distance.less_than(other.distance) || other.distance.nan());
                assert(answers[i] == Some(hit));
                assert forall|j: int| 0 <= j < i implies (#[trigger] answers[j] matches Some(
                    other,
                ) ==> hit.distance.less_than(other.distance) || other.distance.nan()) by {
                    assert(front[j] == answers[j]);
                }
            } else {
                let last = answers.len() - 1;
                assert(answers[last] == Some(hit));
                assert forall|j: int| 0 <= j < last implies (#[trigger] answers[j] matches Some(
                    other,
                ) ==> hit.distance.less_than(other.distance) || other.distance.nan()) by {
                    assert(front[j] == answers[j]);
                    lemma_nearest_is_minimal(front, j);
                    lemma_nearest_none(front);
                    if let Some(other) = answers[j] {
                        if !other.distance.nan() {
                            match nearest(front) {
                                Some(best) => {
                                    assert(hit.distance.less_than(best.distance));
                                    assert(!other.distance.less_than(best.distance));
                                },
                                None => {
                                    assert(!in_range(other));
                                },
                            }
                        }
                    }
                }
            }
        }
    }
}

/// One step of the scan.
pub fn nearer_hit(best: Option<HitInfo>, candidate: Option<HitInfo>) -> (r: Option<HitInfo>)
    ensures
        r == closer(best, candidate),
{
    match candidate {
        Some(hit) => {
            let limit = match best {
                Some(b) => b.distance,
                None => Scalar::max_value(),
            };
            if hit.distance.lt(limit) {
                Some(hit)
            } else {
                best
            }
        },
        None => best,
    }
}

/// The nearest of the given answers, scanned from first to last.
pub fn nearest_hit(answers: &Vec<Option<HitInfo>>) -> (r: Option<HitInfo>)
    ensures
        r == nearest(answers@),
{
    let mut best: Option<HitInfo> = None;
    let mut i: usize = 0;
    while i < answers.len()
        invariant
            i <= answers.len(),
            best == nearest(answers@.take(i as int)),
        decreases answers.len() - i,
    {
        proof {
            assert(answers@.take(i + 1).drop_last() =~= answers@.take(i as int));
        }
        best = nearer_hit(best, answers[i]);
        i += 1;
    }
    proof {
        assert(answers@.take(i as int) =~= answers@);
    }
    best
}

/// What each of the shapes answers to the ray from `origin` along `dir`,
/// in the order of the shapes.
pub open spec fn answers(objects: Seq<&dyn RayTraceable>, origin: Vec3f, dir: Vec3f) -> Seq<
    Option<HitInfo>,
> {
    Seq::new(objects.len(), |i: int| objects[i].hit(origin, dir))
}

/// The nearest hit of the ray from `orig` along `dir` among `objects`, or
/// nothing: each shape is asked once, in order, with the ray as given, and
/// the answers are scanned.
pub fn scene_intersect(orig: &Vec3f, dir: &Vec3f, objects: &Vec<&dyn RayTraceable>) -> (r: Option<
    HitInfo,
>)
    ensures
        r == nearest(answers(objects@, *orig, *dir)),
        objects.len() == 0 ==> r is None,
        r matches Some(hit) ==> in_range(hit),
{
    let ghost all = answers(objects@, *orig, *dir);
    let mut best: Option<HitInfo> = None;
    let mut i: usize = 0;
    while i < objects.len()
        invariant
            i <= objects.len(),
            all == answers(objects@, *orig, *dir),
            best == nearest(all.take(i as int)),
        decreases objects.len() - i,
    {
        let answer = objects[i].ray_intersect(orig, dir);
        proof {
            assert(all.take(i + 1).drop_last() =~= all.take(i as int));
            assert(all.take(i + 1).last() == answer);
        }
        best = nearer_hit(best, answer);
        i += 1;
    }
    proof {
        assert(all.take(i as int) =~= all);
        lemma_nearest_is_an_answer(all);
    }
    best
}

/// The resolver returns the globally nearest hit: it is the answer of one
/// of the shapes, it is in range, and no shape of the scene answers with a
/// hit that is strictly nearer.
pub proof fn lemma_scene_intersect_nearest(
    objects: Seq<&dyn RayTraceable>,
    origin: Vec3f,
    dir: Vec3f,
    i: int,
)
    requires
        0 <= i < objects.len(),
    ensures
        nearest(answers(objects, origin, dir)) matches Some(hit) ==> {
            &&& in_range(hit)
            &&& exists|j: int|
                0 <= j < objects.len() && #[trigger] objects[j].hit(origin, dir) == Some(hit)
            &&& objects[i].hit(origin, dir) matches Some(other) ==> !other.distance.less_than(
                hit.distance,
            )
        },
        nearest(answers(objects, origin, dir)) is None ==> (objects[i].hit(
            origin,
            dir,
        ) matches Some(other) ==> !in_range(other)),
{
    let all = answers(objects, origin, dir);
    lemma_nearest_is_an_answer(all);
    lemma_nearest_is_minimal(all, i);
    lemma_nearest_none(all);
    assert(all[i] == objects[i].hit(origin, dir));
    if let Some(hit) = nearest(all) {
        let j = choose|j: int| 0 <= j < all.len() && #[trigger] all[j] == Some(hit);
        assert(objects[j].hit(origin, dir) == Some(hit));
    }
}

} // verus!
