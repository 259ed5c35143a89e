//! The per-frame hit test over a scene of interactive objects.

use vstd::prelude::*;
use crate::mapper::WorldPoint;
use crate::object::{InteractiveObject, ObjectState};

verus! {

/// The states of a sequence of objects, in order.
pub open spec fn states(objects: Seq<InteractiveObject>) -> Seq<ObjectState> {
    objects.map_values(|o: InteractiveObject| o@)
}

/// The scene after one frame with the pointer at `point`: every object
/// steps on its own.
pub open spec fn stepped(scene: Seq<ObjectState>, point: Option<WorldPoint>) -> Seq<ObjectState> {
    scene.map_values(|s: ObjectState| s.step(point))
}

/// The handles of the objects that a frame with the pointer at `point`
/// passes over because their size source is unresolved, in scene order.
/// Without a pointer no size is looked up and nothing is passed over.
pub open spec fn passed_over(scene: Seq<ObjectState>, point: Option<WorldPoint>) -> Seq<u64> {
    match point {
        None => Seq::empty(),
        Some(_) => scene.filter(|s: ObjectState| !s.resolved).map_values(|s: ObjectState| s.id),
    }
}

/// Appending one object to a scene appends its handle to those passed
/// over exactly when a pointer is given and the object is unresolved.
proof fn lemma_passed_over_push(scene: Seq<ObjectState>, next: ObjectState, point: Option<WorldPoint>)
    ensures
        passed_over(scene.push(next), point) == if point is Some && !next.resolved {
            passed_over(scene, point).push(next.id)
        } else {
            passed_over(scene, point)
        },
{
    let unresolved = |s: ObjectState| !s.resolved;
    let handle = |s: ObjectState| s.id;
    scene.lemma_filter_push(next, unresolved);
    scene.filter(unresolved).lemma_push_map_commute(handle, next);
}

/// Updates highlight and frame of every object for one frame.
pub struct HitTestEngine;

impl HitTestEngine {
    /// Steps every object with the pointer at `point` and returns the
    /// handles of the objects passed over as unresolved.
    pub fn update(point: Option<WorldPoint>, objects: &mut [InteractiveObject]) -> (unresolved: Vec<u64>)
        ensures
            final(objects)@.len() == old(objects)@.len(),
            forall|i: int|
                0 <= i < old(objects)@.len() ==> (#[trigger] final(objects)@[i])@ == old(
                    objects,
                )@[i]@.step(point),
            states(final(objects)@) == stepped(states(old(objects)@), point),
            unresolved@ == passed_over(states(old(objects)@), point),
            point is None ==> forall|i: int|
                0 <= i < old(objects)@.len() ==> {
                    &&& !(#[trigger] final(objects)@[i])@.hovered
                    &&& final(objects)@[i]@.frame == old(objects)@[i]@.frame
                },
    {
        let mut unresolved: Vec<u64> = Vec::new();
        let mut i: usize = 0;
        while i < objects.len()
            invariant
                i <= objects@.len(),
                objects@.len() == old(objects)@.len(),
                forall|j: int| 0 <= j < i ==> (#[trigger] objects@[j])@ == old(objects)@[j]@.step(point),
                forall|j: int| i <= j < objects@.len() ==> #[trigger] objects@[j] == old(objects)@[j],
                unresolved@ == passed_over(states(old(objects)@.take(i as int)), point),
            decreases objects@.len() - i,
        {
            proof {
                let seen = old(objects)@.take(i as int);
                assert(states(old(objects)@.take(i + 1)) =~= states(seen).push(old(objects)@[i as int]@));
                lemma_passed_over_push(states(seen), old(objects)@[i as int]@, point);
            }
            if objects[i].step(point).is_err() {
                unresolved.push(objects[i].id());
            }
            i += 1;
        }
        assert(old(objects)@.take(i as int) =~= old(objects)@);
        unresolved
    }
}

/// Without a pointer a frame clears every highlight, advances no frame
/// and passes over nothing.
pub proof fn lemma_absence_clears_scene(scene: Seq<ObjectState>)
    ensures
        stepped(scene, None).len() == scene.len(),
        forall|i: int|
            0 <= i < scene.len() ==> {
                &&& !(#[trigger] stepped(scene, None)[i]).hovered
                &&& stepped(scene, None)[i].frame == scene[i].frame
            },
        passed_over(scene, None) == Seq::<u64>::empty(),
{
}

/// Objects are independent: what a frame does to an object depends on
/// that object and the pointer alone. Two scenes that hold the same object
/// at a place hold the same object there afterwards, whatever else they
/// hold and however the boxes overlap.
pub proof fn lemma_objects_are_independent(
    first: Seq<ObjectState>,
    second: Seq<ObjectState>,
    place: int,
    point: Option<WorldPoint>,
)
    requires
        0 <= place < first.len(),
        place < second.len(),
        first[place] == second[place],
    ensures
        stepped(first, point)[place] == stepped(second, point)[place],
        stepped(first, point)[place] == first[place].step(point),
{
}

/// Changing one object of a scene changes nothing about what a frame does
/// to any other.
pub proof fn lemma_change_stays_local(
    scene: Seq<ObjectState>,
    changed: int,
    replacement: ObjectState,
    other: int,
    point: Option<WorldPoint>,
)
    requires
        0 <= changed < scene.len(),
        0 <= other < scene.len(),
        other != changed,
    ensures
        stepped(scene.update(changed, replacement), point)[other] == stepped(scene, point)[other],
{
}

/// A frame keeps every valid object valid.
pub proof fn lemma_frame_keeps_valid(scene: Seq<ObjectState>, point: Option<WorldPoint>)
    requires
        forall|i: int| 0 <= i < scene.len() ==> (#[trigger] scene[i]).valid(),
    ensures
        forall|i: int| 0 <= i < scene.len() ==> (#[trigger] stepped(scene, point)[i]).valid(),
{
    assert forall|i: int| 0 <= i < scene.len() implies (#[trigger] stepped(
        scene,
        point,
    )[i]).valid() by {
        crate::object::lemma_step_keeps_valid(scene[i], point);
    }
}

} // verus!
