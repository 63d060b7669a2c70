//! The declarative scene: a fixed-capacity list of object descriptions, and
//! the lookup of the object each id stands for.

use vstd::prelude::*;
use std::collections::HashMap;

verus! {

broadcast use vstd::std_specs::hash::group_hash_axioms;

/// Most objects a scene description can hold; further pushes are ignored.
pub const MAX_SCENE_OBJECTS: usize = 64;

/// A scene description: the first `count` slots of `objects` are the
/// objects of the scene, the rest hold filler.
pub struct SceneDesc<O> {
    pub objects: [O; MAX_SCENE_OBJECTS],
    pub count: u32,
}

impl<O: Copy> SceneDesc<O> {
    /// The objects of the scene, in the order they were pushed.
    pub open spec fn live(&self) -> Seq<O> {
        self.objects@.take(self.count as int)
    }

    /// An empty scene; every slot holds `filler`.
    pub fn new(filler: O) -> (d: Self)
        ensures
            d.count == 0,
            forall|i: int| 0 <= i < MAX_SCENE_OBJECTS ==> d.objects@[i] == filler,
            d.live() == Seq::<O>::empty(),
    {
        let d = SceneDesc { objects: [filler; MAX_SCENE_OBJECTS], count: 0 };
        assert(d.live() =~= Seq::<O>::empty());
        d
    }

    /// Appends `obj` when fewer than `MAX_SCENE_OBJECTS` objects are held;
    /// otherwise the description is left as it was.
    pub fn push(&mut self, obj: O)
        ensures
            (old(self).count as usize) < MAX_SCENE_OBJECTS ==> {
                &&& final(self).count == old(self).count + 1
                &&& final(self).objects@ == old(self).objects@.update(old(self).count as int, obj)
            },
            (old(self).count as usize) >= MAX_SCENE_OBJECTS ==> *final(self) == *old(self),
    {
        if (self.count as usize) < MAX_SCENE_OBJECTS {
            let i = self.count as usize;
            self.objects[i] = obj;
            self.count = self.count + 1;
        }
    }

    /// The live objects as a slice.
    pub fn live_objects(&self) -> (s: &[O])
        requires
            self.count as usize <= MAX_SCENE_OBJECTS,
        ensures
            s@ == self.live(),
    {
        let all: &[O] = self.objects.as_slice();
        &all[0..self.count as usize]
    }
}

/// Pushing onto a description that holds fewer than `MAX_SCENE_OBJECTS`
/// objects appends the object and keeps the earlier ones; pushing onto a full
/// one changes nothing.
pub proof fn lemma_push_appends<O: Copy>(before: SceneDesc<O>, obj: O, after: SceneDesc<O>)
    requires
        before.count as usize <= MAX_SCENE_OBJECTS,
        (before.count as usize) < MAX_SCENE_OBJECTS ==> {
            &&& after.count == before.count + 1
            &&& after.objects@ == before.objects@.update(before.count as int, obj)
        },
        (before.count as usize) >= MAX_SCENE_OBJECTS ==> after == before,
    ensures
        after.count as usize <= MAX_SCENE_OBJECTS,
        (before.count as usize) < MAX_SCENE_OBJECTS ==> after.live() == before.live().push(obj),
        (before.count as usize) >= MAX_SCENE_OBJECTS ==> after.live() == before.live(),
{
    if (before.count as usize) < MAX_SCENE_OBJECTS {
        assert(after.live() =~= before.live().push(obj));
    }
}

/// Index of the last entry of `ids` equal to `id` (-1 when there is none).
pub open spec fn last_index_of(ids: Seq<u64>, id: u64) -> int
    decreases ids.len(),
{
    if ids.len() == 0 {
        -1
    } else if ids.last() == id {
        ids.len() - 1
    } else {
        last_index_of(ids.drop_last(), id)
    }
}

pub proof fn lemma_last_index_of(ids: Seq<u64>, id: u64)
    ensures
        -1 <= last_index_of(ids, id) < ids.len(),
        last_index_of(ids, id) >= 0 ==> ids[last_index_of(ids, id)] == id,
        forall|j: int| last_index_of(ids, id) < j < ids.len() ==> ids[j] != id,
        last_index_of(ids, id) == -1 <==> !ids.contains(id),
    decreases ids.len(),
{
    if ids.len() > 0 {
        lemma_last_index_of(ids.drop_last(), id);
        if ids.last() != id {
            assert forall|j: int| last_index_of(ids, id) < j < ids.len() implies ids[j] != id by {
                if j < ids.len() - 1 {
                    assert(ids[j] == ids.drop_last()[j]);
                }
            }
            if ids.contains(id) {
                let k = choose|k: int| 0 <= k < ids.len() && ids[k] == id;
                assert(ids.drop_last()[k] == id);
            }
            if ids.drop_last().contains(id) {
                let k = choose|k: int| 0 <= k < ids.len() - 1 && ids.drop_last()[k] == id;
                assert(ids[k] == id);
            }
        } else {
            assert(ids.contains(id)) by {
                assert(ids[ids.len() - 1] == id);
            }
        }
    }
}

/// Maps each id of the scene to the position of its object; when an id occurs
/// more than once the last occurrence wins.
pub fn index_by_id(ids: &[u64]) -> (m: HashMap<u64, usize>)
    ensures
        forall|id: u64| m@.contains_key(id) <==> ids@.contains(id),
        forall|id: u64| #[trigger] m@.contains_key(id) ==> m@[id] as int == last_index_of(ids@, id),
{
    let mut m: HashMap<u64, usize> = HashMap::new();
    let mut i: usize = 0;
    while i < ids.len()
        invariant
            0 <= i <= ids@.len(),
            forall|id: u64| m@.contains_key(id) <==> ids@.take(i as int).contains(id),
            forall|id: u64| #[trigger] m@.contains_key(id) ==> m@[id] as int == last_index_of(ids@.take(i as int), id),
        decreases ids@.len() - i,
    {
        let id = ids[i];
        m.insert(id, i);
        proof {
            let prev = ids@.take(i as int);
            let cur = ids@.take(i + 1);
            assert(cur.drop_last() =~= prev);
            assert(cur.last() == id);
            assert forall|k: u64| m@.contains_key(k) <==> cur.contains(k) by {
                if cur.contains(k) && k != id {
                    let j = choose|j: int| 0 <= j < cur.len() && cur[j] == k;
                    assert(prev[j] == k);
                }
                if prev.contains(k) {
                    let j = choose|j: int| 0 <= j < prev.len() && prev[j] == k;
                    assert(cur[j] == k);
                }
                if k == id {
                    assert(cur[i as int] == id);
                }
            }
        }
        i = i + 1;
    }
    assert(ids@.take(ids@.len() as int) =~= ids@);
    m
}

} // verus!
