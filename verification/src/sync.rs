//! Decisions of the per-frame synchronisation between the declared scene and
//! the live engine objects: which objects to remove and add, what to do with
//! each sun's marker sphere, and which fragment-pool slots a burst claims.

use vstd::prelude::*;

verus! {

/// The ids of `ids` that do not occur in `other`, in their order in `ids`.
pub open spec fn missing_from(ids: Seq<u64>, other: Seq<u64>) -> Seq<u64>
    decreases ids.len(),
{
    if ids.len() == 0 {
        Seq::empty()
    } else {
        let rest = missing_from(ids.drop_last(), other);
        if other.contains(ids.last()) {
            rest
        } else {
            rest.push(ids.last())
        }
    }
}

pub proof fn lemma_missing_from(ids: Seq<u64>, other: Seq<u64>, x: u64)
    ensures
        missing_from(ids, other).contains(x) <==> ids.contains(x) && !other.contains(x),
    decreases ids.len(),
{
    if ids.len() > 0 {
        let init = ids.drop_last();
        lemma_missing_from(init, other, x);
        let rest = missing_from(init, other);
        if ids.contains(x) && x != ids.last() {
            let k = choose|k: int| 0 <= k < ids.len() && ids[k] == x;
            assert(init[k] == x);
        }
        if init.contains(x) {
            let k = choose|k: int| 0 <= k < init.len() && init[k] == x;
            assert(ids[k] == x);
        }
        if x == ids.last() {
            assert(ids[ids.len() - 1] == x);
        }
        if !other.contains(ids.last()) {
            let r = rest.push(ids.last());
            if rest.contains(x) {
                let k = choose|k: int| 0 <= k < rest.len() && rest[k] == x;
                assert(r[k] == x);
            }
            if r.contains(x) && x != ids.last() {
                let k = choose|k: int| 0 <= k < r.len() && r[k] == x;
                assert(rest[k] == x);
            }
            assert(r[r.len() - 1] == ids.last());
        }
    }
}

fn contains_id(ids: &[u64], x: u64) -> (r: bool)
    ensures
        r == ids@.contains(x),
{
    let mut i: usize = 0;
    while i < ids.len()
        invariant
            0 <= i <= ids@.len(),
            forall|j: int| 0 <= j < i ==> ids@[j] != x,
        decreases ids@.len() - i,
    {
        if ids[i] == x {
            assert(ids@[i as int] == x);
            return true;
        }
        i = i + 1;
    }
    false
}

fn ids_missing_from(ids: &[u64], other: &[u64]) -> (out: Vec<u64>)
    ensures
        out@ == missing_from(ids@, other@),
{
    let mut out: Vec<u64> = Vec::new();
    let mut i: usize = 0;
    while i < ids.len()
        invariant
            0 <= i <= ids@.len(),
            out@ == missing_from(ids@.take(i as int), other@),
        decreases ids@.len() - i,
    {
        let id = ids[i];
        assert(ids@.take(i + 1).drop_last() =~= ids@.take(i as int));
        if !contains_id(other, id) {
            out.push(id);
        }
        i = i + 1;
    }
    assert(ids@.take(ids@.len() as int) =~= ids@);
    out
}

/// What to change to turn the live objects into the declared ones.
pub struct SyncPlan {
    /// Live objects that are no longer declared, in live order.
    pub remove: Vec<u64>,
    /// Declared objects that are not live yet, in declaration order.
    pub add: Vec<u64>,
}

/// Compares the ids of the live objects with the declared ids. An id is the
/// stable identity of an object: live objects whose id is still declared are
/// kept as they are, the others removed, and undeclared ids added.
pub fn plan_sync(live: &[u64], declared: &[u64]) -> (p: SyncPlan)
    ensures
        p.remove@ == missing_from(live@, declared@),
        p.add@ == missing_from(declared@, live@),
{
    SyncPlan { remove: ids_missing_from(live, declared), add: ids_missing_from(declared, live) }
}

/// The plan removes exactly the live ids that are not declared and adds
/// exactly the declared ids that are not live: it never re-adds a live
/// object nor removes a declared one.
pub proof fn lemma_sync_plan_members(live: Seq<u64>, declared: Seq<u64>, id: u64)
    ensures
        missing_from(live, declared).contains(id) <==> live.contains(id) && !declared.contains(id),
        missing_from(declared, live).contains(id) <==> declared.contains(id) && !live.contains(id),
{
    lemma_missing_from(live, declared, id);
    lemma_missing_from(declared, live, id);
}

/// After a sync the live ids are exactly the declared ids, and every live id
/// that is still declared is kept.
pub proof fn lemma_sync_reaches_declared(live: Seq<u64>, declared: Seq<u64>)
    ensures
        live.to_set().difference(missing_from(live, declared).to_set()).union(
            missing_from(declared, live).to_set(),
        ) == declared.to_set(),
        forall|id: u64|
            live.contains(id) && declared.contains(id) ==> !#[trigger] missing_from(live, declared).contains(id),
{
    let after = live.to_set().difference(missing_from(live, declared).to_set()).union(
        missing_from(declared, live).to_set(),
    );
    assert forall|x: u64| after.contains(x) <==> declared.to_set().contains(x) by {
        lemma_missing_from(live, declared, x);
        lemma_missing_from(declared, live, x);
    }
    assert(after =~= declared.to_set());
    assert forall|id: u64| live.contains(id) && declared.contains(id) implies !#[trigger] missing_from(
        live,
        declared,
    ).contains(id) by {
        lemma_missing_from(live, declared, id);
    }
}

/// What to do with the marker sphere of one sun this frame.
#[derive(Clone, Copy, Debug, PartialEq, Eq, Structural)]
pub enum SunAction {
    /// Move the existing sphere to the sun and recolour it.
    Move,
    /// Create a sphere for the sun.
    Spawn,
    /// Remove the sphere of a sun that went dark.
    Despawn,
    /// Nothing to do: the sun is dark and has no sphere.
    Keep,
}

/// A lit sun has a sphere that follows it; a dark one has none.
pub fn sun_action(has_sphere: bool, lit: bool) -> (a: SunAction)
    ensures
        has_sphere && lit ==> a == SunAction::Move,
        !has_sphere && lit ==> a == SunAction::Spawn,
        has_sphere && !lit ==> a == SunAction::Despawn,
        !has_sphere && !lit ==> a == SunAction::Keep,
{
    match (has_sphere, lit) {
        (true, true) => SunAction::Move,
        (false, true) => SunAction::Spawn,
        (true, false) => SunAction::Despawn,
        (false, false) => SunAction::Keep,
    }
}

/// Whether a sun has a marker sphere after `a` was carried out.
pub open spec fn has_sphere_after(has_sphere: bool, a: SunAction) -> bool {
    match a {
        SunAction::Move => true,
        SunAction::Spawn => true,
        SunAction::Despawn => false,
        SunAction::Keep => has_sphere,
    }
}

/// After its action a sun has a sphere exactly when it is lit.
pub proof fn lemma_sun_sphere_follows_light(has_sphere: bool, lit: bool, a: SunAction)
    requires
        has_sphere && lit ==> a == SunAction::Move,
        !has_sphere && lit ==> a == SunAction::Spawn,
        has_sphere && !lit ==> a == SunAction::Despawn,
        !has_sphere && !lit ==> a == SunAction::Keep,
    ensures
        has_sphere_after(has_sphere, a) == lit,
{
}

/// Fragment-pool slots, allocated once and reused.
pub const FRAG_POOL_SIZE: usize = 12;

/// Fragments a shattering ball tries to launch.
pub const FRAGMENTS_PER_BURST: usize = 8;

/// Indices of the inactive slots, in increasing order.
pub open spec fn free_slots(active: Seq<bool>) -> Seq<usize>
    decreases active.len(),
{
    if active.len() == 0 {
        Seq::empty()
    } else {
        let rest = free_slots(active.drop_last());
        if active.last() {
            rest
        } else {
            rest.push((active.len() - 1) as usize)
        }
    }
}

/// The first `n` elements of `s` (all of them when there are fewer).
pub open spec fn first_n(s: Seq<usize>, n: int) -> Seq<usize> {
    if s.len() <= n {
        s
    } else {
        s.take(n)
    }
}

pub proof fn lemma_free_slots(active: Seq<bool>)
    requires
        active.len() <= usize::MAX,
    ensures
        forall|k: int| 0 <= k < free_slots(active).len() ==> {
            &&& 0 <= #[trigger] free_slots(active)[k] < active.len()
            &&& !active[free_slots(active)[k] as int]
        },
        forall|k: int, l: int| 0 <= k < l < free_slots(active).len() ==> free_slots(active)[k] < free_slots(active)[l],
    decreases active.len(),
{
    if active.len() > 0 {
        let init = active.drop_last();
        lemma_free_slots(init);
        let rest = free_slots(init);
        let f = free_slots(active);
        assert forall|k: int| 0 <= k < rest.len() implies !active[rest[k] as int] by {
            assert(active[rest[k] as int] == init[rest[k] as int]);
        }
        if !active.last() {
            assert(f == rest.push((active.len() - 1) as usize));
            assert forall|k: int| 0 <= k < f.len() implies {
                &&& 0 <= #[trigger] f[k] < active.len()
                &&& !active[f[k] as int]
            } by {
                if k < rest.len() {
                    assert(f[k] == rest[k]);
                }
            }
            assert forall|k: int, l: int| 0 <= k < l < f.len() implies f[k] < f[l] by {
                assert(f[k] == rest[k]);
                if l < rest.len() {
                    assert(f[l] == rest[l]);
                }
            }
        } else {
            assert(f == rest);
        }
    }
}

/// The slots a burst of `want` fragments takes: the first `want` free slots,
/// lowest index first (fewer when fewer are free).
pub fn claim_free_slots(active: &[bool], want: usize) -> (slots: Vec<usize>)
    ensures
        slots@ == first_n(free_slots(active@), want as int),
{
    let mut slots: Vec<usize> = Vec::new();
    let mut i: usize = 0;
    while i < active.len()
        invariant
            0 <= i <= active@.len(),
            slots@ == first_n(free_slots(active@.take(i as int)), want as int),
        decreases active@.len() - i,
    {
        let ghost prev = free_slots(active@.take(i as int));
        assert(active@.take(i + 1).drop_last() =~= active@.take(i as int));
        if !active[i] {
            assert(free_slots(active@.take(i + 1)) == prev.push(i));
            if slots.len() < want {
                slots.push(i);
                assert(slots@ =~= first_n(prev.push(i), want as int));
            } else {
                assert(first_n(prev.push(i), want as int) =~= first_n(prev, want as int));
            }
        }
        i = i + 1;
    }
    assert(active@.take(active@.len() as int) =~= active@);
    slots
}

/// The claimed slots were free, are distinct and increasing, and there are
/// `min(want, free)` of them: a burst never takes an active slot and the pool
/// never grows.
pub proof fn lemma_claimed_slots_free(active: Seq<bool>, want: int)
    requires
        active.len() <= usize::MAX,
        want >= 0,
    ensures
        first_n(free_slots(active), want).len() == if free_slots(active).len() <= want {
            free_slots(active).len() as int
        } else {
            want
        },
        forall|k: int| 0 <= k < first_n(free_slots(active), want).len() ==> {
            &&& 0 <= #[trigger] first_n(free_slots(active), want)[k] < active.len()
            &&& !active[first_n(free_slots(active), want)[k] as int]
        },
        forall|k: int, l: int|
            0 <= k < l < first_n(free_slots(active), want).len() ==> first_n(free_slots(active), want)[k]
                < first_n(free_slots(active), want)[l],
{
    lemma_free_slots(active);
}

proof fn lemma_free_slots_complete(active: Seq<bool>, j: int)
    requires
        active.len() <= usize::MAX,
        0 <= j < active.len(),
        !active[j],
    ensures
        free_slots(active).contains(j as usize),
    decreases active.len(),
{
    let init = active.drop_last();
    let rest = free_slots(init);
    if j == active.len() - 1 {
        let f = free_slots(active);
        assert(f == rest.push(j as usize));
        assert(f[f.len() - 1] == j as usize);
    } else {
        assert(init[j] == active[j]);
        lemma_free_slots_complete(init, j);
        let m = choose|m: int| 0 <= m < rest.len() && rest[m] == j as usize;
        let f = free_slots(active);
        if !active.last() {
            assert(f == rest.push((active.len() - 1) as usize));
            assert(f[m] == j as usize);
        } else {
            assert(f == rest);
        }
    }
}

/// A burst claims the lowest free slots: a free slot below a claimed one is
/// claimed too, and when fewer than `want` slots were claimed every free slot
/// was.
pub proof fn lemma_claims_lowest_free(active: Seq<bool>, want: int)
    requires
        active.len() <= usize::MAX,
        want >= 0,
    ensures
        forall|j: int, k: int|
            0 <= j < active.len() && !active[j] && 0 <= k < first_n(free_slots(active), want).len() && j
                < first_n(free_slots(active), want)[k] ==> first_n(free_slots(active), want).contains(j as usize),
        first_n(free_slots(active), want).len() < want ==> forall|j: int|
            0 <= j < active.len() && !active[j] ==> first_n(free_slots(active), want).contains(j as usize),
{
    let f = free_slots(active);
    let r = first_n(f, want);
    lemma_free_slots(active);
    assert forall|j: int, k: int|
        0 <= j < active.len() && !active[j] && 0 <= k < r.len() && j < r[k] implies r.contains(j as usize) by {
        lemma_free_slots_complete(active, j);
        let m = choose|m: int| 0 <= m < f.len() && f[m] == j as usize;
        assert(r[k] == f[k]);
        if m >= k {
            if m > k {
                assert(f[k] < f[m]);
            }
        }
        assert(m < k);
        assert(r[m] == j as usize);
    }
    if r.len() < want {
        assert(r == f);
        assert forall|j: int| 0 <= j < active.len() && !active[j] implies r.contains(j as usize) by {
            lemma_free_slots_complete(active, j);
        }
    }
}

} // verus!
