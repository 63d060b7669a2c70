use interact::sync::{claim_free_slots, plan_sync, sun_action, SunAction, FRAGMENTS_PER_BURST, FRAG_POOL_SIZE};
use std::collections::HashSet;

#[test]
fn plan_sync_removes_and_adds() {
    let p = plan_sync(&[1, 3, 100, 7], &[100, 200, 1, 5]);
    assert_eq!(p.remove, vec![3, 7]);
    assert_eq!(p.add, vec![200, 5]);
}

#[test]
fn plan_sync_identical_sets_is_empty() {
    let p = plan_sync(&[1, 2, 3], &[3, 2, 1]);
    assert!(p.remove.is_empty());
    assert!(p.add.is_empty());
    let p = plan_sync(&[], &[]);
    assert!(p.remove.is_empty() && p.add.is_empty());
}

#[test]
fn plan_sync_reaches_declared_ids() {
    let live = [100u64, 200, 1, 3, 5, 7, 10, 11, 12, 20, 21, 22, 23, 30, 31, 32];
    let declared = [100u64, 200, 1, 3, 5, 11, 12, 20, 40];
    let p = plan_sync(&live, &declared);
    let mut after: HashSet<u64> = live.iter().copied().collect();
    for id in &p.remove {
        assert!(after.remove(id));
    }
    for id in &p.add {
        assert!(after.insert(*id));
    }
    assert_eq!(after, declared.iter().copied().collect::<HashSet<u64>>());
    assert_eq!(p.add, vec![40]);
}

#[test]
fn sun_actions() {
    assert_eq!(sun_action(true, true), SunAction::Move);
    assert_eq!(sun_action(false, true), SunAction::Spawn);
    assert_eq!(sun_action(true, false), SunAction::Despawn);
    assert_eq!(sun_action(false, false), SunAction::Keep);
}

#[test]
fn burst_claims_first_free_slots() {
    let mut active = [false; FRAG_POOL_SIZE];
    active[0] = true;
    active[2] = true;
    let slots = claim_free_slots(&active, FRAGMENTS_PER_BURST);
    assert_eq!(slots, vec![1, 3, 4, 5, 6, 7, 8, 9]);
}

#[test]
fn burst_with_few_free_slots_takes_what_is_left() {
    let mut active = [true; FRAG_POOL_SIZE];
    active[4] = false;
    active[11] = false;
    assert_eq!(claim_free_slots(&active, FRAGMENTS_PER_BURST), vec![4, 11]);
    assert!(claim_free_slots(&[true; FRAG_POOL_SIZE], FRAGMENTS_PER_BURST).is_empty());
    assert!(claim_free_slots(&[false; FRAG_POOL_SIZE], 0).is_empty());
}

#[test]
fn two_bursts_fill_the_pool() {
    let mut active = [false; FRAG_POOL_SIZE];
    for s in claim_free_slots(&active, FRAGMENTS_PER_BURST) {
        active[s] = true;
    }
    let second = claim_free_slots(&active, FRAGMENTS_PER_BURST);
    assert_eq!(second, vec![8, 9, 10, 11]);
}
