use interact::scene_desc::{index_by_id, SceneDesc, MAX_SCENE_OBJECTS};

#[test]
fn new_scene_is_empty_and_filled() {
    let d: SceneDesc<(u64, u8)> = SceneDesc::new((0, 9));
    assert_eq!(d.count, 0);
    assert!(d.objects.iter().all(|&o| o == (0, 9)));
    assert!(d.live_objects().is_empty());
}

#[test]
fn push_appends_in_order() {
    let mut d: SceneDesc<u64> = SceneDesc::new(0);
    d.push(100);
    d.push(200);
    d.push(1);
    assert_eq!(d.count, 3);
    assert_eq!(d.live_objects(), &[100, 200, 1]);
}

#[test]
fn push_beyond_capacity_is_ignored() {
    let mut d: SceneDesc<u64> = SceneDesc::new(0);
    for i in 0..70u64 {
        d.push(i + 1);
    }
    assert_eq!(d.count as usize, MAX_SCENE_OBJECTS);
    assert_eq!(d.live_objects().len(), 64);
    assert_eq!(d.live_objects()[63], 64);
    assert_eq!(*d.live_objects().last().unwrap(), 64);
}

#[test]
fn index_by_id_keeps_last_occurrence() {
    let m = index_by_id(&[100, 200, 1, 200, 3]);
    assert_eq!(m.len(), 4);
    assert_eq!(m[&100], 0);
    assert_eq!(m[&200], 3);
    assert_eq!(m[&1], 2);
    assert_eq!(m[&3], 4);
    assert!(!m.contains_key(&5));
    assert!(index_by_id(&[]).is_empty());
}
