use interact::reload::{plan_reload, LoadedLib, RebuildState, ReloadPlan};

#[test]
fn first_load_uses_copy_one() {
    assert_eq!(plan_reload(None, 1234), ReloadPlan::Load { counter: 1, retire: None });
}

#[test]
fn unchanged_library_is_kept() {
    let l = LoadedLib { mtime: 1234, counter: 3 };
    assert_eq!(plan_reload(Some(l), 1234), ReloadPlan::Keep);
}

#[test]
fn changed_library_is_loaded_under_next_copy() {
    let l = LoadedLib { mtime: 1234, counter: 3 };
    assert_eq!(plan_reload(Some(l), 1300), ReloadPlan::Load { counter: 4, retire: Some(3) });
    assert_eq!(plan_reload(Some(l), -5), ReloadPlan::Load { counter: 4, retire: Some(3) });
}

#[test]
fn rebuild_on_source_change_only() {
    let mut r = RebuildState::new(10);
    assert!(!r.on_frame(false, 10));
    assert!(r.on_frame(false, 11));
    assert_eq!(r.src_mtime, 11);
    r.build_spawned(true);
    assert!(r.building);
    // The source changes again while the build runs: no second build.
    assert!(!r.on_frame(true, 12));
    assert_eq!(r.src_mtime, 12);
    assert!(r.building);
    // The build finished; nothing changed since.
    assert!(!r.on_frame(false, 12));
    assert!(!r.building);
    assert!(r.on_frame(false, 13));
    r.build_spawned(false);
    assert!(!r.building);
}
