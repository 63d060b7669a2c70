//! Hot-reload decisions: when to rebuild the logic library after its source
//! changed, and when and under which copy number to load a new build.
//! File times are nanoseconds relative to the Unix epoch.

use vstd::prelude::*;

verus! {

/// The build of the logic library that is currently loaded.
#[derive(Clone, Copy, Debug, PartialEq, Eq, Structural)]
pub struct LoadedLib {
    /// Modification time of the library file when it was loaded.
    pub mtime: i128,
    /// Number of the private copy that was loaded (1 for the first load).
    pub counter: u64,
}

/// What to do with the library file found on disk.
#[derive(Clone, Copy, Debug, PartialEq, Eq, Structural)]
pub enum ReloadPlan {
    /// The loaded build is current.
    Keep,
    /// Copy the library to copy number `counter` and load it; once it is in
    /// place, delete the copy numbered `retire` (the previous one), if any.
    Load { counter: u64, retire: Option<u64> },
}

/// The plan for a library file with modification time `mtime`.
pub open spec fn reload_plan_spec(loaded: Option<LoadedLib>, mtime: i128) -> ReloadPlan {
    match loaded {
        Some(l) => if l.mtime == mtime {
            ReloadPlan::Keep
        } else {
            ReloadPlan::Load { counter: (l.counter + 1) as u64, retire: Some(l.counter) }
        },
        None => ReloadPlan::Load { counter: 1, retire: None },
    }
}

/// Decides whether the library on disk must be (re)loaded: the first time,
/// and whenever its modification time differs from the loaded build's.
pub fn plan_reload(loaded: Option<LoadedLib>, mtime: i128) -> (p: ReloadPlan)
    requires
        loaded matches Some(l) ==> (l.mtime != mtime ==> l.counter < u64::MAX),
    ensures
        p == reload_plan_spec(loaded, mtime),
{
    match loaded {
        Some(l) => {
            if l.mtime == mtime {
                ReloadPlan::Keep
            } else {
                ReloadPlan::Load { counter: l.counter + 1, retire: Some(l.counter) }
            }
        },
        None => ReloadPlan::Load { counter: 1, retire: None },
    }
}

/// The loaded build after carrying out `p` with file time `mtime`.
pub open spec fn after_reload(loaded: Option<LoadedLib>, mtime: i128, p: ReloadPlan) -> Option<LoadedLib> {
    match p {
        ReloadPlan::Keep => loaded,
        ReloadPlan::Load { counter, .. } => Some(LoadedLib { mtime, counter }),
    }
}

/// A build is loaded once per modification time; every load uses a copy
/// number above the previous one and retires exactly the previous copy, so
/// a file that does not change is never loaded twice.
pub proof fn lemma_reload_counters(loaded: Option<LoadedLib>, mtime: i128)
    requires
        loaded matches Some(l) ==> (l.mtime != mtime ==> l.counter < u64::MAX),
    ensures
        reload_plan_spec(loaded, mtime) is Keep <==> (loaded matches Some(l) && l.mtime == mtime),
        reload_plan_spec(loaded, mtime) matches ReloadPlan::Load { counter, retire } ==> {
            &&& counter >= 1
            &&& (loaded matches Some(l) ==> counter == l.counter + 1 && retire == Some(l.counter))
            &&& (loaded is None ==> counter == 1 && retire is None)
        },
        after_reload(loaded, mtime, reload_plan_spec(loaded, mtime)) matches Some(l2) && l2.mtime == mtime,
        reload_plan_spec(
            after_reload(loaded, mtime, reload_plan_spec(loaded, mtime)),
            mtime,
        ) is Keep,
{
}

/// Rebuild bookkeeping: the source time last seen and whether a build runs.
#[derive(Clone, Copy, Debug, PartialEq, Eq, Structural)]
pub struct RebuildState {
    pub src_mtime: i128,
    pub building: bool,
}

impl RebuildState {
    /// Starts watching a source file with modification time `src_mtime`.
    pub fn new(src_mtime: i128) -> (s: Self)
        ensures
            s == (RebuildState { src_mtime, building: false }),
    {
        RebuildState { src_mtime, building: false }
    }

    /// Per-frame check. `child_running` tells whether the build process is
    /// still running (false when it exited or could not be polled); `mtime`
    /// is the source's current modification time. Returns whether to start a
    /// build: only when the source changed and no build is running.
    pub fn on_frame(&mut self, child_running: bool, mtime: i128) -> (spawn: bool)
        ensures
            final(self).src_mtime == mtime,
            final(self).building == (old(self).building && child_running),
            spawn == (mtime != old(self).src_mtime && !(old(self).building && child_running)),
    {
        if self.building && !child_running {
            self.building = false;
        }
        let mut spawn = false;
        if mtime != self.src_mtime {
            self.src_mtime = mtime;
            if !self.building {
                spawn = true;
            }
        }
        spawn
    }

    /// Records whether starting the build succeeded.
    pub fn build_spawned(&mut self, started: bool)
        ensures
            *final(self) == (RebuildState { building: started, ..*old(self) }),
    {
        self.building = started;
    }
}

} // verus!
