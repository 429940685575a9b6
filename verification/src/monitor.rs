//! The monitor handle: one stop signal per watched directory, owned for
//! the whole watching session. Stopping sets every signal (a one-way
//! transition) and clears the task registry, so that no task still short
//! of `Running` can pass its checkpoint afterwards.

use crate::registry::TaskRegistry;
use crate::watcher::{
    TaskEvent, TaskState, WatchTarget, new_watch_target, spec_task_step,
};
use vstd::prelude::*;

verus! {

/// The control handle of one watching session.
#[derive(Clone)]
pub struct MonitorInstance {
    /// One stop signal per watched directory; `true` means stopped.
    pub stop_flags: Vec<bool>,
}

impl MonitorInstance {
    /// Every stop signal of the session is set.
    pub open spec fn spec_stopped(self) -> bool {
        forall|i: int| 0 <= i < self.stop_flags@.len() ==> self.stop_flags@[i]
    }

    /// At least one watcher has not been told to stop.
    pub open spec fn spec_running(self) -> bool {
        exists|i: int| 0 <= i < self.stop_flags@.len() && !self.stop_flags@[i]
    }

    /// Stop the session: set every stop signal and clear the registry,
    /// denying any task still before its checkpoint the right to proceed.
    /// Idempotent; a signal once set is never reset.
    pub fn stop(&mut self, registry: &mut TaskRegistry)
        ensures
            final(self).stop_flags@.len() == old(self).stop_flags@.len(),
            final(self).spec_stopped(),
            final(registry).wf(),
            final(registry).spec_claims() == Set::<Seq<char>>::empty(),
    {
        let n = self.stop_flags.len();
        let mut i: usize = 0;
        while i < n
            invariant
                i <= n,
                n == self.stop_flags@.len(),
                forall|j: int| 0 <= j < i ==> self.stop_flags@[j],
            decreases n - i,
        {
            self.stop_flags.set(i, true);
            i = i + 1;
        }
        registry.clear();
    }

    /// True iff at least one owned stop signal is still unset.
    pub fn is_running(&self) -> (r: bool)
        ensures
            r == self.spec_running(),
    {
        let n = self.stop_flags.len();
        let mut i: usize = 0;
        while i < n
            invariant
                i <= n,
                n == self.stop_flags@.len(),
                forall|j: int| 0 <= j < i ==> self.stop_flags@[j],
            decreases n - i,
        {
            if !self.stop_flags[i] {
                return true;
            }
            i = i + 1;
        }
        false
    }
}

/// Begin a watching session over `dirs`: one unset stop signal and one
/// watcher per directory. The caller runs each watcher's poll loop and
/// primes its first snapshot; files present before that are no
/// candidates.
pub fn start_watch_multiple(dirs: Vec<String>) -> (r: (MonitorInstance, Vec<WatchTarget>))
    ensures
        r.0.stop_flags@.len() == dirs@.len(),
        !r.0.spec_stopped() || dirs@.len() == 0,
        forall|i: int| 0 <= i < dirs@.len() ==> !r.0.stop_flags@[i],
        r.1@.len() == dirs@.len(),
        forall|i: int|
            0 <= i < dirs@.len() ==> r.1@[i].dir == dirs@[i] && r.1@[i].snapshot@.len() == 0,
{
    let mut flags: Vec<bool> = Vec::new();
    let mut targets: Vec<WatchTarget> = Vec::new();
    let n = dirs.len();
    let mut i: usize = 0;
    while i < n
        invariant
            i <= n,
            n == dirs@.len(),
            flags@.len() == i,
            targets@.len() == i,
            forall|j: int| 0 <= j < i ==> !flags@[j],
            forall|j: int|
                0 <= j < i ==> targets@[j].dir == dirs@[j] && targets@[j].snapshot@.len() == 0,
        decreases n - i,
    {
        flags.push(false);
        let dir = dirs[i].clone();
        targets.push(new_watch_target(dir));
        i = i + 1;
    }
    proof {
        if dirs@.len() > 0 {
            assert(!flags@[0]);
        }
    }
    (MonitorInstance { stop_flags: flags }, targets)
}

/// Begin a watching session over a single directory.
pub fn start_watch_async(dir: String) -> (r: (MonitorInstance, Vec<WatchTarget>))
    ensures
        r.0.stop_flags@.len() == 1,
        !r.0.spec_stopped(),
        r.1@.len() == 1,
        r.1@[0].dir == dir,
        r.1@[0].snapshot@.len() == 0,
{
    let mut dirs: Vec<String> = Vec::new();
    dirs.push(dir);
    proof {
        assert(dirs@.len() == 1);
        assert(dirs@[0] == dir);
    }
    let r = start_watch_multiple(dirs);
    proof {
        assert(r.1@[0].dir == dirs@[0]);
        assert(!r.0.stop_flags@[0]);
    }
    r
}

/// After a stop, no task short of `Running` can ever run: whichever stop
/// signal of the stopped session it consults is set, and the cleared
/// registry holds no claim, so a `Pending` task's first check and a
/// `Delayed` task's checkpoint both cancel it, and no patch write follows.
pub proof fn lemma_stop_cancels_pending(
    m: MonitorInstance,
    registry: TaskRegistry,
    s: TaskState,
    i: int,
    p: Seq<char>,
)
    requires
        m.spec_stopped(),
        registry.spec_claims() == Set::<Seq<char>>::empty(),
        0 <= i < m.stop_flags@.len(),
        s is Pending || s is Delayed,
    ensures
        s is Pending ==> spec_task_step(s, TaskEvent::StopChecked { stop: m.stop_flags@[i] })
            == TaskState::Cancelled,
        s is Delayed ==> spec_task_step(
            s,
            TaskEvent::GateChecked { stop: m.stop_flags@[i], claim_held: registry.spec_holds(p) },
        ) == TaskState::Cancelled,
        spec_task_step(s, TaskEvent::StopChecked { stop: m.stop_flags@[i] })
            != TaskState::Running,
        spec_task_step(
            s,
            TaskEvent::GateChecked { stop: m.stop_flags@[i], claim_held: registry.spec_holds(p) },
        ) != TaskState::Running,
{
    assert(m.stop_flags@[i]);
    assert(!registry.spec_holds(p)) by {
        assert(registry.spec_claims().contains(p) == registry.spec_holds(p));
    };
}

} // verus!
