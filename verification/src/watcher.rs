//! The watcher: one per watched directory. Each cycle it diffs the
//! current file listing against the previous snapshot and claims every
//! newly observed replay file in the task registry; each claimed path is
//! handed back for an independent fix task. The fix task itself is a
//! state machine driven by the events it observes: the stop signal at
//! entry, the checkpoint after the debounce, and the patcher's outcome.

use crate::fixer::spec_has_replay_ext;
use crate::fixer::has_replay_extension;
use crate::registry::TaskRegistry;
use vstd::prelude::*;

verus! {

/// The states of one fix task.
#[derive(Clone, Copy, Debug, PartialEq, Eq, Structural)]
pub enum TaskState {
    /// Created for a freshly claimed path; nothing observed yet.
    Pending,
    /// Waiting out the debounce interval.
    Delayed,
    /// Past the final checkpoint; the patcher runs.
    Running,
    /// The patcher succeeded.
    Done,
    /// The stop signal or a withdrawn claim ended the task early.
    Cancelled,
    /// The patcher failed; siblings and the watcher are unaffected.
    Failed,
}

/// The events a fix task observes, in the order its phases reach them.
#[derive(Clone, Copy, Debug, PartialEq, Eq, Structural)]
pub enum TaskEvent {
    /// The stop signal as read before the debounce delay.
    StopChecked { stop: bool },
    /// The re-check after the debounce: the stop signal read again,
    /// together with whether the task's claim is still in the registry.
    GateChecked { stop: bool, claim_held: bool },
    /// The patcher finished, with or without success.
    FixCompleted { ok: bool },
}

/// The task lifecycle: `Pending` survives the first stop check as
/// `Delayed`; `Delayed` passes its checkpoint into `Running` only when
/// the stop signal is unset and the claim is still held; `Running` ends `Done` or
/// `Failed`. Any other observation leaves the state as it is; the three
/// terminal states absorb every event.
pub open spec fn spec_task_step(s: TaskState, ev: TaskEvent) -> TaskState {
    match (s, ev) {
        (TaskState::Pending, TaskEvent::StopChecked { stop }) => if stop {
            TaskState::Cancelled
        } else {
            TaskState::Delayed
        },
        (TaskState::Delayed, TaskEvent::GateChecked { stop, claim_held }) => if stop
            || !claim_held {
            TaskState::Cancelled
        } else {
            TaskState::Running
        },
        (TaskState::Running, TaskEvent::FixCompleted { ok }) => if ok {
            TaskState::Done
        } else {
            TaskState::Failed
        },
        _ => s,
    }
}

/// A task never runs again: no event leads out of these states.
pub open spec fn spec_terminal(s: TaskState) -> bool {
    s is Done || s is Cancelled || s is Failed
}

/// Advance one fix task by one observed event.
pub fn task_step(s: TaskState, ev: TaskEvent) -> (n: TaskState)
    ensures
        n == spec_task_step(s, ev),
{
    match (s, ev) {
        (TaskState::Pending, TaskEvent::StopChecked { stop }) => if stop {
            TaskState::Cancelled
        } else {
            TaskState::Delayed
        },
        (TaskState::Delayed, TaskEvent::GateChecked { stop, claim_held }) => if stop
            || !claim_held {
            TaskState::Cancelled
        } else {
            TaskState::Running
        },
        (TaskState::Running, TaskEvent::FixCompleted { ok }) => if ok {
            TaskState::Done
        } else {
            TaskState::Failed
        },
        _ => s,
    }
}

/// Terminal states absorb every event.
pub proof fn lemma_terminal_absorbs(s: TaskState, ev: TaskEvent)
    requires
        spec_terminal(s),
    ensures
        spec_task_step(s, ev) == s,
{
}

/// One watched directory: its path and the file set seen at the last poll.
pub struct WatchTarget {
    pub dir: String,
    pub snapshot: Vec<String>,
}

/// `p` is one of the paths in `v`.
pub open spec fn spec_names_contain(v: Seq<String>, p: Seq<char>) -> bool {
    exists|i: int| 0 <= i < v.len() && v[i]@ == p
}

/// `p` is one of the paths in `v`.
pub fn names_contain(v: &Vec<String>, p: &String) -> (r: bool)
    ensures
        r == spec_names_contain(v@, p@),
{
    let n = v.len();
    let mut i: usize = 0;
    while i < n
        invariant
            i <= n,
            n == v@.len(),
            forall|j: int| 0 <= j < i ==> v@[j]@ != p@,
        decreases n - i,
    {
        if v[i].eq(p) {
            return true;
        }
        i = i + 1;
    }
    false
}

/// A watcher for `dir`, with nothing observed yet.
pub fn new_watch_target(dir: String) -> (w: WatchTarget)
    ensures
        w.dir == dir,
        w.snapshot@.len() == 0,
{
    WatchTarget { dir, snapshot: Vec::new() }
}

/// Record the first listing of the directory without spawning anything:
/// files present before watching begins are not candidates.
pub fn prime_snapshot(target: &mut WatchTarget, current: Vec<String>)
    ensures
        final(target).dir == old(target).dir,
        final(target).snapshot@ == current@,
{
    target.snapshot = current;
}

/// `p` appeared in `current` among its first `k` paths, was absent from
/// the previous snapshot `snap`, and carries the replay extension.
pub open spec fn spec_new_candidate_upto(
    snap: Seq<String>,
    current: Seq<String>,
    k: int,
    p: Seq<char>,
) -> bool {
    &&& exists|j: int| 0 <= j < k && current[j]@ == p
    &&& !spec_names_contain(snap, p)
    &&& spec_has_replay_ext(p)
}

/// `p` is newly observed in `current`, absent from the previous snapshot,
/// and carries the replay extension.
pub open spec fn spec_new_candidate(snap: Seq<String>, current: Seq<String>, p: Seq<char>) -> bool {
    spec_new_candidate_upto(snap, current, current.len() as int, p)
}

/// One poll cycle over one directory. When the stop signal is set the
/// cycle is abandoned: nothing is claimed and the snapshot keeps its old
/// value. Otherwise every newly observed replay file is claimed in the
/// registry, the claimed paths are returned for spawning (each at most
/// once, already claimed paths skipped), and the snapshot becomes
/// `current`.
pub fn poll_step(
    target: &mut WatchTarget,
    current: Vec<String>,
    registry: &mut TaskRegistry,
    stop: bool,
) -> (spawned: Vec<String>)
    requires
        old(registry).wf(),
    ensures
        final(registry).wf(),
        stop ==> *final(target) == *old(target) && *final(registry) == *old(registry)
            && spawned@.len() == 0,
        !stop ==> final(target).dir == old(target).dir && final(target).snapshot@ == current@,
        !stop ==> forall|p: Seq<char>|
            #[trigger] spec_names_contain(spawned@, p) <==> spec_new_candidate(
                old(target).snapshot@,
                current@,
                p,
            ) && !old(registry).spec_holds(p),
        !stop ==> forall|p: Seq<char>|
            #[trigger] final(registry).spec_holds(p) <==> old(registry).spec_holds(p)
                || spec_new_candidate(old(target).snapshot@, current@, p),
        !stop ==> forall|k1: int, k2: int|
            0 <= k1 < k2 < spawned@.len() ==> spawned@[k1]@ != spawned@[k2]@,
{
    if stop {
        return Vec::new();
    }
    let mut spawned: Vec<String> = Vec::new();
    let n = current.len();
    let mut i: usize = 0;
    while i < n
        invariant
            i <= n,
            n == current@.len(),
            registry.wf(),
            target == old(target),
            forall|p: Seq<char>|
                #[trigger] registry.spec_holds(p) <==> old(registry).spec_holds(p)
                    || spec_new_candidate_upto(old(target).snapshot@, current@, i as int, p),
            forall|p: Seq<char>|
                #[trigger] spec_names_contain(spawned@, p) <==> spec_new_candidate_upto(
                    old(target).snapshot@,
                    current@,
                    i as int,
                    p,
                ) && !old(registry).spec_holds(p),
            forall|k: int| 0 <= k < spawned@.len() ==> registry.spec_holds(spawned@[k]@),
            forall|k1: int, k2: int|
                0 <= k1 < k2 < spawned@.len() ==> spawned@[k1]@ != spawned@[k2]@,
        decreases n - i,
    {
        let ghost snap = old(target).snapshot@;
        let ghost reg_pre = *registry;
        let ghost spawned_pre = spawned@;
        let p = &current[i];
        let is_new = !names_contain(&target.snapshot, p);
        let ext_ok = has_replay_extension(p.as_str());
        proof {
            assert forall|q: Seq<char>|
                spec_new_candidate_upto(snap, current@, i as int, q)
                    implies spec_new_candidate_upto(snap, current@, i + 1, q) by {
                let j = choose|j: int| 0 <= j < i && current@[j]@ == q;
                assert(0 <= j < i + 1 && current@[j]@ == q);
            }
        }
        if is_new && ext_ok {
            let claimed = registry.try_claim(p);
            proof {
                assert(spec_new_candidate_upto(snap, current@, i + 1, p@)) by {
                    assert(0 <= i < i + 1 && current@[i as int]@ == p@);
                };
                assert forall|q: Seq<char>|
                    spec_new_candidate_upto(snap, current@, i + 1, q) implies (
                spec_new_candidate_upto(snap, current@, i as int, q) || q == p@) by {
                    let j = choose|j: int| 0 <= j < i + 1 && current@[j]@ == q;
                    if j < i {
                        assert(spec_new_candidate_upto(snap, current@, i as int, q));
                    } else {
                        assert(q == current@[i as int]@);
                    }
                }
                assert(registry.spec_claims() == reg_pre.spec_claims().insert(p@));
                assert forall|q: Seq<char>| #[trigger]
                    registry.spec_holds(q) implies reg_pre.spec_holds(q) || q == p@ by {
                    assert(registry.spec_claims().contains(q));
                }
                assert forall|q: Seq<char>|
                    reg_pre.spec_holds(q) || q == p@ implies registry.spec_holds(q) by {
                    assert(registry.spec_claims().contains(q));
                }
            }
            if claimed {
                spawned.push(p.clone());
                proof {
                    assert(spawned@[spawned@.len() - 1]@ == p@);
                    assert forall|q: Seq<char>| #[trigger]
                        spec_names_contain(spawned@, q) implies spec_names_contain(spawned_pre, q)
                        || q == p@ by {
                        let k = choose|k: int| 0 <= k < spawned@.len() && spawned@[k]@ == q;
                        if k < spawned_pre.len() {
                            assert(spawned_pre[k]@ == q);
                        }
                    }
                    assert forall|q: Seq<char>|
                        spec_names_contain(spawned_pre, q) implies spec_names_contain(
                        spawned@,
                        q,
                    ) by {
                        let k = choose|k: int| 0 <= k < spawned_pre.len() && spawned_pre[k]@ == q;
                        assert(spawned@[k]@ == q);
                    }
                }
            } else {
                proof {
                    assert(reg_pre.spec_holds(p@));
                }
            }
            proof {
                assert forall|q: Seq<char>|
                    (#[trigger] registry.spec_holds(q) <==> old(registry).spec_holds(q)
                        || spec_new_candidate_upto(snap, current@, i + 1, q)) by {
                    assert(reg_pre.spec_holds(q) <==> old(registry).spec_holds(q)
                        || spec_new_candidate_upto(snap, current@, i as int, q));
                    assert(spec_new_candidate_upto(snap, current@, i + 1, q) <==> (
                    spec_new_candidate_upto(snap, current@, i as int, q) || q == p@));
                    assert(registry.spec_holds(q) == registry.spec_claims().contains(q));
                    assert(reg_pre.spec_holds(q) == reg_pre.spec_claims().contains(q));
                }
                assert forall|q: Seq<char>|
                    (#[trigger] spec_names_contain(spawned@, q) <==> spec_new_candidate_upto(
                        snap,
                        current@,
                        i + 1,
                        q,
                    ) && !old(registry).spec_holds(q)) by {
                    assert(spec_names_contain(spawned_pre, q) <==> spec_new_candidate_upto(
                        snap,
                        current@,
                        i as int,
                        q,
                    ) && !old(registry).spec_holds(q));
                    assert(spec_new_candidate_upto(snap, current@, i + 1, q) <==> (
                    spec_new_candidate_upto(snap, current@, i as int, q) || q == p@));
                    assert(reg_pre.spec_holds(p@) <==> old(registry).spec_holds(p@)
                        || spec_new_candidate_upto(snap, current@, i as int, p@));
                }
            }
        } else {
            proof {
                assert forall|q: Seq<char>|
                    spec_new_candidate_upto(snap, current@, i + 1, q)
                        implies spec_new_candidate_upto(snap, current@, i as int, q) by {
                    let j = choose|j: int| 0 <= j < i + 1 && current@[j]@ == q;
                    if j == i {
                        assert(q == current@[i as int]@);
                        assert(q == p@);
                        assert(!spec_names_contain(snap, q) && crate::fixer::spec_has_replay_ext(
                            q,
                        ));
                        assert(false);
                    } else {
                        assert(spec_new_candidate_upto(snap, current@, i as int, q));
                    }
                }
                assert forall|q: Seq<char>|
                    (#[trigger] registry.spec_holds(q) <==> old(registry).spec_holds(q)
                        || spec_new_candidate_upto(snap, current@, i + 1, q)) by {
                    assert(registry.spec_holds(q) <==> old(registry).spec_holds(q)
                        || spec_new_candidate_upto(snap, current@, i as int, q));
                }
                assert forall|q: Seq<char>|
                    (#[trigger] spec_names_contain(spawned@, q) <==> spec_new_candidate_upto(
                        snap,
                        current@,
                        i + 1,
                        q,
                    ) && !old(registry).spec_holds(q)) by {
                    assert(spec_names_contain(spawned@, q) <==> spec_new_candidate_upto(
                        snap,
                        current@,
                        i as int,
                        q,
                    ) && !old(registry).spec_holds(q));
                }
            }
        }
        i = i + 1;
    }
    target.snapshot = current;
    spawned
}

} // verus!
