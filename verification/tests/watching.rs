use sc2_replay_fixer::monitor::{start_watch_async, start_watch_multiple};
use sc2_replay_fixer::registry::TaskRegistry;
use sc2_replay_fixer::watcher::{
    new_watch_target, poll_step, prime_snapshot, task_step, TaskEvent, TaskState,
};

#[test]
fn test_try_claim_single_flight() {
    let mut reg = TaskRegistry::new();
    let path = String::from("r/a.SC2Replay");
    let first = reg.try_claim(&path);
    let second = reg.try_claim(&path);
    assert!(first);
    assert!(!second);
    assert!(reg.is_claimed(&path));
    reg.release(&path);
    assert!(!reg.is_claimed(&path));
    assert!(reg.try_claim(&path));
}

#[test]
fn test_release_is_idempotent() {
    let mut reg = TaskRegistry::new();
    let path = String::from("r/a.SC2Replay");
    assert!(reg.try_claim(&path));
    reg.release(&path);
    reg.release(&path);
    assert!(!reg.is_claimed(&path));
}

#[test]
fn test_clear_withdraws_every_claim() {
    let mut reg = TaskRegistry::new();
    let a = String::from("a.SC2Replay");
    let b = String::from("b.SC2Replay");
    assert!(reg.try_claim(&a));
    assert!(reg.try_claim(&b));
    reg.clear();
    assert!(!reg.is_claimed(&a));
    assert!(!reg.is_claimed(&b));
}

#[test]
fn test_task_lifecycle_done() {
    let s = TaskState::Pending;
    let s = task_step(s, TaskEvent::StopChecked { stop: false });
    assert_eq!(s, TaskState::Delayed);
    let s = task_step(
        s,
        TaskEvent::GateChecked {
            stop: false,
            claim_held: true,
        },
    );
    assert_eq!(s, TaskState::Running);
    let s = task_step(s, TaskEvent::FixCompleted { ok: true });
    assert_eq!(s, TaskState::Done);
}

#[test]
fn test_task_lifecycle_failed_and_cancelled() {
    assert_eq!(
        task_step(TaskState::Pending, TaskEvent::StopChecked { stop: true }),
        TaskState::Cancelled
    );
    assert_eq!(
        task_step(
            TaskState::Delayed,
            TaskEvent::GateChecked {
                stop: true,
                claim_held: true
            }
        ),
        TaskState::Cancelled
    );
    assert_eq!(
        task_step(
            TaskState::Delayed,
            TaskEvent::GateChecked {
                stop: false,
                claim_held: false
            }
        ),
        TaskState::Cancelled
    );
    assert_eq!(
        task_step(TaskState::Running, TaskEvent::FixCompleted { ok: false }),
        TaskState::Failed
    );
    // Terminal states absorb every event.
    assert_eq!(
        task_step(TaskState::Done, TaskEvent::StopChecked { stop: true }),
        TaskState::Done
    );
    assert_eq!(
        task_step(TaskState::Cancelled, TaskEvent::FixCompleted { ok: true }),
        TaskState::Cancelled
    );
}

#[test]
fn test_poll_step_claims_new_replays_once() {
    let mut reg = TaskRegistry::new();
    let mut target = new_watch_target(String::from("replays"));
    prime_snapshot(&mut target, vec![String::from("replays/old.SC2Replay")]);

    let current = vec![
        String::from("replays/old.SC2Replay"),
        String::from("replays/new.SC2Replay"),
        String::from("replays/notes.txt"),
        String::from("replays/new.SC2Replay"),
    ];
    let spawned = poll_step(&mut target, current.clone(), &mut reg, false);
    assert_eq!(spawned, vec![String::from("replays/new.SC2Replay")]);
    assert!(reg.is_claimed(&String::from("replays/new.SC2Replay")));
    assert!(!reg.is_claimed(&String::from("replays/old.SC2Replay")));

    // The same listing again: nothing is new relative to the snapshot.
    let spawned2 = poll_step(&mut target, current, &mut reg, false);
    assert!(spawned2.is_empty());
}

#[test]
fn test_poll_step_abandoned_on_stop() {
    let mut reg = TaskRegistry::new();
    let mut target = new_watch_target(String::from("replays"));
    let spawned = poll_step(
        &mut target,
        vec![String::from("replays/new.SC2Replay")],
        &mut reg,
        true,
    );
    assert!(spawned.is_empty());
    assert!(!reg.is_claimed(&String::from("replays/new.SC2Replay")));
    assert!(target.snapshot.is_empty());
}

#[test]
fn test_stop_blocks_tasks_short_of_running() {
    // A claimed path whose task has not yet passed its checkpoint when
    // the session stops: the re-check observes the set signal and the
    // cleared registry and cancels the task, so no patch write can follow.
    let (mut monitor, mut targets) = start_watch_multiple(vec![
        String::from("one"),
        String::from("two"),
    ]);
    let mut reg = TaskRegistry::new();
    let path = String::from("one/new.SC2Replay");
    prime_snapshot(&mut targets[0], Vec::new());
    let spawned = poll_step(
        &mut targets[0],
        vec![path.clone()],
        &mut reg,
        monitor.stop_flags[0],
    );
    assert_eq!(spawned.len(), 1);

    assert!(monitor.is_running());
    monitor.stop(&mut reg);
    assert!(!monitor.is_running());

    for flag in &monitor.stop_flags {
        assert!(*flag);
    }
    let recheck = TaskEvent::GateChecked {
        stop: monitor.stop_flags[0],
        claim_held: reg.is_claimed(&path),
    };
    assert_eq!(task_step(TaskState::Delayed, recheck), TaskState::Cancelled);
    let first = TaskEvent::StopChecked {
        stop: monitor.stop_flags[1],
    };
    assert_eq!(task_step(TaskState::Pending, first), TaskState::Cancelled);
}

#[test]
fn test_stop_is_idempotent() {
    let (mut monitor, _targets) = start_watch_async(String::from("replays"));
    let mut reg = TaskRegistry::new();
    monitor.stop(&mut reg);
    monitor.stop(&mut reg);
    assert!(!monitor.is_running());
    assert_eq!(monitor.stop_flags.len(), 1);
}
