//! Application state and the messages that drive it. Components report
//! through messages; processing a message is the only way the state
//! changes, and the log keeps at most the newest 200 lines.

use crate::monitor::MonitorInstance;
use vstd::prelude::*;

verus! {

/// The log keeps at most this many lines; the oldest line leaves first.
pub const LOG_CAPACITY: usize = 200;

/// What the components report to the state.
#[derive(Debug, Clone)]
pub enum AppMessage {
    /// A directory was chosen as the replay base directory.
    SetReplayDir(String),
    /// One line for the log.
    AddLog(String),
    /// The watching session started or stopped.
    SetWatcherRunning(bool),
    /// The automatic-fix switch was toggled.
    ToggleAutoFix(bool),
    /// The start-at-login switch was toggled.
    ToggleAutoStart(bool),
    /// Nothing.
    Noop,
}

/// The application's state.
#[derive(Clone)]
pub struct AppState {
    pub replay_dir: String,
    pub auto_fix: bool,
    pub auto_start: bool,
    pub watcher_running: bool,
    pub monitor_instance: Option<MonitorInstance>,
    pub log: Vec<String>,
}

/// `log` with `line` appended; when that passes the capacity, the oldest
/// line is dropped.
pub open spec fn spec_log_push(log: Seq<String>, line: String) -> Seq<String> {
    let l = log.push(line);
    if l.len() > LOG_CAPACITY {
        l.subrange(1, l.len() as int)
    } else {
        l
    }
}

/// The log never grows past its capacity: pushing onto a log within
/// capacity leaves it within capacity, and always keeps the new line as
/// its last.
pub proof fn lemma_log_push_capacity(log: Seq<String>, line: String)
    requires
        log.len() <= LOG_CAPACITY,
    ensures
        spec_log_push(log, line).len() <= LOG_CAPACITY,
        spec_log_push(log, line).last() == line,
{
}

impl Default for AppState {
    /// The initial state: no directory, every switch off, no session, an
    /// empty log.
    fn default() -> (r: AppState)
        ensures
            r.replay_dir@ == Seq::<char>::empty(),
            !r.auto_fix,
            !r.auto_start,
            !r.watcher_running,
            r.monitor_instance is None,
            r.log@ == Seq::<String>::empty(),
    {
        AppState {
            replay_dir: String::new(),
            auto_fix: false,
            auto_start: false,
            watcher_running: false,
            monitor_instance: Option::None,
            log: Vec::new(),
        }
    }
}

impl AppState {
    /// Append one line to the log, dropping the oldest line over
    /// capacity.
    fn push_log(&mut self, line: String)
        ensures
            final(self).log@ == spec_log_push(old(self).log@, line),
            final(self).replay_dir == old(self).replay_dir,
            final(self).auto_fix == old(self).auto_fix,
            final(self).auto_start == old(self).auto_start,
            final(self).watcher_running == old(self).watcher_running,
            final(self).monitor_instance == old(self).monitor_instance,
    {
        self.log.push(line);
        if self.log.len() > LOG_CAPACITY {
            self.log.remove(0);
            proof {
                let l = old(self).log@.push(line);
                assert(l.remove(0) =~= l.subrange(1, l.len() as int));
            }
        }
    }

    /// Apply one message to the state: record the chosen directory (with
    /// a log line), append a log line under the capacity rule, or set the
    /// named switch. The monitor handle never changes here.
    pub fn process_message(&mut self, msg: AppMessage)
        ensures
            final(self).monitor_instance == old(self).monitor_instance,
            msg matches AppMessage::SetReplayDir(dir) ==> ({
                &&& final(self).replay_dir == dir
                &&& final(self).log@.len() == old(self).log@.len() + 1
                &&& final(self).log@.drop_last() == old(self).log@
                &&& final(self).log@.last()@ == "[dir] selected: "@ + dir@
                &&& final(self).auto_fix == old(self).auto_fix
                &&& final(self).auto_start == old(self).auto_start
                &&& final(self).watcher_running == old(self).watcher_running
            }),
            msg matches AppMessage::AddLog(text) ==> ({
                &&& final(self).log@ == spec_log_push(old(self).log@, text)
                &&& final(self).replay_dir == old(self).replay_dir
                &&& final(self).auto_fix == old(self).auto_fix
                &&& final(self).auto_start == old(self).auto_start
                &&& final(self).watcher_running == old(self).watcher_running
            }),
            msg matches AppMessage::SetWatcherRunning(running) ==> ({
                &&& final(self).watcher_running == running
                &&& final(self).replay_dir == old(self).replay_dir
                &&& final(self).auto_fix == old(self).auto_fix
                &&& final(self).auto_start == old(self).auto_start
                &&& final(self).log == old(self).log
            }),
            msg matches AppMessage::ToggleAutoFix(val) ==> ({
                &&& final(self).auto_fix == val
                &&& final(self).replay_dir == old(self).replay_dir
                &&& final(self).auto_start == old(self).auto_start
                &&& final(self).watcher_running == old(self).watcher_running
                &&& final(self).log == old(self).log
            }),
            msg matches AppMessage::ToggleAutoStart(val) ==> ({
                &&& final(self).auto_start == val
                &&& final(self).replay_dir == old(self).replay_dir
                &&& final(self).auto_fix == old(self).auto_fix
                &&& final(self).watcher_running == old(self).watcher_running
                &&& final(self).log == old(self).log
            }),
            msg is Noop ==> *final(self) == *old(self),
    {
        match msg {
            AppMessage::SetReplayDir(dir) => {
                let line = String::from_str("[dir] selected: ").concat(dir.as_str());
                self.replay_dir = dir;
                self.log.push(line);
                proof {
                    assert(self.log@.drop_last() =~= old(self).log@);
                }
            },
            AppMessage::AddLog(text) => {
                self.push_log(text);
            },
            AppMessage::SetWatcherRunning(running) => {
                self.watcher_running = running;
            },
            AppMessage::ToggleAutoFix(val) => {
                self.auto_fix = val;
            },
            AppMessage::ToggleAutoStart(val) => {
                self.auto_start = val;
            },
            AppMessage::Noop => {},
        }
    }
}

} // verus!
