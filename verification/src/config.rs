//! State helpers routed through the message channel, and the default
//! location of the replay base directory under the user's documents.

use crate::message::{AppMessage, AppState, spec_log_push};
use crate::paths::{join_path, spec_join_path};
use vstd::prelude::*;

verus! {

/// Relies on dirs::document_dir: the platform's documents directory, if
/// the platform defines one. The result depends on the machine and its
/// environment, so nothing is promised of it.
#[verifier::external_body]
pub fn document_dir() -> (r: Option<String>) {
    dirs::document_dir().map(|p| p.to_string_lossy().into_owned())
}

/// The default replay base directory: the documents directory joined
/// with the game's folder, if the platform has a documents directory.
pub fn find_sc2_replay_dir() -> (r: Option<String>)
    ensures
        r matches Some(p) ==> ({
            &&& p@.len() > "StarCraft II"@.len()
            &&& p@.subrange(p@.len() - "StarCraft II"@.len(), p@.len() as int) == "StarCraft II"@
            &&& p@[p@.len() - "StarCraft II"@.len() - 1] == '/'
        }),
{
    match document_dir() {
        Option::None => Option::None,
        Option::Some(doc) => {
            let joined = join_path(doc.as_str(), "StarCraft II");
            proof {
                reveal_strlit("/");
                reveal_strlit("StarCraft II");
                let l = "StarCraft II"@;
                assert(joined@.subrange(joined@.len() - l.len(), joined@.len() as int) =~= l);
            }
            Option::Some(joined)
        },
    }
}

/// Append one line to the state's log, under the log's capacity rule.
pub fn add_log(state: &mut AppState, text: String)
    ensures
        final(state).log@ == spec_log_push(old(state).log@, text),
        final(state).replay_dir == old(state).replay_dir,
        final(state).auto_fix == old(state).auto_fix,
        final(state).auto_start == old(state).auto_start,
        final(state).watcher_running == old(state).watcher_running,
        final(state).monitor_instance == old(state).monitor_instance,
{
    state.process_message(AppMessage::AddLog(text));
}

/// Record the chosen replay base directory, with a log line.
pub fn set_replay_dir(state: &mut AppState, dir: String)
    ensures
        final(state).replay_dir == dir,
        final(state).log@.len() == old(state).log@.len() + 1,
        final(state).log@.drop_last() == old(state).log@,
        final(state).auto_fix == old(state).auto_fix,
        final(state).auto_start == old(state).auto_start,
        final(state).watcher_running == old(state).watcher_running,
        final(state).monitor_instance == old(state).monitor_instance,
{
    state.process_message(AppMessage::SetReplayDir(dir));
}

/// Record whether the watching session is running.
pub fn set_watcher_running(state: &mut AppState, running: bool)
    ensures
        final(state).watcher_running == running,
        final(state).replay_dir == old(state).replay_dir,
        final(state).auto_fix == old(state).auto_fix,
        final(state).auto_start == old(state).auto_start,
        final(state).log == old(state).log,
        final(state).monitor_instance == old(state).monitor_instance,
{
    state.process_message(AppMessage::SetWatcherRunning(running));
}

} // verus!
