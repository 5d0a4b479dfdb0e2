use vstd::prelude::*;
use vstd::string::*;
use crate::paths::{join, path_join};

verus! {

/// The log directory of the app inside its local application data directory.
pub fn get_log_dir(local_appdata_dir: &str) -> (r: String)
    ensures
        r@ == path_join(local_appdata_dir@, "Roblox/logs"@),
{
    join(local_appdata_dir, "Roblox/logs")
}

/// What the log watcher knows: the log file it follows, once one has been
/// created, and how far into it it has shown.
pub struct FlogState {
    pub log_file: Option<String>,
    pub pos: u64,
}

/// A change in the log directory.
pub enum FlogEvent {
    /// A file was created at this path.
    Created(String),
    /// A file was modified.
    Modified,
    /// Something else happened.
    Other,
}

/// What the watcher does about a change.
pub enum FlogAction {
    /// Nothing.
    Ignore,
    /// Show the whole of this new log file, then report its length.
    ShowWhole(String),
    /// Show the followed log file from this position on, having reported its
    /// length once there.
    ShowFrom(String, u64),
}

/// The watcher before any change: following no file.
pub fn flog_begin() -> (r: FlogState)
    ensures
        r.log_file is None,
        r.pos == 0,
{
    FlogState { log_file: None, pos: 0 }
}

/// What the watcher does about a change: it follows the first log file
/// created, shows it whole, and then shows what is added to it whenever a
/// file is modified; every other change is ignored.
pub fn flog_on_event(state: &FlogState, event: FlogEvent) -> (r: FlogAction)
    ensures
        match (state.log_file, event) {
            (None, FlogEvent::Created(p)) => r matches FlogAction::ShowWhole(q) && q@ == p@,
            (Some(f), FlogEvent::Modified) => r matches FlogAction::ShowFrom(g, pos) && g@ == f@
                && pos == state.pos,
            _ => r is Ignore,
        },
{
    match (&state.log_file, event) {
        (None, FlogEvent::Created(p)) => FlogAction::ShowWhole(p),
        (Some(f), FlogEvent::Modified) => FlogAction::ShowFrom(f.clone(), state.pos),
        _ => FlogAction::Ignore,
    }
}

/// The watcher after an action was done, with the length that the followed
/// file had when it was measured.
pub fn flog_after(state: FlogState, action: &FlogAction, len: u64) -> (r: FlogState)
    ensures
        match *action {
            FlogAction::Ignore => r == state,
            FlogAction::ShowWhole(p) => r.log_file matches Some(f) && f@ == p@ && r.pos == len,
            FlogAction::ShowFrom(_, _) => r.log_file == state.log_file && r.pos == len,
        },
{
    match action {
        FlogAction::Ignore => state,
        FlogAction::ShowWhole(p) => FlogState { log_file: Some(p.clone()), pos: len },
        FlogAction::ShowFrom(_, _) => FlogState { log_file: state.log_file, pos: len },
    }
}

} // verus!
