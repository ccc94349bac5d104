//! The configuration monitor's decision rule.
//!
//! A filesystem watcher (an external collaborator) reports events on the
//! configuration file. This module decides, from what the watcher saw,
//! whether the controller must reload, warn that the file is gone, or do
//! nothing. The watcher's own mechanism stays outside the library; it
//! hands in the event's kind and whether the event names exactly the
//! watched configuration file.

use vstd::prelude::*;

verus! {

/// The kinds of filesystem events the monitor distinguishes, as plain
/// values of the library's own.
#[derive(Clone, Copy, PartialEq, Eq, Structural, Debug)]
pub enum FsEventKind {
    /// The file's data changed.
    ModifyData,
    /// An unspecified modification.
    ModifyAny,
    /// Some other modification of the file's content.
    ModifyOther,
    /// Only the file's name changed.
    ModifyName,
    /// Only the file's metadata changed.
    ModifyMetadata,
    /// The file was removed.
    Remove,
    /// Anything else the watcher reports.
    Other,
}

/// What the monitor does with one event.
#[derive(Clone, Copy, PartialEq, Eq, Structural, Debug)]
pub enum WatchDecision {
    /// Tell the controller the configuration changed.
    Reload,
    /// Warn: the file is gone, so no further reload can succeed.
    WarnRemoved,
    /// Ignore the event.
    Ignore,
}

/// The decision an event demands: only a content modification of the
/// watched file itself triggers a reload; its removal warns; every other
/// event — and every event about another path — is ignored.
pub open spec fn spec_watch_decision(is_config_file: bool, kind: FsEventKind) -> WatchDecision {
    if !is_config_file {
        WatchDecision::Ignore
    } else {
        match kind {
            FsEventKind::ModifyData => WatchDecision::Reload,
            FsEventKind::ModifyAny => WatchDecision::Reload,
            FsEventKind::ModifyOther => WatchDecision::Reload,
            FsEventKind::ModifyName => WatchDecision::Ignore,
            FsEventKind::ModifyMetadata => WatchDecision::Ignore,
            FsEventKind::Remove => WatchDecision::WarnRemoved,
            FsEventKind::Other => WatchDecision::Ignore,
        }
    }
}

/// Classify one watcher event. `is_config_file` says whether the event
/// names exactly one path and that path is the watched configuration file.
pub fn classify_watch_event(is_config_file: bool, kind: &FsEventKind) -> (d: WatchDecision)
    ensures
        d == spec_watch_decision(is_config_file, *kind),
{
    if !is_config_file {
        return WatchDecision::Ignore;
    }
    match kind {
        FsEventKind::ModifyData => WatchDecision::Reload,
        FsEventKind::ModifyAny => WatchDecision::Reload,
        FsEventKind::ModifyOther => WatchDecision::Reload,
        FsEventKind::ModifyName => WatchDecision::Ignore,
        FsEventKind::ModifyMetadata => WatchDecision::Ignore,
        FsEventKind::Remove => WatchDecision::WarnRemoved,
        FsEventKind::Other => WatchDecision::Ignore,
    }
}

} // verus!
