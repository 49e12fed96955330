//! The walker's rule: what a traversal reports for one entry, and what is done
//! about it.

use vstd::prelude::*;

verus! {

/// What the traversal could tell about the type of an entry.
#[derive(Clone, Copy, Debug, PartialEq, Eq, Structural)]
pub enum EntryKind {
    /// A regular file.
    File,
    /// A directory, a link or any other type that is not a regular file.
    Other,
    /// The type could not be determined.
    Unknown,
}

/// One step of a traversal, as the caller that walks the tree reports it.
#[derive(Debug, PartialEq, Eq)]
pub enum WalkEvent {
    /// An entry was reached.
    Entry { path: String, kind: EntryKind },
    /// The traversal failed at one entry and went on.
    Failed { reason: String },
}

/// A traversal step as plain data.
pub enum WalkEventView {
    Entry { path: Seq<char>, kind: EntryKind },
    Failed { reason: Seq<char> },
}

impl View for WalkEvent {
    type V = WalkEventView;

    open spec fn view(&self) -> WalkEventView {
        match *self {
            WalkEvent::Entry { path, kind } => WalkEventView::Entry { path: path@, kind },
            WalkEvent::Failed { reason } => WalkEventView::Failed { reason: reason@ },
        }
    }
}

/// What the walker does about one traversal step.
#[derive(Clone, Copy, Debug, PartialEq, Eq, Structural)]
pub enum WalkAction {
    /// A regular file: its content is to be read.
    Read,
    /// The type is unknown: the entry is skipped, with a warning.
    WarnUnknownType,
    /// Not a regular file: the entry is skipped without a word.
    Skip,
    /// The traversal failed here: the failure is logged and the walk goes on.
    LogError,
}

/// The walker's rule for one traversal step.
pub open spec fn decide(event: WalkEventView) -> WalkAction {
    match event {
        WalkEventView::Entry { path, kind } => match kind {
            EntryKind::File => WalkAction::Read,
            EntryKind::Unknown => WalkAction::WarnUnknownType,
            EntryKind::Other => WalkAction::Skip,
        },
        WalkEventView::Failed { reason } => WalkAction::LogError,
    }
}

/// The path that a traversal step hands on to be read, if it hands one on.
pub open spec fn file_of(event: WalkEventView) -> Option<Seq<char>> {
    match event {
        WalkEventView::Entry { path, kind: EntryKind::File } => Some(path),
        _ => None,
    }
}

/// The files that a traversal hands on to be read, in discovery order.
pub open spec fn files_of(events: Seq<WalkEventView>) -> Seq<Seq<char>> {
    events.filter_map(|event: WalkEventView| file_of(event))
}

/// Decides what is done about one traversal step.
pub fn classify(event: &WalkEvent) -> (action: WalkAction)
    ensures
        action == decide(event@),
        action == WalkAction::Read <==> file_of(event@) is Some,
{
    match event {
        WalkEvent::Entry { path: _, kind } => match kind {
            EntryKind::File => WalkAction::Read,
            EntryKind::Unknown => WalkAction::WarnUnknownType,
            EntryKind::Other => WalkAction::Skip,
        },
        WalkEvent::Failed { reason: _ } => WalkAction::LogError,
    }
}

/// One more traversal step adds its file, if it has one, behind the files
/// found so far.
pub proof fn lemma_files_of_push(events: Seq<WalkEventView>, event: WalkEventView)
    ensures
        files_of(events.push(event)) == match file_of(event) {
            Some(path) => files_of(events).push(path),
            None => files_of(events),
        },
{
    assert(events.push(event).drop_last() =~= events);
    assert(events.push(event).last() == event);
    match file_of(event) {
        Some(path) => {
            assert(files_of(events) + seq![path] =~= files_of(events).push(path));
        },
        None => {},
    }
}

/// A traversal step that hands on no file leaves no trace among the files
/// handed on: the traversal might as well not have reported it.
pub proof fn lemma_skipped_step_leaves_no_trace(events: Seq<WalkEventView>, at: int)
    requires
        0 <= at < events.len(),
        file_of(events[at]) is None,
    ensures
        files_of(events.remove(at)) == files_of(events),
    decreases events.len(),
{
    if at == events.len() - 1 {
        assert(events.remove(at) =~= events.drop_last());
    } else {
        assert(events.remove(at).drop_last() =~= events.drop_last().remove(at));
        assert(events.remove(at).last() == events.last());
        lemma_skipped_step_leaves_no_trace(events.drop_last(), at);
    }
}

} // verus!
