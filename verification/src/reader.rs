//! What both aggregation strategies share: the result they produce, the rule
//! that turns read outcomes into that result, and the contract that makes one
//! strategy stand in for the other.

use crate::entry::{files_of, WalkEventView};
use vstd::prelude::*;

pub mod concurrent;
pub mod simple;

pub use concurrent::AsyncReader;
pub use simple::SimpleReader;

verus! {

/// What an aggregation amounts to, stated over plain sequences.
pub struct Summary {
    /// The fragments of all files read, joined in arrival order.
    pub content: Seq<char>,
    /// The number of fragments joined, empty placeholders included.
    pub file_count: nat,
}

/// The outcome of one aggregation: the text of every file read, joined into
/// one buffer, and the number of files that contributed a fragment.
#[derive(Debug, PartialEq, Eq)]
pub struct ReadResult {
    pub content: String,
    pub file_count: usize,
}

impl View for ReadResult {
    type V = Summary;

    open spec fn view(&self) -> Summary {
        Summary { content: self.content@, file_count: self.file_count as nat }
    }
}

/// How the attempt to read one file ended.
#[derive(Debug, PartialEq, Eq)]
pub enum ReadOutcome {
    /// The file was read in full; this is its text.
    Text(String),
    /// The file could not be read as text.
    Failed,
}

impl View for ReadOutcome {
    type V = Option<Seq<char>>;

    open spec fn view(&self) -> Option<Seq<char>> {
        match *self {
            ReadOutcome::Text(text) => Some(text@),
            ReadOutcome::Failed => None,
        }
    }
}

/// The root of an aggregation could not be resolved to an absolute path: the
/// aggregation fails as a whole, before any stage starts.
#[derive(Debug, PartialEq, Eq)]
pub struct FatalPathError {
    /// The root as the caller gave it.
    pub root: String,
}

/// The fragment that one read contributes: the text of the file, or nothing
/// where the read failed.
pub open spec fn fragment(outcome: Option<Seq<char>>) -> Seq<char> {
    match outcome {
        Some(text) => text,
        None => Seq::empty(),
    }
}

/// The fragments that a run of reads contributes, one for each read.
pub open spec fn fragments(outcomes: Seq<Option<Seq<char>>>) -> Seq<Seq<char>> {
    outcomes.map_values(|outcome: Option<Seq<char>>| fragment(outcome))
}

/// What the reads that arrived in the order `outcomes` aggregate to.
pub open spec fn summary(outcomes: Seq<Option<Seq<char>>>) -> Summary {
    Summary { content: fragments(outcomes).flatten(), file_count: outcomes.len() }
}

/// The fragment that stands for one read on the way to the aggregator: a
/// failed read still yields one, the empty text.
pub fn fragment_of(outcome: ReadOutcome) -> (text: String)
    ensures
        text@ == fragment(outcome@),
{
    match outcome {
        ReadOutcome::Text(text) => text,
        ReadOutcome::Failed => String::new(),
    }
}

/// One more read adds its fragment behind the content and one to the count.
pub proof fn lemma_summary_push(outcomes: Seq<Option<Seq<char>>>, outcome: Option<Seq<char>>)
    ensures
        summary(outcomes.push(outcome)) == (Summary {
            content: summary(outcomes).content + fragment(outcome),
            file_count: summary(outcomes).file_count + 1,
        }),
{
    assert(fragments(outcomes.push(outcome)) =~= fragments(outcomes).push(fragment(outcome)));
    fragments(outcomes).lemma_flatten_push(fragment(outcome));
}

/// The contract that both strategies meet. A reader is told the root, then
/// what the traversal finds and how each read ends, by steps of its own; once
/// nothing is owed any more it hands out the result.
pub trait SyncRead: Sized {
    /// The invariant that every step keeps.
    spec fn wf(&self) -> bool;

    /// The absolute root of the run, once it has started.
    spec fn root(&self) -> Option<Seq<char>>;

    /// The traversal steps reported so far, in discovery order.
    spec fn walked(&self) -> Seq<WalkEventView>;

    /// The files that were handed out to be read so far, in that order.
    spec fn files_read(&self) -> Seq<Seq<char>>;

    /// The outcomes of the reads reported so far, in arrival order.
    spec fn delivered(&self) -> Seq<Option<Seq<char>>>;

    /// Whether the run is over and every file found has had its read.
    spec fn complete(&self) -> bool;

    /// In a run that is over, the files read are those that the traversal
    /// handed on, and each has had its one outcome.
    proof fn lemma_complete(&self)
        requires
            self.wf(),
            self.complete(),
        ensures
            self.files_read() == files_of(self.walked()),
            self.delivered().len() == self.files_read().len(),
    ;

    /// A reader that has not started.
    fn new() -> (reader: Self)
        ensures
            reader.wf(),
            reader.root() is None,
            reader.walked() == Seq::<WalkEventView>::empty(),
            reader.delivered() == Seq::<Option<Seq<char>>>::empty(),
            !reader.complete(),
    ;

    /// Starts the run under `root`, of which the caller tried to find the
    /// absolute form. Without one the run does not start and never will have
    /// a result.
    fn start(&mut self, root: &str, absolute: Option<String>) -> (started: Result<
        (),
        FatalPathError,
    >)
        requires
            old(self).wf(),
            old(self).root() is None,
        ensures
            final(self).wf(),
            final(self).walked() == old(self).walked(),
            final(self).delivered() == old(self).delivered(),
            match absolute {
                Some(path) => started is Ok && final(self).root() == Some(path@),
                None => started is Err && started->Err_0.root@ == root@ && final(self).root()
                    is None && !final(self).complete(),
            },
    ;

    /// Whether the run has started.
    fn is_started(&self) -> (started: bool)
        requires
            self.wf(),
        ensures
            started == self.root() is Some,
    ;

    /// Whether the result can be had.
    fn is_complete(&self) -> (complete: bool)
        requires
            self.wf(),
        ensures
            complete == self.complete(),
    ;

    /// The result of the run: the fragments of all reads in arrival order, and
    /// one count for each file that the traversal handed on.
    fn aggregate(self) -> (result: ReadResult)
        requires
            self.wf(),
            self.complete(),
        ensures
            result@ == summary(self.delivered()),
            result.file_count == files_of(self.walked()).len(),
    ;
}

} // verus!
