//! The sequential strategy: every file is read as soon as the traversal finds
//! it, and joined in discovery order.

use crate::entry::{classify, files_of, lemma_files_of_push, WalkAction, WalkEvent, WalkEventView};
use crate::reader::{
    fragment_of, lemma_summary_push, summary, FatalPathError, ReadOutcome, ReadResult, SyncRead,
};
use vstd::prelude::*;
use vstd::string::StringExecFns;

verus! {

/// One sequential run. The caller walks the tree and reports each step to
/// `visit`; where the answer is `WalkAction::Read` it reads the file at once
/// and reports how that went to `append`, before the next step.
pub struct SimpleReader {
    root: Option<String>,
    pending: bool,
    content: String,
    file_count: usize,
    walked: Ghost<Seq<WalkEventView>>,
    delivered: Ghost<Seq<Option<Seq<char>>>>,
}

impl SimpleReader {
    /// Whether a file was handed on to be read and its outcome is still owed.
    pub closed spec fn pending(&self) -> bool {
        self.pending
    }

    /// Whether a file was handed on to be read and its outcome is still owed.
    pub fn is_pending(&self) -> (pending: bool)
        ensures
            pending == self.pending(),
    {
        self.pending
    }

    /// The number of reads joined so far.
    pub fn file_count(&self) -> (count: usize)
        requires
            self.wf(),
        ensures
            count == self.delivered().len(),
    {
        self.file_count
    }

    /// Takes one traversal step and says what is done about it. A regular
    /// file is owed a read from then on; nothing else changes the run.
    pub fn visit(&mut self, event: &WalkEvent) -> (action: WalkAction)
        requires
            old(self).wf(),
            old(self).root() is Some,
            !old(self).pending(),
            old(self).delivered().len() < usize::MAX,
        ensures
            final(self).wf(),
            action == crate::entry::decide(event@),
            final(self).root() == old(self).root(),
            final(self).walked() == old(self).walked().push(event@),
            final(self).delivered() == old(self).delivered(),
            final(self).pending() == (action == WalkAction::Read),
    {
        let action = classify(event);
        proof {
            lemma_files_of_push(self.walked@, event@);
        }
        self.walked = Ghost(self.walked@.push(event@));
        self.pending = action == WalkAction::Read;
        action
    }

    /// Joins the outcome of the read that is owed: the text of the file, or
    /// nothing where the read failed. Either way the file is counted.
    pub fn append(&mut self, outcome: ReadOutcome)
        requires
            old(self).wf(),
            old(self).pending(),
        ensures
            final(self).wf(),
            !final(self).pending(),
            final(self).root() == old(self).root(),
            final(self).walked() == old(self).walked(),
            final(self).delivered() == old(self).delivered().push(outcome@),
    {
        proof {
            lemma_summary_push(self.delivered@, outcome@);
        }
        self.delivered = Ghost(self.delivered@.push(outcome@));
        let text = fragment_of(outcome);
        self.content.append(text.as_str());
        self.file_count = self.file_count + 1;
        self.pending = false;
    }
}

impl SyncRead for SimpleReader {
    closed spec fn wf(&self) -> bool {
        &&& self.content@ == summary(self.delivered@).content
        &&& self.file_count == self.delivered@.len()
        &&& files_of(self.walked@).len() == self.delivered@.len() + if self.pending {
            1nat
        } else {
            0nat
        }
        &&& self.pending ==> self.file_count < usize::MAX
        &&& self.root is None ==> self.walked@.len() == 0 && !self.pending
    }

    closed spec fn root(&self) -> Option<Seq<char>> {
        match self.root {
            Some(path) => Some(path@),
            None => None,
        }
    }

    closed spec fn walked(&self) -> Seq<WalkEventView> {
        self.walked@
    }

    /// A file is handed out to be read as soon as the traversal finds it.
    open spec fn files_read(&self) -> Seq<Seq<char>> {
        files_of(self.walked())
    }

    closed spec fn delivered(&self) -> Seq<Option<Seq<char>>> {
        self.delivered@
    }

    /// A sequential run is over between two steps, whenever no read is owed.
    open spec fn complete(&self) -> bool {
        self.root() is Some && !self.pending()
    }

    proof fn lemma_complete(&self) {
    }

    fn new() -> (reader: SimpleReader)
        ensures
            !reader.pending(),
    {
        SimpleReader {
            root: None,
            pending: false,
            content: String::new(),
            file_count: 0,
            walked: Ghost(Seq::empty()),
            delivered: Ghost(Seq::empty()),
        }
    }

    fn start(&mut self, root: &str, absolute: Option<String>) -> (started: Result<
        (),
        FatalPathError,
    >)
        ensures
            final(self).pending() == old(self).pending(),
    {
        match absolute {
            Some(path) => {
                self.root = Some(path);
                Ok(())
            },
            None => Err(FatalPathError { root: String::from_str(root) }),
        }
    }

    fn is_started(&self) -> (started: bool) {
        self.root.is_some()
    }

    fn is_complete(&self) -> (complete: bool) {
        self.root.is_some() && !self.pending
    }

    fn aggregate(self) -> (result: ReadResult) {
        ReadResult { content: self.content, file_count: self.file_count }
    }
}

} // verus!
