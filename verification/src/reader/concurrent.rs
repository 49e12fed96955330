//! The concurrent strategy: a walker, a pool of readers and an aggregator,
//! connected by a queue of paths and a queue of fragments.
//!
//! The three stages run side by side, so the steps below may be taken in any
//! order that their `requires` admit. Whatever the order, every file that the
//! walker hands on is read once and counted once.

use crate::channel::{Channel, Received};
use crate::entry::{classify, files_of, lemma_files_of_push, WalkAction, WalkEvent, WalkEventView};
use crate::reader::{
    fragment, fragment_of, fragments, summary, FatalPathError, ReadOutcome, ReadResult, SyncRead,
};
use vstd::prelude::*;
use vstd::string::StringExecFns;

verus! {

/// Where a concurrent run stands.
#[derive(Clone, Copy, Debug, PartialEq, Eq, Structural)]
pub enum Phase {
    /// The run has not started.
    Idle,
    /// Walker, reader pool and aggregator are at work.
    Running,
    /// Walker and reader pool have finished; the aggregator joins what is
    /// left in the queue of fragments.
    Draining,
    /// The aggregator has seen the end of the queue of fragments.
    Done,
}

/// What the reader pool is to do next.
#[derive(Debug, PartialEq, Eq)]
pub enum ReaderPoll {
    /// Read the file at this path, as a unit of work of its own.
    Read(String),
    /// Nothing can be taken now: the walker may still find files, or reads
    /// are still under way.
    Wait,
    /// The walker has finished, every path was taken and every read has
    /// ended: the pool has closed the queue of fragments.
    Finished,
}

/// What one step of the aggregator did.
#[derive(Clone, Copy, Debug, PartialEq, Eq, Structural)]
pub enum Absorbed {
    /// The oldest fragment of the queue was joined and counted.
    Joined,
    /// No fragment waits, but the reader pool has not finished.
    Wait,
    /// No fragment waits and none will come: the run is over.
    Done,
}

/// A concurrent run as plain data: what was reported to it, and how far each
/// stage has come.
pub struct Pipeline {
    /// The absolute root of the run, once it has started.
    pub root: Option<Seq<char>>,
    /// The traversal steps that the walker reported, in discovery order.
    pub walked: Seq<WalkEventView>,
    /// Whether the walker still holds its end of the queue of paths.
    pub path_open: bool,
    /// How many paths the reader pool has taken from the queue of paths.
    pub handed_out: nat,
    /// The outcomes of the reads that have ended, in arrival order.
    pub delivered: Seq<Option<Seq<char>>>,
    /// Whether the reader pool still holds its end of the queue of fragments.
    pub content_open: bool,
    /// How many fragments the aggregator has joined.
    pub absorbed: nat,
    /// Whether the aggregator has seen the end of the queue of fragments.
    pub done: bool,
}

impl Pipeline {
    /// The paths that wait to be read, oldest first.
    pub open spec fn path_queue(self) -> Seq<Seq<char>> {
        files_of(self.walked).skip(self.handed_out as int)
    }

    /// The files that the reader pool has taken to be read, in that order.
    pub open spec fn files_read(self) -> Seq<Seq<char>> {
        files_of(self.walked).take(self.handed_out as int)
    }

    /// The number of reads that were handed out and have not ended.
    pub open spec fn in_flight(self) -> nat {
        (self.handed_out - self.delivered.len()) as nat
    }

    /// The fragments that wait to be joined, oldest first.
    pub open spec fn content_queue(self) -> Seq<Seq<char>> {
        fragments(self.delivered).skip(self.absorbed as int)
    }

    /// What the aggregator has joined so far.
    pub open spec fn content(self) -> Seq<char> {
        fragments(self.delivered).take(self.absorbed as int).flatten()
    }

    /// Where the run stands.
    pub open spec fn phase(self) -> Phase {
        if self.root is None {
            Phase::Idle
        } else if self.done {
            Phase::Done
        } else if self.content_open {
            Phase::Running
        } else {
            Phase::Draining
        }
    }
}

/// One concurrent run. The caller walks the tree and reports each step to
/// `discover`, and the end of the walk to `finish_walk`; it asks `next_path`
/// for work, reads each file it is given as a unit of its own and reports the
/// outcome to `deliver`; and it lets `absorb` join what has arrived.
pub struct AsyncReader {
    root: Option<String>,
    files_to_read: Channel,
    strings_to_concat: Channel,
    discovered: usize,
    in_flight: usize,
    content: String,
    file_count: usize,
    done: bool,
    walked: Ghost<Seq<WalkEventView>>,
    handed_out: Ghost<nat>,
    delivered: Ghost<Seq<Option<Seq<char>>>>,
}

impl View for AsyncReader {
    type V = Pipeline;

    closed spec fn view(&self) -> Pipeline {
        Pipeline {
            root: match self.root {
                Some(path) => Some(path@),
                None => None,
            },
            walked: self.walked@,
            path_open: self.files_to_read.is_open(),
            handed_out: self.handed_out@,
            delivered: self.delivered@,
            content_open: self.strings_to_concat.is_open(),
            absorbed: self.file_count as nat,
            done: self.done,
        }
    }
}

impl AsyncReader {
    /// No file is lost on the way and none is counted twice: every file that
    /// the walker handed on waits in the queue of paths, is being read, waits
    /// as a fragment, or was joined.
    pub proof fn lemma_every_file_accounted(&self)
        requires
            self.wf(),
        ensures
            self@.handed_out <= files_of(self@.walked).len(),
            self@.delivered.len() <= self@.handed_out,
            self@.absorbed <= self@.delivered.len(),
            files_of(self@.walked).len() == self@.path_queue().len() + self@.in_flight()
                + self@.content_queue().len() + self@.absorbed,
    {
    }

    /// What the phases mean for the stages. Before the start nothing was
    /// reported and both queues are open; the reader pool outlasts the
    /// walker; while the run drains, walker and reader pool have finished and
    /// left nothing behind; and when it is done, every file that the walker
    /// handed on was joined.
    pub proof fn lemma_phase(&self)
        requires
            self.wf(),
        ensures
            self@.path_open ==> self@.content_open,
            self@.done ==> !self@.content_open,
            match self@.phase() {
                Phase::Idle => self@.walked.len() == 0 && self@.handed_out == 0
                    && self@.delivered.len() == 0 && self@.path_open,
                Phase::Running => true,
                Phase::Draining => !self@.path_open && self@.path_queue().len() == 0
                    && self@.in_flight() == 0,
                Phase::Done => !self@.path_open && self@.path_queue().len() == 0
                    && self@.in_flight() == 0 && self@.content_queue().len() == 0
                    && self@.absorbed == files_of(self@.walked).len(),
            },
    {
    }

    /// The number of files that the walker has handed on.
    pub fn discovered(&self) -> (count: usize)
        requires
            self.wf(),
        ensures
            count == files_of(self@.walked).len(),
    {
        self.discovered
    }

    /// The number of reads that were handed out and have not ended.
    pub fn in_flight(&self) -> (count: usize)
        requires
            self.wf(),
        ensures
            count == self@.in_flight(),
    {
        self.in_flight
    }

    /// Whether the walker may still report what it finds.
    pub fn is_walking(&self) -> (walking: bool)
        requires
            self.wf(),
        ensures
            walking == (self@.root is Some && self@.path_open),
    {
        self.root.is_some() && self.files_to_read.open()
    }

    /// Where the run stands.
    pub fn phase(&self) -> (phase: Phase)
        requires
            self.wf(),
        ensures
            phase == self@.phase(),
    {
        if self.root.is_none() {
            Phase::Idle
        } else if self.done {
            Phase::Done
        } else if self.strings_to_concat.open() {
            Phase::Running
        } else {
            Phase::Draining
        }
    }

    /// The walker's step: takes one traversal step and says what is done
    /// about it. The path of a regular file joins the queue of paths; nothing
    /// else changes the run.
    pub fn discover(&mut self, event: WalkEvent) -> (action: WalkAction)
        requires
            old(self).wf(),
            old(self)@.root is Some,
            old(self)@.path_open,
            files_of(old(self)@.walked).len() < usize::MAX,
        ensures
            final(self).wf(),
            action == crate::entry::decide(event@),
            final(self)@ == (Pipeline { walked: old(self)@.walked.push(event@), ..old(self)@ }),
    {
        let action = classify(&event);
        proof {
            lemma_files_of_push(self.walked@, event@);
        }
        let ghost before = files_of(self.walked@);
        self.walked = Ghost(self.walked@.push(event@));
        match event {
            WalkEvent::Entry { path, kind: _ } => {
                if action == WalkAction::Read {
                    assert(before.push(path@).skip(self.handed_out@ as int) =~= before.skip(
                        self.handed_out@ as int,
                    ).push(path@));
                    self.files_to_read.send(path);
                    self.discovered = self.discovered + 1;
                }
            },
            WalkEvent::Failed { reason: _ } => {},
        }
        action
    }

    /// The walker's last step: it lets go of its end of the queue of paths.
    /// The paths that wait stay in the queue.
    pub fn finish_walk(&mut self)
        requires
            old(self).wf(),
            old(self)@.root is Some,
        ensures
            final(self).wf(),
            final(self)@ == (Pipeline { path_open: false, ..old(self)@ }),
    {
        self.files_to_read.close();
    }

    /// The reader pool's step: takes the oldest path that waits. Once the
    /// walker has finished, no path waits and no read is under way, the pool
    /// closes its end of the queue of fragments.
    pub fn next_path(&mut self) -> (poll: ReaderPoll)
        requires
            old(self).wf(),
        ensures
            final(self).wf(),
            match poll {
                ReaderPoll::Read(path) => old(self)@.path_queue().len() > 0 && path@ == old(
                    self,
                )@.path_queue().first() && final(self)@ == (Pipeline {
                    handed_out: old(self)@.handed_out + 1,
                    ..old(self)@
                }),
                ReaderPoll::Wait => old(self)@.path_queue().len() == 0 && (old(self)@.path_open
                    || old(self)@.in_flight() > 0) && final(self)@ == old(self)@,
                ReaderPoll::Finished => old(self)@.path_queue().len() == 0 && !old(
                    self,
                )@.path_open && old(self)@.in_flight() == 0 && final(self)@ == (Pipeline {
                    content_open: false,
                    ..old(self)@
                }),
            },
    {
        match self.files_to_read.recv() {
            Received::Item(path) => {
                proof {
                    let files = files_of(self.walked@);
                    let taken = self.handed_out@ as int;
                    assert(files.skip(taken).drop_first() =~= files.skip(taken + 1));
                }
                self.handed_out = Ghost(self.handed_out@ + 1);
                self.in_flight = self.in_flight + 1;
                ReaderPoll::Read(path)
            },
            Received::Empty => ReaderPoll::Wait,
            Received::Closed => {
                if self.in_flight == 0 {
                    self.strings_to_concat.close();
                    ReaderPoll::Finished
                } else {
                    ReaderPoll::Wait
                }
            },
        }
    }

    /// The end of one read: its fragment joins the queue of fragments, the
    /// empty text where the read failed.
    pub fn deliver(&mut self, outcome: ReadOutcome)
        requires
            old(self).wf(),
            old(self)@.in_flight() > 0,
        ensures
            final(self).wf(),
            final(self)@ == (Pipeline {
                delivered: old(self)@.delivered.push(outcome@),
                ..old(self)@
            }),
    {
        proof {
            let before = fragments(self.delivered@);
            let joined = self.file_count as int;
            assert(fragments(self.delivered@.push(outcome@)) =~= before.push(fragment(outcome@)));
            assert(before.push(fragment(outcome@)).skip(joined) =~= before.skip(joined).push(
                fragment(outcome@),
            ));
            assert(before.push(fragment(outcome@)).take(joined) =~= before.take(joined));
        }
        self.delivered = Ghost(self.delivered@.push(outcome@));
        let text = fragment_of(outcome);
        self.strings_to_concat.send(text);
        self.in_flight = self.in_flight - 1;
    }

    /// The aggregator's step: joins the oldest fragment that waits and counts
    /// it, or sees that the queue of fragments has come to its end.
    pub fn absorb(&mut self) -> (absorbed: Absorbed)
        requires
            old(self).wf(),
        ensures
            final(self).wf(),
            final(self)@.content() == if absorbed == Absorbed::Joined {
                old(self)@.content() + old(self)@.content_queue().first()
            } else {
                old(self)@.content()
            },
            match absorbed {
                Absorbed::Joined => old(self)@.content_queue().len() > 0 && final(self)@ == (
                Pipeline { absorbed: old(self)@.absorbed + 1, ..old(self)@ }),
                Absorbed::Wait => old(self)@.content_queue().len() == 0 && old(
                    self,
                )@.content_open && final(self)@ == old(self)@,
                Absorbed::Done => old(self)@.content_queue().len() == 0 && !old(
                    self,
                )@.content_open && final(self)@ == (Pipeline { done: true, ..old(self)@ }),
            },
    {
        match self.strings_to_concat.recv() {
            Received::Item(text) => {
                proof {
                    let all = fragments(self.delivered@);
                    let joined = self.file_count as int;
                    assert(all.skip(joined).drop_first() =~= all.skip(joined + 1));
                    assert(all.take(joined + 1) =~= all.take(joined).push(all[joined]));
                    all.take(joined).lemma_flatten_push(all[joined]);
                }
                self.content.append(text.as_str());
                self.file_count = self.file_count + 1;
                Absorbed::Joined
            },
            Received::Empty => Absorbed::Wait,
            Received::Closed => {
                self.done = true;
                Absorbed::Done
            },
        }
    }
}

impl SyncRead for AsyncReader {
    closed spec fn wf(&self) -> bool {
        &&& self.files_to_read.wf()
        &&& self.strings_to_concat.wf()
        &&& self.discovered == files_of(self.walked@).len()
        &&& self.handed_out@ <= self.discovered
        &&& self.delivered@.len() <= self.handed_out@
        &&& self.file_count <= self.delivered@.len()
        &&& self.in_flight == self.handed_out@ - self.delivered@.len()
        &&& self.files_to_read@ == files_of(self.walked@).skip(self.handed_out@ as int)
        &&& self.strings_to_concat@ == fragments(self.delivered@).skip(self.file_count as int)
        &&& self.content@ == fragments(self.delivered@).take(self.file_count as int).flatten()
        &&& self.root is None ==> self.walked@.len() == 0 && self.files_to_read.is_open()
        &&& self.files_to_read.is_open() ==> self.strings_to_concat.is_open()
        &&& !self.strings_to_concat.is_open() ==> self.handed_out@ == self.discovered
            && self.in_flight == 0
        &&& self.done ==> !self.strings_to_concat.is_open() && self.file_count
            == self.delivered@.len()
    }

    open spec fn root(&self) -> Option<Seq<char>> {
        self@.root
    }

    open spec fn walked(&self) -> Seq<WalkEventView> {
        self@.walked
    }

    open spec fn files_read(&self) -> Seq<Seq<char>> {
        self@.files_read()
    }

    open spec fn delivered(&self) -> Seq<Option<Seq<char>>> {
        self@.delivered
    }

    /// A concurrent run is over when the aggregator has seen the end of the
    /// queue of fragments.
    open spec fn complete(&self) -> bool {
        self@.done
    }

    proof fn lemma_complete(&self) {
        let files = files_of(self.walked@);
        assert(files.take(self.handed_out@ as int) =~= files);
    }

    fn new() -> (reader: AsyncReader)
        ensures
            reader@ == (Pipeline {
                root: None,
                walked: Seq::empty(),
                path_open: true,
                handed_out: 0,
                delivered: Seq::empty(),
                content_open: true,
                absorbed: 0,
                done: false,
            }),
    {
        let files_to_read = Channel::new();
        let strings_to_concat = Channel::new();
        let reader = AsyncReader {
            root: None,
            files_to_read,
            strings_to_concat,
            discovered: 0,
            in_flight: 0,
            content: String::new(),
            file_count: 0,
            done: false,
            walked: Ghost(Seq::empty()),
            handed_out: Ghost(0),
            delivered: Ghost(Seq::empty()),
        };
        assert(files_of(reader.walked@).skip(0) =~= Seq::<Seq<char>>::empty());
        assert(fragments(reader.delivered@).skip(0) =~= Seq::<Seq<char>>::empty());
        assert(fragments(reader.delivered@).take(0) =~= Seq::<Seq<char>>::empty());
        reader
    }

    fn start(&mut self, root: &str, absolute: Option<String>) -> (started: Result<
        (),
        FatalPathError,
    >)
        ensures
            match absolute {
                Some(path) => final(self)@ == (Pipeline { root: Some(path@), ..old(self)@ }),
                None => final(self)@ == old(self)@,
            },
    {
        match absolute {
            Some(path) => {
                self.root = Some(path);
                Ok(())
            },
            None => Err(FatalPathError { root: String::from_str(root) }),
        }
    }

    fn is_started(&self) -> (started: bool) {
        self.root.is_some()
    }

    fn is_complete(&self) -> (complete: bool) {
        self.done
    }

    fn aggregate(self) -> (result: ReadResult) {
        proof {
            let all = fragments(self.delivered@);
            assert(all.take(self.file_count as int) =~= all);
        }
        ReadResult { content: self.content, file_count: self.file_count }
    }
}

} // verus!
