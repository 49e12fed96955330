//! Aggregation of the text files of a directory tree into one buffer.
//!
//! The crate holds the decisions of the aggregation pipeline: how a traversal
//! entry is treated, what a failed read contributes, how fragments are merged
//! and counted, and the staged pipeline that connects a walker, a pool of
//! readers and an aggregator through two queues. Walking the file system and
//! reading files are left to the caller, who reports what it found and is told
//! what to do next.

pub mod channel;
pub mod entry;
pub mod laws;
pub mod reader;
pub mod test_utils;

pub use channel::{Channel, Received};
pub use entry::{classify, EntryKind, WalkAction, WalkEvent};
pub use reader::concurrent::{Absorbed, Phase, ReaderPoll};
pub use reader::{fragment_of, FatalPathError, ReadOutcome, ReadResult, SyncRead};
pub use reader::{AsyncReader, SimpleReader};
pub use test_utils::ReaderTester;
