use codesum::{
    Absorbed, AsyncReader, EntryKind, FatalPathError, Phase, ReadOutcome, ReaderPoll, SyncRead,
    WalkAction, WalkEvent,
};

fn file(path: &str) -> WalkEvent {
    WalkEvent::Entry { path: path.to_string(), kind: EntryKind::File }
}

fn directory(path: &str) -> WalkEvent {
    WalkEvent::Entry { path: path.to_string(), kind: EntryKind::Other }
}

fn text(content: &str) -> ReadOutcome {
    ReadOutcome::Text(content.to_string())
}

fn started() -> AsyncReader {
    let mut reader = AsyncReader::new();
    assert_eq!(reader.start("tree", Some("/home/tree".to_string())), Ok(()));
    reader
}

#[test]
fn new_concurrent_run_is_idle() {
    let reader = AsyncReader::new();
    assert_eq!(reader.phase(), Phase::Idle);
    assert_eq!(reader.discovered(), 0);
    assert_eq!(reader.in_flight(), 0);
    assert!(!reader.is_complete());
}

#[test]
fn concurrent_run_fails_on_a_root_without_absolute_form() {
    let mut reader = AsyncReader::new();
    let started = reader.start("no/such/dir", None);
    assert_eq!(started, Err(FatalPathError { root: "no/such/dir".to_string() }));
    assert_eq!(reader.phase(), Phase::Idle);
    assert!(!reader.is_complete());
}

#[test]
fn concurrent_run_goes_through_its_phases() {
    let mut reader = started();
    assert_eq!(reader.phase(), Phase::Running);
    assert_eq!(reader.discover(file("tree/a.txt")), WalkAction::Read);
    reader.finish_walk();
    assert_eq!(reader.phase(), Phase::Running);
    assert_eq!(reader.next_path(), ReaderPoll::Read("tree/a.txt".to_string()));
    assert_eq!(reader.next_path(), ReaderPoll::Wait);
    assert_eq!(reader.phase(), Phase::Running);
    reader.deliver(text("alpha"));
    assert_eq!(reader.phase(), Phase::Running);
    assert_eq!(reader.next_path(), ReaderPoll::Finished);
    assert_eq!(reader.phase(), Phase::Draining);
    assert_eq!(reader.absorb(), Absorbed::Joined);
    assert_eq!(reader.phase(), Phase::Draining);
    assert_eq!(reader.absorb(), Absorbed::Done);
    assert_eq!(reader.phase(), Phase::Done);
    assert!(reader.is_complete());
    let result = reader.aggregate();
    assert_eq!(result.file_count, 1);
    assert_eq!(result.content, "alpha");
}

#[test]
fn concurrent_run_over_an_empty_directory() {
    let mut reader = started();
    assert_eq!(reader.discover(directory("tree")), WalkAction::Skip);
    assert_eq!(reader.next_path(), ReaderPoll::Wait);
    assert_eq!(reader.absorb(), Absorbed::Wait);
    reader.finish_walk();
    assert_eq!(reader.next_path(), ReaderPoll::Finished);
    assert_eq!(reader.absorb(), Absorbed::Done);
    let result = reader.aggregate();
    assert_eq!(result.file_count, 0);
    assert_eq!(result.content, "");
}

#[test]
fn paths_are_handed_out_in_discovery_order() {
    let mut reader = started();
    assert_eq!(reader.discover(file("tree/a.txt")), WalkAction::Read);
    assert_eq!(reader.discover(directory("tree/sub")), WalkAction::Skip);
    assert_eq!(reader.discover(file("tree/sub/b.txt")), WalkAction::Read);
    assert_eq!(reader.discovered(), 2);
    assert_eq!(reader.next_path(), ReaderPoll::Read("tree/a.txt".to_string()));
    assert_eq!(reader.discover(file("tree/sub/c.txt")), WalkAction::Read);
    assert_eq!(reader.next_path(), ReaderPoll::Read("tree/sub/b.txt".to_string()));
    assert_eq!(reader.next_path(), ReaderPoll::Read("tree/sub/c.txt".to_string()));
    assert_eq!(reader.in_flight(), 3);
    assert_eq!(reader.discovered(), 3);
    assert_eq!(reader.next_path(), ReaderPoll::Wait);
}

#[test]
fn fragments_are_joined_in_arrival_order() {
    let mut reader = started();
    reader.discover(file("tree/a.txt"));
    reader.discover(file("tree/b.txt"));
    reader.discover(file("tree/c.txt"));
    reader.finish_walk();
    assert_eq!(reader.next_path(), ReaderPoll::Read("tree/a.txt".to_string()));
    assert_eq!(reader.next_path(), ReaderPoll::Read("tree/b.txt".to_string()));
    assert_eq!(reader.next_path(), ReaderPoll::Read("tree/c.txt".to_string()));
    reader.deliver(text("gamma"));
    assert_eq!(reader.in_flight(), 2);
    assert_eq!(reader.absorb(), Absorbed::Joined);
    assert_eq!(reader.absorb(), Absorbed::Wait);
    reader.deliver(text("alpha"));
    reader.deliver(text("beta"));
    assert_eq!(reader.in_flight(), 0);
    assert_eq!(reader.next_path(), ReaderPoll::Finished);
    assert_eq!(reader.absorb(), Absorbed::Joined);
    assert_eq!(reader.absorb(), Absorbed::Joined);
    assert_eq!(reader.absorb(), Absorbed::Done);
    let result = reader.aggregate();
    assert_eq!(result.file_count, 3);
    assert_eq!(result.content, "gammaalphabeta");
}

#[test]
fn reader_pool_waits_for_reads_under_way() {
    let mut reader = started();
    reader.discover(file("tree/a.txt"));
    reader.finish_walk();
    assert_eq!(reader.next_path(), ReaderPoll::Read("tree/a.txt".to_string()));
    assert_eq!(reader.next_path(), ReaderPoll::Wait);
    assert_eq!(reader.absorb(), Absorbed::Wait);
    assert_eq!(reader.phase(), Phase::Running);
    reader.deliver(ReadOutcome::Failed);
    assert_eq!(reader.next_path(), ReaderPoll::Finished);
    assert_eq!(reader.absorb(), Absorbed::Joined);
    assert_eq!(reader.absorb(), Absorbed::Done);
    let result = reader.aggregate();
    assert_eq!(result.file_count, 1);
    assert_eq!(result.content, "");
}

#[test]
fn concurrent_run_counts_what_it_skips_not() {
    let mut reader = started();
    assert_eq!(
        reader.discover(WalkEvent::Entry { path: "-".to_string(), kind: EntryKind::Unknown }),
        WalkAction::WarnUnknownType
    );
    assert_eq!(
        reader.discover(WalkEvent::Failed { reason: "permission denied".to_string() }),
        WalkAction::LogError
    );
    assert_eq!(reader.discovered(), 0);
    assert_eq!(reader.next_path(), ReaderPoll::Wait);
    reader.finish_walk();
    assert_eq!(reader.next_path(), ReaderPoll::Finished);
    assert_eq!(reader.absorb(), Absorbed::Done);
    assert_eq!(reader.aggregate().file_count, 0);
}
