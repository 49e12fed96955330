use codesum::{
    Absorbed, AsyncReader, EntryKind, ReadOutcome, ReaderPoll, ReaderTester, SimpleReader,
    SyncRead, WalkAction, WalkEvent,
};

const MANIFEST: &str = "[package]\nname = \"codesum\"\nversion = \"0.1.0\"\nedition = \"2021\"\n\n[[bin]]\nname = \"codesum\"\npath = \"src/main.rs\"\n# see Cargo.toml of the workspace\n";
const MAIN: &str = "mod cli;\n\nfn main() {\n    let cli = cli::parse();\n    println!(\"{}\", cli.path);\n}\n";
const CLI: &str = "pub struct Cli {\n    pub path: String,\n}\n";

/// The directory of a small crate, as a traversal reports it.
fn current_crate() -> Vec<(WalkEvent, Option<&'static str>)> {
    let entry = |path: &str, kind| WalkEvent::Entry { path: path.to_string(), kind };
    vec![
        (entry(".", EntryKind::Other), None),
        (entry("./Cargo.toml", EntryKind::File), Some(MANIFEST)),
        (entry("./src", EntryKind::Other), None),
        (entry("./src/main.rs", EntryKind::File), Some(MAIN)),
        (entry("./src/cli.rs", EntryKind::File), Some(CLI)),
    ]
}

fn read_files_simple() -> String {
    let mut reader = SimpleReader::new();
    reader.start(".", Some("/work/codesum".to_string())).unwrap();
    for (event, text) in current_crate() {
        if reader.visit(&event) == WalkAction::Read {
            reader.append(ReadOutcome::Text(text.unwrap().to_string()));
        }
    }
    reader.aggregate().content
}

fn read_files_concurrent() -> String {
    let mut reader = AsyncReader::new();
    reader.start(".", Some("/work/codesum".to_string())).unwrap();
    let mut texts = Vec::new();
    for (event, text) in current_crate() {
        if reader.discover(event) == WalkAction::Read {
            texts.push(text.unwrap());
        }
    }
    reader.finish_walk();
    for text in texts {
        assert!(matches!(reader.next_path(), ReaderPoll::Read(_)));
        reader.deliver(ReadOutcome::Text(text.to_string()));
        assert_eq!(reader.absorb(), Absorbed::Joined);
    }
    assert_eq!(reader.next_path(), ReaderPoll::Finished);
    assert_eq!(reader.absorb(), Absorbed::Done);
    reader.aggregate().content
}

#[test]
fn simple_test_read_files() {
    let content = read_files_simple();

    let len = content.len();
    assert!(len > 0);

    assert!(ReaderTester::new().test_for_current_crate(&content));

    println!("{}", &content[..100]);
}

#[test]
fn concurrent_test_read_files() {
    let sync_result = read_files_simple();
    let async_result = read_files_concurrent();

    assert_eq!(sync_result, async_result);
}
