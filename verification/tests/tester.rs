use codesum::ReaderTester;

const CRATE: &str = "[package]\nname = \"demo\"\n# Cargo.toml\nsrc/main.rs\nmod cli;\nfn main() {}\n";

#[test]
fn aggregation_of_a_crate_passes() {
    assert!(ReaderTester::new().test_for_current_crate(CRATE));
}

#[test]
fn empty_content_does_not_pass() {
    assert!(!ReaderTester::new().test_for_current_crate(""));
}

#[test]
fn content_without_a_module_does_not_pass() {
    let content = "Cargo.toml src fn main() {}";
    assert!(!ReaderTester::new().test_for_current_crate(content));
}

#[test]
fn content_without_a_main_does_not_pass() {
    let content = "Cargo.toml src mod cli; fn main {}";
    assert!(!ReaderTester::new().test_for_current_crate(content));
}

#[test]
fn content_without_the_manifest_does_not_pass() {
    let content = "Cargo.lock src mod cli; fn main() {}";
    assert!(!ReaderTester::new().test_for_current_crate(content));
}

#[test]
fn content_without_the_source_directory_does_not_pass() {
    let content = "Cargo.toml mod cli; fn main() {}";
    assert!(!ReaderTester::new().test_for_current_crate(content));
}

#[test]
fn needle_at_the_very_end_is_found() {
    let content = "Cargo.toml mod fn main() src";
    assert!(ReaderTester::new().test_for_current_crate(content));
}

#[test]
fn content_beyond_ascii_is_searched_by_character() {
    let content = "«módulo» Cargo.toml mod ñ fn main() → src";
    assert!(ReaderTester::new().test_for_current_crate(content));
}
