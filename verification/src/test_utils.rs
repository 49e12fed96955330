//! A check of what an aggregation of a crate's own directory holds.

use vstd::prelude::*;
use vstd::std_specs::iter::IteratorSpec;

verus! {

broadcast use vstd::string::group_string_axioms;

/// Whether `needle` stands in `text` from position `at` on.
pub open spec fn occurs_at(text: Seq<char>, needle: Seq<char>, at: int) -> bool {
    0 <= at && at + needle.len() <= text.len() && text.subrange(at, at + needle.len()) == needle
}

/// Whether `needle` stands somewhere in `text`.
pub open spec fn contains(text: Seq<char>, needle: Seq<char>) -> bool {
    exists|at: int| occurs_at(text, needle, at)
}

/// What the aggregation of a crate's directory must hold: it is not empty and
/// shows a module, a `main`, the manifest and the source directory.
pub open spec fn holds_a_crate(content: Seq<char>) -> bool {
    &&& content.len() > 0
    &&& contains(content, "mod"@)
    &&& contains(content, "fn main()"@)
    &&& contains(content, "Cargo.toml"@)
    &&& contains(content, "src"@)
}

/// The characters of `text`, in order.
fn chars_of(text: &str) -> (chars: Vec<char>)
    ensures
        chars@ == text@,
{
    let mut chars: Vec<char> = Vec::new();
    for c in rest: text.chars()
        invariant
            rest.seq() == text@,
            chars@ == rest.seq().take(rest.index()),
    {
        assert(rest.seq().take(rest.index() + 1) =~= rest.seq().take(rest.index()).push(c));
        chars.push(c);
    }
    assert(chars@ =~= text@);
    chars
}

/// Whether `needle` stands in `text` from position `at` on.
fn matches_at(text: &Vec<char>, needle: &Vec<char>, at: usize) -> (found: bool)
    requires
        at + needle.len() <= text.len(),
    ensures
        found == occurs_at(text@, needle@, at as int),
{
    let mut k: usize = 0;
    while k < needle.len()
        invariant
            k <= needle.len(),
            at + needle.len() <= text.len(),
            forall|j: int| 0 <= j < k ==> text@[at + j] == needle@[j],
        decreases needle.len() - k,
    {
        if text[at + k] != needle[k] {
            assert(text@.subrange(at as int, at + needle.len())[k as int] != needle@[k as int]);
            return false;
        }
        k = k + 1;
    }
    assert(text@.subrange(at as int, at + needle.len()) =~= needle@);
    true
}

/// Whether `needle` stands somewhere in `text`.
fn find(text: &Vec<char>, needle: &Vec<char>) -> (found: bool)
    ensures
        found == contains(text@, needle@),
{
    if needle.len() > text.len() {
        return false;
    }
    let last: usize = text.len() - needle.len();
    let mut at: usize = 0;
    loop
        invariant
            at <= last,
            last == text.len() - needle.len(),
            forall|j: int| 0 <= j < at ==> !occurs_at(text@, needle@, j),
        decreases last - at,
    {
        if matches_at(text, needle, at) {
            return true;
        }
        if at == last {
            return false;
        }
        at = at + 1;
    }
}

/// Checks aggregations of the directory of a crate.
#[derive(Debug)]
pub struct ReaderTester;

impl ReaderTester {
    pub fn new() -> (tester: ReaderTester) {
        ReaderTester
    }

    /// Whether `content` holds what the aggregation of a crate's directory
    /// must hold.
    pub fn test_for_current_crate(&self, content: &str) -> (passed: bool)
        ensures
            passed == holds_a_crate(content@),
    {
        let text = chars_of(content);
        text.len() > 0 && find(&text, &chars_of("mod")) && find(&text, &chars_of("fn main()"))
            && find(&text, &chars_of("Cargo.toml")) && find(&text, &chars_of("src"))
    }
}

} // verus!
