//! What holds of any two runs, whatever the strategy and whatever the order
//! in which the reads came back.

use crate::entry::files_of;
use crate::reader::{fragment, fragments, summary, SyncRead};
use vstd::prelude::*;
use vstd::seq_lib::{lemma_flatten_concat, to_multiset_build, to_multiset_insert, to_multiset_remove};

verus! {

/// The same reads in another order contribute the same fragments, each as
/// often as before.
pub proof fn lemma_fragments_of_same_reads(
    first: Seq<Option<Seq<char>>>,
    second: Seq<Option<Seq<char>>>,
)
    requires
        first.to_multiset() == second.to_multiset(),
    ensures
        first.len() == second.len(),
        fragments(first).to_multiset() == fragments(second).to_multiset(),
    decreases first.len(),
{
    first.to_multiset_ensures();
    second.to_multiset_ensures();
    if first.len() == 0 {
        assert(fragments(first) =~= fragments(second));
    } else {
        let outcome = first.last();
        assert(first.contains(outcome));
        assert(first.to_multiset().count(outcome) > 0);
        assert(second.to_multiset().count(outcome) > 0);
        assert(second.contains(outcome));
        let at = choose|at: int| 0 <= at < second.len() && second[at] == outcome;
        let first_rest = first.drop_last();
        let second_rest = second.remove(at);
        assert(first_rest =~= first.remove(first.len() - 1));
        to_multiset_remove(first, first.len() - 1);
        to_multiset_remove(second, at);
        lemma_fragments_of_same_reads(first_rest, second_rest);
        assert(fragments(first) =~= fragments(first_rest).push(fragment(outcome)));
        assert(fragments(second) =~= fragments(second_rest).insert(at, fragment(outcome)));
        to_multiset_build(fragments(first_rest), fragment(outcome));
        to_multiset_insert(fragments(second_rest), at, fragment(outcome));
    }
}

/// Two runs to which the traversal reported the same steps have
/// read the same files and count the same number of them, whatever their
/// strategies.
pub proof fn lemma_strategies_read_the_same_files<A: SyncRead, B: SyncRead>(a: A, b: B)
    requires
        a.wf(),
        b.wf(),
        a.complete(),
        b.complete(),
        a.walked() == b.walked(),
    ensures
        a.files_read() == b.files_read(),
        summary(a.delivered()).file_count == summary(b.delivered()).file_count,
        summary(a.delivered()).file_count == files_of(a.walked()).len(),
{
    a.lemma_complete();
    b.lemma_complete();
}

/// Two runs whose reads ended the same, in
/// whatever order they came back, join the same fragments, each as often in
/// one run as in the other.
pub proof fn lemma_strategies_join_the_same_fragments<A: SyncRead, B: SyncRead>(a: A, b: B)
    requires
        a.wf(),
        b.wf(),
        a.complete(),
        b.complete(),
        a.delivered().to_multiset() == b.delivered().to_multiset(),
    ensures
        fragments(a.delivered()).to_multiset() == fragments(b.delivered()).to_multiset(),
        summary(a.delivered()).file_count == summary(b.delivered()).file_count,
{
    lemma_fragments_of_same_reads(a.delivered(), b.delivered());
}

/// A second run of one strategy over a tree that has not
/// changed, so that the traversal reports the same steps and the reads end
/// the same, counts the same files and joins the same fragments; where the
/// reads also come back in the same order, the content is the same.
pub proof fn lemma_second_run_agrees<A: SyncRead>(first: A, second: A)
    requires
        first.wf(),
        second.wf(),
        first.complete(),
        second.complete(),
        first.walked() == second.walked(),
        first.delivered().to_multiset() == second.delivered().to_multiset(),
    ensures
        summary(first.delivered()).file_count == summary(second.delivered()).file_count,
        fragments(first.delivered()).to_multiset() == fragments(
            second.delivered(),
        ).to_multiset(),
        first.delivered() == second.delivered() ==> summary(first.delivered()) == summary(
            second.delivered(),
        ),
{
    lemma_fragments_of_same_reads(first.delivered(), second.delivered());
}

/// A read that failed is counted, and the content is what
/// the other reads alone would have given.
pub proof fn lemma_failed_read_is_counted_and_adds_nothing(
    outcomes: Seq<Option<Seq<char>>>,
    failed: int,
)
    requires
        0 <= failed < outcomes.len(),
        outcomes[failed] is None,
    ensures
        summary(outcomes).file_count == outcomes.len(),
        summary(outcomes).file_count == summary(outcomes.remove(failed)).file_count + 1,
        summary(outcomes).content == summary(outcomes.remove(failed)).content,
{
    let all = fragments(outcomes);
    let before = all.take(failed);
    let after = all.skip(failed + 1);
    assert(all =~= before.push(all[failed]) + after);
    assert(fragments(outcomes.remove(failed)) =~= before + after);
    lemma_flatten_concat(before.push(all[failed]), after);
    lemma_flatten_concat(before, after);
    before.lemma_flatten_push(all[failed]);
    assert(before.flatten() + all[failed] =~= before.flatten());
}

} // verus!
