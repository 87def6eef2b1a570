use vstd::prelude::*;

use crate::allow_list::{allowed_stats, is_allowed_name};
use crate::engine::Crawl;
use crate::ledger::{holds_id, records_of, without_entry, LedgerView};

verus! {

/// In a well-formed ledger each identity has at most one checked entry. Every operation
/// of `Ledger` and of the crawl keeps the ledger well formed, so this holds after any
/// sequence of runs on the same ledger.
pub proof fn lemma_at_most_once(l: LedgerView, x: Seq<char>)
    requires
        l.wf(),
    ensures
        forall|i: int, j: int|
            0 <= i < l.checked.len() && 0 <= j < l.checked.len() && l.checked[i].1 == x
                && l.checked[j].1 == x ==> i == j,
{
    assert forall|i: int, j: int|
        0 <= i < l.checked.len() && 0 <= j < l.checked.len() && l.checked[i].1 == x
            && l.checked[j].1 == x implies i == j by {
        if i < j {
            assert(l.checked[i].1 != l.checked[j].1);
        } else if j < i {
            assert(l.checked[j].1 != l.checked[i].1);
        }
    }
}

/// In a well-formed ledger every statistic record names the id of an existing checked entry.
pub proof fn lemma_stats_have_owner(l: LedgerView)
    requires
        l.wf(),
    ensures
        forall|k: int| 0 <= k < l.stats.len() ==> holds_id(l.checked, #[trigger] l.stats[k].2),
{
}

/// An iteration that claims the oldest frontier entry (`Crawl::advance` leaves the frontier
/// as it is and appends a checked entry) and then reaches its cleanup (`complete` removes
/// the claimed entry) leaves the frontier exactly one entry shorter.
pub proof fn lemma_claimed_iteration_shrinks_frontier(
    before: LedgerView,
    claimed: LedgerView,
    after: LedgerView,
)
    requires
        before.wf(),
        before.unchecked.len() > 0,
        claimed.unchecked == before.unchecked,
        after.unchecked == without_entry(claimed.unchecked, before.unchecked[0].0),
    ensures
        after.unchecked.len() == before.unchecked.len() - 1,
{
    assert(holds_id(before.unchecked, before.unchecked[0].0));
}

/// The cleanup of an iteration never lengthens the frontier.
pub proof fn lemma_cleanup_never_grows(s: Seq<(u64, Seq<char>)>, id: u64)
    ensures
        without_entry(s, id).len() <= s.len(),
{
}

/// Every statistic kept from a payload has an allowed name, and so does every record made
/// from the kept statistics.
pub proof fn lemma_only_allowed_recorded(p: Seq<(Seq<char>, i32)>, id: u64)
    ensures
        forall|k: int|
            0 <= k < allowed_stats(p).len() ==> is_allowed_name(#[trigger] allowed_stats(p)[k].0),
        forall|k: int|
            0 <= k < records_of(allowed_stats(p), id).len() ==> is_allowed_name(
                #[trigger] records_of(allowed_stats(p), id)[k].0,
            ) && records_of(allowed_stats(p), id)[k].2 == id,
    decreases p.len(),
{
    if p.len() > 0 {
        lemma_only_allowed_recorded(p.drop_last(), id);
        let rest = allowed_stats(p.drop_last());
        assert forall|k: int| 0 <= k < allowed_stats(p).len() implies is_allowed_name(
            #[trigger] allowed_stats(p)[k].0,
        ) by {
            if k < rest.len() {
                assert(allowed_stats(p)[k] == rest[k]);
            }
        }
    }
    assert forall|k: int| 0 <= k < records_of(allowed_stats(p), id).len() implies is_allowed_name(
        #[trigger] records_of(allowed_stats(p), id)[k].0,
    ) && records_of(allowed_stats(p), id)[k].2 == id by {
        assert(records_of(allowed_stats(p), id)[k].0 == allowed_stats(p)[k].0);
    }
}

/// A well-formed run never counts more iterations than its limit.
pub proof fn lemma_iteration_cap(c: Crawl)
    requires
        c.wf(),
    ensures
        c.spec_iterations() <= c.spec_limit(),
{
}

} // verus!
