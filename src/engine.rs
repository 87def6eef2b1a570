use vstd::prelude::*;

use crate::allow_list::{allowed_stats, filter_allowed, Stat};
use crate::ledger::{
    holds_id, holds_identity, last_id, records_of, without_entry, Ledger, LedgerView,
    StorageError,
};

verus! {

/// The pause, in milliseconds, to keep before each call to the remote service.
pub const POLITE_DELAY_MS: u64 = 1400;

/// An identity that an iteration has marked checked and now fetches.
pub struct Claim {
    /// The id of the frontier entry that the identity came from.
    pub entry_id: u64,
    pub identity: String,
    /// The id of its new checked entry, which owns its statistics.
    pub checked_id: u64,
}

/// What the caller is to do after `Crawl::advance`.
pub enum Step {
    /// The run has made as many iterations as its limit allows.
    CapReached,
    /// The frontier is empty: the run is over.
    Exhausted,
    /// The oldest entry was already checked and has been dropped; go on.
    Duplicate,
    /// Wait `POLITE_DELAY_MS`, fetch the claimed identity's statistics, then call `complete`.
    Fetch(Claim),
}

/// One run of the crawl: its iteration limit and what it has done so far.
pub struct Crawl {
    limit: u32,
    iterations: u32,
    duplicates: u32,
}

impl Crawl {
    pub closed spec fn spec_limit(&self) -> u32 {
        self.limit
    }

    pub closed spec fn spec_iterations(&self) -> u32 {
        self.iterations
    }

    pub closed spec fn spec_duplicates(&self) -> u32 {
        self.duplicates
    }

    /// Iterations never exceed the limit, and duplicates are counted among them.
    pub open spec fn wf(&self) -> bool {
        self.spec_iterations() <= self.spec_limit() && self.spec_duplicates()
            <= self.spec_iterations()
    }

    /// A run that may make at most `limit` iterations.
    pub fn new(limit: u32) -> (r: Crawl)
        ensures
            r.wf(),
            r.spec_limit() == limit,
            r.spec_iterations() == 0,
            r.spec_duplicates() == 0,
    {
        Crawl { limit, iterations: 0, duplicates: 0 }
    }

    pub fn limit(&self) -> (r: u32)
        ensures
            r == self.spec_limit(),
    {
        self.limit
    }

    /// The iterations made so far: entries taken from the frontier.
    pub fn iterations(&self) -> (r: u32)
        ensures
            r == self.spec_iterations(),
    {
        self.iterations
    }

    /// The entries dropped so far because their identity was already checked.
    pub fn duplicates(&self) -> (r: u32)
        ensures
            r == self.spec_duplicates(),
    {
        self.duplicates
    }

    /// Starts the next iteration: takes the oldest frontier entry, drops it when its
    /// identity is already checked, and otherwise marks it checked and hands it out
    /// to be fetched. The entry of a claim stays in the frontier until `complete`.
    pub fn advance(&mut self, ledger: &mut Ledger) -> (r: Result<Step, StorageError>)
        requires
            old(self).wf(),
            old(ledger).wf(),
        ensures
            final(self).wf(),
            final(ledger).wf(),
            final(self).spec_limit() == old(self).spec_limit(),
            old(self).spec_iterations() == old(self).spec_limit() ==> (r matches Ok(Step::CapReached)
                && *final(self) == *old(self) && final(ledger)@ == old(ledger)@),
            old(self).spec_iterations() < old(self).spec_limit() && old(ledger)@.unchecked.len() == 0
                ==> (r matches Ok(Step::Exhausted) && *final(self) == *old(self) && final(ledger)@
                == old(ledger)@),
            old(self).spec_iterations() < old(self).spec_limit() && old(ledger)@.unchecked.len() > 0
                && holds_identity(old(ledger)@.checked, old(ledger)@.unchecked[0].1) ==> (r matches Ok(
                Step::Duplicate,
            ) && final(self).spec_iterations() == old(self).spec_iterations() + 1
                && final(self).spec_duplicates() == old(self).spec_duplicates() + 1 && final(ledger)@
                == (LedgerView { unchecked: old(ledger)@.unchecked.drop_first(), ..old(ledger)@ })),
            old(self).spec_iterations() < old(self).spec_limit() && old(ledger)@.unchecked.len() > 0
                && !holds_identity(old(ledger)@.checked, old(ledger)@.unchecked[0].1) && last_id(
                old(ledger)@.checked,
            ) == u64::MAX ==> r == Err::<Step, StorageError>(StorageError::IdSpaceExhausted)
                && *final(self) == *old(self) && final(ledger)@ == old(ledger)@,
            old(self).spec_iterations() < old(self).spec_limit() && old(ledger)@.unchecked.len() > 0
                && !holds_identity(old(ledger)@.checked, old(ledger)@.unchecked[0].1) && last_id(
                old(ledger)@.checked,
            ) < u64::MAX ==> (r matches Ok(Step::Fetch(c)) && c.entry_id == old(ledger)@.unchecked[0].0
                && c.identity@ == old(ledger)@.unchecked[0].1 && c.checked_id == last_id(
                old(ledger)@.checked,
            ) + 1 && final(self).spec_iterations() == old(self).spec_iterations() + 1
                && final(self).spec_duplicates() == old(self).spec_duplicates() && final(ledger)@ == (
            LedgerView {
                checked: old(ledger)@.checked.push((c.checked_id, c.identity@)),
                ..old(ledger)@
            })),
    {
        if self.iterations == self.limit {
            return Ok(Step::CapReached);
        }
        let entry = match ledger.peek_unchecked() {
            None => {
                return Ok(Step::Exhausted);
            },
            Some(e) => e,
        };
        if ledger.is_checked(&entry.identity) {
            let ghost before = ledger@;
            let removed = ledger.remove_unchecked(entry.id);
            proof {
                assert(before.unchecked[0].0 == entry.id);
                assert(before.unchecked.remove(0) =~= before.unchecked.drop_first());
            }
            self.iterations = self.iterations + 1;
            self.duplicates = self.duplicates + 1;
            return Ok(Step::Duplicate);
        }
        match ledger.mark_checked(entry.identity.clone()) {
            Ok(checked_id) => {
                self.iterations = self.iterations + 1;
                Ok(Step::Fetch(Claim { entry_id: entry.id, identity: entry.identity, checked_id }))
            },
            Err(e) => Err(e),
        }
    }
}

/// Frontier entries for `ids`, numbered from `start` upwards in order.
pub open spec fn numbered(ids: Seq<Seq<char>>, start: int) -> Seq<(u64, Seq<char>)> {
    Seq::new(ids.len(), |i: int| ((start + i) as u64, ids[i]))
}

/// Appends newly discovered identities to the frontier, in order, under the next free
/// ids. Either all of them are appended or, when their ids would not fit in a `u64`,
/// none is.
pub fn expand_frontier(ledger: &mut Ledger, discovered: &Vec<String>) -> (r: Result<(), StorageError>)
    requires
        old(ledger).wf(),
    ensures
        final(ledger).wf(),
        last_id(old(ledger)@.unchecked) + discovered@.len() <= u64::MAX ==> r is Ok && final(ledger)@
            == (LedgerView {
            unchecked: old(ledger)@.unchecked + numbered(
                discovered@.map_values(|s: String| s@),
                last_id(old(ledger)@.unchecked) + 1,
            ),
            ..old(ledger)@
        }),
        last_id(old(ledger)@.unchecked) + discovered@.len() > u64::MAX ==> r == Err::<
            (),
            StorageError,
        >(StorageError::IdSpaceExhausted) && final(ledger)@ == old(ledger)@,
{
    let last = ledger.last_unchecked_id();
    if discovered.len() as u64 > u64::MAX - last {
        return Err(StorageError::IdSpaceExhausted);
    }
    let ghost before = ledger@;
    let ghost ids = discovered@.map_values(|s: String| s@);
    let mut i: usize = 0;
    while i < discovered.len()
        invariant
            i <= discovered.len(),
            last == last_id(before.unchecked),
            last + discovered@.len() <= u64::MAX,
            ids == discovered@.map_values(|s: String| s@),
            ledger.wf(),
            ledger@ == (LedgerView {
                unchecked: before.unchecked + numbered(ids.subrange(0, i as int), last + 1),
                ..before
            }),
        decreases discovered.len() - i,
    {
        let ghost prev = ledger@;
        assert(last_id(prev.unchecked) == last + i) by {
            if i > 0 {
                assert(prev.unchecked.last() == numbered(ids.subrange(0, i as int), last + 1)[i - 1]);
            }
        }
        let r = ledger.enqueue(discovered[i].clone());
        assert(r is Ok);
        assert(numbered(ids.subrange(0, i + 1), last + 1) =~= numbered(ids.subrange(0, i as int), last + 1).push(
            ((last + 1 + i) as u64, ids[i as int]),
        ));
        assert(ledger@.unchecked =~= before.unchecked + numbered(ids.subrange(0, i + 1), last + 1));
        i = i + 1;
    }
    assert(ids.subrange(0, discovered.len() as int) =~= ids);
    Ok(())
}

/// Ends the iteration of a claim. On a fetched payload (`Some`) the allowed statistics
/// are recorded under the claim's checked id; on a failed fetch (`None`) nothing is
/// recorded and the checked entry stays as a tombstone. Either way the claim's
/// frontier entry is removed.
pub fn complete(ledger: &mut Ledger, claim: &Claim, outcome: Option<Vec<Stat>>) -> (r: Result<
    (),
    StorageError,
>)
    requires
        old(ledger).wf(),
    ensures
        final(ledger).wf(),
        outcome is None ==> r is Ok && final(ledger)@ == (LedgerView {
            unchecked: without_entry(old(ledger)@.unchecked, claim.entry_id),
            ..old(ledger)@
        }),
        outcome is Some && holds_id(old(ledger)@.checked, claim.checked_id) ==> r is Ok
            && final(ledger)@ == (LedgerView {
            unchecked: without_entry(old(ledger)@.unchecked, claim.entry_id),
            stats: old(ledger)@.stats + records_of(
                allowed_stats(outcome->Some_0@.map_values(|s: Stat| s@)),
                claim.checked_id,
            ),
            ..old(ledger)@
        }),
        outcome is Some && !holds_id(old(ledger)@.checked, claim.checked_id) ==> r == Err::<
            (),
            StorageError,
        >(StorageError::ConstraintViolation) && final(ledger)@ == old(ledger)@,
{
    if let Some(payload) = outcome {
        let kept = filter_allowed(&payload);
        match ledger.record_stats(claim.checked_id, &kept) {
            Ok(()) => {},
            Err(e) => {
                return Err(e);
            },
        }
    }
    ledger.remove_unchecked(claim.entry_id);
    Ok(())
}

} // verus!
