use vstd::prelude::*;

use crate::allow_list::Stat;

verus! {

/// Why a ledger operation was refused.
#[derive(PartialEq, Eq, Structural, Debug, Clone, Copy)]
pub enum StorageError {
    /// A write would break a rule of the tables: a repeated checked identity,
    /// an id that is not above the last one, or a statistic without its owner.
    ConstraintViolation,
    /// The next id would not fit in a `u64`.
    IdSpaceExhausted,
}

/// A discovered identity that waits in the frontier.
pub struct UncheckedEntry {
    pub id: u64,
    pub identity: String,
}

/// An identity that has been processed once, for good.
pub struct CheckedEntry {
    pub id: u64,
    pub identity: String,
}

/// One kept statistic, owned by the checked entry with id `checked_id`.
pub struct StatRecord {
    pub name: String,
    pub value: i32,
    pub checked_id: u64,
}

impl View for UncheckedEntry {
    type V = (u64, Seq<char>);

    open spec fn view(&self) -> (u64, Seq<char>) {
        (self.id, self.identity@)
    }
}

impl View for CheckedEntry {
    type V = (u64, Seq<char>);

    open spec fn view(&self) -> (u64, Seq<char>) {
        (self.id, self.identity@)
    }
}

impl View for StatRecord {
    type V = (Seq<char>, i32, u64);

    open spec fn view(&self) -> (Seq<char>, i32, u64) {
        (self.name@, self.value, self.checked_id)
    }
}

impl UncheckedEntry {
    /// A copy of the entry, field for field.
    pub fn duplicate(&self) -> (r: UncheckedEntry)
        ensures
            r@ == self@,
    {
        UncheckedEntry { id: self.id, identity: self.identity.clone() }
    }
}

/// The three tables as mathematical sequences, in id order.
pub struct LedgerView {
    pub unchecked: Seq<(u64, Seq<char>)>,
    pub checked: Seq<(u64, Seq<char>)>,
    pub stats: Seq<(Seq<char>, i32, u64)>,
}

pub open spec fn ids_increasing(s: Seq<(u64, Seq<char>)>) -> bool {
    forall|i: int, j: int| 0 <= i < j < s.len() ==> s[i].0 < s[j].0
}

pub open spec fn ids_positive(s: Seq<(u64, Seq<char>)>) -> bool {
    forall|i: int| 0 <= i < s.len() ==> s[i].0 >= 1
}

pub open spec fn identities_unique(s: Seq<(u64, Seq<char>)>) -> bool {
    forall|i: int, j: int| 0 <= i < j < s.len() ==> s[i].1 != s[j].1
}

pub open spec fn holds_id(s: Seq<(u64, Seq<char>)>, id: u64) -> bool {
    exists|i: int| 0 <= i < s.len() && s[i].0 == id
}

pub open spec fn holds_identity(s: Seq<(u64, Seq<char>)>, x: Seq<char>) -> bool {
    exists|i: int| 0 <= i < s.len() && s[i].1 == x
}

/// The largest id of a table, or 0 for an empty one.
pub open spec fn last_id(s: Seq<(u64, Seq<char>)>) -> u64 {
    if s.len() == 0 {
        0
    } else {
        s.last().0
    }
}

/// The records that a list of statistics becomes under the owner `id`.
pub open spec fn records_of(p: Seq<(Seq<char>, i32)>, id: u64) -> Seq<(Seq<char>, i32, u64)> {
    p.map_values(|s: (Seq<char>, i32)| (s.0, s.1, id))
}

/// The table without its row of the given id; the table itself when no row has it.
pub open spec fn without_entry(s: Seq<(u64, Seq<char>)>, id: u64) -> Seq<(u64, Seq<char>)> {
    if holds_id(s, id) {
        s.remove(choose|k: int| 0 <= k < s.len() && s[k].0 == id)
    } else {
        s
    }
}

impl LedgerView {
    pub open spec fn stats_owned(self) -> bool {
        forall|k: int| 0 <= k < self.stats.len() ==> holds_id(self.checked, #[trigger] self.stats[k].2)
    }

    /// Ids increase and start at 1 in both queues, checked identities are unique,
    /// and every statistic belongs to a checked entry.
    pub open spec fn wf(self) -> bool {
        &&& ids_increasing(self.unchecked)
        &&& ids_positive(self.unchecked)
        &&& ids_increasing(self.checked)
        &&& ids_positive(self.checked)
        &&& identities_unique(self.checked)
        &&& self.stats_owned()
    }
}

/// The frontier, the checked ledger and the collected statistics.
pub struct Ledger {
    unchecked: Vec<UncheckedEntry>,
    checked: Vec<CheckedEntry>,
    stats: Vec<StatRecord>,
}

impl View for Ledger {
    type V = LedgerView;

    closed spec fn view(&self) -> LedgerView {
        LedgerView {
            unchecked: self.unchecked@.map_values(|e: UncheckedEntry| e@),
            checked: self.checked@.map_values(|e: CheckedEntry| e@),
            stats: self.stats@.map_values(|e: StatRecord| e@),
        }
    }
}

impl Ledger {
    pub open spec fn wf(&self) -> bool {
        self@.wf()
    }

    /// An empty ledger.
    pub fn new() -> (r: Ledger)
        ensures
            r.wf(),
            r@.unchecked.len() == 0,
            r@.checked.len() == 0,
            r@.stats.len() == 0,
    {
        let r = Ledger { unchecked: Vec::new(), checked: Vec::new(), stats: Vec::new() };
        assert(r@.unchecked.len() == 0);
        r
    }

    /// The number of permanently processed identities.
    pub fn count_checked(&self) -> (r: usize)
        ensures
            r == self@.checked.len(),
    {
        self.checked.len()
    }

    /// The number of identities in the frontier.
    pub fn count_unchecked(&self) -> (r: usize)
        ensures
            r == self@.unchecked.len(),
    {
        self.unchecked.len()
    }

    /// The id of the newest frontier entry, 0 when the frontier is empty.
    pub fn last_unchecked_id(&self) -> (r: u64)
        ensures
            r == last_id(self@.unchecked),
    {
        if self.unchecked.len() == 0 {
            0
        } else {
            self.unchecked[self.unchecked.len() - 1].id
        }
    }

    /// The id of the newest checked entry, 0 when none exists.
    pub fn last_checked_id(&self) -> (r: u64)
        ensures
            r == last_id(self@.checked),
    {
        if self.checked.len() == 0 {
            0
        } else {
            self.checked[self.checked.len() - 1].id
        }
    }

    /// The oldest frontier entry, if the frontier is not empty.
    pub fn peek_unchecked(&self) -> (r: Option<UncheckedEntry>)
        ensures
            self@.unchecked.len() == 0 <==> r is None,
            r matches Some(e) ==> e@ == self@.unchecked[0],
    {
        if self.unchecked.len() == 0 {
            None
        } else {
            Some(self.unchecked[0].duplicate())
        }
    }

    /// Whether an identity is in the checked ledger.
    pub fn is_checked(&self, identity: &String) -> (r: bool)
        ensures
            r == holds_identity(self@.checked, identity@),
    {
        let ghost cv = self@.checked;
        let mut i: usize = 0;
        while i < self.checked.len()
            invariant
                i <= self.checked.len(),
                cv == self.checked@.map_values(|e: CheckedEntry| e@),
                forall|j: int| 0 <= j < i ==> cv[j].1 != identity@,
            decreases self.checked.len() - i,
        {
            assert(cv[i as int] == self.checked@[i as int]@);
            if self.checked[i].identity == *identity {
                return true;
            }
            i = i + 1;
        }
        false
    }

    /// Appends a frontier entry under a given id, which must exceed every id there.
    pub fn insert_unchecked(&mut self, id: u64, identity: String) -> (r: Result<(), StorageError>)
        requires
            old(self).wf(),
        ensures
            final(self).wf(),
            id > last_id(old(self)@.unchecked) ==> r is Ok && final(self)@ == (LedgerView {
                unchecked: old(self)@.unchecked.push((id, identity@)),
                ..old(self)@
            }),
            id <= last_id(old(self)@.unchecked) ==> r == Err::<(), StorageError>(
                StorageError::ConstraintViolation,
            ) && final(self)@ == old(self)@,
    {
        if id <= self.last_unchecked_id() {
            return Err(StorageError::ConstraintViolation);
        }
        let ghost before = self@;
        self.unchecked.push(UncheckedEntry { id, identity });
        assert(self@.unchecked =~= before.unchecked.push((id, identity@)));
        assert(self@.checked =~= before.checked);
        assert(self@.stats =~= before.stats);
        Ok(())
    }

    /// Appends an identity to the frontier under the next free id.
    pub fn enqueue(&mut self, identity: String) -> (r: Result<u64, StorageError>)
        requires
            old(self).wf(),
        ensures
            final(self).wf(),
            last_id(old(self)@.unchecked) < u64::MAX ==> r == Ok::<u64, StorageError>(
                (last_id(old(self)@.unchecked) + 1) as u64,
            ) && final(self)@ == (LedgerView {
                unchecked: old(self)@.unchecked.push(((last_id(old(self)@.unchecked) + 1) as u64, identity@)),
                ..old(self)@
            }),
            last_id(old(self)@.unchecked) == u64::MAX ==> r == Err::<u64, StorageError>(
                StorageError::IdSpaceExhausted,
            ) && final(self)@ == old(self)@,
    {
        let last = self.last_unchecked_id();
        if last == u64::MAX {
            return Err(StorageError::IdSpaceExhausted);
        }
        match self.insert_unchecked(last + 1, identity) {
            Ok(()) => Ok(last + 1),
            Err(e) => Err(e),
        }
    }

    /// Appends a checked entry under a given id, which must exceed every checked id,
    /// for an identity that is not checked yet.
    pub fn insert_checked(&mut self, id: u64, identity: String) -> (r: Result<(), StorageError>)
        requires
            old(self).wf(),
        ensures
            final(self).wf(),
            (id > last_id(old(self)@.checked) && !holds_identity(old(self)@.checked, identity@))
                ==> r is Ok && final(self)@ == (LedgerView {
                checked: old(self)@.checked.push((id, identity@)),
                ..old(self)@
            }),
            !(id > last_id(old(self)@.checked) && !holds_identity(old(self)@.checked, identity@))
                ==> r == Err::<(), StorageError>(StorageError::ConstraintViolation) && final(self)@
                == old(self)@,
    {
        if id <= self.last_checked_id() || self.is_checked(&identity) {
            return Err(StorageError::ConstraintViolation);
        }
        let ghost before = self@;
        self.checked.push(CheckedEntry { id, identity });
        assert(self@.checked =~= before.checked.push((id, identity@)));
        assert(self@.unchecked =~= before.unchecked);
        assert(self@.stats =~= before.stats);
        assert forall|k: int| 0 <= k < self@.stats.len() implies holds_id(
            self@.checked,
            #[trigger] self@.stats[k].2,
        ) by {
            let i = choose|i: int| 0 <= i < before.checked.len() && before.checked[i].0 == before.stats[k].2;
            assert(self@.checked[i] == before.checked[i]);
        }
        Ok(())
    }

    /// Records an identity in the checked ledger under the next free id and returns that id.
    pub fn mark_checked(&mut self, identity: String) -> (r: Result<u64, StorageError>)
        requires
            old(self).wf(),
        ensures
            final(self).wf(),
            holds_identity(old(self)@.checked, identity@) ==> r == Err::<u64, StorageError>(
                StorageError::ConstraintViolation,
            ) && final(self)@ == old(self)@,
            !holds_identity(old(self)@.checked, identity@) && last_id(old(self)@.checked) == u64::MAX
                ==> r == Err::<u64, StorageError>(StorageError::IdSpaceExhausted) && final(self)@
                == old(self)@,
            !holds_identity(old(self)@.checked, identity@) && last_id(old(self)@.checked) < u64::MAX
                ==> r == Ok::<u64, StorageError>((last_id(old(self)@.checked) + 1) as u64)
                && final(self)@ == (LedgerView {
                checked: old(self)@.checked.push(((last_id(old(self)@.checked) + 1) as u64, identity@)),
                ..old(self)@
            }),
    {
        if self.is_checked(&identity) {
            return Err(StorageError::ConstraintViolation);
        }
        let last = self.last_checked_id();
        if last == u64::MAX {
            return Err(StorageError::IdSpaceExhausted);
        }
        match self.insert_checked(last + 1, identity) {
            Ok(()) => Ok(last + 1),
            Err(e) => Err(e),
        }
    }

    /// Appends one record per statistic, in order, owned by the checked entry `checked_id`.
    pub fn record_stats(&mut self, checked_id: u64, stats: &Vec<Stat>) -> (r: Result<(), StorageError>)
        requires
            old(self).wf(),
        ensures
            final(self).wf(),
            holds_id(old(self)@.checked, checked_id) ==> r is Ok && final(self)@ == (LedgerView {
                stats: old(self)@.stats + records_of(stats@.map_values(|s: Stat| s@), checked_id),
                ..old(self)@
            }),
            !holds_id(old(self)@.checked, checked_id) ==> r == Err::<(), StorageError>(
                StorageError::ConstraintViolation,
            ) && final(self)@ == old(self)@,
    {
        let mut found = false;
        let mut j: usize = 0;
        while j < self.checked.len()
            invariant
                j <= self.checked.len(),
                found ==> holds_id(self@.checked, checked_id),
                !found ==> forall|m: int| 0 <= m < j ==> self@.checked[m].0 != checked_id,
            decreases self.checked.len() - j,
        {
            assert(self@.checked[j as int] == self.checked@[j as int]@);
            if self.checked[j].id == checked_id {
                found = true;
            }
            j = j + 1;
        }
        if !found {
            return Err(StorageError::ConstraintViolation);
        }
        let ghost before = self@;
        let ghost pv = stats@.map_values(|s: Stat| s@);
        let mut i: usize = 0;
        while i < stats.len()
            invariant
                i <= stats.len(),
                pv == stats@.map_values(|s: Stat| s@),
                before.wf(),
                holds_id(before.checked, checked_id),
                self@ == (LedgerView {
                    stats: before.stats + records_of(pv.subrange(0, i as int), checked_id),
                    ..before
                }),
            decreases stats.len() - i,
        {
            let ghost prev = self@;
            let rec = StatRecord { name: stats[i].name.clone(), value: stats[i].value, checked_id };
            self.stats.push(rec);
            assert(records_of(pv.subrange(0, i + 1), checked_id) =~= records_of(
                pv.subrange(0, i as int),
                checked_id,
            ).push((pv[i as int].0, pv[i as int].1, checked_id)));
            assert(self@.stats =~= prev.stats.push((pv[i as int].0, pv[i as int].1, checked_id)));
            assert(self@.unchecked =~= prev.unchecked);
            assert(self@.checked =~= prev.checked);
            i = i + 1;
        }
        assert(pv.subrange(0, stats.len() as int) =~= pv);
        assert forall|k: int| 0 <= k < self@.stats.len() implies holds_id(
            self@.checked,
            #[trigger] self@.stats[k].2,
        ) by {
            if k >= before.stats.len() {
                assert(self@.stats[k].2 == checked_id);
            } else {
                assert(self@.stats[k] == before.stats[k]);
            }
        }
        Ok(())
    }

    /// Removes the frontier entry with the given id, if there is one, and says whether there was.
    pub fn remove_unchecked(&mut self, id: u64) -> (r: bool)
        requires
            old(self).wf(),
        ensures
            final(self).wf(),
            r == holds_id(old(self)@.unchecked, id),
            forall|k: int|
                0 <= k < old(self)@.unchecked.len() && old(self)@.unchecked[k].0 == id
                    ==> final(self)@ == (LedgerView { unchecked: old(self)@.unchecked.remove(k), ..old(self)@ }),
            final(self)@ == (LedgerView { unchecked: without_entry(old(self)@.unchecked, id), ..old(self)@ }),
            !r ==> final(self)@ == old(self)@,
            r ==> final(self)@.unchecked.len() == old(self)@.unchecked.len() - 1,
    {
        let ghost before = self@;
        assert(before == old(self)@);
        let mut i: usize = 0;
        while i < self.unchecked.len()
            invariant
                i <= self.unchecked.len(),
                self@ == before,
                before == old(self)@,
                before.wf(),
                forall|m: int| 0 <= m < i ==> before.unchecked[m].0 != id,
            decreases self.unchecked.len() - i,
        {
            assert(before.unchecked[i as int] == self.unchecked@[i as int]@);
            if self.unchecked[i].id == id {
                let ghost k = i as int;
                self.unchecked.remove(i);
                assert(self@.unchecked =~= before.unchecked.remove(k));
                assert(self@.checked =~= before.checked);
                assert(self@.stats =~= before.stats);
                assert forall|a: int, b: int| 0 <= a < b < self@.unchecked.len() implies self@.unchecked[a].0
                    < self@.unchecked[b].0 by {
                    let oa = if a < k { a } else { a + 1 };
                    let ob = if b < k { b } else { b + 1 };
                    assert(self@.unchecked[a] == before.unchecked[oa]);
                    assert(self@.unchecked[b] == before.unchecked[ob]);
                }
                assert forall|a: int| 0 <= a < self@.unchecked.len() implies self@.unchecked[a].0 >= 1 by {
                    let oa = if a < k { a } else { a + 1 };
                    assert(self@.unchecked[a] == before.unchecked[oa]);
                }
                assert forall|m: int|
                    0 <= m < before.unchecked.len() && before.unchecked[m].0 == id implies m == k by {
                    if m < k {
                        assert(before.unchecked[m].0 < before.unchecked[k].0);
                    } else if m > k {
                        assert(before.unchecked[k].0 < before.unchecked[m].0);
                    }
                }
                assert(before.unchecked[k].0 == id);
                assert(holds_id(before.unchecked, id));
                proof {
                    let c = choose|c: int| 0 <= c < before.unchecked.len() && before.unchecked[c].0 == id;
                    if c < k {
                        assert(before.unchecked[c].0 < before.unchecked[k].0);
                    } else if c > k {
                        assert(before.unchecked[k].0 < before.unchecked[c].0);
                    }
                }
                return true;
            }
            i = i + 1;
        }
        assert(before.unchecked.len() == self.unchecked@.len());
        false
    }

    /// Puts `identity` into the frontier under id 1 when nothing has been checked yet;
    /// says whether it did.
    pub fn seed_if_empty(&mut self, identity: String) -> (r: Result<bool, StorageError>)
        requires
            old(self).wf(),
        ensures
            final(self).wf(),
            old(self)@.checked.len() > 0 ==> r == Ok::<bool, StorageError>(false) && final(self)@
                == old(self)@,
            old(self)@.checked.len() == 0 && old(self)@.unchecked.len() > 0
                && old(self)@.unchecked[0].0 == 1 ==> r == Err::<bool, StorageError>(
                StorageError::ConstraintViolation,
            ) && final(self)@ == old(self)@,
            old(self)@.checked.len() == 0 && !(old(self)@.unchecked.len() > 0
                && old(self)@.unchecked[0].0 == 1) ==> r == Ok::<bool, StorageError>(true)
                && final(self)@ == (LedgerView {
                unchecked: seq![(1u64, identity@)] + old(self)@.unchecked,
                ..old(self)@
            }),
    {
        if self.checked.len() > 0 {
            return Ok(false);
        }
        if self.unchecked.len() > 0 && self.unchecked[0].id == 1 {
            return Err(StorageError::ConstraintViolation);
        }
        let ghost before = self@;
        self.unchecked.insert(0, UncheckedEntry { id: 1, identity });
        assert(self@.unchecked =~= seq![(1u64, identity@)] + before.unchecked);
        assert(self@.checked =~= before.checked);
        assert(self@.stats =~= before.stats);
        assert forall|a: int, b: int| 0 <= a < b < self@.unchecked.len() implies self@.unchecked[a].0
            < self@.unchecked[b].0 by {
            if a == 0 {
                assert(before.unchecked[b - 1].0 >= 1);
                assert(before.unchecked[0].0 != 1);
                if b > 1 {
                    assert(before.unchecked[0].0 < before.unchecked[b - 1].0);
                }
            }
        }
        Ok(true)
    }

    /// The frontier entries, oldest first.
    pub fn unchecked_entries(&self) -> (r: &Vec<UncheckedEntry>)
        ensures
            r@.map_values(|e: UncheckedEntry| e@) == self@.unchecked,
    {
        &self.unchecked
    }

    /// The checked entries, oldest first.
    pub fn checked_entries(&self) -> (r: &Vec<CheckedEntry>)
        ensures
            r@.map_values(|e: CheckedEntry| e@) == self@.checked,
    {
        &self.checked
    }

    /// The statistic records, oldest first.
    pub fn stat_records(&self) -> (r: &Vec<StatRecord>)
        ensures
            r@.map_values(|e: StatRecord| e@) == self@.stats,
    {
        &self.stats
    }
}

} // verus!
