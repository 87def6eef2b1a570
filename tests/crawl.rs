use stat_crawler::allow_list::Stat;
use stat_crawler::engine::{complete, expand_frontier, Claim, Crawl, Step, POLITE_DELAY_MS};
use stat_crawler::ledger::{Ledger, StorageError};

fn s(x: &str) -> String {
    x.to_string()
}

fn claim_of(step: Result<Step, StorageError>) -> Claim {
    match step {
        Ok(Step::Fetch(c)) => c,
        _ => panic!("expected a claim"),
    }
}

#[test]
fn polite_delay_value() {
    assert_eq!(POLITE_DELAY_MS, 1400);
}

#[test]
fn allow_list_filtering_on_record() {
    let mut l = Ledger::new();
    l.seed_if_empty(s("p1")).unwrap();
    let mut run = Crawl::new(5);
    let c = claim_of(run.advance(&mut l));
    assert_eq!(c.identity, "p1");
    assert_eq!(c.entry_id, 1);
    assert_eq!(c.checked_id, 1);
    let payload = vec![Stat::new(s("Scout.accum.iPlayTime"), 120), Stat::new(s("Random.stat"), 7)];
    assert_eq!(complete(&mut l, &c, Some(payload)), Ok(()));
    let recs = l.stat_records();
    assert_eq!(recs.len(), 1);
    assert_eq!(recs[0].name, "Scout.accum.iPlayTime");
    assert_eq!(recs[0].value, 120);
    assert_eq!(recs[0].checked_id, c.checked_id);
    assert_eq!(l.count_unchecked(), 0);
}

#[test]
fn duplicate_is_skipped() {
    let mut l = Ledger::new();
    l.mark_checked(s("old")).unwrap();
    l.enqueue(s("old")).unwrap();
    let mut run = Crawl::new(3);
    assert!(matches!(run.advance(&mut l), Ok(Step::Duplicate)));
    assert_eq!(l.count_checked(), 1);
    assert!(l.stat_records().is_empty());
    assert_eq!(l.count_unchecked(), 0);
    assert_eq!(run.duplicates(), 1);
    assert_eq!(run.iterations(), 1);
}

#[test]
fn fetch_failure_leaves_tombstone() {
    let mut l = Ledger::new();
    l.seed_if_empty(s("gone")).unwrap();
    let mut run = Crawl::new(3);
    let c = claim_of(run.advance(&mut l));
    assert_eq!(l.count_unchecked(), 1);
    assert_eq!(complete(&mut l, &c, None), Ok(()));
    let checked = l.checked_entries();
    assert_eq!(checked.len(), 1);
    assert_eq!(checked[0].identity, "gone");
    assert!(l.stat_records().is_empty());
    assert_eq!(l.count_unchecked(), 0);
    assert!(matches!(run.advance(&mut l), Ok(Step::Exhausted)));
}

#[test]
fn empty_payload_records_nothing() {
    let mut l = Ledger::new();
    l.seed_if_empty(s("quiet")).unwrap();
    let mut run = Crawl::new(1);
    let c = claim_of(run.advance(&mut l));
    assert_eq!(complete(&mut l, &c, Some(Vec::new())), Ok(()));
    assert_eq!(l.count_checked(), 1);
    assert!(l.stat_records().is_empty());
    assert_eq!(l.count_unchecked(), 0);
}

#[test]
fn complete_with_unknown_owner_fails() {
    let mut l = Ledger::new();
    l.enqueue(s("a")).unwrap();
    let c = Claim { entry_id: 1, identity: s("a"), checked_id: 8 };
    let payload = vec![Stat::new(s("Spy.accum.iPlayTime"), 3)];
    assert_eq!(complete(&mut l, &c, Some(payload)), Err(StorageError::ConstraintViolation));
    assert_eq!(l.count_unchecked(), 1);
    assert!(l.stat_records().is_empty());
}

#[test]
fn iteration_cap_stops_the_run() {
    let mut l = Ledger::new();
    for name in ["a", "b", "c", "d", "e"] {
        l.enqueue(s(name)).unwrap();
    }
    let mut run = Crawl::new(2);
    let mut done = 0;
    loop {
        match run.advance(&mut l).unwrap() {
            Step::Fetch(c) => {
                complete(&mut l, &c, None).unwrap();
                done += 1;
            }
            Step::Duplicate => done += 1,
            Step::CapReached | Step::Exhausted => break,
        }
    }
    assert_eq!(done, 2);
    assert_eq!(run.iterations(), 2);
    assert_eq!(run.limit(), 2);
    assert_eq!(l.count_unchecked(), 3);
    assert!(matches!(run.advance(&mut l), Ok(Step::CapReached)));
    assert_eq!(l.count_unchecked(), 3);
}

#[test]
fn zero_limit_does_nothing() {
    let mut l = Ledger::new();
    l.enqueue(s("a")).unwrap();
    let mut run = Crawl::new(0);
    assert!(matches!(run.advance(&mut l), Ok(Step::CapReached)));
    assert_eq!(l.count_unchecked(), 1);
    assert_eq!(l.count_checked(), 0);
}

#[test]
fn identity_checked_at_most_once() {
    let mut l = Ledger::new();
    for name in ["x", "y", "x", "x", "y"] {
        l.enqueue(s(name)).unwrap();
    }
    let mut run = Crawl::new(100);
    let mut sizes = vec![l.count_unchecked()];
    loop {
        match run.advance(&mut l).unwrap() {
            Step::Fetch(c) => {
                assert_eq!(l.count_unchecked(), *sizes.last().unwrap());
                let payload = vec![Stat::new(s("Pyro.accum.iPlayTime"), 1)];
                complete(&mut l, &c, Some(payload)).unwrap();
            }
            Step::Duplicate => {}
            Step::CapReached | Step::Exhausted => break,
        }
        let now = l.count_unchecked();
        assert_eq!(now + 1, *sizes.last().unwrap());
        sizes.push(now);
    }
    assert_eq!(sizes, vec![5, 4, 3, 2, 1, 0]);
    let checked = l.checked_entries();
    assert_eq!(checked.len(), 2);
    assert_eq!(checked[0].identity, "x");
    assert_eq!(checked[1].identity, "y");
    assert_eq!(run.duplicates(), 3);
    let recs = l.stat_records();
    assert_eq!(recs.len(), 2);
    for r in recs {
        assert!(checked.iter().any(|c| c.id == r.checked_id));
    }
    // A second run on the same ledger checks nothing again.
    l.enqueue(s("x")).unwrap();
    let mut again = Crawl::new(10);
    assert!(matches!(again.advance(&mut l), Ok(Step::Duplicate)));
    assert!(matches!(again.advance(&mut l), Ok(Step::Exhausted)));
    assert_eq!(l.count_checked(), 2);
}

#[test]
fn advance_reports_exhausted_checked_ids() {
    let mut l = Ledger::new();
    l.insert_checked(u64::MAX, s("last")).unwrap();
    l.enqueue(s("new")).unwrap();
    let mut run = Crawl::new(4);
    assert!(matches!(run.advance(&mut l), Err(StorageError::IdSpaceExhausted)));
    assert_eq!(run.iterations(), 0);
    assert_eq!(l.count_unchecked(), 1);
}

#[test]
fn expand_frontier_appends_in_order() {
    let mut l = Ledger::new();
    l.insert_unchecked(3, s("a")).unwrap();
    assert_eq!(expand_frontier(&mut l, &vec![s("f1"), s("f2")]), Ok(()));
    let all = l.unchecked_entries();
    assert_eq!(all.len(), 3);
    assert_eq!((all[1].id, all[1].identity.as_str()), (4, "f1"));
    assert_eq!((all[2].id, all[2].identity.as_str()), (5, "f2"));
    assert_eq!(expand_frontier(&mut l, &Vec::new()), Ok(()));
    assert_eq!(l.count_unchecked(), 3);
}

#[test]
fn expand_frontier_is_all_or_nothing() {
    let mut l = Ledger::new();
    l.insert_unchecked(u64::MAX - 1, s("a")).unwrap();
    assert_eq!(
        expand_frontier(&mut l, &vec![s("f1"), s("f2")]),
        Err(StorageError::IdSpaceExhausted)
    );
    assert_eq!(l.count_unchecked(), 1);
    assert_eq!(expand_frontier(&mut l, &vec![s("f1")]), Ok(()));
    assert_eq!(l.last_unchecked_id(), u64::MAX);
}
