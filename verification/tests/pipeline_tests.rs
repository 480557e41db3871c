use enamel_core::manager::{Handle, Manager, Mode};
use enamel_core::pipeline::{Channel, DrainStatus, Pipeline, QueryResultRow, row_of_entry};
use enamel_core::store::{
    parse_query, query_for_tag, QueryError, QueryPlan, Store, StoreStatus, ThreadEntry,
};

fn entry(id: &str, subject: &str, oldest: i64, newest: i64, tags: &[&str]) -> ThreadEntry {
    ThreadEntry {
        id: id.to_string(),
        subject: subject.to_string(),
        total_messages: 1,
        authors: vec!["ann".to_string()],
        oldest_date: oldest,
        newest_date: newest,
        tags: tags.iter().map(|t| t.to_string()).collect(),
    }
}

fn handle() -> Handle {
    let mut m = Manager::new("/mail/store".to_string());
    let st = StoreStatus { present: true, accessible: true, write_locked: false, intact: true };
    m.get(&st, Mode::ReadOnly).unwrap()
}

fn ids(rows: &[QueryResultRow]) -> Vec<String> {
    rows.iter().map(|r| r.id.clone()).collect()
}

#[test]
fn drain_before_any_row_is_empty_and_pending() {
    let mut p = Pipeline::new();
    let (mut pq, chan) = p.start(&handle(), "").unwrap();
    let (rows, status) = p.drain(&mut pq, &chan);
    assert!(rows.is_empty());
    assert!(matches!(status, DrainStatus::Pending));
    assert!(p.results().is_empty());
    // Polling again without production still never blocks or errors.
    let (rows, status) = p.drain(&mut pq, &chan);
    assert!(rows.is_empty());
    assert!(matches!(status, DrainStatus::Pending));
}

#[test]
fn rows_arrive_in_emission_order_across_any_polling_cadence() {
    let store = Store {
        threads: vec![
            entry("t1", "one", 10, 20, &[]),
            entry("t2", "two", 5, 9, &[]),
            entry("t3", "three", 30, 40, &[]),
            entry("t4", "four", 1, 2, &[]),
        ],
    };
    let mut p = Pipeline::new();
    let (mut pq, mut chan) = p.start(&handle(), "").unwrap();

    // The worker emits one row, the UI polls, the worker emits three
    // more, the UI polls twice: the visible order is the emission order.
    assert!(chan.emit(row_of_entry(&store.threads[0])));
    let (rows, status) = p.drain(&mut pq, &chan);
    assert_eq!(ids(&rows), vec!["t1".to_string()]);
    assert!(matches!(status, DrainStatus::Pending));

    assert!(chan.emit(row_of_entry(&store.threads[1])));
    assert!(chan.emit(row_of_entry(&store.threads[2])));
    assert!(chan.emit(row_of_entry(&store.threads[3])));
    chan.close();
    let (rows, status) = p.drain(&mut pq, &chan);
    assert_eq!(
        ids(&rows),
        vec!["t2".to_string(), "t3".to_string(), "t4".to_string()]
    );
    assert!(matches!(status, DrainStatus::Done));
    assert_eq!(
        ids(p.results()),
        vec!["t1".to_string(), "t2".to_string(), "t3".to_string(), "t4".to_string()]
    );
}

#[test]
fn superseding_query_discards_the_old_workers_rows() {
    let mut p = Pipeline::new();
    let (mut pq_a, mut chan_a) = p.start(&handle(), "").unwrap();
    assert!(chan_a.emit(row_of_entry(&entry("a1", "old", 1, 2, &[]))));

    // Query B supersedes A before A was ever drained.
    let (mut pq_b, mut chan_b) = p.start(&handle(), "").unwrap();

    // A's worker is orphaned but keeps running; its late rows and its
    // drains must never reach the visible collection.
    assert!(chan_a.emit(row_of_entry(&entry("a2", "older", 1, 2, &[]))));
    chan_a.close();
    let (rows, _) = p.drain(&mut pq_a, &chan_a);
    assert!(rows.is_empty());
    assert!(p.results().is_empty());

    assert!(chan_b.emit(row_of_entry(&entry("b1", "new", 3, 4, &[]))));
    chan_b.close();
    let (rows, status) = p.drain(&mut pq_b, &chan_b);
    assert_eq!(ids(&rows), vec!["b1".to_string()]);
    assert!(matches!(status, DrainStatus::Done));
    assert_eq!(ids(p.results()), vec!["b1".to_string()]);
}

#[test]
fn empty_query_returns_all_threads_in_store_order() {
    // T1 is older-dated than T2 but stands first in the store: the
    // result keeps the store's iteration order, it is not re-sorted.
    let store = Store {
        threads: vec![entry("T1", "a", 100, 200, &[]), entry("T2", "b", 50, 90, &[])],
    };
    let mut p = Pipeline::new();
    let (mut pq, mut chan) = p.start(&handle(), "").unwrap();
    enamel_core::pipeline::run_worker(&mut chan, &store, "");
    let (rows, status) = p.drain(&mut pq, &chan);
    assert!(matches!(status, DrainStatus::Done));
    assert_eq!(ids(&rows), vec!["T1".to_string(), "T2".to_string()]);
    assert_eq!(rows[0].subject, "a");
    assert_eq!(rows[0].oldest_date, 100);
    assert_eq!(rows[0].newest_date, 200);
    assert_eq!(rows[1].subject, "b");
    assert_eq!(rows[1].oldest_date, 50);
    assert_eq!(rows[1].newest_date, 90);
}

#[test]
fn tag_query_returns_only_tagged_threads() {
    let store = Store {
        threads: vec![
            entry("t1", "a", 1, 2, &["inbox", "unread"]),
            entry("t2", "b", 3, 4, &["archive"]),
            entry("t3", "c", 5, 6, &["inbox"]),
        ],
    };
    let mut p = Pipeline::new();
    let q = query_for_tag(Some(&"inbox".to_string()));
    assert_eq!(q, "tag:inbox");
    let (mut pq, mut chan) = p.start(&handle(), &q).unwrap();
    enamel_core::pipeline::run_worker(&mut chan, &store, &q);
    let (rows, status) = p.drain(&mut pq, &chan);
    assert!(matches!(status, DrainStatus::Done));
    assert_eq!(ids(&rows), vec!["t1".to_string(), "t3".to_string()]);
}

#[test]
fn cleared_tag_selection_builds_the_match_all_query() {
    let q = query_for_tag(None);
    assert_eq!(q, "");
    assert!(matches!(parse_query(&q), QueryPlan::All));
    match parse_query("tag:work") {
        QueryPlan::Tag(t) => assert_eq!(t, "work"),
        _ => panic!("tag query did not parse as a tag search"),
    }
}

#[test]
fn malformed_expression_is_refused_synchronously() {
    let mut p = Pipeline::new();
    assert!(matches!(
        p.start(&handle(), "subject:hello"),
        Err(QueryError::Malformed)
    ));
    // `tag:` with no name is outside the language too.
    assert!(matches!(p.start(&handle(), "tag:"), Err(QueryError::Malformed)));
    // A refused start leaves no pending query and no visible rows.
    assert!(p.results().is_empty());
    // The empty expression, by contrast, is a valid match-all query.
    assert!(p.start(&handle(), "").is_ok());
}

#[test]
fn worker_failure_surfaces_after_the_partial_rows() {
    let mut p = Pipeline::new();
    let (mut pq, mut chan) = p.start(&handle(), "").unwrap();
    assert!(chan.emit(row_of_entry(&entry("t1", "a", 1, 2, &[]))));
    assert!(chan.emit(row_of_entry(&entry("t2", "b", 3, 4, &[]))));
    assert!(chan.emit(row_of_entry(&entry("t3", "c", 5, 6, &[]))));
    chan.fail("index became unreadable".to_string());

    let (rows, status) = p.drain(&mut pq, &chan);
    assert_eq!(rows.len(), 3);
    match status {
        DrainStatus::WorkerFailed(reason) => assert_eq!(reason, "index became unreadable"),
        _ => panic!("drain did not report the worker's failure"),
    }
    // The three rows emitted before the failure are the visible partial
    // result set.
    assert_eq!(
        ids(p.results()),
        vec!["t1".to_string(), "t2".to_string(), "t3".to_string()]
    );
}

#[test]
fn sends_to_a_closed_channel_are_tolerated() {
    let mut chan = Channel::new();
    chan.close();
    assert!(!chan.emit(row_of_entry(&entry("t1", "a", 1, 2, &[]))));
    assert!(matches!(chan.status(), DrainStatus::Done));
}

#[test]
fn run_worker_on_an_empty_store_closes_cleanly() {
    let store = Store { threads: vec![] };
    let mut p = Pipeline::new();
    let (mut pq, mut chan) = p.start(&handle(), "").unwrap();
    enamel_core::pipeline::run_worker(&mut chan, &store, "");
    let (rows, status) = p.drain(&mut pq, &chan);
    assert!(rows.is_empty());
    assert!(matches!(status, DrainStatus::Done));
}
