//! Tests for filter evaluation, the position cache, and traversal failure.

use gitt::errors::ConstructionError;
use gitt::filter::CommitFilter;
use gitt::model::{AppModel, AppState};
use gitt::record::Record;
use gitt::stream::CommitView;

fn flt_record(id: u64, message: &str, paths: Vec<Vec<&str>>) -> Record {
    Record {
        id,
        short_text: format!("s{}", id),
        long_text: format!("l{}", id),
        author: String::from("someone"),
        time_seconds: 0,
        time_offset_minutes: 0,
        message: String::from(message),
        paths_known: true,
        paths: paths
            .into_iter()
            .map(|p| p.into_iter().map(String::from).collect())
            .collect(),
        lines: vec![],
        merge: false,
    }
}

#[test]
fn filter_apply_path_prefix_is_componentwise() {
    let rec = flt_record(1, "m", vec![vec!["src", "model.rs"], vec!["docs", "notes"]]);
    let hit = CommitFilter::Path(vec![String::from("src")]);
    let miss = CommitFilter::Path(vec![String::from("sr")]);
    assert_eq!(hit.apply(&rec).unwrap(), true);
    // "sr" is not a component prefix of "src/model.rs".
    assert_eq!(miss.apply(&rec).unwrap(), false);
}

#[test]
fn filter_apply_ids_and_text() {
    let rec = flt_record(7, "fix the solver", vec![]);
    assert_eq!(CommitFilter::Ids(vec![3, 7]).apply(&rec).unwrap(), true);
    assert_eq!(CommitFilter::Ids(vec![3, 8]).apply(&rec).unwrap(), false);
    assert_eq!(CommitFilter::Text(String::from("the sol")).apply(&rec).unwrap(), true);
    assert_eq!(CommitFilter::Text(String::from("thesol")).apply(&rec).unwrap(), false);
    assert_eq!(CommitFilter::Text(String::from("")).apply(&rec).unwrap(), true);
}

#[test]
fn filter_apply_unknown_paths_fails() {
    let mut rec = flt_record(9, "m", vec![]);
    rec.paths_known = false;
    let e = CommitFilter::Path(vec![String::from("src")]).apply(&rec).unwrap_err();
    assert_eq!(e.id, 9);
}

#[test]
fn empty_filter_set_matches_everything() {
    let records = vec![flt_record(1, "a", vec![]), flt_record(2, "b", vec![])];
    let mut view = CommitView::new(records, Vec::new());
    assert_eq!(view.total().unwrap(), 2);
}

#[test]
fn membership_is_any_filter() {
    let records = vec![
        flt_record(1, "alpha", vec![]),
        flt_record(2, "beta", vec![]),
        flt_record(3, "gamma", vec![]),
    ];
    let filters = vec![
        CommitFilter::Text(String::from("alp")),
        CommitFilter::Ids(vec![3]),
    ];
    let mut view = CommitView::new(records, filters);
    assert_eq!(view.total().unwrap(), 2);
    assert_eq!(view.get(0).unwrap().unwrap().id, 1);
    assert_eq!(view.get(1).unwrap().unwrap().id, 3);
    assert!(view.get(2).unwrap().is_none());
}

#[test]
fn position_queries_are_stable() {
    let records = vec![
        flt_record(1, "alpha", vec![]),
        flt_record(2, "beta", vec![]),
        flt_record(3, "alphabet", vec![]),
    ];
    let filters = vec![CommitFilter::Text(String::from("alpha"))];
    let mut view = CommitView::new(records, filters);
    let first = view.get(1).unwrap().unwrap().id;
    let second = view.get(1).unwrap().unwrap().id;
    assert_eq!(first, 3);
    assert_eq!(first, second);
}

#[test]
fn count_available_never_overcounts() {
    let records = (0..10).map(|i| flt_record(i, "m", vec![])).collect();
    let mut view = CommitView::new(records, Vec::new());
    assert_eq!(view.count_available_from(0, 3).unwrap(), 3);
    assert_eq!(view.count_available_from(8, 5).unwrap(), 2);
    assert_eq!(view.count_available_from(12, 5).unwrap(), 0);
}

#[test]
fn count_stops_before_unreachable_rows() {
    // The third record cannot be evaluated, but a bounded count that is
    // satisfied before it never looks at it.
    let mut bad = flt_record(3, "m", vec![vec!["src"]]);
    bad.paths_known = false;
    let records = vec![
        flt_record(1, "m", vec![vec!["src"]]),
        flt_record(2, "m", vec![vec!["src"]]),
        bad,
    ];
    let filters = vec![CommitFilter::Path(vec![String::from("src")])];
    let mut view = CommitView::new(records, filters);
    assert_eq!(view.count_available_from(0, 2).unwrap(), 2);
    let e = view.count_available_from(0, 3).unwrap_err();
    assert_eq!(e.id, 3);
}

#[test]
fn construction_fails_when_filters_match_nothing() {
    let records = vec![flt_record(1, "alpha", vec![]), flt_record(2, "beta", vec![])];
    let filters = vec![CommitFilter::Text(String::from("nowhere"))];
    let r = AppModel::new(AppState::Commits, records, filters);
    assert!(matches!(r, Err(ConstructionError::NoRecords)));
}

#[test]
fn construction_reports_traversal_failure() {
    let mut bad = flt_record(5, "m", vec![]);
    bad.paths_known = false;
    let records = vec![bad, flt_record(6, "m", vec![vec!["src"]])];
    let filters = vec![CommitFilter::Path(vec![String::from("src")])];
    match AppModel::new(AppState::Commits, records, filters) {
        Err(ConstructionError::Traversal(e)) => assert_eq!(e.id, 5),
        other => panic!("expected a traversal failure, got {:?}", other.is_ok()),
    }
}

#[test]
fn traversal_failure_mid_session_finishes() {
    // The first two records are reachable; walking past them hits a record
    // the path filter cannot be evaluated on, and the session ends.
    let mut bad = flt_record(3, "m", vec![]);
    bad.paths_known = false;
    let records = vec![
        flt_record(1, "m", vec![vec!["src"]]),
        flt_record(2, "m", vec![vec!["src"]]),
        bad,
    ];
    let filters = vec![CommitFilter::Path(vec![String::from("src")])];
    let mut m = AppModel::new(AppState::Commits, records, filters).expect("first record reachable");
    m.resize_revision_window(2);
    m.increment_revision();
    assert_eq!(m.state(), AppState::Commits);
    // The next step must look beyond the window and hits the bad record.
    m.increment_revision();
    assert_eq!(m.state(), AppState::Finished);
    assert_eq!(m.failure().as_ref().expect("failure recorded").id, 3);
}
