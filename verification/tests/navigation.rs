//! Scenario tests for the revision window: windowing, selection, and the
//! relations between first, last, increment, and decrement.

use gitt::model::{AppModel, AppState};
use gitt::record::Record;

fn nav_record(id: u64) -> Record {
    Record {
        id,
        short_text: format!("s{}", id),
        long_text: format!("l{}", id),
        author: String::from("someone"),
        time_seconds: 0,
        time_offset_minutes: 0,
        message: format!("record {}\n\nbody\n", id),
        paths_known: true,
        paths: vec![vec![String::from("src"), String::from("lib.rs")]],
        lines: vec![],
        merge: false,
    }
}

fn nav_model(n: u64) -> AppModel {
    let records: Vec<Record> = (0..n).map(nav_record).collect();
    AppModel::new(AppState::Commits, records, Vec::new()).expect("records exist")
}

#[test]
fn five_records_window_three_first_covers_top() {
    let mut m = nav_model(5);
    m.resize_revision_window(3);
    m.go_to_first_revision();
    let shown = m.commits();
    assert_eq!(shown.len(), 3);
    assert_eq!(shown[0].id, 0);
    assert_eq!(shown[1].id, 1);
    assert_eq!(shown[2].id, 2);
    assert_eq!(m.revision_index(), 0);
    assert_eq!(m.revision_window().0, 0);
}

#[test]
fn five_records_window_three_last_selects_fifth() {
    let mut m = nav_model(5);
    m.resize_revision_window(3);
    m.go_to_last_revision();
    assert_eq!(m.revision_index(), 2);
    let (selected, window) = m.revision_window();
    assert_eq!(selected, 2);
    assert_eq!(window, 3);
    // Selected position is 2 + 2 = 4: the last record.
    assert_eq!(m.commit().expect("selection exists").id, 4);
}

#[test]
fn increments_from_first_reach_last() {
    let mut a = nav_model(5);
    a.resize_revision_window(3);
    a.go_to_first_revision();
    for _ in 0..4 {
        a.increment_revision();
    }
    let mut b = nav_model(5);
    b.resize_revision_window(3);
    b.go_to_last_revision();
    assert_eq!(a.revision_index(), b.revision_index());
    assert_eq!(a.revision_window(), b.revision_window());
    assert_eq!(a.diff_line_scroll(), b.diff_line_scroll());
}

#[test]
fn decrements_from_last_reach_first() {
    let mut a = nav_model(5);
    a.resize_revision_window(3);
    a.go_to_last_revision();
    for _ in 0..4 {
        a.decrement_revision();
    }
    let mut b = nav_model(5);
    b.resize_revision_window(3);
    b.go_to_first_revision();
    assert_eq!(a.revision_index(), b.revision_index());
    assert_eq!(a.revision_window(), b.revision_window());
    assert_eq!(a.diff_line_scroll(), b.diff_line_scroll());
}

#[test]
fn first_is_idempotent_fixed_point() {
    let mut m = nav_model(5);
    m.resize_revision_window(3);
    m.go_to_last_revision();
    m.increment_revision();
    m.go_to_first_revision();
    assert_eq!(m.revision_index(), 0);
    assert_eq!(m.revision_window().0, 0);
    let once = (m.revision_index(), m.revision_window(), m.diff_line_scroll());
    m.go_to_first_revision();
    let twice = (m.revision_index(), m.revision_window(), m.diff_line_scroll());
    assert_eq!(once, twice);
}

#[test]
fn resize_shrinks_to_available() {
    let mut m = nav_model(2);
    m.resize_revision_window(10);
    let (selected, window) = m.revision_window();
    assert_eq!(window, 2);
    assert!(selected < window);
}

#[test]
fn resize_clamps_selection() {
    let mut m = nav_model(5);
    m.resize_revision_window(4);
    m.go_to_last_revision();
    assert_eq!(m.revision_window().0, 3);
    m.resize_revision_window(2);
    let (selected, window) = m.revision_window();
    assert_eq!(window, 2);
    assert_eq!(selected, 1);
}

#[test]
fn increment_at_end_stays() {
    let mut m = nav_model(3);
    m.resize_revision_window(3);
    m.go_to_last_revision();
    let before = (m.revision_index(), m.revision_window());
    m.increment_revision();
    assert_eq!((m.revision_index(), m.revision_window()), before);
    assert_eq!(m.state(), AppState::Commits);
}

#[test]
fn decrement_at_top_stays() {
    let mut m = nav_model(3);
    m.resize_revision_window(3);
    m.go_to_first_revision();
    m.decrement_revision();
    assert_eq!(m.revision_index(), 0);
    assert_eq!(m.revision_window().0, 0);
}

#[test]
fn increment_slides_window_when_pinned() {
    let mut m = nav_model(5);
    m.resize_revision_window(2);
    m.go_to_first_revision();
    m.increment_revision();
    // Selection moved inside the window.
    assert_eq!(m.revision_index(), 0);
    assert_eq!(m.revision_window().0, 1);
    m.increment_revision();
    // Selection pinned at the last row; the window slid down.
    assert_eq!(m.revision_index(), 1);
    assert_eq!(m.revision_window().0, 1);
    assert_eq!(m.commit().expect("selection exists").id, 2);
}

#[test]
fn zero_window_navigation_is_noop() {
    let mut m = nav_model(3);
    m.resize_revision_window(0);
    assert_eq!(m.revision_window(), (0, 0));
    m.increment_revision();
    m.decrement_revision();
    assert_eq!(m.revision_index(), 0);
    assert_eq!(m.revision_window(), (0, 0));
    assert!(m.commit().is_none());
    assert!(m.commits().is_empty());
}

#[test]
fn set_revision_resets_everything() {
    let mut m = nav_model(5);
    m.resize_revision_window(3);
    m.go_to_last_revision();
    let fresh: Vec<Record> = (10..14).map(nav_record).collect();
    m.set_revision(fresh).expect("records exist");
    assert_eq!(m.revision_index(), 0);
    let (selected, window) = m.revision_window();
    assert_eq!(selected, 0);
    assert_eq!(window, 1);
    assert_eq!(m.commit().expect("selection exists").id, 10);
}

#[test]
fn construction_fails_without_records() {
    let r = AppModel::new(AppState::Commits, Vec::new(), Vec::new());
    assert!(r.is_err());
}
