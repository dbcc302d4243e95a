//! Scenario tests for the detail window: scrolling, paging, resizing, and
//! the scrollbar geometry exposed to the renderer.

use gitt::model::{AppModel, AppState};
use gitt::record::{RawLine, Record};

/// A record whose detail has exactly `total` lines: one heading, one
/// message line, and `total - 2` raw content lines.
fn dw_record(total: usize) -> Record {
    assert!(total >= 2);
    let lines = (0..total - 2)
        .map(|i| RawLine { origin: ' ', content: format!("line {}", i).into_bytes() })
        .collect();
    Record {
        id: 1,
        short_text: String::from("s1"),
        long_text: String::from("l1"),
        author: String::from("someone"),
        time_seconds: 0,
        time_offset_minutes: 0,
        message: String::from("title"),
        paths_known: true,
        paths: vec![],
        lines,
        merge: false,
    }
}

fn dw_model(total_lines: usize) -> AppModel {
    let mut m = AppModel::new(AppState::Commits, vec![dw_record(total_lines)], Vec::new())
        .expect("one record");
    assert_eq!(m.diff_line_scroll().2, total_lines);
    m.resize_revision_window(1);
    m
}

#[test]
fn hundred_lines_viewport_ten_last_is_ninety() {
    let mut m = dw_model(100);
    m.resize_diff_window(10);
    m.go_to_last_diff_line();
    let (index, window, total) = m.diff_line_scroll();
    assert_eq!(index, 90);
    assert_eq!(window, 10);
    assert_eq!(total, 100);
}

#[test]
fn resize_from_ten_to_fifty_clamps_to_fifty() {
    let mut m = dw_model(100);
    m.resize_diff_window(10);
    m.go_to_last_diff_line();
    assert_eq!(m.diff_line_scroll().0, 90);
    m.resize_diff_window(50);
    let (index, window, total) = m.diff_line_scroll();
    assert_eq!(index, 50);
    assert_eq!(window, 50);
    assert_eq!(total, 100);
}

#[test]
fn resize_keeps_window_inside_content() {
    let mut m = dw_model(30);
    m.resize_diff_window(10);
    m.go_to_last_diff_line();
    for n in [1usize, 7, 15, 30] {
        m.resize_diff_window(n);
        let (index, window, total) = m.diff_line_scroll();
        assert!(index + window <= total);
    }
}

#[test]
fn diff_increment_clamps_at_bottom() {
    let mut m = dw_model(5);
    m.resize_diff_window(3);
    m.increment_diff_line();
    m.increment_diff_line();
    assert_eq!(m.diff_line_scroll().0, 2);
    m.increment_diff_line();
    assert_eq!(m.diff_line_scroll().0, 2);
}

#[test]
fn diff_decrement_clamps_at_top() {
    let mut m = dw_model(5);
    m.resize_diff_window(3);
    m.decrement_diff_line();
    assert_eq!(m.diff_line_scroll().0, 0);
}

#[test]
fn diff_first_and_last_lines() {
    let mut m = dw_model(8);
    m.resize_diff_window(3);
    m.go_to_last_diff_line();
    assert_eq!(m.diff_line_scroll().0, 5);
    m.go_to_first_diff_line();
    assert_eq!(m.diff_line_scroll().0, 0);
}

#[test]
fn page_forward_moves_one_viewport() {
    let mut m = dw_model(100);
    m.resize_diff_window(10);
    m.page_forward_diff_lines();
    assert_eq!(m.diff_line_scroll().0, 10);
    m.page_forward_diff_lines();
    assert_eq!(m.diff_line_scroll().0, 20);
}

#[test]
fn page_forward_clamps_like_repeated_increment() {
    let mut m = dw_model(25);
    m.resize_diff_window(10);
    m.page_forward_diff_lines();
    assert_eq!(m.diff_line_scroll().0, 10);
    m.page_forward_diff_lines();
    assert_eq!(m.diff_line_scroll().0, 15);
    m.page_forward_diff_lines();
    assert_eq!(m.diff_line_scroll().0, 15);
}

#[test]
fn page_back_moves_one_viewport() {
    let mut m = dw_model(100);
    m.resize_diff_window(10);
    m.go_to_last_diff_line();
    m.page_back_diff_lines();
    assert_eq!(m.diff_line_scroll().0, 80);
    m.page_back_diff_lines();
    assert_eq!(m.diff_line_scroll().0, 70);
}

#[test]
fn viewport_larger_than_content_stays_at_top() {
    let mut m = dw_model(5);
    m.resize_diff_window(10);
    let (index, window, total) = m.diff_line_scroll();
    assert_eq!(index, 0);
    assert_eq!(window, 10);
    assert_eq!(total, 5);
    m.go_to_last_diff_line();
    assert_eq!(m.diff_line_scroll().0, 0);
}

#[test]
fn scrollbar_never_overruns_viewport() {
    let mut m = dw_model(100);
    m.resize_diff_window(10);
    m.go_to_last_diff_line();
    for height in [0u16, 1, 7, 10, 100] {
        let (offset, size) = m.diff_scrollbar(height);
        assert!(offset + size <= height);
    }
}

#[test]
fn scrollbar_geometry_is_proportional() {
    let mut m = dw_model(100);
    m.resize_diff_window(10);
    m.go_to_last_diff_line();
    // index 90, window 10, total 100, viewport 10 cells:
    // offset = floor(10 * 90 / 100) = 9, size = round(10 * 10 / 100) = 1.
    assert_eq!(m.diff_scrollbar(10), (9, 1));
    m.go_to_first_diff_line();
    assert_eq!(m.diff_scrollbar(10), (0, 1));
}

#[test]
fn selecting_another_record_resets_detail_scroll() {
    let records = vec![dw_record(50), dw_record(40)];
    let mut m = AppModel::new(AppState::Commits, records, Vec::new()).expect("records exist");
    m.resize_revision_window(2);
    m.resize_diff_window(10);
    m.go_to_last_diff_line();
    assert_eq!(m.diff_line_scroll().0, 40);
    m.increment_revision();
    let (index, window, total) = m.diff_line_scroll();
    assert_eq!(index, 0);
    assert_eq!(window, 10);
    assert_eq!(total, 40);
}
