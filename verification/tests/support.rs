//! Tests for the scrollbar geometry, the timestamp rendering, the timing
//! record, and the event routing.

use std::time::Instant;

use gitt::controller::{key_command, Command, Event, Key};
use gitt::instrument::{record_peak_timing, Timing};
use gitt::model::{AppModel, AppState};
use gitt::record::Record;
use gitt::widgets::{format_time, vertical_bar_geometry};

fn sup_record(id: u64) -> Record {
    Record {
        id,
        short_text: format!("s{}", id),
        long_text: format!("l{}", id),
        author: String::from("someone"),
        time_seconds: 1_600_000_000,
        time_offset_minutes: 120,
        message: format!("record {}\nline a\nline b\nline c", id),
        paths_known: true,
        paths: vec![],
        lines: vec![],
        merge: false,
    }
}

fn sup_model(n: u64) -> AppModel {
    let records: Vec<Record> = (0..n).map(sup_record).collect();
    let mut m = AppModel::new(AppState::Commits, records, Vec::new()).expect("records exist");
    m.resize_revision_window(3);
    m
}

#[test]
fn bar_geometry_exact_values() {
    // height 10 over 100 lines: a 10-line window is one cell tall.
    assert_eq!(vertical_bar_geometry(10, 0, 10, 100), (0, 1));
    assert_eq!(vertical_bar_geometry(10, 90, 10, 100), (9, 1));
    // Half the content shown: half the viewport.
    assert_eq!(vertical_bar_geometry(10, 0, 50, 100), (0, 5));
    // Rounding is half-up: 10 * 25 / 100 = 2.5 rounds to 3.
    assert_eq!(vertical_bar_geometry(10, 0, 25, 100), (0, 3));
}

#[test]
fn bar_geometry_edges() {
    assert_eq!(vertical_bar_geometry(10, 0, 10, 0), (0, 0));
    // The whole content shown fills the whole viewport.
    assert_eq!(vertical_bar_geometry(10, 0, 100, 100), (0, 10));
    // A window larger than the content also fills the viewport.
    assert_eq!(vertical_bar_geometry(10, 0, 150, 100), (0, 10));
}

#[test]
fn bar_geometry_fits_viewport() {
    for total in [1usize, 3, 17, 100] {
        for window in [0usize, 1, 5, 200] {
            let top = total.saturating_sub(window);
            for index in [0usize, top / 2, top] {
                for height in [0u16, 1, 9, 24] {
                    let (offset, size) = vertical_bar_geometry(height, index, window, total);
                    assert!(offset + size <= height);
                }
            }
        }
    }
}

#[test]
fn format_time_renders_offset_and_instant() {
    assert_eq!(
        format_time(0, 0).expect("in range"),
        "1970-01-01T00:00:00+00:00"
    );
    assert_eq!(
        format_time(0, 60).expect("in range"),
        "1970-01-01T01:00:00+01:00"
    );
    assert_eq!(
        format_time(1_600_000_000, -330).expect("in range"),
        "2020-09-13T06:56:40-05:30"
    );
}

#[test]
fn format_time_rejects_out_of_range() {
    assert!(format_time(0, 1440).is_none());
    assert!(format_time(0, -1440).is_none());
    assert!(format_time(9_000_000_000_000, 0).is_none());
    assert!(format_time(0, 1439).is_some());
}

#[test]
fn timing_records_the_peak() {
    let mut t = Timing::new(String::from("draw"));
    assert_eq!(t.duration_nanos, 0);
    assert_eq!(t.index, 0);
    let before = Instant::now();
    std::hint::black_box((0..1000).sum::<u64>());
    t.record_max(before, 42);
    // Either nothing was measured, or the peak carries the given index.
    assert!(t.duration_nanos == 0 || t.index == 42);
    assert_eq!(t.name, "draw");
    let peak = t.duration_nanos;
    t.record_max(Instant::now(), 7);
    assert!(t.duration_nanos >= peak);
}

#[test]
fn timing_describes_itself() {
    let mut t = Timing::new(String::from("draw"));
    t.duration_nanos = 2_500_000;
    t.index = 3;
    assert_eq!(t.describe(), "draw: 2ms (index 3)");
    let zero = Timing::new(String::from("update"));
    assert_eq!(zero.describe(), "update: 0ms (index 0)");
}

#[test]
fn peak_timing_tags_the_model_index() {
    let mut m = sup_model(5);
    m.go_to_last_revision();
    let mut t = Timing::new(String::from("update"));
    let before = Instant::now();
    std::hint::black_box((0..1000).sum::<u64>());
    record_peak_timing(before, &mut t, &m);
    assert!(t.duration_nanos == 0 || t.index == m.revision_index());
}

#[test]
fn quit_finishes_from_any_state() {
    for state in [AppState::Commits, AppState::Details, AppState::Log] {
        let mut m = sup_model(3);
        m.set_app_state(state);
        m.apply_event(&Event::Input(Key::Char('q')));
        assert_eq!(m.state(), AppState::Finished);
    }
}

#[test]
fn toggle_alternates_list_and_detail() {
    let mut m = sup_model(3);
    m.apply_event(&Event::Input(Key::Tab));
    assert_eq!(m.state(), AppState::Details);
    m.apply_event(&Event::Input(Key::Tab));
    assert_eq!(m.state(), AppState::Commits);
}

#[test]
fn log_toggle_enters_and_leaves() {
    let mut m = sup_model(3);
    m.apply_event(&Event::Input(Key::Char('l')));
    assert_eq!(m.state(), AppState::Log);
    // Navigation is dropped in the log overlay.
    m.apply_event(&Event::Input(Key::Down));
    assert_eq!(m.revision_window().0, 0);
    m.apply_event(&Event::Input(Key::Char('l')));
    assert_eq!(m.state(), AppState::Commits);
}

#[test]
fn navigation_routes_by_mode() {
    let mut m = sup_model(5);
    m.resize_diff_window(2);
    m.apply_event(&Event::Input(Key::Down));
    assert_eq!(m.revision_window().0, 1);
    assert_eq!(m.diff_line_scroll().0, 0);
    m.apply_event(&Event::Input(Key::Tab));
    m.apply_event(&Event::Input(Key::Down));
    assert_eq!(m.revision_window().0, 1);
    assert_eq!(m.diff_line_scroll().0, 1);
    m.apply_event(&Event::Input(Key::CtrlChar('f')));
    assert_eq!(m.diff_line_scroll().0, 3);
}

#[test]
fn failure_event_finishes_the_session() {
    let mut m = sup_model(3);
    m.apply_event(&Event::<Key>::Failure);
    assert_eq!(m.state(), AppState::Finished);
}

#[test]
fn ticks_and_unbound_keys_do_nothing() {
    let mut m = sup_model(3);
    let before = (m.revision_index(), m.revision_window(), m.state());
    m.apply_event(&Event::<Key>::Tick);
    m.apply_event(&Event::Input(Key::Char('z')));
    m.apply_event(&Event::Input(Key::Other));
    assert_eq!((m.revision_index(), m.revision_window(), m.state()), before);
}

#[test]
fn key_bindings_map_to_commands() {
    assert_eq!(key_command(Key::Char('g')), Some(Command::First));
    assert_eq!(key_command(Key::Char('G')), Some(Command::Last));
    assert_eq!(key_command(Key::Up), Some(Command::Decrement));
    assert_eq!(key_command(Key::PageUp), Some(Command::PageBack));
    assert_eq!(key_command(Key::CtrlChar('b')), Some(Command::PageBack));
    assert_eq!(key_command(Key::Char('x')), None);
}
