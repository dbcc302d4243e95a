//! Tests for the content of the generated detail lines: roles, trimming,
//! splitting, the heading, and the placeholder for invalid bytes.

use gitt::detail::{DetailLine, LineKind};
use gitt::model::{AppModel, AppState};
use gitt::record::{RawLine, Record};

fn dc_record(message: &str, lines: Vec<RawLine>, merge: bool) -> Record {
    Record {
        id: 1,
        short_text: String::from("abc123"),
        long_text: String::from("abc123def456"),
        author: String::from("someone"),
        time_seconds: 0,
        time_offset_minutes: 0,
        message: String::from(message),
        paths_known: true,
        paths: vec![],
        lines,
        merge,
    }
}

fn dc_diff(message: &str, lines: Vec<RawLine>, merge: bool) -> Vec<DetailLine> {
    let m = AppModel::new(
        AppState::Commits,
        vec![dc_record(message, lines, merge)],
        Vec::new(),
    )
    .expect("one record");
    m.diff()
}

fn raw(origin: char, text: &str) -> RawLine {
    RawLine { origin, content: text.as_bytes().to_vec() }
}

#[test]
fn heading_names_the_record() {
    let lines = dc_diff("msg", vec![], false);
    assert_eq!(lines[0].kind, LineKind::Context);
    assert_eq!(lines[0].text, "abc123 - abc123def456");
}

#[test]
fn message_lines_are_split_and_trimmed() {
    let lines = dc_diff("subject  \n\nbody line\n", vec![], false);
    let texts: Vec<&str> = lines[1..].iter().map(|l| l.text.as_str()).collect();
    assert_eq!(texts, vec!["subject", "", "body line", ""]);
    assert!(lines[1..].iter().all(|l| l.kind == LineKind::Context));
}

#[test]
fn raw_lines_get_roles_and_gutters() {
    let lines = dc_diff(
        "m",
        vec![
            raw('H', "@@ -1 +1 @@\n"),
            raw(' ', "context\n"),
            raw('+', "added\n"),
            raw('-', "removed\n"),
            raw('B', "binary blob\n"),
        ],
        false,
    );
    // Heading and one message line come first.
    let raws = &lines[2..];
    assert_eq!(raws[0].kind, LineKind::Header);
    assert_eq!(raws[0].text, " @@ -1 +1 @@");
    assert_eq!(raws[1].kind, LineKind::Context);
    assert_eq!(raws[1].text, " context");
    assert_eq!(raws[2].kind, LineKind::Added);
    assert_eq!(raws[2].text, "+added");
    assert_eq!(raws[3].kind, LineKind::Removed);
    assert_eq!(raws[3].text, "-removed");
    assert_eq!(raws[4].kind, LineKind::BinaryNote);
    assert_eq!(raws[4].text, " binary blob");
}

#[test]
fn file_heading_spans_its_lines() {
    let lines = dc_diff("m", vec![raw('F', "diff --git a/x b/x\nindex 12..34\n")], false);
    let raws = &lines[2..];
    assert_eq!(raws.len(), 3);
    assert!(raws.iter().all(|l| l.kind == LineKind::FileHeader));
    assert_eq!(raws[0].text, "diff --git a/x b/x");
    assert_eq!(raws[1].text, "index 12..34");
    assert_eq!(raws[2].text, "");
}

#[test]
fn invalid_bytes_become_a_placeholder_line() {
    let bad = RawLine { origin: '+', content: vec![0x66, 0xff, 0xfe, 0x67] };
    let lines = dc_diff("m", vec![bad], false);
    let last = lines.last().expect("lines exist");
    assert_eq!(last.kind, LineKind::Added);
    assert_eq!(last.text, "+(invalid line)");
}

#[test]
fn merge_records_show_no_raw_lines() {
    let lines = dc_diff("m", vec![raw('+', "added\n")], true);
    assert_eq!(lines.len(), 2);
}

#[test]
fn title_is_the_first_message_line() {
    let rec = dc_record("first line\nsecond line", vec![], false);
    assert_eq!(rec.title(), "first line");
    let plain = dc_record("only line", vec![], false);
    assert_eq!(plain.title(), "only line");
}
