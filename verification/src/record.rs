//! The record data the engine works on.
//!
//! A record is one immutable unit of history (for example a commit): an
//! identity, presentation text, the paths it touches, and the raw lines of
//! its detail content.  The engine never computes this data itself; the
//! caller obtains it from whatever source owns the history and hands it over
//! as plain values.

use vstd::prelude::*;
use vstd::string::*;

use crate::text::split_lines;

verus! {

/// One raw line of a record's detail content as the source produced it: an
/// origin tag (such as a hunk header or an added line) and the line's bytes.
pub struct RawLine {
    pub origin: char,
    pub content: Vec<u8>,
}

pub ghost struct RawLineView {
    pub origin: char,
    pub content: Seq<u8>,
}

impl View for RawLine {
    type V = RawLineView;

    open spec fn view(&self) -> RawLineView {
        RawLineView { origin: self.origin, content: self.content@ }
    }
}

impl DeepView for RawLine {
    type V = RawLineView;

    open spec fn deep_view(&self) -> RawLineView {
        self.view()
    }
}

impl Clone for RawLine {
    fn clone(&self) -> (res: Self)
        ensures
            res@ == self@,
    {
        let content = clone_bytes(&self.content);
        RawLine { origin: self.origin, content }
    }
}

/// One record of the history stream, with everything the engine's filters
/// and detail display read from it, as plain values.
pub struct Record {
    /// Identity of the record within its history.
    pub id: u64,
    /// Abbreviated form of the identity, as the source renders it.
    pub short_text: String,
    /// Full textual form of the identity.
    pub long_text: String,
    /// The author line, already rendered by the source.
    pub author: String,
    /// Timestamp in seconds since the epoch.
    pub time_seconds: i64,
    /// Timezone offset of the timestamp, in minutes east.
    pub time_offset_minutes: i32,
    /// The record's message.
    pub message: String,
    /// Whether the set of touched paths could be computed for this record.
    /// When false, evaluating a path filter against the record fails.
    pub paths_known: bool,
    /// The paths touched by the record, each a list of components.
    pub paths: Vec<Vec<String>>,
    /// The raw lines of the record's detail content.
    pub lines: Vec<RawLine>,
    /// Whether the record has more than one parent; no raw detail lines are
    /// shown for such a record.
    pub merge: bool,
}

pub ghost struct RecordView {
    pub id: u64,
    pub short_text: Seq<char>,
    pub long_text: Seq<char>,
    pub author: Seq<char>,
    pub time_seconds: i64,
    pub time_offset_minutes: i32,
    pub message: Seq<char>,
    pub paths_known: bool,
    pub paths: Seq<Seq<Seq<char>>>,
    pub lines: Seq<RawLineView>,
    pub merge: bool,
}

impl View for Record {
    type V = RecordView;

    open spec fn view(&self) -> RecordView {
        RecordView {
            id: self.id,
            short_text: self.short_text@,
            long_text: self.long_text@,
            author: self.author@,
            time_seconds: self.time_seconds,
            time_offset_minutes: self.time_offset_minutes,
            message: self.message@,
            paths_known: self.paths_known,
            paths: self.paths.deep_view(),
            lines: self.lines.deep_view(),
            merge: self.merge,
        }
    }
}

impl DeepView for Record {
    type V = RecordView;

    open spec fn deep_view(&self) -> RecordView {
        self.view()
    }
}

fn clone_bytes(v: &Vec<u8>) -> (r: Vec<u8>)
    ensures
        r@ == v@,
{
    let mut r: Vec<u8> = Vec::new();
    let mut i: usize = 0;
    while i < v.len()
        invariant
            i <= v@.len(),
            r@ == v@.take(i as int),
        decreases v@.len() - i,
    {
        r.push(v[i]);
        proof {
            assert(r@ =~= v@.take(i + 1));
        }
        i = i + 1;
    }
    proof {
        assert(v@.take(v@.len() as int) =~= v@);
    }
    r
}

fn clone_components(v: &Vec<String>) -> (r: Vec<String>)
    ensures
        r.deep_view() == v.deep_view(),
{
    let mut r: Vec<String> = Vec::new();
    let mut i: usize = 0;
    while i < v.len()
        invariant
            i <= v@.len(),
            r.deep_view() =~~= v.deep_view().take(i as int),
        decreases v@.len() - i,
    {
        let c = v[i].clone();
        let ghost prev = r.deep_view();
        let ghost prev_raw = r@;
        r.push(c);
        proof {
            assert(prev.len() == i as int);
            assert(r@.len() == i + 1);
            assert(r.deep_view().len() == i + 1);
            assert(c@ == v@[i as int]@);
            assert forall|j: int| 0 <= j < i + 1 implies r.deep_view()[j] == v.deep_view().take(
                i + 1,
            )[j] by {
                assert(r.deep_view()[j] == r@[j].deep_view());
                assert(v.deep_view().take(i + 1)[j] == v@[j].deep_view());
                if j < i {
                    assert(r@[j] == prev_raw[j]);
                    assert(prev[j] == prev_raw[j].deep_view());
                    assert(prev[j] == v.deep_view().take(i as int)[j]);
                }
            }
            assert(r.deep_view() =~~= v.deep_view().take(i + 1));
        }
        i = i + 1;
    }
    proof {
        assert(v.deep_view().take(v@.len() as int) =~~= v.deep_view());
    }
    r
}

fn clone_paths(v: &Vec<Vec<String>>) -> (r: Vec<Vec<String>>)
    ensures
        r.deep_view() == v.deep_view(),
{
    let mut r: Vec<Vec<String>> = Vec::new();
    let mut i: usize = 0;
    while i < v.len()
        invariant
            i <= v@.len(),
            r.deep_view() =~~= v.deep_view().take(i as int),
        decreases v@.len() - i,
    {
        let c = clone_components(&v[i]);
        let ghost prev = r.deep_view();
        let ghost prev_raw = r@;
        r.push(c);
        proof {
            assert(prev.len() == i as int);
            assert(r.deep_view().len() == i + 1);
            assert(c.deep_view() == v@[i as int].deep_view());
            assert forall|j: int| 0 <= j < i + 1 implies r.deep_view()[j] == v.deep_view().take(
                i + 1,
            )[j] by {
                assert(r.deep_view()[j] == r@[j].deep_view());
                assert(v.deep_view().take(i + 1)[j] == v@[j].deep_view());
                if j < i {
                    assert(r@[j] == prev_raw[j]);
                    assert(prev[j] == prev_raw[j].deep_view());
                    assert(prev[j] == v.deep_view().take(i as int)[j]);
                }
            }
            assert(r.deep_view() =~~= v.deep_view().take(i + 1));
        }
        i = i + 1;
    }
    proof {
        assert(v.deep_view().take(v@.len() as int) =~~= v.deep_view());
    }
    r
}

fn clone_raw_lines(v: &Vec<RawLine>) -> (r: Vec<RawLine>)
    ensures
        r.deep_view() == v.deep_view(),
{
    let mut r: Vec<RawLine> = Vec::new();
    let mut i: usize = 0;
    while i < v.len()
        invariant
            i <= v@.len(),
            r.deep_view() =~~= v.deep_view().take(i as int),
        decreases v@.len() - i,
    {
        let c = v[i].clone();
        let ghost prev = r.deep_view();
        let ghost prev_raw = r@;
        r.push(c);
        proof {
            assert(prev.len() == i as int);
            assert(r.deep_view().len() == i + 1);
            assert(c.deep_view() == v@[i as int].deep_view());
            assert forall|j: int| 0 <= j < i + 1 implies r.deep_view()[j] == v.deep_view().take(
                i + 1,
            )[j] by {
                assert(r.deep_view()[j] == r@[j].deep_view());
                assert(v.deep_view().take(i + 1)[j] == v@[j].deep_view());
                if j < i {
                    assert(r@[j] == prev_raw[j]);
                    assert(prev[j] == prev_raw[j].deep_view());
                    assert(prev[j] == v.deep_view().take(i as int)[j]);
                }
            }
            assert(r.deep_view() =~~= v.deep_view().take(i + 1));
        }
        i = i + 1;
    }
    proof {
        assert(v.deep_view().take(v@.len() as int) =~~= v.deep_view());
    }
    r
}

impl Clone for Record {
    fn clone(&self) -> (res: Self)
        ensures
            res@ == self@,
    {
        Record {
            id: self.id,
            short_text: self.short_text.clone(),
            long_text: self.long_text.clone(),
            author: self.author.clone(),
            time_seconds: self.time_seconds,
            time_offset_minutes: self.time_offset_minutes,
            message: self.message.clone(),
            paths_known: self.paths_known,
            paths: clone_paths(&self.paths),
            lines: clone_raw_lines(&self.lines),
            merge: self.merge,
        }
    }
}

impl Record {
    /// The first line of the record's message, used as its one-line title.
    pub fn title(&self) -> (r: String)
        ensures
            r@ == split_lines(self@.message)[0],
    {
        let msg = self.message.as_str();
        let len = msg.unicode_len();
        let mut i: usize = 0;
        while i < len && msg.get_char(i) != '\n'
            invariant
                i <= len,
                len == msg@.len(),
                forall|j: int| 0 <= j < i ==> msg@[j] != '\n',
            decreases len - i,
        {
            i = i + 1;
        }
        proof {
            if i < len {
                crate::text::lemma_split_lines_at(msg@, i as int);
            } else {
                crate::text::lemma_split_lines_whole(msg@);
                assert(msg@.take(i as int) =~= msg@);
            }
        }
        let r = msg.substring_char(0, i);
        proof {
            assert(r@ =~= msg@.take(i as int));
        }
        r.to_owned()
    }
}

} // verus!
