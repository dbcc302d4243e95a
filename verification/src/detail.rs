//! Building the displayable detail lines of a record.
//!
//! The detail of a record is a heading naming the record, the lines of its
//! message, and — for a record with at most one parent — the display of its
//! raw content lines.  Raw bytes that are not valid text never abort the
//! session: the offending line is shown as a placeholder instead.

use vstd::prelude::*;
use vstd::string::*;
use vstd::utf8::{decode_utf8, valid_utf8};

use crate::record::{RawLine, RawLineView, Record, RecordView};
use crate::text::{
    bytes_as_text, placeholder_line, placeholder_line_text, split_lines, split_text_lines,
    trim_line_end, trimmed_end,
};

verus! {

/// Presentation role of one detail line.  The engine assigns roles but never
/// interprets them; they exist for the renderer.
#[derive(Clone, Copy, PartialEq, Eq, Structural, Debug)]
pub enum LineKind {
    /// A hunk header within the content.
    Header,
    /// A line introducing a file's part of the content.
    FileHeader,
    /// An unchanged context line.
    Context,
    /// An added line.
    Added,
    /// A removed line.
    Removed,
    /// A note standing in for binary content.
    BinaryNote,
}

/// One displayable line of a record's detail.
pub struct DetailLine {
    pub kind: LineKind,
    pub text: String,
}

pub ghost struct DetailLineView {
    pub kind: LineKind,
    pub text: Seq<char>,
}

impl View for DetailLine {
    type V = DetailLineView;

    open spec fn view(&self) -> DetailLineView {
        DetailLineView { kind: self.kind, text: self.text@ }
    }
}

impl DeepView for DetailLine {
    type V = DetailLineView;

    open spec fn deep_view(&self) -> DetailLineView {
        self.view()
    }
}

impl Clone for DetailLine {
    fn clone(&self) -> (res: Self)
        ensures
            res@ == self@,
    {
        DetailLine { kind: self.kind, text: self.text.clone() }
    }
}

/// The role a raw line's origin tag maps to.
pub open spec fn kind_of_origin(origin: char) -> LineKind {
    if origin == 'F' {
        LineKind::FileHeader
    } else if origin == 'H' {
        LineKind::Header
    } else if origin == '+' {
        LineKind::Added
    } else if origin == '-' {
        LineKind::Removed
    } else if origin == 'B' {
        LineKind::BinaryNote
    } else {
        LineKind::Context
    }
}

/// The one-character gutter shown before a raw line's text: the origin tag
/// for added and removed lines, a space otherwise.
pub open spec fn origin_pad(origin: char) -> Seq<char> {
    if origin == '+' || origin == '-' {
        seq![origin]
    } else {
        seq![' ']
    }
}

/// The display lines produced from one raw line.  A file-introducing line
/// may span several display lines; every other raw line yields exactly one,
/// prefixed by its gutter.  Bytes that are not valid text yield the
/// placeholder line.
pub open spec fn raw_line_display(l: RawLineView) -> Seq<DetailLineView> {
    if l.origin == 'F' {
        if valid_utf8(l.content) {
            split_lines(decode_utf8(l.content)).map_values(
                |t: Seq<char>|
                    DetailLineView { kind: LineKind::FileHeader, text: trimmed_end(t) },
            )
        } else {
            seq![DetailLineView { kind: LineKind::FileHeader, text: placeholder_line_text() }]
        }
    } else {
        let body = if valid_utf8(l.content) {
            trimmed_end(decode_utf8(l.content))
        } else {
            placeholder_line_text()
        };
        seq![DetailLineView { kind: kind_of_origin(l.origin), text: origin_pad(l.origin) + body }]
    }
}

/// The display lines of a sequence of raw lines, in order.
pub open spec fn raw_lines_display(ls: Seq<RawLineView>) -> Seq<DetailLineView>
    decreases ls.len(),
{
    if ls.len() == 0 {
        Seq::empty()
    } else {
        raw_line_display(ls[0]) + raw_lines_display(ls.drop_first())
    }
}

/// The heading line naming the record: its abbreviated identity, a dash,
/// and its full identity.
pub open spec fn record_head_line(r: RecordView) -> DetailLineView {
    DetailLineView { kind: LineKind::Context, text: r.short_text + " - "@ + r.long_text }
}

/// The display lines of a record's message, one per message line, each with
/// its end trimmed.
pub open spec fn message_display(m: Seq<char>) -> Seq<DetailLineView> {
    split_lines(m).map_values(
        |t: Seq<char>| DetailLineView { kind: LineKind::Context, text: trimmed_end(t) },
    )
}

/// All display lines of a record's detail.
pub open spec fn record_detail(r: RecordView) -> Seq<DetailLineView> {
    seq![record_head_line(r)] + message_display(r.message) + if r.merge {
        Seq::empty()
    } else {
        raw_lines_display(r.lines)
    }
}

proof fn lemma_raw_lines_display_take(ls: Seq<RawLineView>, i: int)
    requires
        0 <= i < ls.len(),
    ensures
        raw_lines_display(ls.take(i + 1)) == raw_lines_display(ls.take(i)) + raw_line_display(
            ls[i],
        ),
    decreases i,
{
    if i == 0 {
        assert(ls.take(1).drop_first() =~= Seq::<RawLineView>::empty());
        assert(ls.take(0) =~= Seq::<RawLineView>::empty());
        assert(ls.take(1)[0] == ls[0]);
        assert(raw_lines_display(ls.take(1)) =~= raw_line_display(ls[0]));
        assert(raw_lines_display(ls.take(0)) + raw_line_display(ls[0]) =~= raw_line_display(
            ls[0],
        ));
    } else {
        let t1 = ls.take(i + 1);
        let t0 = ls.take(i);
        assert(t1.drop_first() =~= ls.drop_first().take(i));
        assert(t0.drop_first() =~= ls.drop_first().take(i - 1));
        lemma_raw_lines_display_take(ls.drop_first(), i - 1);
        assert(ls.drop_first()[i - 1] == ls[i]);
        assert(t1[0] == ls[0] && t0[0] == ls[0]);
        assert(raw_lines_display(t1) == raw_line_display(ls[0]) + raw_lines_display(
            ls.drop_first().take(i),
        ));
        assert(raw_lines_display(t0) == raw_line_display(ls[0]) + raw_lines_display(
            ls.drop_first().take(i - 1),
        ));
        assert(raw_lines_display(ls.take(i + 1)) =~= raw_lines_display(ls.take(i))
            + raw_line_display(ls[i]));
    }
}

/// Appends one display line per part, with the part's end trimmed.
fn push_trimmed_lines(out: &mut Vec<DetailLine>, parts: &Vec<String>, kind: LineKind)
    ensures
        final(out).deep_view() == old(out).deep_view() + parts.deep_view().map_values(
            |t: Seq<char>| (DetailLineView { kind, text: trimmed_end(t) }),
        ),
{
    let ghost mapped = parts.deep_view().map_values(
        |t: Seq<char>| (DetailLineView { kind, text: trimmed_end(t) }),
    );
    let mut i: usize = 0;
    proof {
        assert(out.deep_view() =~~= old(out).deep_view() + mapped.take(0));
    }
    while i < parts.len()
        invariant
            i <= parts@.len(),
            mapped == parts.deep_view().map_values(
                |t: Seq<char>| (DetailLineView { kind, text: trimmed_end(t) }),
            ),
            out.deep_view() =~~= old(out).deep_view() + mapped.take(i as int),
        decreases parts@.len() - i,
    {
        let text = trim_line_end(parts[i].as_str());
        let ghost prev = out.deep_view();
        out.push(DetailLine { kind, text });
        proof {
            assert(out.deep_view() =~~= prev.push(mapped[i as int]));
            assert(out.deep_view() =~~= old(out).deep_view() + mapped.take(i + 1));
        }
        i = i + 1;
    }
    proof {
        assert(mapped.take(parts@.len() as int) =~~= mapped);
    }
}

/// Appends the display lines of one raw line.
fn push_raw_line(out: &mut Vec<DetailLine>, l: &RawLine)
    ensures
        final(out).deep_view() == old(out).deep_view() + raw_line_display(l@),
{
    if l.origin == 'F' {
        match bytes_as_text(l.content.as_slice()) {
            Some(s) => {
                let parts = split_text_lines(s);
                push_trimmed_lines(out, &parts, LineKind::FileHeader);
                proof {
                    assert(out.deep_view() =~~= old(out).deep_view() + raw_line_display(l@));
                }
            },
            None => {
                let ghost prev = out.deep_view();
                out.push(DetailLine { kind: LineKind::FileHeader, text: placeholder_line() });
                proof {
                    assert(out.deep_view() =~~= prev + raw_line_display(l@));
                }
            },
        }
    } else {
        let kind = if l.origin == 'H' {
            LineKind::Header
        } else if l.origin == '+' {
            LineKind::Added
        } else if l.origin == '-' {
            LineKind::Removed
        } else if l.origin == 'B' {
            LineKind::BinaryNote
        } else {
            LineKind::Context
        };
        let pad: &str = if l.origin == '+' {
            "+"
        } else if l.origin == '-' {
            "-"
        } else {
            " "
        };
        proof {
            reveal_strlit("+");
            reveal_strlit("-");
            reveal_strlit(" ");
            assert(pad@ =~= origin_pad(l@.origin));
        }
        let body = match bytes_as_text(l.content.as_slice()) {
            Some(s) => trim_line_end(s),
            None => placeholder_line(),
        };
        let text = String::from_str(pad).concat(body.as_str());
        let ghost prev = out.deep_view();
        out.push(DetailLine { kind, text });
        proof {
            assert(out.deep_view() =~~= prev + raw_line_display(l@));
        }
    }
}

/// Builds the display lines of a record's detail.
pub fn build_detail_lines(record: &Record) -> (r: Vec<DetailLine>)
    ensures
        r.deep_view() == record_detail(record@),
{
    let mut out: Vec<DetailLine> = Vec::new();
    let head = record.short_text.clone().concat(" - ").concat(record.long_text.as_str());
    proof {
        assert(head@ =~= record@.short_text + " - "@ + record@.long_text);
    }
    out.push(DetailLine { kind: LineKind::Context, text: head });
    proof {
        assert(out.deep_view() =~~= seq![record_head_line(record@)]);
    }
    let parts = split_text_lines(record.message.as_str());
    push_trimmed_lines(&mut out, &parts, LineKind::Context);
    proof {
        assert(out.deep_view() =~~= seq![record_head_line(record@)] + message_display(
            record@.message,
        ));
    }
    if !record.merge {
        let ghost base = out.deep_view();
        let mut i: usize = 0;
        proof {
            assert(record@.lines.take(0) =~= Seq::<RawLineView>::empty());
            assert(out.deep_view() =~~= base + raw_lines_display(record@.lines.take(0)));
        }
        while i < record.lines.len()
            invariant
                i <= record.lines@.len(),
                record@.lines.len() == record.lines@.len(),
                base == seq![record_head_line(record@)] + message_display(record@.message),
                out.deep_view() =~~= base + raw_lines_display(record@.lines.take(i as int)),
            decreases record.lines@.len() - i,
        {
            push_raw_line(&mut out, &record.lines[i]);
            proof {
                lemma_raw_lines_display_take(record@.lines, i as int);
                assert(record.lines[i as int]@ == record@.lines[i as int]);
                assert(out.deep_view() =~~= base + raw_lines_display(
                    record@.lines.take(i + 1),
                ));
            }
            i = i + 1;
        }
        proof {
            assert(record@.lines.take(record@.lines.len() as int) =~= record@.lines);
            assert(out.deep_view() =~~= record_detail(record@));
        }
    } else {
        proof {
            assert(out.deep_view() =~~= record_detail(record@));
        }
    }
    out
}

} // verus!
