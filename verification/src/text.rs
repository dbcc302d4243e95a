//! Text helpers for the engine: trimming line ends, splitting text into
//! lines, substring search, and decoding raw bytes into text.

use vstd::prelude::*;
use vstd::string::*;
use vstd::utf8::{decode_utf8, valid_utf8};

verus! {

/// Characters stripped from the end of a line before display.
pub open spec fn is_trailing_blank(c: char) -> bool {
    c == ' ' || c == '\t' || c == '\r' || c == '\n'
}

/// The line with every trailing blank character removed.
pub open spec fn trimmed_end(s: Seq<char>) -> Seq<char>
    decreases s.len(),
{
    if s.len() > 0 && is_trailing_blank(s[s.len() - 1]) {
        trimmed_end(s.drop_last())
    } else {
        s
    }
}

/// The segments of `s` between newline characters, in order.  The newline
/// characters themselves do not appear in any segment; a trailing newline
/// yields a final empty segment, and the empty text has one empty segment.
pub open spec fn split_lines(s: Seq<char>) -> Seq<Seq<char>>
    decreases s.len(),
{
    if s.len() == 0 {
        seq![Seq::<char>::empty()]
    } else if s[0] == '\n' {
        seq![Seq::<char>::empty()] + split_lines(s.drop_first())
    } else {
        let rest = split_lines(s.drop_first());
        seq![seq![s[0]] + rest[0]] + rest.skip(1)
    }
}

/// `needle` occurs contiguously somewhere in `hay`.
pub open spec fn contains_text(hay: Seq<char>, needle: Seq<char>) -> bool {
    exists|k: int|
        0 <= k <= hay.len() - needle.len() && #[trigger] hay.subrange(k, k + needle.len())
            == needle
}

/// Text shown in place of a detail line whose bytes are not valid text.
pub open spec fn placeholder_line_text() -> Seq<char> {
    "(invalid line)"@
}

pub proof fn lemma_split_lines_nonempty(s: Seq<char>)
    ensures
        split_lines(s).len() >= 1,
    decreases s.len(),
{
    if s.len() == 0 {
    } else if s[0] == '\n' {
        lemma_split_lines_nonempty(s.drop_first());
    } else {
        lemma_split_lines_nonempty(s.drop_first());
    }
}

/// Splitting a text with no newline yields that text as its only segment.
pub proof fn lemma_split_lines_whole(s: Seq<char>)
    requires
        forall|j: int| 0 <= j < s.len() ==> s[j] != '\n',
    ensures
        split_lines(s) == seq![s],
    decreases s.len(),
{
    if s.len() == 0 {
        assert(split_lines(s) =~~= seq![s]);
    } else {
        lemma_split_lines_whole(s.drop_first());
        let rest = split_lines(s.drop_first());
        assert(seq![s[0]] + rest[0] =~= s);
        assert(split_lines(s) =~~= seq![s]);
    }
}

/// Splitting at the first newline: the part before it is the first segment,
/// and the rest of the segments are those of the part after it.
pub proof fn lemma_split_lines_at(s: Seq<char>, i: int)
    requires
        0 <= i < s.len(),
        s[i] == '\n',
        forall|j: int| 0 <= j < i ==> s[j] != '\n',
    ensures
        split_lines(s) == seq![s.take(i)] + split_lines(s.skip(i + 1)),
    decreases s.len(),
{
    if i == 0 {
        assert(s.take(0) =~= Seq::<char>::empty());
        assert(s.skip(1) =~= s.drop_first());
        assert(split_lines(s) =~~= seq![s.take(0)] + split_lines(s.skip(1)));
    } else {
        let d = s.drop_first();
        assert(d[i - 1] == '\n');
        assert(forall|j: int| 0 <= j < i - 1 ==> d[j] == s[j + 1] && d[j] != '\n');
        lemma_split_lines_at(d, i - 1);
        lemma_split_lines_nonempty(d.skip(i));
        let rest = split_lines(d);
        assert(rest[0] == d.take(i - 1));
        assert(seq![s[0]] + d.take(i - 1) =~= s.take(i));
        assert(rest.skip(1) =~= split_lines(d.skip(i)));
        assert(d.skip(i) =~= s.skip(i + 1));
        assert(split_lines(s) =~~= seq![s.take(i)] + split_lines(s.skip(i + 1)));
    }
}

proof fn lemma_trimmed_end_is_prefix(s: Seq<char>, cut: int)
    requires
        0 <= cut <= s.len(),
        forall|j: int| cut <= j < s.len() ==> is_trailing_blank(s[j]),
        cut > 0 ==> !is_trailing_blank(s[cut - 1]),
    ensures
        trimmed_end(s) == s.take(cut),
    decreases s.len(),
{
    if cut == s.len() {
        assert(s.take(cut) =~= s);
    } else {
        assert(is_trailing_blank(s[s.len() - 1]));
        lemma_trimmed_end_is_prefix(s.drop_last(), cut);
        assert(s.drop_last().take(cut) =~= s.take(cut));
    }
}

/// Whether a character counts as a trailing blank.
fn is_blank_char(c: char) -> (r: bool)
    ensures
        r == is_trailing_blank(c),
{
    c == ' ' || c == '\t' || c == '\r' || c == '\n'
}

/// Removes trailing blanks (spaces, tabs, carriage returns, newlines) from
/// the end of a line.
pub fn trim_line_end(s: &str) -> (r: String)
    ensures
        r@ == trimmed_end(s@),
{
    let len = s.unicode_len();
    let mut cut: usize = len;
    while cut > 0 && is_blank_char(s.get_char(cut - 1))
        invariant
            cut <= len,
            len == s@.len(),
            forall|j: int| cut <= j < s@.len() ==> is_trailing_blank(s@[j]),
        decreases cut,
    {
        cut = cut - 1;
    }
    proof {
        lemma_trimmed_end_is_prefix(s@, cut as int);
    }
    let r = s.substring_char(0, cut);
    proof {
        assert(r@ =~= s@.take(cut as int));
    }
    r.to_owned()
}

/// Splits a text into its newline-separated segments.
pub fn split_text_lines(s: &str) -> (r: Vec<String>)
    ensures
        r.deep_view() == split_lines(s@),
{
    let len = s.unicode_len();
    let mut lines: Vec<String> = Vec::new();
    let mut start: usize = 0;
    let mut i: usize = 0;
    proof {
        assert(s@.skip(0) =~= s@);
        assert(lines.deep_view() =~~= Seq::<Seq<char>>::empty());
    }
    while i < len
        invariant
            start <= i <= len,
            len == s@.len(),
            forall|j: int| start <= j < i ==> s@[j] != '\n',
            split_lines(s@) == lines.deep_view() + split_lines(s@.skip(start as int)),
        decreases len - i,
    {
        if s.get_char(i) == '\n' {
            let ghost old_lines = lines.deep_view();
            let seg = s.substring_char(start, i);
            lines.push(seg.to_owned());
            proof {
                let tail = s@.skip(start as int);
                lemma_split_lines_at(tail, i - start);
                assert(tail.take(i - start) =~= s@.subrange(start as int, i as int));
                assert(tail.skip(i - start + 1) =~= s@.skip(i + 1));
                assert(lines.deep_view() =~~= old_lines.push(seg@));
                assert(lines.deep_view() + split_lines(s@.skip(i + 1)) =~~= (old_lines
                    + split_lines(s@.skip(start as int))));
            }
            start = i + 1;
        }
        i = i + 1;
    }
    let ghost old_lines = lines.deep_view();
    let seg = s.substring_char(start, len);
    lines.push(seg.to_owned());
    proof {
        let tail = s@.skip(start as int);
        lemma_split_lines_whole(tail);
        assert(tail =~= s@.subrange(start as int, len as int));
        assert(lines.deep_view() =~~= old_lines.push(seg@));
        assert(lines.deep_view() =~~= old_lines + seq![tail]);
    }
    lines
}

fn text_matches_at(hay: &str, needle: &str, k: usize, hay_len: usize, needle_len: usize) -> (r: bool)
    requires
        hay_len == hay@.len(),
        needle_len == needle@.len(),
        k + needle_len <= hay_len,
    ensures
        r == (hay@.subrange(k as int, k + needle@.len()) == needle@),
{
    let mut j: usize = 0;
    while j < needle_len
        invariant
            j <= needle_len,
            hay_len == hay@.len(),
            needle_len == needle@.len(),
            k + needle_len <= hay_len,
            forall|jj: int| 0 <= jj < j ==> hay@[k + jj] == needle@[jj],
        decreases needle_len - j,
    {
        if hay.get_char(k + j) != needle.get_char(j) {
            proof {
                assert(hay@.subrange(k as int, k + needle@.len())[j as int] != needle@[j as int]);
            }
            return false;
        }
        j = j + 1;
    }
    proof {
        assert(hay@.subrange(k as int, k + needle@.len()) =~= needle@);
    }
    true
}

/// Substring search: whether `needle` occurs contiguously in `hay`.
pub fn text_contains(hay: &str, needle: &str) -> (r: bool)
    ensures
        r == contains_text(hay@, needle@),
{
    let hay_len = hay.unicode_len();
    let needle_len = needle.unicode_len();
    if needle_len > hay_len {
        return false;
    }
    let mut k: usize = 0;
    loop
        invariant
            k <= hay_len - needle_len,
            hay_len == hay@.len(),
            needle_len == needle@.len(),
            needle_len <= hay_len,
            forall|kk: int|
                0 <= kk < k ==> #[trigger] hay@.subrange(kk, kk + needle@.len()) != needle@,
        ensures
            contains_text(hay@, needle@) == (hay@.subrange(
                k as int,
                k + needle@.len(),
            ) == needle@),
        decreases hay_len - k,
    {
        if text_matches_at(hay, needle, k, hay_len, needle_len) {
            break;
        }
        if k == hay_len - needle_len {
            break;
        }
        k = k + 1;
    }
    text_matches_at(hay, needle, k, hay_len, needle_len)
}

/// The decimal digits of a number, most significant first.
pub open spec fn decimal_digits(n: nat) -> Seq<char>
    decreases n,
{
    if n < 10 {
        seq![digit_char(n)]
    } else {
        decimal_digits(n / 10).push(digit_char(n % 10))
    }
}

/// The character for one decimal digit.
pub open spec fn digit_char(d: nat) -> char
    recommends
        d < 10,
{
    if d == 0 {
        '0'
    } else if d == 1 {
        '1'
    } else if d == 2 {
        '2'
    } else if d == 3 {
        '3'
    } else if d == 4 {
        '4'
    } else if d == 5 {
        '5'
    } else if d == 6 {
        '6'
    } else if d == 7 {
        '7'
    } else if d == 8 {
        '8'
    } else {
        '9'
    }
}

fn digit_str(d: u128) -> (r: &'static str)
    requires
        d < 10,
    ensures
        r@ == seq![digit_char(d as nat)],
{
    let r: &'static str = if d == 0 {
        "0"
    } else if d == 1 {
        "1"
    } else if d == 2 {
        "2"
    } else if d == 3 {
        "3"
    } else if d == 4 {
        "4"
    } else if d == 5 {
        "5"
    } else if d == 6 {
        "6"
    } else if d == 7 {
        "7"
    } else if d == 8 {
        "8"
    } else {
        "9"
    };
    proof {
        reveal_strlit("0");
        reveal_strlit("1");
        reveal_strlit("2");
        reveal_strlit("3");
        reveal_strlit("4");
        reveal_strlit("5");
        reveal_strlit("6");
        reveal_strlit("7");
        reveal_strlit("8");
        reveal_strlit("9");
        assert(r@ =~= seq![digit_char(d as nat)]);
    }
    r
}

/// Renders a number in decimal.
pub fn decimal_string(n: u128) -> (r: String)
    ensures
        r@ == decimal_digits(n as nat),
    decreases n,
{
    if n < 10 {
        return digit_str(n).to_owned();
    }
    let head = decimal_string(n / 10);
    let r = head.concat(digit_str(n % 10));
    proof {
        assert(r@ =~= decimal_digits(n as nat));
    }
    r
}

/// The line substituted for content whose bytes are not valid text.
pub fn placeholder_line() -> (r: String)
    ensures
        r@ == placeholder_line_text(),
{
    String::from_str("(invalid line)")
}

/// Relies on `core::str::from_utf8`: it returns `Ok` exactly when the bytes
/// are valid UTF-8, and then the returned text is their decoding.
#[verifier::external_body]
pub(crate) fn bytes_as_text(bytes: &[u8]) -> (r: Option<&str>)
    ensures
        match r {
            Some(s) => valid_utf8(bytes@) && s@ == decode_utf8(bytes@),
            None => !valid_utf8(bytes@),
        },
{
    core::str::from_utf8(bytes).ok()
}

} // verus!
