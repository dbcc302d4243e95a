//! Rendering support that is part of the engine's contract: the geometry of
//! the proportional scrollbar beside the detail pane, and the textual form
//! of a record's timestamp.

use vstd::prelude::*;
use vstd::arithmetic::div_mod::{lemma_fundamental_div_mod, lemma_mod_bound};

verus! {

/// Where the scrollbar's bar starts, in cells: the viewport height scaled by
/// how far into the content the window stands.
pub open spec fn bar_offset(height: int, index: int, total: int) -> int
    recommends
        total > 0,
{
    (height * index) / total
}

/// How tall the scrollbar's bar is, in cells: the viewport height scaled by
/// the shown share of the content, rounded half-up.
pub open spec fn bar_size(height: int, window: int, total: int) -> int
    recommends
        total > 0,
{
    let shown = if window <= total {
        window
    } else {
        total
    };
    (2 * height * shown + total) / (2 * total)
}

/// The geometry `(offset, size)` of a vertical scrollbar for a viewport
/// `height` cells tall, over a window of `window` lines starting at line
/// `index` of `total` lines.  The pair never overruns the viewport:
/// `offset + size <= height`.
pub fn vertical_bar_geometry(height: u16, index: usize, window: usize, total: usize) -> (r: (
    u16,
    u16,
))
    requires
        index + (if window <= total {
            window as int
        } else {
            total as int
        }) <= total,
    ensures
        r.0 + r.1 <= height,
        total == 0 ==> r == (0u16, 0u16),
        total > 0 ==> r.0 as int == bar_offset(height as int, index as int, total as int)
            && r.1 as int == bar_size(height as int, window as int, total as int),
{
    if total == 0 {
        return (0, 0);
    }
    let h = height as u128;
    let idx = index as u128;
    let t = total as u128;
    let shown: u128 = if window <= total {
        window as u128
    } else {
        total as u128
    };
    proof {
        assert(h <= 0xffff);
        assert(idx <= 0xffff_ffff_ffff_ffff);
        assert(t <= 0xffff_ffff_ffff_ffff);
        assert(shown <= t);
        assert(h * idx <= 0xffff * 0xffff_ffff_ffff_ffffu128) by (nonlinear_arith)
            requires
                h <= 0xffff,
                idx <= 0xffff_ffff_ffff_ffff,
        ;
        assert(h * shown <= 0xffff * 0xffff_ffff_ffff_ffffu128) by (nonlinear_arith)
            requires
                h <= 0xffff,
                shown <= 0xffff_ffff_ffff_ffff,
        ;
    }
    let off = (h * idx) / t;
    let size = (2 * (h * shown) + t) / (2 * t);
    proof {
        let hi = height as int;
        let ii = index as int;
        let ti = total as int;
        let si = shown as int;
        let a = hi * ii;
        let b = 2 * hi * si + ti;
        lemma_fundamental_div_mod(a, ti);
        lemma_mod_bound(a, ti);
        lemma_fundamental_div_mod(b, 2 * ti);
        lemma_mod_bound(b, 2 * ti);
        assert(a / ti + b / (2 * ti) <= hi && a / ti >= 0 && b / (2 * ti) >= 0)
            by (nonlinear_arith)
            requires
                ti >= 1,
                hi >= 0,
                ii >= 0,
                si >= 0,
                ii + si <= ti,
                a == hi * ii,
                b == 2 * hi * si + ti,
                a == ti * (a / ti) + a % ti,
                0 <= a % ti < ti,
                b == (2 * ti) * (b / (2 * ti)) + b % (2 * ti),
                0 <= b % (2 * ti) < 2 * ti,
        ;
        assert(off as int == a / ti);
        assert(2 * (hi * si) == 2 * hi * si) by (nonlinear_arith);
        assert(size as int == b / (2 * ti));
        assert(off + size <= hi);
    }
    (off as u16, size as u16)
}

/// The text of a timestamp in its timezone, as the outside calendar library
/// renders it.  The text is a function of the two arguments alone.
pub uninterp spec fn rfc3339_text(seconds: int, offset_seconds: int) -> Seq<char>;

/// Relies on chrono's `FixedOffset::east_opt`, `TimeZone::timestamp_opt` and
/// `DateTime::to_rfc3339`: within the ranges required below the offset and
/// the timestamp are accepted, and the rendered text depends on the two
/// arguments alone.
#[verifier::external_body]
fn rfc3339_from_parts(seconds: i64, offset_seconds: i32) -> (r: String)
    requires
        -86400 < offset_seconds < 86400,
        -8_000_000_000_000 <= seconds <= 8_000_000_000_000,
    ensures
        r@ == rfc3339_text(seconds as int, offset_seconds as int),
{
    let tz = chrono::FixedOffset::east_opt(offset_seconds).expect("offset within checked range");
    let dt = chrono::TimeZone::timestamp_opt(&tz, seconds, 0).unwrap();
    dt.to_rfc3339()
}

/// The timestamp of a record rendered as text, in the record's own
/// timezone.  `None` exactly when the offset or the timestamp lies outside
/// the range the calendar library accepts.
pub fn format_time(time_seconds: i64, time_offset_minutes: i32) -> (r: Option<String>)
    ensures
        match r {
            Some(s) => {
                &&& -1440 < time_offset_minutes < 1440
                &&& -8_000_000_000_000 <= time_seconds <= 8_000_000_000_000
                &&& s@ == rfc3339_text(time_seconds as int, time_offset_minutes as int * 60)
            },
            None => time_offset_minutes <= -1440 || time_offset_minutes >= 1440 || time_seconds
                < -8_000_000_000_000 || time_seconds > 8_000_000_000_000,
        },
{
    if time_offset_minutes <= -1440 || time_offset_minutes >= 1440 {
        return None;
    }
    if time_seconds < -8_000_000_000_000 || time_seconds > 8_000_000_000_000 {
        return None;
    }
    let offset_seconds = time_offset_minutes * 60;
    Some(rfc3339_from_parts(time_seconds, offset_seconds))
}

} // verus!
