//! The general laws of the navigation engine, proved once and for all over
//! its abstract state.

use vstd::prelude::*;

use crate::model::{
    blocked, min_int, monus, mv_decrement, mv_first, mv_increment, mv_last, mv_resize,
    mv_resize_diff, selected_detail_total, selected_position, view_wf, visible, with_detail_reset,
    ModelView,
};
use crate::filter::CommitFilter;
use crate::record::RecordView;
use crate::stream::visible_records;

verus! {

/// `increment` applied `n` times.
pub open spec fn mv_increment_n(v: ModelView, n: nat) -> ModelView
    decreases n,
{
    if n == 0 {
        v
    } else {
        mv_increment(mv_increment_n(v, (n - 1) as nat))
    }
}

/// `decrement` applied `n` times.
pub open spec fn mv_decrement_n(v: ModelView, n: nat) -> ModelView
    decreases n,
{
    if n == 0 {
        v
    } else {
        mv_decrement(mv_decrement_n(v, (n - 1) as nat))
    }
}

proof fn lemma_increment_n_shape(v: ModelView, n: nat)
    requires
        view_wf(v),
        !blocked(v),
        v.revision_window >= 1,
        n <= visible(v).len() - 1,
    ensures
        ({
            let w = mv_increment_n(mv_first(v), n);
            &&& w.records == v.records
            &&& w.filters == v.filters
            &&& w.app_state == v.app_state
            &&& w.failed == v.failed
            &&& w.revision_window == v.revision_window
            &&& w.diff_window == v.diff_window
            &&& if n < v.revision_window {
                w.revision_index == 0 && w.revision_selected == n
            } else {
                w.revision_selected == v.revision_window - 1 && w.revision_index == n
                    - v.revision_window + 1
            }
            &&& w.diff_index == 0
            &&& w.diff_total == selected_detail_total(w)
        }),
    decreases n,
{
    if n == 0 {
    } else {
        lemma_increment_n_shape(v, (n - 1) as nat);
    }
}

/// From the first record, `increment` applied once per remaining record of
/// the filtered stream reaches exactly the state that `last` reaches.
pub proof fn lemma_increments_reach_last(v: ModelView)
    requires
        view_wf(v),
        !blocked(v),
        v.revision_window >= 1,
    ensures
        mv_increment_n(mv_first(v), (visible(v).len() - 1) as nat) == mv_last(v),
{
    let t = visible(v).len() as int;
    lemma_increment_n_shape(v, (t - 1) as nat);
    let w = mv_increment_n(mv_first(v), (t - 1) as nat);
    let l = mv_last(v);
    assert(w.revision_index == monus(t, v.revision_window));
    assert(w.revision_selected == monus(v.revision_window, 1));
    assert(selected_position(w) == selected_position(l));
    assert(selected_detail_total(w) == selected_detail_total(l));
}

proof fn lemma_decrement_n_shape(v: ModelView, n: nat)
    requires
        view_wf(v),
        !blocked(v),
        v.revision_window >= 1,
        n <= visible(v).len() - 1,
    ensures
        ({
            let t = visible(v).len() as int;
            let w = mv_decrement_n(mv_last(v), n);
            &&& w.records == v.records
            &&& w.filters == v.filters
            &&& w.app_state == v.app_state
            &&& w.failed == v.failed
            &&& w.revision_window == v.revision_window
            &&& w.diff_window == v.diff_window
            &&& if n < v.revision_window {
                w.revision_index == monus(t, v.revision_window) && w.revision_selected == monus(
                    v.revision_window,
                    1,
                ) - n
            } else {
                w.revision_selected == 0 && w.revision_index == t - 1 - n
            }
            &&& w.diff_index == 0
            &&& w.diff_total == selected_detail_total(w)
        }),
    decreases n,
{
    if n == 0 {
    } else {
        lemma_decrement_n_shape(v, (n - 1) as nat);
    }
}

/// From the last record, `decrement` applied once per remaining record of
/// the filtered stream reaches exactly the state that `first` reaches.
pub proof fn lemma_decrements_reach_first(v: ModelView)
    requires
        view_wf(v),
        !blocked(v),
        v.revision_window >= 1,
    ensures
        mv_decrement_n(mv_last(v), (visible(v).len() - 1) as nat) == mv_first(v),
{
    let t = visible(v).len() as int;
    lemma_decrement_n_shape(v, (t - 1) as nat);
    let w = mv_decrement_n(mv_last(v), (t - 1) as nat);
    let f = mv_first(v);
    assert(w.revision_index == 0);
    assert(w.revision_selected == 0);
    assert(selected_position(w) == selected_position(f));
    assert(selected_detail_total(w) == selected_detail_total(f));
}

/// After a resize to `length` rows the window holds `min(length,
/// available)` records, where `available` is what the stream still offers
/// from the window's position, and the selection lies inside the window or
/// both are zero.
pub proof fn lemma_resize_window(v: ModelView, length: int)
    requires
        view_wf(v),
        !blocked(v),
        length >= 0,
    ensures
        ({
            let w = mv_resize(v, length);
            &&& w.revision_window == min_int(
                length,
                monus(visible(v).len() as int, v.revision_index),
            )
            &&& (w.revision_selected < w.revision_window || (w.revision_selected == 0
                && w.revision_window == 0))
        }),
{
}

/// `first` puts the window at the top of the stream with the first record
/// selected, whatever the state was before, and applying it twice is the
/// same as applying it once.
pub proof fn lemma_first_fixed_point(v: ModelView)
    ensures
        mv_first(v).revision_index == 0,
        mv_first(v).revision_selected == 0,
        mv_first(mv_first(v)) == mv_first(v),
{
    let w = mv_first(v);
    assert(selected_detail_total(with_detail_reset(ModelView {
        revision_index: 0,
        revision_selected: 0,
        ..v
    })) == selected_detail_total(w));
}

/// A positional query is a function of the records and the filters alone:
/// over equal streams every position resolves to the same record, so two
/// queries for one position against an unchanged stream agree.
pub proof fn lemma_position_deterministic(
    recs1: Seq<RecordView>,
    fs1: Seq<CommitFilter>,
    recs2: Seq<RecordView>,
    fs2: Seq<CommitFilter>,
    k: int,
)
    requires
        recs1 == recs2,
        fs1 == fs2,
    ensures
        visible_records(recs1, fs1) == visible_records(recs2, fs2),
        0 <= k < visible_records(recs1, fs1).len() ==> visible_records(recs1, fs1)[k]
            == visible_records(recs2, fs2)[k],
{
}

/// After a resize of the detail window to `n` lines, when the detail has at
/// least `n` lines the window still fits inside it:
/// `diff_index + diff_window <= diff_total`.
pub proof fn lemma_resize_diff_fits(v: ModelView, n: int)
    requires
        view_wf(v),
        0 <= n <= v.diff_total,
    ensures
        mv_resize_diff(v, n).diff_index + mv_resize_diff(v, n).diff_window <= v.diff_total,
{
}

} // verus!
