//! The navigation engine: a revision window and a detail window over a
//! filtered record stream, composed with the session mode.
//!
//! Every navigation operation is total over the current state: positions are
//! clamped to valid ranges and never fail.  Only an evaluation failure in
//! the backing stream ends the session; the operation that hits one moves
//! the engine to `AppState::Finished` and records the error for display.

use vstd::prelude::*;

use crate::detail::{build_detail_lines, record_detail, DetailLine, DetailLineView};
use crate::errors::{ConstructionError, TraversalError};
use crate::filter::CommitFilter;
use crate::record::{Record, RecordView};
use crate::stream::{ok_len, stream_blocked, visible_records, CommitView};
use crate::widgets::{bar_offset, bar_size, vertical_bar_geometry};

verus! {

/// The session mode.  Navigation commands reach the revision window only in
/// `Commits`, the detail window only in `Details`, and nothing in `Log` or
/// `Finished`.
#[derive(Clone, Copy, PartialEq, Eq, Structural, Debug)]
pub enum AppState {
    /// Browsing the list of records.
    Commits,
    /// Browsing the detail of the selected record.
    Details,
    /// Viewing the session log overlay.
    Log,
    /// The session is over.
    Finished,
}

/// The abstract state of the engine: the stream it was attached to, the two
/// windows, the mode, and whether a traversal failure ended the session.
pub ghost struct ModelView {
    pub app_state: AppState,
    pub records: Seq<RecordView>,
    pub filters: Seq<CommitFilter>,
    pub revision_index: int,
    pub revision_selected: int,
    pub revision_window: int,
    pub diff_index: int,
    pub diff_window: int,
    pub diff_total: int,
    pub failed: bool,
}

/// Subtraction on naturals: zero instead of going negative.
pub open spec fn monus(a: int, b: int) -> int {
    if a >= b {
        a - b
    } else {
        0
    }
}

pub open spec fn min_int(a: int, b: int) -> int {
    if a <= b {
        a
    } else {
        b
    }
}

/// The records of the filtered stream the engine can reach.
pub open spec fn visible(v: ModelView) -> Seq<RecordView> {
    visible_records(v.records, v.filters)
}

/// Whether an evaluation failure cuts the filtered stream short.
pub open spec fn blocked(v: ModelView) -> bool {
    stream_blocked(v.records, v.filters)
}

/// The absolute position of the highlighted record.
pub open spec fn selected_position(v: ModelView) -> int {
    v.revision_index + v.revision_selected
}

/// How many detail lines the selected record has; none when the window is
/// empty.
pub open spec fn selected_detail_total(v: ModelView) -> int {
    if v.revision_window > 0 {
        record_detail(visible(v)[selected_position(v)]).len() as int
    } else {
        0
    }
}

/// The detail window recreated for the current selection: scrolled to the
/// top, its viewport kept, its length that of the selection's detail.
pub open spec fn with_detail_reset(v: ModelView) -> ModelView {
    ModelView { diff_index: 0, diff_total: selected_detail_total(v), ..v }
}

/// The session ended by a traversal failure.
pub open spec fn with_failure(v: ModelView) -> ModelView {
    ModelView { app_state: AppState::Finished, failed: true, ..v }
}

/// Effect of moving to the first record: the window returns to the top and
/// the first record is selected, whatever the state was before.
pub open spec fn mv_first(v: ModelView) -> ModelView {
    with_detail_reset(ModelView { revision_index: 0, revision_selected: 0, ..v })
}

/// Effect of moving to the last record: the total is counted, the window is
/// placed so that it ends at the total, and its last row is selected.
pub open spec fn mv_last(v: ModelView) -> ModelView {
    if blocked(v) {
        with_failure(v)
    } else {
        let t = visible(v).len() as int;
        with_detail_reset(
            ModelView {
                revision_index: monus(t, v.revision_window),
                revision_selected: monus(v.revision_window, 1),
                ..v
            },
        )
    }
}

/// Effect of moving the selection down one record: within the window the
/// selection moves; at its last row the window slides down when a record
/// exists beyond it, with the selection pinned to the last row.
pub open spec fn mv_increment(v: ModelView) -> ModelView {
    if v.revision_window == 0 {
        v
    } else if v.revision_selected + 1 < v.revision_window {
        with_detail_reset(ModelView { revision_selected: v.revision_selected + 1, ..v })
    } else if visible(v).len() >= v.revision_index + v.revision_window + 1 {
        with_detail_reset(ModelView { revision_index: v.revision_index + 1, ..v })
    } else if !blocked(v) {
        with_detail_reset(v)
    } else {
        with_failure(v)
    }
}

/// Effect of moving the selection up one record: within the window the
/// selection moves; at its first row the window slides up, clamped at the
/// start of the stream.
pub open spec fn mv_decrement(v: ModelView) -> ModelView {
    if v.revision_window == 0 {
        v
    } else if v.revision_selected > 0 {
        with_detail_reset(ModelView { revision_selected: v.revision_selected - 1, ..v })
    } else {
        with_detail_reset(ModelView { revision_index: monus(v.revision_index, 1), ..v })
    }
}

/// Effect of resizing the revision window to `length` rows: the window
/// shrinks to the records actually available from its position, the
/// selection is clamped into the window, and the window does not move.
pub open spec fn mv_resize(v: ModelView, length: int) -> ModelView {
    if visible(v).len() >= v.revision_index + length || !blocked(v) {
        let avail = if visible(v).len() >= v.revision_index + length {
            length
        } else {
            monus(visible(v).len() as int, v.revision_index)
        };
        let w = min_int(length, avail);
        let s = min_int(v.revision_selected, monus(w, 1));
        let v2 = ModelView { revision_window: w, revision_selected: s, ..v };
        let same_selection = (w == 0 && v.revision_window == 0) || (w > 0 && v.revision_window > 0
            && s == v.revision_selected);
        if same_selection {
            v2
        } else {
            with_detail_reset(v2)
        }
    } else {
        with_failure(v)
    }
}

/// Effect of resizing the detail window to `length` lines: the viewport is
/// set and the scroll position clamped so the window never overruns the
/// content.
pub open spec fn mv_resize_diff(v: ModelView, length: int) -> ModelView {
    ModelView {
        diff_window: length,
        diff_index: min_int(v.diff_index, monus(v.diff_total, length)),
        ..v
    }
}

pub open spec fn mv_diff_first(v: ModelView) -> ModelView {
    ModelView { diff_index: 0, ..v }
}

pub open spec fn mv_diff_last(v: ModelView) -> ModelView {
    ModelView { diff_index: monus(v.diff_total, v.diff_window), ..v }
}

pub open spec fn mv_diff_increment(v: ModelView) -> ModelView {
    ModelView {
        diff_index: if v.diff_index < monus(v.diff_total, v.diff_window) {
            v.diff_index + 1
        } else {
            v.diff_index
        },
        ..v
    }
}

pub open spec fn mv_diff_decrement(v: ModelView) -> ModelView {
    ModelView { diff_index: monus(v.diff_index, 1), ..v }
}

/// One viewport's worth of forward scroll: the detail scroll moved down by
/// the window length, clamped to the content.
pub open spec fn mv_diff_page_forward(v: ModelView) -> ModelView {
    ModelView {
        diff_index: min_int(v.diff_index + v.diff_window, monus(v.diff_total, v.diff_window)),
        ..v
    }
}

/// One viewport's worth of backward scroll.
pub open spec fn mv_diff_page_back(v: ModelView) -> ModelView {
    ModelView { diff_index: monus(v.diff_index, v.diff_window), ..v }
}

/// The invariants of the abstract state: the window never exceeds the
/// available records, the selection stays inside the window, the detail
/// scroll never overruns the detail, and the stored detail length is that
/// of the selected record.
pub open spec fn view_wf(v: ModelView) -> bool {
    &&& v.revision_index >= 0
    &&& v.revision_selected >= 0
    &&& v.revision_window >= 0
    &&& v.revision_index + v.revision_window <= visible(v).len()
    &&& (v.revision_selected < v.revision_window || (v.revision_selected == 0
        && v.revision_window == 0))
    &&& v.diff_index >= 0
    &&& v.diff_window >= 0
    &&& v.diff_total >= 0
    &&& v.diff_index <= monus(v.diff_total, v.diff_window)
    &&& v.diff_total == selected_detail_total(v)
}

/// The state the engine starts in when at least one record is reachable:
/// the first record selected in a one-row window, the detail of that record
/// attached, viewport heights still unknown.
pub open spec fn mv_initial(
    app_state: AppState,
    recs: Seq<RecordView>,
    fs: Seq<CommitFilter>,
) -> ModelView {
    with_detail_reset(
        ModelView {
            app_state,
            records: recs,
            filters: fs,
            revision_index: 0,
            revision_selected: 0,
            revision_window: 1,
            diff_index: 0,
            diff_window: 1,
            diff_total: 0,
            failed: false,
        },
    )
}

/// The state the engine falls back to when a newly attached stream has no
/// reachable record: an empty window over the new stream.
pub open spec fn mv_empty(
    app_state: AppState,
    recs: Seq<RecordView>,
    fs: Seq<CommitFilter>,
) -> ModelView {
    ModelView {
        app_state,
        records: recs,
        filters: fs,
        revision_index: 0,
        revision_selected: 0,
        revision_window: 0,
        diff_index: 0,
        diff_window: 1,
        diff_total: 0,
        failed: false,
    }
}

/// The navigation engine.
pub struct AppModel {
    /// The session mode.
    pub app_state: AppState,
    stream: CommitView,
    revision_index: usize,
    revision_selected: usize,
    revision_window_length: usize,
    diff_index: usize,
    diff_window_length: usize,
    diff_length: usize,
    failure: Option<TraversalError>,
}

impl View for AppModel {
    type V = ModelView;

    closed spec fn view(&self) -> ModelView {
        ModelView {
            app_state: self.app_state,
            records: self.stream.src(),
            filters: self.stream.fs(),
            revision_index: self.revision_index as int,
            revision_selected: self.revision_selected as int,
            revision_window: self.revision_window_length as int,
            diff_index: self.diff_index as int,
            diff_window: self.diff_window_length as int,
            diff_total: self.diff_length as int,
            failed: self.failure.is_some(),
        }
    }
}

impl AppModel {
    /// The revision window stands over cached, evaluable records.
    pub closed spec fn nav_wf(self) -> bool {
        &&& self.stream.wf()
        &&& self.revision_index + self.revision_window_length <= self.stream.cached()
        &&& (self.revision_selected < self.revision_window_length || (self.revision_selected == 0
            && self.revision_window_length == 0))
    }

    /// Well-formedness of the whole engine.
    pub closed spec fn wf(self) -> bool {
        self.nav_wf() && view_wf(self@)
    }

    proof fn lemma_nav_bounds(self)
        requires
            self.nav_wf(),
        ensures
            self@.revision_index + self@.revision_window <= visible(self@).len(),
            self@.revision_index + self@.revision_window <= usize::MAX,
            visible(self@).len() <= self@.records.len() <= usize::MAX,
    {
        self.stream.lemma_cached_visible();
        self.stream.lemma_cached_bound();
        crate::stream::lemma_visible_bound(self@.records, self@.filters);
    }

    /// Attaches the engine to a record stream.  Construction succeeds
    /// exactly when at least one record of the filtered stream is
    /// reachable; a stream whose filters reject everything is refused, and
    /// one whose first reachable prefix cannot be evaluated fails with the
    /// traversal error.
    pub fn new(app_state: AppState, records: Vec<Record>, filters: Vec<CommitFilter>) -> (r:
        Result<AppModel, ConstructionError>)
        ensures
            (r matches Ok(_)) <==> visible_records(records.deep_view(), filters@).len() >= 1,
            match r {
                Ok(m) => m.wf() && m@ == mv_initial(app_state, records.deep_view(), filters@),
                Err(e) => {
                    &&& (e matches ConstructionError::NoRecords ==> !stream_blocked(
                        records.deep_view(),
                        filters@,
                    ))
                    &&& (e matches ConstructionError::Traversal(t) ==> stream_blocked(
                        records.deep_view(),
                        filters@,
                    ) && t.id == records.deep_view()[ok_len(records.deep_view(), filters@)].id)
                    &&& !(e matches ConstructionError::InvalidStartPoint)
                },
            },
    {
        let ghost recs = records.deep_view();
        let ghost fs = filters@;
        let stream = CommitView::new(records, filters);
        let mut model = AppModel {
            app_state,
            stream,
            revision_index: 0,
            revision_selected: 0,
            revision_window_length: 0,
            diff_index: 0,
            diff_window_length: 1,
            diff_length: 0,
            failure: None,
        };
        match model.stream.get(0) {
            Ok(Some(_)) => {
                model.revision_window_length = 1;
                model.diff_reset();
                proof {
                    assert(model@ == mv_initial(app_state, recs, fs));
                    model.lemma_nav_bounds();
                }
                Ok(model)
            },
            Ok(None) => Err(ConstructionError::NoRecords),
            Err(e) => Err(ConstructionError::Traversal(e)),
        }
    }

    /// Attaches the engine to a new record stream for the same filters,
    /// fully resetting both windows and the cache.  When the new stream has
    /// no reachable record the engine keeps an empty window over it and
    /// reports why; navigation over an empty window does nothing.
    pub fn set_revision(&mut self, records: Vec<Record>) -> (r: Result<(), ConstructionError>)
        requires
            old(self).wf(),
        ensures
            final(self).wf(),
            (r matches Ok(_)) <==> visible_records(records.deep_view(), old(self)@.filters).len()
                >= 1,
            match r {
                Ok(()) => final(self)@ == mv_initial(
                    old(self)@.app_state,
                    records.deep_view(),
                    old(self)@.filters,
                ),
                Err(e) => {
                    &&& (e matches ConstructionError::NoRecords ==> final(self)@ == mv_empty(
                        old(self)@.app_state,
                        records.deep_view(),
                        old(self)@.filters,
                    ) && !stream_blocked(records.deep_view(), old(self)@.filters))
                    &&& (e matches ConstructionError::Traversal(t) ==> final(self)@
                        == with_failure(
                        mv_empty(old(self)@.app_state, records.deep_view(), old(self)@.filters),
                    ) && stream_blocked(records.deep_view(), old(self)@.filters))
                    &&& !(e matches ConstructionError::InvalidStartPoint)
                },
            },
    {
        let ghost recs = records.deep_view();
        let ghost fs = old(self)@.filters;
        self.stream.reset_with_records(records);
        self.revision_index = 0;
        self.revision_selected = 0;
        self.revision_window_length = 0;
        self.diff_index = 0;
        self.diff_window_length = 1;
        self.diff_length = 0;
        self.failure = None;
        match self.stream.get(0) {
            Ok(Some(_)) => {
                self.revision_window_length = 1;
                self.diff_reset();
                proof {
                    assert(self@ == mv_initial(old(self)@.app_state, recs, fs));
                    self.lemma_nav_bounds();
                }
                Ok(())
            },
            Ok(None) => {
                proof {
                    assert(self@ == mv_empty(old(self)@.app_state, recs, fs));
                    self.lemma_nav_bounds();
                }
                Err(ConstructionError::NoRecords)
            },
            Err(e) => {
                self.app_state = AppState::Finished;
                self.failure = Some(e.clone());
                proof {
                    assert(self@ == with_failure(mv_empty(old(self)@.app_state, recs, fs)));
                    self.lemma_nav_bounds();
                }
                Err(ConstructionError::Traversal(e))
            },
        }
    }

    /// The session mode.
    pub fn state(&self) -> (r: AppState)
        ensures
            r == self@.app_state,
    {
        self.app_state
    }

    /// Sets the session mode.
    pub fn set_app_state(&mut self, app_state: AppState)
        requires
            old(self).wf(),
        ensures
            final(self).wf(),
            final(self)@ == (ModelView { app_state, ..old(self)@ }),
    {
        self.app_state = app_state;
    }

    /// The filtered stream and its cache.
    pub fn walker(&self) -> (r: &CommitView)
        requires
            self.wf(),
        ensures
            r.wf(),
            r.src() == self@.records,
            r.fs() == self@.filters,
    {
        &self.stream
    }

    /// The traversal failure that ended the session, if one did.
    pub fn failure(&self) -> (r: &Option<TraversalError>)
        ensures
            r.is_some() == self@.failed,
    {
        &self.failure
    }

    /// Position of the first visible record.
    pub fn revision_index(&self) -> (r: usize)
        ensures
            r as int == self@.revision_index,
    {
        self.revision_index
    }

    /// The in-window selection and the window length.
    pub fn revision_window(&self) -> (r: (usize, usize))
        ensures
            r.0 as int == self@.revision_selected,
            r.1 as int == self@.revision_window,
    {
        (self.revision_selected, self.revision_window_length)
    }

    /// The visible slice of the filtered stream: `revision_window` records
    /// starting at `revision_index`.
    pub fn commits(&self) -> (r: Vec<Record>)
        requires
            self.wf(),
        ensures
            r.deep_view() == visible(self@).subrange(
                self@.revision_index,
                self@.revision_index + self@.revision_window,
            ),
    {
        proof {
            self.lemma_nav_bounds();
        }
        let mut out: Vec<Record> = Vec::new();
        let mut k: usize = 0;
        proof {
            assert(out.deep_view() =~~= visible(self@).subrange(
                self@.revision_index,
                self@.revision_index,
            ));
        }
        while k < self.revision_window_length
            invariant
                self.wf(),
                k <= self@.revision_window,
                self@.revision_index + self@.revision_window <= self.stream.cached(),
                self@.revision_index + self@.revision_window <= usize::MAX,
                out.deep_view() =~~= visible(self@).subrange(
                    self@.revision_index,
                    self@.revision_index + k,
                ),
            decreases self@.revision_window - k,
        {
            let rec = self.stream.record_at(self.revision_index + k).clone();
            let ghost prev = out.deep_view();
            out.push(rec);
            proof {
                assert(out.deep_view() =~~= prev.push(
                    visible(self@)[self@.revision_index + k],
                ));
                assert(out.deep_view() =~~= visible(self@).subrange(
                    self@.revision_index,
                    self@.revision_index + k + 1,
                ));
            }
            k = k + 1;
        }
        out
    }

    /// The selected record, or `None` when the window is empty.
    pub fn commit(&self) -> (r: Option<Record>)
        requires
            self.wf(),
        ensures
            match r {
                Some(rec) => self@.revision_window > 0 && rec@ == visible(self@)[selected_position(
                    self@,
                )],
                None => self@.revision_window == 0,
            },
    {
        if self.revision_window_length == 0 {
            return None;
        }
        proof {
            self.lemma_nav_bounds();
        }
        Some(self.stream.record_at(self.revision_index + self.revision_selected).clone())
    }

    /// The display lines of the selected record's detail, regenerated from
    /// the record; empty when the window is empty.
    pub fn diff(&self) -> (r: Vec<DetailLine>)
        requires
            self.nav_wf(),
        ensures
            r.deep_view() == if self@.revision_window > 0 {
                record_detail(visible(self@)[selected_position(self@)])
            } else {
                Seq::<DetailLineView>::empty()
            },
            r@.len() == selected_detail_total(self@),
    {
        if self.revision_window_length == 0 {
            let out: Vec<DetailLine> = Vec::new();
            proof {
                assert(out.deep_view() =~~= Seq::<DetailLineView>::empty());
            }
            return out;
        }
        proof {
            self.lemma_nav_bounds();
        }
        let rec = self.stream.record_at(self.revision_index + self.revision_selected);
        let out = build_detail_lines(rec);
        proof {
            assert(out.deep_view().len() == out@.len());
        }
        out
    }

    /// Recreates the detail window for the current selection.
    fn diff_reset(&mut self)
        requires
            old(self).nav_wf(),
        ensures
            final(self).wf(),
            final(self)@ == with_detail_reset(old(self)@),
    {
        self.diff_index = 0;
        let lines = self.diff();
        self.diff_length = lines.len();
        proof {
            self.lemma_nav_bounds();
            assert(self@ == with_detail_reset(old(self)@));
        }
    }

    /// Resizes the revision window to `length` rows, shrinking it to the
    /// records available from its position; the window does not move, and
    /// the selection is clamped into it.
    pub fn resize_revision_window(&mut self, length: usize)
        requires
            old(self).wf(),
        ensures
            final(self).wf(),
            final(self)@ == mv_resize(old(self)@, length as int),
    {
        proof {
            old(self).lemma_nav_bounds();
        }
        match self.stream.count_available_from(self.revision_index, length) {
            Ok(c) => {
                let w = if length < c {
                    length
                } else {
                    c
                };
                let old_selected = self.revision_selected;
                let old_window = self.revision_window_length;
                self.revision_window_length = w;
                if self.revision_selected >= w {
                    self.revision_selected = if w > 0 {
                        w - 1
                    } else {
                        0
                    };
                }
                let same_selection = (w == 0 && old_window == 0) || (w > 0 && old_window > 0
                    && self.revision_selected == old_selected);
                if !same_selection {
                    self.diff_reset();
                } else {
                    proof {
                        self.lemma_nav_bounds();
                    }
                }
                proof {
                    assert(self@ == mv_resize(old(self)@, length as int));
                }
            },
            Err(e) => {
                self.app_state = AppState::Finished;
                self.failure = Some(e);
                proof {
                    self.lemma_nav_bounds();
                    assert(self@ == with_failure(old(self)@));
                }
            },
        }
    }

    /// Moves to the first record.
    pub fn go_to_first_revision(&mut self)
        requires
            old(self).wf(),
        ensures
            final(self).wf(),
            final(self)@ == mv_first(old(self)@),
    {
        self.revision_index = 0;
        self.revision_selected = 0;
        self.diff_reset();
    }

    /// Moves to the last record, counting the whole filtered stream.
    pub fn go_to_last_revision(&mut self)
        requires
            old(self).wf(),
        ensures
            final(self).wf(),
            final(self)@ == mv_last(old(self)@),
    {
        match self.stream.total() {
            Ok(t) => {
                proof {
                    old(self).lemma_nav_bounds();
                }
                self.revision_index = t.saturating_sub(self.revision_window_length);
                self.revision_selected = self.revision_window_length.saturating_sub(1);
                self.diff_reset();
                proof {
                    assert(self@ == mv_last(old(self)@));
                }
            },
            Err(e) => {
                self.app_state = AppState::Finished;
                self.failure = Some(e);
                proof {
                    assert(self@ == mv_last(old(self)@));
                }
            },
        }
    }

    /// Moves the selection one record down.
    pub fn increment_revision(&mut self)
        requires
            old(self).wf(),
        ensures
            final(self).wf(),
            final(self)@ == mv_increment(old(self)@),
    {
        if self.revision_window_length == 0 {
            return ;
        }
        proof {
            old(self).lemma_nav_bounds();
        }
        if self.revision_selected + 1 < self.revision_window_length {
            self.revision_selected = self.revision_selected + 1;
            self.diff_reset();
        } else {
            match self.stream.count_available_from(
                self.revision_index + self.revision_window_length,
                1,
            ) {
                Ok(c) => {
                    if c > 0 {
                        self.revision_index = self.revision_index + 1;
                    }
                    self.diff_reset();
                    proof {
                        assert(self@ == mv_increment(old(self)@));
                    }
                },
                Err(e) => {
                    self.app_state = AppState::Finished;
                    self.failure = Some(e);
                    proof {
                        assert(self@ == mv_increment(old(self)@));
                    }
                },
            }
        }
    }

    /// Moves the selection one record up.
    pub fn decrement_revision(&mut self)
        requires
            old(self).wf(),
        ensures
            final(self).wf(),
            final(self)@ == mv_decrement(old(self)@),
    {
        if self.revision_window_length == 0 {
            return ;
        }
        if self.revision_selected > 0 {
            self.revision_selected = self.revision_selected - 1;
        } else {
            self.revision_index = self.revision_index.saturating_sub(1);
        }
        self.diff_reset();
    }

    /// The detail scroll triple: line index, window length, total lines.
    pub fn diff_line_scroll(&self) -> (r: (usize, usize, usize))
        ensures
            r.0 as int == self@.diff_index,
            r.1 as int == self@.diff_window,
            r.2 as int == self@.diff_total,
    {
        (self.diff_index, self.diff_window_length, self.diff_length)
    }

    /// Resizes the detail window, clamping the scroll position so the
    /// window never overruns the content.
    pub fn resize_diff_window(&mut self, window_length: usize)
        requires
            old(self).wf(),
        ensures
            final(self).wf(),
            final(self)@ == mv_resize_diff(old(self)@, window_length as int),
    {
        self.diff_window_length = window_length;
        let clamp = self.diff_length.saturating_sub(window_length);
        if self.diff_index > clamp {
            self.diff_index = clamp;
        }
    }

    /// Scrolls the detail to its first line.
    pub fn go_to_first_diff_line(&mut self)
        requires
            old(self).wf(),
        ensures
            final(self).wf(),
            final(self)@ == mv_diff_first(old(self)@),
    {
        self.diff_index = 0;
    }

    /// Scrolls the detail so the window ends at its last line.
    pub fn go_to_last_diff_line(&mut self)
        requires
            old(self).wf(),
        ensures
            final(self).wf(),
            final(self)@ == mv_diff_last(old(self)@),
    {
        self.diff_index = self.diff_length.saturating_sub(self.diff_window_length);
    }

    /// Scrolls the detail one line down, clamped to the content.
    pub fn increment_diff_line(&mut self)
        requires
            old(self).wf(),
        ensures
            final(self).wf(),
            final(self)@ == mv_diff_increment(old(self)@),
    {
        if self.diff_index < self.diff_length.saturating_sub(self.diff_window_length) {
            self.diff_index = self.diff_index + 1;
        }
    }

    /// Scrolls the detail one line up.
    pub fn decrement_diff_line(&mut self)
        requires
            old(self).wf(),
        ensures
            final(self).wf(),
            final(self)@ == mv_diff_decrement(old(self)@),
    {
        self.diff_index = self.diff_index.saturating_sub(1);
    }

    /// Scrolls the detail one viewport forward: `increment` applied once
    /// per window row, with the same clamping.
    pub fn page_forward_diff_lines(&mut self)
        requires
            old(self).wf(),
        ensures
            final(self).wf(),
            final(self)@ == mv_diff_page_forward(old(self)@),
    {
        let n = self.diff_window_length;
        let mut k: usize = 0;
        while k < n
            invariant
                k <= n,
                n as int == old(self)@.diff_window,
                self.wf(),
                self@ == (ModelView {
                    diff_index: min_int(
                        old(self)@.diff_index + k,
                        monus(old(self)@.diff_total, old(self)@.diff_window),
                    ),
                    ..old(self)@
                }),
            decreases n - k,
        {
            self.increment_diff_line();
            k = k + 1;
        }
        proof {
            assert(self@ == mv_diff_page_forward(old(self)@));
        }
    }

    /// Scrolls the detail one viewport back: `decrement` applied once per
    /// window row.
    pub fn page_back_diff_lines(&mut self)
        requires
            old(self).wf(),
        ensures
            final(self).wf(),
            final(self)@ == mv_diff_page_back(old(self)@),
    {
        let n = self.diff_window_length;
        let mut k: usize = 0;
        while k < n
            invariant
                k <= n,
                n as int == old(self)@.diff_window,
                self.wf(),
                self@ == (ModelView {
                    diff_index: monus(old(self)@.diff_index, k as int),
                    ..old(self)@
                }),
            decreases n - k,
        {
            self.decrement_diff_line();
            k = k + 1;
        }
        proof {
            assert(self@ == mv_diff_page_back(old(self)@));
        }
    }

    /// The scrollbar geometry for the detail pane in a viewport `height`
    /// cells tall.  The pair never overruns the viewport.
    pub fn diff_scrollbar(&self, height: u16) -> (r: (u16, u16))
        requires
            self.wf(),
        ensures
            r.0 + r.1 <= height,
            self@.diff_total == 0 ==> r == (0u16, 0u16),
            self@.diff_total > 0 ==> r.0 as int == bar_offset(
                height as int,
                self@.diff_index,
                self@.diff_total,
            ) && r.1 as int == bar_size(height as int, self@.diff_window, self@.diff_total),
    {
        vertical_bar_geometry(height, self.diff_index, self.diff_window_length, self.diff_length)
    }
}

} // verus!
