//! The filtered view over an ordered record stream, with its position cache.
//!
//! The view walks the underlying records once, front to back, evaluating the
//! filter set against each record and remembering the position of every
//! match in an append-only cache.  A positional query is answered from the
//! cache when it can be; otherwise the walk continues from where it last
//! stopped, never from the start.  The walk stops at the first record on
//! which the filter set cannot be evaluated; queries that would need to look
//! past that record fail with a `TraversalError`.

use vstd::prelude::*;

use crate::errors::TraversalError;
use crate::filter::{apply_all, row_eval, CommitFilter};
use crate::record::{Record, RecordView};

verus! {

/// Positions (indices into the source) of the records among the first `n`
/// that the filter set admits, in order.
pub open spec fn match_indices_upto(
    recs: Seq<RecordView>,
    fs: Seq<CommitFilter>,
    n: int,
) -> Seq<int>
    decreases n,
{
    if n <= 0 {
        Seq::empty()
    } else if row_eval(fs, recs[n - 1]) == Some(true) {
        match_indices_upto(recs, fs, n - 1).push(n - 1)
    } else {
        match_indices_upto(recs, fs, n - 1)
    }
}

/// Every row before `n` can be evaluated.
pub open spec fn rows_ok(recs: Seq<RecordView>, fs: Seq<CommitFilter>, n: int) -> bool {
    forall|i: int| 0 <= i < n ==> (#[trigger] row_eval(fs, recs[i])).is_some()
}

pub open spec fn ok_len_from(recs: Seq<RecordView>, fs: Seq<CommitFilter>, i: int) -> int
    decreases recs.len() - i,
{
    if i >= recs.len() {
        recs.len() as int
    } else if row_eval(fs, recs[i]).is_none() {
        i
    } else {
        ok_len_from(recs, fs, i + 1)
    }
}

/// Length of the longest prefix of the source on which every row can be
/// evaluated: the traversal can never look past this point.
pub open spec fn ok_len(recs: Seq<RecordView>, fs: Seq<CommitFilter>) -> int {
    ok_len_from(recs, fs, 0)
}

/// The records of the filtered stream that the traversal can reach before
/// any evaluation failure, in stream order.
pub open spec fn visible_records(recs: Seq<RecordView>, fs: Seq<CommitFilter>) -> Seq<
    RecordView,
> {
    match_indices_upto(recs, fs, ok_len(recs, fs)).map_values(|i: int| recs[i])
}

/// Whether an evaluation failure cuts the stream short: some row cannot be
/// evaluated, so the stream's end can never be reached.
pub open spec fn stream_blocked(recs: Seq<RecordView>, fs: Seq<CommitFilter>) -> bool {
    ok_len(recs, fs) < recs.len()
}

proof fn lemma_ok_len_from_bounds(recs: Seq<RecordView>, fs: Seq<CommitFilter>, i: int)
    requires
        0 <= i <= recs.len(),
    ensures
        i <= ok_len_from(recs, fs, i) <= recs.len(),
        forall|j: int|
            i <= j < ok_len_from(recs, fs, i) ==> (#[trigger] row_eval(fs, recs[j])).is_some(),
        ok_len_from(recs, fs, i) < recs.len() ==> row_eval(
            fs,
            recs[ok_len_from(recs, fs, i)],
        ).is_none(),
    decreases recs.len() - i,
{
    if i < recs.len() && !row_eval(fs, recs[i]).is_none() {
        lemma_ok_len_from_bounds(recs, fs, i + 1);
    }
}

proof fn lemma_ok_len_from_ge(recs: Seq<RecordView>, fs: Seq<CommitFilter>, i: int, n: int)
    requires
        0 <= i <= n <= recs.len(),
        forall|j: int| i <= j < n ==> (#[trigger] row_eval(fs, recs[j])).is_some(),
    ensures
        ok_len_from(recs, fs, i) >= n,
    decreases n - i,
{
    if i < n {
        lemma_ok_len_from_ge(recs, fs, i + 1, n);
    } else {
        lemma_ok_len_from_bounds(recs, fs, i);
    }
}

/// The basic facts about `ok_len`: it is a prefix length, every row before
/// it can be evaluated, the row at it (if any) cannot, and it is at least
/// any prefix length whose rows can all be evaluated.
pub proof fn lemma_ok_len(recs: Seq<RecordView>, fs: Seq<CommitFilter>)
    ensures
        0 <= ok_len(recs, fs) <= recs.len(),
        rows_ok(recs, fs, ok_len(recs, fs)),
        stream_blocked(recs, fs) ==> row_eval(fs, recs[ok_len(recs, fs)]).is_none(),
        forall|n: int| 0 <= n <= recs.len() && rows_ok(recs, fs, n) ==> n <= ok_len(recs, fs),
{
    lemma_ok_len_from_bounds(recs, fs, 0);
    assert forall|n: int| 0 <= n <= recs.len() && rows_ok(recs, fs, n) implies n <= ok_len(
        recs,
        fs,
    ) by {
        lemma_ok_len_from_ge(recs, fs, 0, n);
    }
}

/// The basic facts about the match positions among the first `n` rows: each
/// is a position of a matching row below `n`, they increase strictly, and
/// there are no more of them than rows.
pub proof fn lemma_match_indices(recs: Seq<RecordView>, fs: Seq<CommitFilter>, n: int)
    ensures
        match_indices_upto(recs, fs, n).len() <= if n >= 0 {
            n
        } else {
            0
        },
        forall|k: int|
            0 <= k < match_indices_upto(recs, fs, n).len() ==> 0 <= #[trigger] match_indices_upto(
                recs,
                fs,
                n,
            )[k] < n && row_eval(fs, recs[match_indices_upto(recs, fs, n)[k]]) == Some(true),
        forall|k1: int, k2: int|
            0 <= k1 < k2 < match_indices_upto(recs, fs, n).len() ==> #[trigger] match_indices_upto(
                recs,
                fs,
                n,
            )[k1] < #[trigger] match_indices_upto(recs, fs, n)[k2],
    decreases n,
{
    if n > 0 {
        lemma_match_indices(recs, fs, n - 1);
    }
}

/// Extending the scanned prefix only appends match positions: the positions
/// among the first `n1` rows are a prefix of those among the first `n2`.
pub proof fn lemma_match_indices_prefix(
    recs: Seq<RecordView>,
    fs: Seq<CommitFilter>,
    n1: int,
    n2: int,
)
    requires
        n1 <= n2,
    ensures
        match_indices_upto(recs, fs, n1).len() <= match_indices_upto(recs, fs, n2).len(),
        match_indices_upto(recs, fs, n1) == match_indices_upto(recs, fs, n2).take(
            match_indices_upto(recs, fs, n1).len() as int,
        ),
    decreases n2 - n1,
{
    if n1 < n2 {
        lemma_match_indices_prefix(recs, fs, n1, n2 - 1);
        assert(match_indices_upto(recs, fs, n1) =~= match_indices_upto(recs, fs, n2).take(
            match_indices_upto(recs, fs, n1).len() as int,
        ));
    } else {
        assert(match_indices_upto(recs, fs, n1) =~= match_indices_upto(recs, fs, n2).take(
            match_indices_upto(recs, fs, n1).len() as int,
        ));
    }
}

/// The filtered stream never has more visible records than the source has
/// records.
pub proof fn lemma_visible_bound(recs: Seq<RecordView>, fs: Seq<CommitFilter>)
    ensures
        visible_records(recs, fs).len() <= recs.len(),
{
    lemma_ok_len(recs, fs);
    lemma_match_indices(recs, fs, ok_len(recs, fs));
    assert(visible_records(recs, fs).len() == match_indices_upto(recs, fs, ok_len(recs, fs)).len());
}

/// A filtered view over an ordered record stream.  Owns the records, the
/// filter set, and the position cache.
pub struct CommitView {
    records: Vec<Record>,
    filters: Vec<CommitFilter>,
    cache: Vec<usize>,
    cursor: usize,
}

impl CommitView {
    /// The underlying record stream.
    pub closed spec fn src(self) -> Seq<RecordView> {
        self.records.deep_view()
    }

    /// The filter set.
    pub closed spec fn fs(self) -> Seq<CommitFilter> {
        self.filters@
    }

    /// How many positions of the filtered stream the cache holds.
    pub closed spec fn cached(self) -> nat {
        self.cache@.len()
    }

    /// The cache is exactly the match positions of the scanned prefix, and
    /// every scanned row could be evaluated.
    pub closed spec fn wf(self) -> bool {
        &&& self.records@.len() <= usize::MAX
        &&& self.cursor <= self.records@.len()
        &&& rows_ok(self.src(), self.fs(), self.cursor as int)
        &&& self.cache@.map_values(|u: usize| u as int) == match_indices_upto(
            self.src(),
            self.fs(),
            self.cursor as int,
        )
    }

    /// A well-formed view never caches more positions than the filtered
    /// stream has visible records, and the cached prefix agrees with the
    /// visible records.
    pub proof fn lemma_cached_visible(self)
        requires
            self.wf(),
        ensures
            self.cached() <= visible_records(self.src(), self.fs()).len(),
    {
        lemma_ok_len(self.src(), self.fs());
        lemma_ok_len_from_ge(self.src(), self.fs(), 0, self.cursor as int);
        lemma_match_indices_prefix(
            self.src(),
            self.fs(),
            self.cursor as int,
            ok_len(self.src(), self.fs()),
        );
        assert(self.cache@.map_values(|u: usize| u as int).len() == self.cache@.len());
    }

    /// A well-formed view holds no more cached positions than the stream
    /// has records, and in particular their number fits a machine word.
    pub proof fn lemma_cached_bound(self)
        requires
            self.wf(),
        ensures
            self.cached() <= self.src().len() <= usize::MAX,
    {
        lemma_match_indices(self.src(), self.fs(), self.cursor as int);
        assert(self.cache@.map_values(|u: usize| u as int).len() == self.cache@.len());
    }

    proof fn lemma_cache_entry(self, k: int)
        requires
            self.wf(),
            0 <= k < self.cached(),
        ensures
            k < visible_records(self.src(), self.fs()).len(),
            0 <= self.cache@[k] < self.records@.len(),
            self.src()[self.cache@[k] as int] == visible_records(self.src(), self.fs())[k],
    {
        let recs = self.src();
        let fs = self.fs();
        let cur = self.cursor as int;
        let ok = ok_len(recs, fs);
        self.lemma_cached_visible();
        lemma_ok_len(recs, fs);
        lemma_ok_len_from_ge(recs, fs, 0, cur);
        lemma_match_indices(recs, fs, cur);
        lemma_match_indices_prefix(recs, fs, cur, ok);
        assert(self.cache@.map_values(|u: usize| u as int)[k] == self.cache@[k] as int);
        assert(match_indices_upto(recs, fs, cur)[k] == match_indices_upto(recs, fs, ok)[k]);
        assert(visible_records(recs, fs)[k] == recs[match_indices_upto(recs, fs, ok)[k]]);
    }

    /// A fresh view over the given records and filters, with nothing cached.
    pub fn new(records: Vec<Record>, filters: Vec<CommitFilter>) -> (r: CommitView)
        ensures
            r.wf(),
            r.src() == records.deep_view(),
            r.fs() == filters@,
            r.cached() == 0,
    {
        let bound = records.len();
        let r = CommitView { records, filters, cache: Vec::new(), cursor: 0 };
        proof {
            assert(r.records@.len() == bound as int);
            assert(r.cache@.map_values(|u: usize| u as int) =~= match_indices_upto(
                r.src(),
                r.fs(),
                0,
            ));
        }
        r
    }

    /// Replaces the underlying records, keeping the filter set; the cache
    /// is cleared, since it was valid only for the old stream.
    pub fn reset_with_records(&mut self, records: Vec<Record>)
        ensures
            final(self).wf(),
            final(self).src() == records.deep_view(),
            final(self).fs() == old(self).fs(),
            final(self).cached() == 0,
    {
        let bound = records.len();
        self.records = records;
        self.cache = Vec::new();
        self.cursor = 0;
        proof {
            assert(self.records@.len() == bound as int);
            assert(self.cache@.map_values(|u: usize| u as int) =~= match_indices_upto(
                self.src(),
                self.fs(),
                0,
            ));
        }
    }

    /// Continues the walk until the cache holds `want` positions, the stream
    /// ends, or a row cannot be evaluated.
    fn extend_to(&mut self, want: usize) -> (r: Result<(), TraversalError>)
        requires
            old(self).wf(),
        ensures
            final(self).wf(),
            final(self).src() == old(self).src(),
            final(self).fs() == old(self).fs(),
            old(self).cached() <= final(self).cached(),
            match r {
                Ok(()) => final(self).cached() >= want || (!stream_blocked(
                    old(self).src(),
                    old(self).fs(),
                ) && final(self).cached() == visible_records(
                    old(self).src(),
                    old(self).fs(),
                ).len()),
                Err(e) => {
                    &&& stream_blocked(old(self).src(), old(self).fs())
                    &&& final(self).cached() == visible_records(
                        old(self).src(),
                        old(self).fs(),
                    ).len()
                    &&& visible_records(old(self).src(), old(self).fs()).len() < want
                    &&& e.id == old(self).src()[ok_len(old(self).src(), old(self).fs())].id
                },
            },
    {
        let ghost recs = self.src();
        let ghost fs = self.fs();
        while self.cache.len() < want && self.cursor < self.records.len()
            invariant
                self.wf(),
                self.src() == recs,
                self.fs() == fs,
                recs == old(self).src(),
                fs == old(self).fs(),
                old(self).cached() <= self.cached(),
            decreases self.records@.len() - self.cursor,
        {
            let idx = self.cursor;
            let ghost prev_cache = self.cache@;
            match apply_all(&self.filters, &self.records[idx]) {
                Ok(matched) => {
                    proof {
                        assert(self.records[idx as int]@ == recs[idx as int]);
                        assert(row_eval(fs, recs[idx as int]).is_some());
                    }
                    if matched {
                        self.cache.push(idx);
                        proof {
                            assert(self.cache@.map_values(|u: usize| u as int) =~= prev_cache
                                .map_values(|u: usize| u as int).push(idx as int));
                        }
                    }
                    self.cursor = idx + 1;
                    proof {
                        assert(rows_ok(recs, fs, idx + 1));
                        assert(self.cache@.map_values(|u: usize| u as int) =~= match_indices_upto(
                            recs,
                            fs,
                            idx + 1,
                        ));
                    }
                },
                Err(e) => {
                    proof {
                        assert(self.records[idx as int]@ == recs[idx as int]);
                        assert(row_eval(fs, recs[idx as int]).is_none());
                        lemma_ok_len(recs, fs);
                        lemma_ok_len_from_ge(recs, fs, 0, idx as int);
                        assert(ok_len(recs, fs) == idx as int);
                        lemma_match_indices(recs, fs, idx as int);
                        assert(self.cache@.map_values(|u: usize| u as int).len()
                            == self.cache@.len());
                        assert(visible_records(recs, fs).len() == match_indices_upto(
                            recs,
                            fs,
                            idx as int,
                        ).len());
                    }
                    return Err(e);
                },
            }
        }
        proof {
            if self.cursor == self.records@.len() {
                lemma_ok_len(recs, fs);
                assert(ok_len(recs, fs) == recs.len());
                assert(self.cache@.map_values(|u: usize| u as int).len() == self.cache@.len());
                assert(visible_records(recs, fs).len() == match_indices_upto(
                    recs,
                    fs,
                    recs.len() as int,
                ).len());
            }
        }
        Ok(())
    }

    /// The record cached for a position of the filtered stream.
    pub fn record_at(&self, position: usize) -> (r: &Record)
        requires
            self.wf(),
            position < self.cached(),
        ensures
            position < visible_records(self.src(), self.fs()).len(),
            r@ == visible_records(self.src(), self.fs())[position as int],
    {
        proof {
            self.lemma_cache_entry(position as int);
            assert(self.cache@.map_values(|u: usize| u as int)[position as int]
                == self.cache@[position as int] as int);
        }
        let idx = self.cache[position];
        &self.records[idx]
    }

    /// The record at a position of the filtered stream: `Ok(Some(record))`
    /// when the position is reachable, `Ok(None)` when the stream ends
    /// cleanly before it, and a `TraversalError` when an evaluation failure
    /// stands in the way.  Extends the cache as a side effect; a position
    /// already cached is answered without touching the underlying stream.
    pub fn get(&mut self, position: usize) -> (r: Result<Option<Record>, TraversalError>)
        requires
            old(self).wf(),
        ensures
            final(self).wf(),
            final(self).src() == old(self).src(),
            final(self).fs() == old(self).fs(),
            old(self).cached() <= final(self).cached(),
            match r {
                Ok(Some(rec)) => {
                    &&& (position as int) < visible_records(old(self).src(), old(self).fs()).len()
                    &&& rec@ == visible_records(old(self).src(), old(self).fs())[position as int]
                    &&& (position as int) < final(self).cached()
                },
                Ok(None) => !stream_blocked(old(self).src(), old(self).fs())
                    && visible_records(old(self).src(), old(self).fs()).len() <= position as int,
                Err(e) => {
                    &&& stream_blocked(old(self).src(), old(self).fs())
                    &&& visible_records(old(self).src(), old(self).fs()).len() <= position as int
                    &&& e.id == old(self).src()[ok_len(old(self).src(), old(self).fs())].id
                },
            },
    {
        let want = if position == usize::MAX {
            usize::MAX
        } else {
            position + 1
        };
        match self.extend_to(want) {
            Err(e) => {
                proof {
                    self.lemma_cached_visible();
                }
                Err(e)
            },
            Ok(()) => {
                if position < self.cache.len() {
                    let rec = self.record_at(position).clone();
                    Ok(Some(rec))
                } else {
                    proof {
                        self.lemma_cached_visible();
                        if self.cached() >= usize::MAX {
                            self.lemma_full_cache_means_scanned();
                        }
                    }
                    Ok(None)
                }
            },
        }
    }

    /// How many records the filtered stream has from `position` on, counted
    /// only up to `limit`: the count never overshoots `limit`, and the walk
    /// stops as soon as `limit` matches are in reach.  Fails only when an
    /// evaluation failure is hit before the count is settled.
    pub fn count_available_from(&mut self, position: usize, limit: usize) -> (r: Result<
        usize,
        TraversalError,
    >)
        requires
            old(self).wf(),
        ensures
            final(self).wf(),
            final(self).src() == old(self).src(),
            final(self).fs() == old(self).fs(),
            old(self).cached() <= final(self).cached(),
            match r {
                Ok(c) => {
                    let vis = visible_records(old(self).src(), old(self).fs()).len() as int;
                    &&& c as int == if vis >= position + limit {
                        limit as int
                    } else if vis >= position as int {
                        vis - position
                    } else {
                        0
                    }
                    &&& (c == limit || !stream_blocked(old(self).src(), old(self).fs()))
                    &&& final(self).cached() >= if vis >= position + limit {
                        position + limit
                    } else {
                        vis
                    }
                },
                Err(e) => {
                    &&& stream_blocked(old(self).src(), old(self).fs())
                    &&& visible_records(old(self).src(), old(self).fs()).len() < position + limit
                    &&& e.id == old(self).src()[ok_len(old(self).src(), old(self).fs())].id
                },
            },
    {
        let ghost vis = visible_records(old(self).src(), old(self).fs()).len() as int;
        match position.checked_add(limit) {
            Some(want) => {
                match self.extend_to(want) {
                    Err(e) => {
                        proof {
                            self.lemma_cached_visible();
                        }
                        Err(e)
                    },
                    Ok(()) => {
                        proof {
                            self.lemma_cached_visible();
                        }
                        if self.cache.len() >= want {
                            Ok(limit)
                        } else {
                            let avail = self.cache.len();
                            if avail > position {
                                Ok(avail - position)
                            } else {
                                Ok(0)
                            }
                        }
                    },
                }
            },
            None => {
                // `position + limit` exceeds every possible count, so the
                // answer needs the full remainder of the stream.
                match self.extend_to(usize::MAX) {
                    Err(e) => {
                        proof {
                            self.lemma_cached_visible();
                        }
                        Err(e)
                    },
                    Ok(()) => {
                        proof {
                            self.lemma_cached_visible();
                            if self.cached() >= usize::MAX {
                                self.lemma_full_cache_means_scanned();
                            }
                        }
                        let avail = self.cache.len();
                        if avail > position {
                            Ok(avail - position)
                        } else {
                            Ok(0)
                        }
                    },
                }
            },
        }
    }

    /// With `usize::MAX` positions cached, the whole stream was scanned.
    proof fn lemma_full_cache_means_scanned(self)
        requires
            self.wf(),
            self.cached() >= usize::MAX,
        ensures
            self.cached() == visible_records(self.src(), self.fs()).len(),
            !stream_blocked(self.src(), self.fs()),
    {
        lemma_match_indices(self.src(), self.fs(), self.cursor as int);
        assert(self.cache@.map_values(|u: usize| u as int).len() == self.cache@.len());
        assert(self.cursor == self.records@.len());
        lemma_ok_len(self.src(), self.fs());
        assert(ok_len(self.src(), self.fs()) == self.src().len());
    }

    /// The total number of records in the filtered stream.  Walks whatever
    /// remains unscanned, so afterwards every position is cached; fails when
    /// any evaluation failure exists anywhere in the stream.
    pub fn total(&mut self) -> (r: Result<usize, TraversalError>)
        requires
            old(self).wf(),
        ensures
            final(self).wf(),
            final(self).src() == old(self).src(),
            final(self).fs() == old(self).fs(),
            old(self).cached() <= final(self).cached(),
            match r {
                Ok(t) => {
                    &&& !stream_blocked(old(self).src(), old(self).fs())
                    &&& t as int == visible_records(old(self).src(), old(self).fs()).len()
                    &&& final(self).cached() == visible_records(
                        old(self).src(),
                        old(self).fs(),
                    ).len()
                },
                Err(e) => {
                    &&& stream_blocked(old(self).src(), old(self).fs())
                    &&& e.id == old(self).src()[ok_len(old(self).src(), old(self).fs())].id
                },
            },
    {
        match self.extend_to(usize::MAX) {
            Err(e) => Err(e),
            Ok(()) => {
                proof {
                    if self.cached() >= usize::MAX {
                        self.lemma_full_cache_means_scanned();
                    }
                }
                Ok(self.cache.len())
            },
        }
    }
}

} // verus!
