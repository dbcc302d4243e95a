//! Record filters and their evaluation.
//!
//! A filter set is an ordered list of filters; a record belongs to the
//! filtered stream when any filter matches it, and an empty set matches
//! every record.  Evaluation walks the set left to right and stops at the
//! first match or at the first filter that cannot be evaluated against the
//! record; the latter is an evaluation failure, never a silent mismatch.

use vstd::prelude::*;
use vstd::string::*;

use crate::errors::TraversalError;
use crate::record::{Record, RecordView};
use crate::text::{contains_text, text_contains};

verus! {

/// A predicate over records, deciding membership in the filtered stream.
pub enum CommitFilter {
    /// Matches records touching a path that starts with the given
    /// components.
    Path(Vec<String>),
    /// Matches records whose identity is in the given list.
    Ids(Vec<u64>),
    /// Matches records whose message contains the given text.
    Text(String),
}

/// Component-wise prefix test on paths.
pub open spec fn path_has_prefix(prefix: Seq<Seq<char>>, path: Seq<Seq<char>>) -> bool {
    prefix.len() <= path.len() && forall|i: int| 0 <= i < prefix.len() ==> path[i] == prefix[i]
}

/// What evaluating one filter against one record yields: `None` when the
/// record lacks the data the filter needs, otherwise whether it matches.
pub open spec fn filter_eval(f: CommitFilter, r: RecordView) -> Option<bool> {
    match f {
        CommitFilter::Path(prefix) => if r.paths_known {
            Some(
                exists|i: int|
                    0 <= i < r.paths.len() && path_has_prefix(
                        prefix.deep_view(),
                        #[trigger] r.paths[i],
                    ),
            )
        } else {
            None
        },
        CommitFilter::Ids(ids) => Some(ids@.contains(r.id)),
        CommitFilter::Text(t) => Some(contains_text(r.message, t@)),
    }
}

pub open spec fn any_eval_from(fs: Seq<CommitFilter>, r: RecordView, i: int) -> Option<bool>
    decreases fs.len() - i,
{
    if i < 0 || i >= fs.len() {
        Some(false)
    } else {
        match filter_eval(fs[i], r) {
            None => None,
            Some(true) => Some(true),
            Some(false) => any_eval_from(fs, r, i + 1),
        }
    }
}

/// What evaluating a whole filter set against one record yields: `Some(true)`
/// for membership, `Some(false)` for a record every filter rejects, `None`
/// when evaluation fails before any filter matches.  The empty set admits
/// every record.
pub open spec fn row_eval(fs: Seq<CommitFilter>, r: RecordView) -> Option<bool> {
    if fs.len() == 0 {
        Some(true)
    } else {
        any_eval_from(fs, r, 0)
    }
}

proof fn lemma_any_eval_skip(fs: Seq<CommitFilter>, r: RecordView, a: int, b: int)
    requires
        0 <= a <= b <= fs.len(),
        forall|j: int| a <= j < b ==> #[trigger] filter_eval(fs[j], r) == Some(false),
    ensures
        any_eval_from(fs, r, a) == any_eval_from(fs, r, b),
    decreases b - a,
{
    if a < b {
        lemma_any_eval_skip(fs, r, a + 1, b);
    }
}

fn path_starts_with(prefix: &Vec<String>, path: &Vec<String>) -> (r: bool)
    ensures
        r == path_has_prefix(prefix.deep_view(), path.deep_view()),
{
    if prefix.len() > path.len() {
        return false;
    }
    let mut i: usize = 0;
    while i < prefix.len()
        invariant
            i <= prefix@.len() <= path@.len(),
            forall|j: int| 0 <= j < i ==> path.deep_view()[j] == prefix.deep_view()[j],
        decreases prefix@.len() - i,
    {
        if !(prefix[i] == path[i]) {
            proof {
                assert(path.deep_view()[i as int] != prefix.deep_view()[i as int]);
            }
            return false;
        }
        i = i + 1;
    }
    true
}

fn ids_contain(ids: &Vec<u64>, id: u64) -> (r: bool)
    ensures
        r == ids@.contains(id),
{
    let mut i: usize = 0;
    while i < ids.len()
        invariant
            i <= ids@.len(),
            forall|j: int| 0 <= j < i ==> ids@[j] != id,
        decreases ids@.len() - i,
    {
        if ids[i] == id {
            return true;
        }
        i = i + 1;
    }
    false
}

impl CommitFilter {
    /// Whether this filter admits the record.  Fails when the record lacks
    /// the data the filter needs (a path filter on a record whose touched
    /// paths are unknown); the failure names the record.
    #[verifier::loop_isolation(false)]
    pub fn apply(&self, commit: &Record) -> (r: Result<bool, TraversalError>)
        ensures
            match r {
                Ok(b) => filter_eval(*self, commit@) == Some(b),
                Err(e) => filter_eval(*self, commit@) == None::<bool> && e.id == commit@.id,
            },
    {
        match self {
            CommitFilter::Path(prefix) => {
                if !commit.paths_known {
                    return Err(TraversalError { id: commit.id });
                }
                let mut i: usize = 0;
                while i < commit.paths.len()
                    invariant
                        i <= commit.paths@.len(),
                        forall|j: int|
                            0 <= j < i ==> !path_has_prefix(
                                prefix.deep_view(),
                                #[trigger] commit@.paths[j],
                            ),
                    decreases commit.paths@.len() - i,
                {
                    if path_starts_with(prefix, &commit.paths[i]) {
                        proof {
                            assert(commit.paths[i as int].deep_view() == commit@.paths[i as int]);
                            assert(path_has_prefix(prefix.deep_view(), commit@.paths[i as int]));
                            assert(exists|k: int|
                                0 <= k < commit@.paths.len() && path_has_prefix(
                                    prefix.deep_view(),
                                    #[trigger] commit@.paths[k],
                                ));
                        }
                        return Ok(true);
                    }
                    i = i + 1;
                }
                Ok(false)
            },
            CommitFilter::Ids(ids) => Ok(ids_contain(ids, commit.id)),
            CommitFilter::Text(t) => Ok(text_contains(commit.message.as_str(), t.as_str())),
        }
    }
}

/// Whether the filter set admits the record: membership in the filtered
/// stream.  Fails exactly when evaluation fails before any filter matches.
pub fn apply_all(filters: &Vec<CommitFilter>, commit: &Record) -> (r: Result<
    bool,
    TraversalError,
>)
    ensures
        match r {
            Ok(b) => row_eval(filters@, commit@) == Some(b),
            Err(e) => row_eval(filters@, commit@) == None::<bool> && e.id == commit@.id,
        },
{
    if filters.len() == 0 {
        return Ok(true);
    }
    let mut i: usize = 0;
    while i < filters.len()
        invariant
            i <= filters@.len(),
            filters@.len() > 0,
            forall|j: int| 0 <= j < i ==> #[trigger] filter_eval(filters@[j], commit@) == Some(
                false,
            ),
        decreases filters@.len() - i,
    {
        match filters[i].apply(commit) {
            Ok(true) => {
                proof {
                    lemma_any_eval_skip(filters@, commit@, 0, i as int);
                }
                return Ok(true);
            },
            Ok(false) => {},
            Err(e) => {
                proof {
                    lemma_any_eval_skip(filters@, commit@, 0, i as int);
                }
                return Err(e);
            },
        }
        i = i + 1;
    }
    proof {
        lemma_any_eval_skip(filters@, commit@, 0, filters@.len() as int);
    }
    Ok(false)
}

} // verus!
