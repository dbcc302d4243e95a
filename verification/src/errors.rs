use vstd::prelude::*;

verus! {

/// The backing record stream failed while the engine was walking it: a filter
/// could not be evaluated against a record (for example, the data the filter
/// needs is missing for that record).  Fatal to the current session.
#[derive(Debug)]
pub struct TraversalError {
    /// Identity of the record on which evaluation failed.
    pub id: u64,
}

/// Construction of the engine was rejected before any interactive session
/// started.
#[derive(Debug)]
pub enum ConstructionError {
    /// The start-point specifier did not resolve to a point in the history.
    /// Raised by the caller that resolves specifiers, never by the engine.
    InvalidStartPoint,
    /// The filtered stream yields no records at all.
    NoRecords,
    /// The stream failed before a first record could be produced.
    Traversal(TraversalError),
}

impl Clone for TraversalError {
    fn clone(&self) -> (res: Self)
        ensures
            res == *self,
    {
        TraversalError { id: self.id }
    }
}

} // verus!
