//! A windowed navigation engine for browsing an ordered, filterable history
//! of records and the line-oriented detail of the selected record.
//!
//! The engine keeps scroll offset, selection, and detail-scroll state
//! consistent while the record stream is produced lazily and the viewport is
//! resized at runtime.  Repeated positional queries are answered from an
//! append-only position cache so that a query never re-runs the filtered
//! traversal from the start.

pub mod controller;
pub mod detail;
pub mod errors;
pub mod filter;
pub mod instrument;
pub mod laws;
pub mod model;
pub mod record;
pub mod stream;
pub mod text;
pub mod widgets;
