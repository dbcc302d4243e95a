//! Simple instrumentation: remembering the slowest observed step of the
//! interactive loop, tagged with the scroll position it happened at.

use vstd::prelude::*;

use crate::model::AppModel;

use core::time::Duration;
use std::time::Instant;

verus! {

#[verifier::external_type_specification]
#[verifier::external_body]
pub struct ExInstant(Instant);

/// Relies on `std::time::Instant::elapsed`; nothing is promised of the
/// measured time, which depends on the clock.
pub assume_specification[ Instant::elapsed ](instant: &Instant) -> Duration;

/// Relies on `core::time::Duration::as_nanos`; nothing is promised of the
/// value.
pub assume_specification[ Duration::as_nanos ](duration: &Duration) -> u128;

/// A running record of the slowest observed step: its duration and the
/// scroll index at which it happened.
pub struct Timing {
    pub name: String,
    pub index: usize,
    pub duration_nanos: u128,
}

impl Timing {
    /// A fresh record with nothing observed yet.
    pub fn new(name: String) -> (r: Timing)
        ensures
            r.name == name,
            r.index == 0,
            r.duration_nanos == 0,
    {
        Timing { name, index: 0, duration_nanos: 0 }
    }

    /// Replaces the stored peak when the time elapsed since `instant`
    /// exceeds it.  What the clock reports is outside the engine's control,
    /// so all that is promised is: either the record is unchanged, or it
    /// now holds the given index and a strictly larger duration.
    pub fn record_max(&mut self, instant: Instant, index: usize)
        ensures
            final(self).name == old(self).name,
            *final(self) == *old(self) || (final(self).index == index
                && final(self).duration_nanos > old(self).duration_nanos),
    {
        let duration = instant.elapsed();
        let nanos = duration.as_nanos();
        if self.duration_nanos < nanos {
            self.duration_nanos = nanos;
            self.index = index;
        }
    }
}

/// What `Timing::describe` renders: the name, the peak in whole
/// milliseconds, and the index it was observed at.
pub open spec fn timing_text(name: Seq<char>, millis: nat, index: nat) -> Seq<char> {
    name + ": "@ + crate::text::decimal_digits(millis) + "ms (index "@ + crate::text::decimal_digits(
        index,
    ) + ")"@
}

impl Timing {
    /// The record rendered as one line of text.
    pub fn describe(&self) -> (r: String)
        ensures
            r@ == timing_text(
                self.name@,
                (self.duration_nanos / 1_000_000) as nat,
                self.index as nat,
            ),
    {
        let millis = self.duration_nanos / 1_000_000;
        let r = self
            .name
            .clone()
            .concat(": ")
            .concat(crate::text::decimal_string(millis).as_str())
            .concat("ms (index ")
            .concat(crate::text::decimal_string(self.index as u128).as_str())
            .concat(")");
        proof {
            assert(r@ =~= timing_text(
                self.name@,
                (self.duration_nanos / 1_000_000) as nat,
                self.index as nat,
            ));
        }
        r
    }
}

/// Records in `peak_timing` the time elapsed since `instant`, if it is the
/// slowest step seen, tagged with the engine's current scroll index.
pub fn record_peak_timing(instant: Instant, peak_timing: &mut Timing, app_model: &AppModel)
    ensures
        final(peak_timing).name == old(peak_timing).name,
        *final(peak_timing) == *old(peak_timing) || (final(peak_timing).index as int
            == app_model@.revision_index && final(peak_timing).duration_nanos > old(
            peak_timing,
        ).duration_nanos),
{
    let index = app_model.revision_index();
    peak_timing.record_max(instant, index);
}

} // verus!
