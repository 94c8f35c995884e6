//! Frame pacing: how long a frame may take at a target rate, and how
//! much of that budget is left when a frame ends.

use vstd::prelude::*;

verus! {

pub const NANOS_IN_SECS: u64 = 1_000_000_000;

/// Declares std's monotonic clock reading so the manager can hold one.
#[verifier::external_type_specification]
#[verifier::external_body]
pub struct ExInstant(std::time::Instant);

/// Relies on std::time::Instant::now: an opaque reading of the
/// monotonic clock; nothing is promised of its value.
#[verifier::external_body]
fn instant_now() -> std::time::Instant {
    std::time::Instant::now()
}

/// Relies on std::time::Instant::elapsed and Duration::as_nanos: the
/// nanoseconds since the reading, truncated into a u64; the value
/// depends on the clock, so nothing is promised of it.
#[verifier::external_body]
fn elapsed_nanos(start: &std::time::Instant) -> u64 {
    start.elapsed().as_nanos() as u64
}

/// Paces frames at a target rate: `begin` marks the frame start, and
/// the remaining budget says how long the caller should sleep once its
/// work is done.
pub struct FpsManager {
    base_sleep_nanos: u64,
    start: std::time::Instant,
    target: u64,
}

impl FpsManager {
    pub closed spec fn spec_target(self) -> u64 {
        self.target
    }

    pub closed spec fn spec_base_sleep_nanos(self) -> u64 {
        self.base_sleep_nanos
    }

    /// A manager pacing at `target` frames per second; the per-frame
    /// budget is the whole second split evenly.
    pub fn new(target: u64) -> (r: Self)
        requires
            target >= 1,
        ensures
            r.spec_target() == target,
            r.spec_base_sleep_nanos() == NANOS_IN_SECS / target,
    {
        let base_sleep_nanos = NANOS_IN_SECS / target;
        FpsManager { base_sleep_nanos, start: instant_now(), target }
    }

    /// Marks the start of a frame.
    pub fn begin(&mut self)
        ensures
            final(self).spec_target() == old(self).spec_target(),
            final(self).spec_base_sleep_nanos() == old(self).spec_base_sleep_nanos(),
    {
        self.start = instant_now();
    }

    /// The sleep budget left once `elapsed` nanoseconds of the frame
    /// have passed: the rest of the per-frame budget, zero when the
    /// frame already ran over.
    pub fn budget_after(&self, elapsed: u64) -> (r: u64)
        ensures
            r == if elapsed >= self.spec_base_sleep_nanos() {
                0int
            } else {
                self.spec_base_sleep_nanos() - elapsed
            },
    {
        if elapsed >= self.base_sleep_nanos {
            0
        } else {
            self.base_sleep_nanos - elapsed
        }
    }

    /// How much of the frame budget is left right now; zero once the
    /// frame has already run over. The caller sleeps this long to hold
    /// the target rate. The clock reading comes from outside the crate,
    /// so only the budget bound holds of every outcome; `budget_after`
    /// fixes the result exactly for any given reading.
    pub fn remaining_budget_nanos(&self) -> (r: u64)
        ensures
            r <= self.spec_base_sleep_nanos(),
    {
        self.budget_after(elapsed_nanos(&self.start))
    }

    /// The configured frame rate.
    pub fn target(&self) -> (r: u64)
        ensures
            r == self.spec_target(),
    {
        self.target
    }
}

} // verus!
