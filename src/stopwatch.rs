use vstd::prelude::*;

verus! {

/// Relies on `time::precise_time_ns`: a reading of a high-resolution clock,
/// in nanoseconds since an unspecified epoch.
#[verifier::external_body]
pub(crate) fn precise_time_ns() -> u64 {
    time::precise_time_ns()
}

/// Measures the time between a start and a stop.
pub struct StopWatch {
    start: u64,
    end: u64,
}

impl View for StopWatch {
    /// The clock readings at the last start and the last stop.
    type V = (u64, u64);

    closed spec fn view(&self) -> (u64, u64) {
        (self.start, self.end)
    }
}

impl StopWatch {
    pub fn new() -> (r: StopWatch)
        ensures
            r@ == (0u64, 0u64),
    {
        StopWatch { start: 0, end: 0 }
    }

    /// Takes a start reading; the stop reading stays.
    pub fn start(&mut self)
        ensures
            final(self)@.1 == old(self)@.1,
    {
        self.start = precise_time_ns();
    }

    /// Takes a stop reading; the start reading stays.
    pub fn stop(&mut self)
        ensures
            final(self)@.0 == old(self)@.0,
    {
        self.end = precise_time_ns();
    }

    /// Nanoseconds from start to stop, zero where the stop reading is the
    /// earlier one.
    pub fn elapsed_nanos(&self) -> (r: u64)
        ensures
            r == (if self@.1 >= self@.0 {
                self@.1 - self@.0
            } else {
                0
            }),
    {
        if self.end >= self.start {
            self.end - self.start
        } else {
            0
        }
    }
}

} // verus!
