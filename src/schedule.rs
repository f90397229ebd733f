use vstd::prelude::*;
use crate::stopwatch::precise_time_ns;

verus! {

/// What the coordinating loop of a render does next.
#[derive(Debug, Clone, Copy, PartialEq, Eq, Structural)]
pub enum Step {
    /// Start a worker on this row.
    Dispatch(u32),
    /// Every worker slot is busy: collect what has finished, without waiting.
    Poll,
    /// Every row has been handed out: wait for the next worker to finish.
    Wait,
    /// Every row is done.
    Finished,
}

/// Relies on `num_cpus::get`: the number of logical CPUs this process may
/// use, which its documentation promises to be at least 1.
#[verifier::external_body]
fn cpu_count() -> (r: usize)
    ensures
        r >= 1,
{
    num_cpus::get()
}

/// Number of `true` entries of `s`.
pub open spec fn count_true(s: Seq<bool>) -> nat
    decreases s.len(),
{
    if s.len() == 0 {
        0
    } else {
        count_true(s.drop_last()) + if s.last() {
            1nat
        } else {
            0nat
        }
    }
}

proof fn lemma_count_true_bound(s: Seq<bool>)
    ensures
        count_true(s) <= s.len(),
    decreases s.len(),
{
    if s.len() > 0 {
        lemma_count_true_bound(s.drop_last());
    }
}

proof fn lemma_count_true_set(s: Seq<bool>, i: int)
    requires
        0 <= i < s.len(),
        !s[i],
    ensures
        count_true(s.update(i, true)) == count_true(s) + 1,
    decreases s.len(),
{
    let t = s.update(i, true);
    if i == s.len() - 1 {
        assert(t.drop_last() =~= s.drop_last());
    } else {
        assert(t.drop_last() =~= s.drop_last().update(i, true));
        lemma_count_true_set(s.drop_last(), i);
    }
}

proof fn lemma_count_true_prefix(s: Seq<bool>, k: int)
    requires
        0 <= k,
        forall|i: int| k <= i < s.len() ==> !#[trigger] s[i],
    ensures
        count_true(s) <= k,
    decreases s.len(),
{
    if s.len() > k {
        lemma_count_true_prefix(s.drop_last(), k);
    } else {
        lemma_count_true_bound(s);
    }
}

proof fn lemma_count_true_full(s: Seq<bool>)
    requires
        count_true(s) == s.len(),
    ensures
        forall|i: int| 0 <= i < s.len() ==> s[i],
    decreases s.len(),
{
    if s.len() > 0 {
        lemma_count_true_bound(s.drop_last());
        lemma_count_true_full(s.drop_last());
        assert forall|i: int| 0 <= i < s.len() implies s[i] by {
            if i < s.len() - 1 {
                assert(s[i] == s.drop_last()[i]);
            }
        }
    }
}

proof fn lemma_count_true_all_false(n: nat)
    ensures
        count_true(Seq::new(n, |i: int| false)) == 0,
    decreases n,
{
    if n > 0 {
        assert(Seq::new(n, |i: int| false).drop_last() =~= Seq::new((n - 1) as nat, |i: int| false));
        lemma_count_true_all_false((n - 1) as nat);
    }
}

/// The hand-out of image rows to a bounded number of workers. Rows go out
/// in order; a row's result is taken once, and only after it was handed out.
pub struct RenderSchedule {
    height: u32,
    limit: usize,
    next_row: u32,
    in_flight: usize,
    done: Vec<bool>,
}

/// The state of a schedule: rows, worker limit, next row to hand out, rows
/// at work, and for each row whether its result was taken.
pub struct ScheduleView {
    pub height: nat,
    pub limit: nat,
    pub next_row: nat,
    pub in_flight: nat,
    pub done: Seq<bool>,
}

impl View for RenderSchedule {
    type V = ScheduleView;

    closed spec fn view(&self) -> ScheduleView {
        ScheduleView {
            height: self.height as nat,
            limit: self.limit as nat,
            next_row: self.next_row as nat,
            in_flight: self.in_flight as nat,
            done: self.done@,
        }
    }
}

impl RenderSchedule {
    #[verifier::type_invariant]
    spec fn inv(&self) -> bool {
        self@.wf()
    }
}

/// Moves on by one row handed out.
fn count_dispatch(next_row: &mut u32, in_flight: &mut usize)
    requires
        *old(next_row) < u32::MAX,
        *old(in_flight) < usize::MAX,
    ensures
        *final(next_row) == *old(next_row) + 1,
        *final(in_flight) == *old(in_flight) + 1,
    no_unwind
{
    *next_row = *next_row + 1;
    *in_flight = *in_flight + 1;
}

/// Marks `row` done and one row fewer at work.
fn count_finish(done: &mut Vec<bool>, in_flight: &mut usize, row: usize)
    requires
        row < old(done).len(),
        *old(in_flight) > 0,
    ensures
        final(done)@ == old(done)@.update(row as int, true),
        *final(in_flight) == *old(in_flight) - 1,
    no_unwind
{
    done[row] = true;
    *in_flight = *in_flight - 1;
}

impl ScheduleView {
    /// Rows below `next_row` are handed out, those above are not; a row is
    /// done only once handed out; the rows at work are those handed out and
    /// not done, and never more than the limit.
    pub open spec fn wf(self) -> bool {
        &&& self.limit >= 1
        &&& self.next_row <= self.height
        &&& self.done.len() == self.height
        &&& forall|i: int| self.next_row <= i < self.height ==> !#[trigger] self.done[i]
        &&& self.in_flight + count_true(self.done) == self.next_row
        &&& self.in_flight <= self.limit
    }

    /// Row `row` is at work: handed out, result not yet taken.
    pub open spec fn at_work(self, row: int) -> bool {
        0 <= row < self.next_row && !self.done[row]
    }

    pub open spec fn step(self) -> Step {
        if self.next_row < self.height && self.in_flight < self.limit {
            Step::Dispatch(self.next_row as u32)
        } else if self.next_row < self.height {
            Step::Poll
        } else if self.in_flight > 0 {
            Step::Wait
        } else {
            Step::Finished
        }
    }
}

impl RenderSchedule {
    /// A schedule of `height` rows for at most `limit` workers at a time.
    pub fn new(height: u32, limit: usize) -> (r: RenderSchedule)
        requires
            limit >= 1,
        ensures
            r@.wf(),
            r@.height == height,
            r@.limit == limit,
            r@.next_row == 0,
            r@.in_flight == 0,
            forall|i: int| 0 <= i < height ==> !#[trigger] r@.done[i],
    {
        let mut done: Vec<bool> = Vec::new();
        while done.len() < height as usize
            invariant
                done.len() <= height,
                forall|i: int| 0 <= i < done.len() ==> !#[trigger] done@[i],
            decreases height - done.len(),
        {
            done.push(false);
        }
        proof {
            assert(done@ =~= Seq::new(height as nat, |i: int| false));
            lemma_count_true_all_false(height as nat);
        }
        RenderSchedule { height, limit, next_row: 0, in_flight: 0, done }
    }

    /// A schedule of `height` rows for as many workers as this machine has
    /// CPUs available.
    pub fn with_available_workers(height: u32) -> (r: RenderSchedule)
        ensures
            r@.wf(),
            r@.height == height,
            r@.next_row == 0,
            r@.in_flight == 0,
            forall|i: int| 0 <= i < height ==> !#[trigger] r@.done[i],
    {
        RenderSchedule::new(height, cpu_count())
    }

    /// How many workers may run at a time.
    pub fn limit(&self) -> (r: usize)
        ensures
            r == self@.limit,
    {
        self.limit
    }

    /// The next thing to do: hand out the next row while a worker slot is
    /// free, collect results while rows remain and no slot is free, wait for
    /// the rows at work once all are handed out, and stop when none is at work.
    pub fn next_step(&self) -> (r: Step)
        ensures
            self@.wf(),
            r == self@.step(),
            r == Step::Finished ==> forall|i: int| 0 <= i < self@.height ==> #[trigger] self@.done[i],
    {
        proof {
            use_type_invariant(self);
        }
        if self.next_row < self.height && self.in_flight < self.limit {
            Step::Dispatch(self.next_row)
        } else if self.next_row < self.height {
            Step::Poll
        } else if self.in_flight > 0 {
            Step::Wait
        } else {
            proof {
                lemma_count_true_full(self.done@);
            }
            Step::Finished
        }
    }

    /// Records that the row of a `Dispatch` step went to a worker.
    pub fn dispatched(&mut self)
        requires
            old(self)@.step() is Dispatch,
        ensures
            final(self)@.wf(),
            final(self)@ == (ScheduleView {
                next_row: old(self)@.next_row + 1,
                in_flight: old(self)@.in_flight + 1,
                ..old(self)@
            }),
            final(self)@.at_work(old(self)@.next_row as int),
    {
        proof {
            use_type_invariant(&*self);
        }
        count_dispatch(&mut self.next_row, &mut self.in_flight);
    }

    /// Takes the result of `row`. Accepted, and the row marked done, only
    /// where the row is at work; otherwise nothing changes.
    pub fn finished(&mut self, row: u32) -> (accepted: bool)
        ensures
            final(self)@.wf(),
            accepted == old(self)@.at_work(row as int),
            accepted ==> final(self)@ == (ScheduleView {
                in_flight: (old(self)@.in_flight - 1) as nat,
                done: old(self)@.done.update(row as int, true),
                ..old(self)@
            }),
            !accepted ==> final(self)@ == old(self)@,
    {
        proof {
            use_type_invariant(&*self);
        }
        if row < self.next_row && !self.done[row as usize] {
            proof {
                lemma_count_true_set(self.done@, row as int);
                lemma_count_true_prefix(self.done@.update(row as int, true), self.next_row as int);
            }
            count_finish(&mut self.done, &mut self.in_flight, row as usize);
            true
        } else {
            false
        }
    }

    /// Rows whose results were taken.
    pub fn rows_done(&self) -> (r: u32)
        ensures
            r == count_true(self@.done),
    {
        proof {
            use_type_invariant(self);
            lemma_count_true_bound(self.done@);
        }
        self.next_row - self.in_flight as u32
    }
}

/// The seed of the random numbers for row `row`, so that each row of a
/// render draws the same numbers every time.
pub fn row_seed(row: u32) -> (r: u64)
    ensures
        r == 31 + row,
{
    31 + row as u64
}

/// The seed of the random numbers that dither the final image.
pub fn dither_seed() -> (r: u64)
    ensures
        r == 97,
{
    97
}

/// Progress in hundredths of a percent, rounded to the nearest (halves up).
pub fn progress_hundredths(done: u32, total: u32) -> (r: u64)
    requires
        total > 0,
    ensures
        r == (20000 * done + total) / (2 * total),
{
    (20000 * done as u64 + total as u64) / (2 * total as u64)
}

/// Half a second, in nanoseconds: the least time between progress reports.
pub const REPORT_INTERVAL_NS: u64 = 500_000_000;

/// When progress was last reported.
pub struct ProgressClock {
    pub last: u64,
}

impl ProgressClock {
    pub fn new(now: u64) -> (r: ProgressClock)
        ensures
            r.last == now,
    {
        ProgressClock { last: now }
    }

    /// A clock started now.
    pub fn started() -> ProgressClock {
        ProgressClock { last: precise_time_ns() }
    }

    /// Whether a report is due at time `now`: more than half a second after
    /// the last one. A due report becomes the last one.
    pub fn observe(&mut self, now: u64) -> (due: bool)
        ensures
            due == (now > old(self).last && now - old(self).last > REPORT_INTERVAL_NS),
            final(self).last == (if due {
                now
            } else {
                old(self).last
            }),
    {
        if now > self.last && now - self.last > REPORT_INTERVAL_NS {
            self.last = now;
            true
        } else {
            false
        }
    }

    /// Whether a report is due now (see `observe`).
    pub fn tick(&mut self) -> (due: bool)
        ensures
            due ==> final(self).last > old(self).last && final(self).last - old(self).last
                > REPORT_INTERVAL_NS,
            !due ==> final(self).last == old(self).last,
    {
        let now = precise_time_ns();
        self.observe(now)
    }
}

} // verus!
