//! Adaptive repetition tester: drives a benchmark loop for a wall-clock time
//! budget, folds each completed iteration into running min/max/total samples,
//! and extends the deadline whenever a new minimum is observed, so a wave only
//! completes once the measured floor has stopped improving.
//!
//! The tester is a pure state machine over tick values: the caller reads the
//! hardware counter (and, optionally, an OS page-fault counter) and hands the
//! readings in, so every transition here is verified.
use vstd::prelude::*;

use crate::ticks::wadd;
use crate::ticks::wsub;

verus! {

/// The phase of a test session. `Completed` can be reopened by a new wave with
/// an unchanged configuration; `Error` is sticky.
#[derive(Clone, Copy, Debug, PartialEq, Eq, Structural)]
pub enum TestMode {
    Testing,
    Completed,
    Error,
}

/// Why a session entered `Error`.
#[derive(Clone, Copy, Debug, PartialEq, Eq)]
pub enum TestFailure {
    /// A new wave was started with a different target byte count.
    TargetBytesChanged,
    /// A new wave was started with a different calibrated tick frequency.
    FrequencyChanged,
    /// A completed iteration accumulated a byte count other than the target.
    ByteCountMismatch,
    /// The candidate operation itself reported a failure.
    Reported(&'static str),
}

/// One sample, or an accumulation of samples: iteration count, elapsed ticks,
/// bytes processed and page faults incurred. All fields accumulate modulo
/// 2^64, so folding never traps even on degenerate inputs.
#[derive(Clone, Copy, Debug, PartialEq, Eq, Structural)]
pub struct RepetitionTestValue {
    pub num_tests: u64,
    pub time: u64,
    pub bytes: u64,
    pub page_faults: u64,
}

impl RepetitionTestValue {
    /// The all-zero sample.
    pub open spec fn zero_spec() -> RepetitionTestValue {
        RepetitionTestValue { num_tests: 0, time: 0, bytes: 0, page_faults: 0 }
    }

    pub fn zero() -> (r: Self)
        ensures
            r == Self::zero_spec(),
    {
        Self { num_tests: 0, time: 0, bytes: 0, page_faults: 0 }
    }

    /// The sample that every real time/byte/fault reading compares below:
    /// the initial value of a running minimum.
    pub open spec fn max_spec() -> RepetitionTestValue {
        RepetitionTestValue { num_tests: 0, time: u64::MAX, bytes: u64::MAX, page_faults: u64::MAX }
    }

    pub fn max() -> (r: Self)
        ensures
            r == Self::max_spec(),
    {
        Self { num_tests: 0, time: u64::MAX, bytes: u64::MAX, page_faults: u64::MAX }
    }

    /// Field-wise accumulation modulo 2^64.
    pub open spec fn add_spec(self, other: RepetitionTestValue) -> RepetitionTestValue {
        RepetitionTestValue {
            num_tests: wadd(self.num_tests, other.num_tests),
            time: wadd(self.time, other.time),
            bytes: wadd(self.bytes, other.bytes),
            page_faults: wadd(self.page_faults, other.page_faults),
        }
    }

    pub fn add(self, other: Self) -> (r: Self)
        ensures
            r == self.add_spec(other),
    {
        Self {
            num_tests: self.num_tests.wrapping_add(other.num_tests),
            time: self.time.wrapping_add(other.time),
            bytes: self.bytes.wrapping_add(other.bytes),
            page_faults: self.page_faults.wrapping_add(other.page_faults),
        }
    }

    /// Field-wise division, for turning an accumulated total into an average.
    pub fn div(self, other: u64) -> (r: Self)
        requires
            other > 0,
        ensures
            r.num_tests == self.num_tests / other,
            r.time == self.time / other,
            r.bytes == self.bytes / other,
            r.page_faults == self.page_faults / other,
    {
        Self {
            num_tests: self.num_tests / other,
            time: self.time / other,
            bytes: self.bytes / other,
            page_faults: self.page_faults / other,
        }
    }
}

/// The aggregate outcome of one wave: the accumulated total and the slowest
/// and fastest iterations seen.
#[derive(Clone, Copy, Debug, PartialEq, Eq, Structural)]
pub struct RepetitionTestResult {
    pub total: RepetitionTestValue,
    pub max: RepetitionTestValue,
    pub min: RepetitionTestValue,
}

impl RepetitionTestResult {
    /// The state before any iteration: zero totals, and a minimum that any
    /// real sample improves on.
    pub open spec fn default_spec() -> RepetitionTestResult {
        RepetitionTestResult {
            total: RepetitionTestValue::zero_spec(),
            max: RepetitionTestValue::zero_spec(),
            min: RepetitionTestValue::max_spec(),
        }
    }
}

impl Default for RepetitionTestResult {
    fn default() -> (r: Self)
        ensures
            r == Self::default_spec(),
    {
        Self {
            total: RepetitionTestValue::zero(),
            max: RepetitionTestValue::zero(),
            min: RepetitionTestValue::max(),
        }
    }
}

/// One benchmark session: configuration, time budget, per-iteration
/// accumulators and the running result.
#[derive(Clone, Copy, Debug)]
pub struct RepetitionTester {
    pub target_accumulated_bytes: u64,
    pub cpu_timer_freq: u64,
    pub try_for_time: u64,
    pub test_start_time: u64,
    pub mode: TestMode,
    pub failure: Option<TestFailure>,
    /// Caller hint: whether a live line should be printed when a new minimum
    /// is found. The state machine itself never prints.
    pub print_new_minimums: bool,
    pub block_count: u32,
    pub accumulated: RepetitionTestValue,
    pub result: RepetitionTestResult,
}

/// The state after a forced error: the mode becomes `Error` and the cause is
/// recorded; everything else is kept.
pub open spec fn fail_spec(s: RepetitionTester, cause: TestFailure) -> RepetitionTester {
    RepetitionTester { mode: TestMode::Error, failure: Some(cause), ..s }
}

/// The state after `new_test_wave`: a `Completed` session reopens to
/// `Testing`, but only an unchanged target byte count and tick frequency keep
/// it there — comparing timings across different workloads or calibrations is
/// meaningless, so a changed configuration is a protocol violation. An
/// `Error` session stays in `Error`. In every case the time budget is reset
/// to `seconds_to_try` seconds' worth of ticks and the wave start is marked.
pub open spec fn wave_spec(
    s: RepetitionTester,
    target_accumulated_bytes: u64,
    cpu_timer_freq: u64,
    seconds_to_try: u32,
    now: u64,
) -> RepetitionTester {
    let reopened = if s.mode == TestMode::Completed {
        let testing = RepetitionTester { mode: TestMode::Testing, ..s };
        let checked_bytes = if s.target_accumulated_bytes != target_accumulated_bytes {
            fail_spec(testing, TestFailure::TargetBytesChanged)
        } else {
            testing
        };
        if s.cpu_timer_freq != cpu_timer_freq {
            fail_spec(checked_bytes, TestFailure::FrequencyChanged)
        } else {
            checked_bytes
        }
    } else {
        s
    };
    RepetitionTester {
        try_for_time: (seconds_to_try as u64 * cpu_timer_freq as u64) as u64,
        test_start_time: now,
        ..reopened
    }
}

/// The state after one `testing` call at tick `now`. A completed iteration
/// (an opened measurement block) is checked against the target byte count —
/// a mismatch is the session's core correctness check and fails it — and
/// otherwise folded into the running result; a new minimum resets the wave
/// start, extending the deadline; and a deadline that has passed without a
/// new minimum completes the wave.
pub open spec fn step_spec(s: RepetitionTester, now: u64) -> RepetitionTester {
    if s.mode != TestMode::Testing {
        s
    } else if s.block_count > 0 && s.accumulated.bytes != s.target_accumulated_bytes {
        fail_spec(s, TestFailure::ByteCountMismatch)
    } else {
        let folded = if s.block_count > 0 {
            let sample = RepetitionTestValue { num_tests: 1, ..s.accumulated };
            let new_min = s.result.min.time > sample.time;
            RepetitionTester {
                result: RepetitionTestResult {
                    total: s.result.total.add_spec(sample),
                    max: if s.result.max.time < sample.time {
                        sample
                    } else {
                        s.result.max
                    },
                    min: if new_min {
                        sample
                    } else {
                        s.result.min
                    },
                },
                test_start_time: if new_min {
                    now
                } else {
                    s.test_start_time
                },
                block_count: 0,
                accumulated: RepetitionTestValue::zero_spec(),
                ..s
            }
        } else {
            s
        };
        if now - folded.test_start_time > folded.try_for_time {
            RepetitionTester { mode: TestMode::Completed, ..folded }
        } else {
            folded
        }
    }
}

impl RepetitionTester {
    /// A fresh session in `Testing` mode with no budget yet; a wave must be
    /// started before the deadline means anything.
    pub open spec fn new_spec(target_accumulated_bytes: u64, cpu_timer_freq: u64) -> RepetitionTester {
        RepetitionTester {
            target_accumulated_bytes,
            cpu_timer_freq,
            try_for_time: 0,
            test_start_time: 0,
            mode: TestMode::Testing,
            failure: None,
            print_new_minimums: true,
            block_count: 0,
            accumulated: RepetitionTestValue::zero_spec(),
            result: RepetitionTestResult::default_spec(),
        }
    }

    pub fn new(target_accumulated_bytes: u64, cpu_timer_freq: u64) -> (r: Self)
        ensures
            r == Self::new_spec(target_accumulated_bytes, cpu_timer_freq),
    {
        Self {
            target_accumulated_bytes,
            cpu_timer_freq,
            try_for_time: 0,
            test_start_time: 0,
            mode: TestMode::Testing,
            failure: None,
            print_new_minimums: true,
            block_count: 0,
            accumulated: RepetitionTestValue::zero(),
            result: RepetitionTestResult::default(),
        }
    }

    /// Forcibly fails the session, for misuse the candidate operation itself
    /// detects (a file that would not open, say). The message is kept for the
    /// caller's report sink; the library itself never prints.
    pub fn error(&mut self, message: &'static str)
        ensures
            *final(self) == fail_spec(*old(self), TestFailure::Reported(message)),
    {
        self.mode = TestMode::Error;
        self.failure = Some(TestFailure::Reported(message));
    }

    /// Starts (or restarts) a wave at tick `now` with a budget of
    /// `seconds_to_try` seconds at `cpu_timer_freq` ticks per second.
    pub fn new_test_wave(
        &mut self,
        target_accumulated_bytes: u64,
        cpu_timer_freq: u64,
        seconds_to_try: u32,
        now: u64,
    )
        requires
            seconds_to_try * cpu_timer_freq <= u64::MAX,
        ensures
            *final(self) == wave_spec(
                *old(self),
                target_accumulated_bytes,
                cpu_timer_freq,
                seconds_to_try,
                now,
            ),
            old(self).mode == TestMode::Completed
                && old(self).target_accumulated_bytes == target_accumulated_bytes
                && old(self).cpu_timer_freq == cpu_timer_freq ==> final(self).mode
                == TestMode::Testing,
            old(self).mode == TestMode::Completed && old(self).target_accumulated_bytes
                != target_accumulated_bytes ==> final(self).mode == TestMode::Error,
            old(self).mode == TestMode::Error ==> final(self).mode == TestMode::Error,
    {
        if self.mode == TestMode::Completed {
            self.mode = TestMode::Testing;
            if self.target_accumulated_bytes != target_accumulated_bytes {
                self.mode = TestMode::Error;
                self.failure = Some(TestFailure::TargetBytesChanged);
            }
            if self.cpu_timer_freq != cpu_timer_freq {
                self.mode = TestMode::Error;
                self.failure = Some(TestFailure::FrequencyChanged);
            }
        }
        self.try_for_time = seconds_to_try as u64 * cpu_timer_freq;
        self.test_start_time = now;
    }

    /// Credits `num_bytes` of work to the in-flight iteration. The candidate
    /// operation must call this itself: the tester cannot know how much work
    /// was done.
    pub fn count_bytes(&mut self, num_bytes: u64)
        ensures
            *final(self) == (RepetitionTester {
                accumulated: RepetitionTestValue {
                    bytes: wadd(old(self).accumulated.bytes, num_bytes),
                    ..old(self).accumulated
                },
                ..*old(self)
            }),
    {
        self.accumulated.bytes = self.accumulated.bytes.wrapping_add(num_bytes);
    }

    /// The driving predicate of the benchmark loop: folds the iteration that
    /// just finished into the result and reports whether the wave is still
    /// running. `now` is a fresh tick reading, taken after every earlier one
    /// handed to this session.
    pub fn testing(&mut self, now: u64) -> (r: bool)
        requires
            old(self).mode == TestMode::Testing ==> old(self).test_start_time <= now,
        ensures
            *final(self) == step_spec(*old(self), now),
            r == (final(self).mode == TestMode::Testing),
            old(self).mode == TestMode::Testing && old(self).block_count > 0 && old(
                self,
            ).accumulated.bytes != old(self).target_accumulated_bytes ==> final(self).mode
                == TestMode::Error && final(self).failure == Some(TestFailure::ByteCountMismatch)
                && !r,
            old(self).mode != TestMode::Testing ==> *final(self) == *old(self) && !r,
    {
        if self.mode == TestMode::Testing {
            if self.block_count > 0 {
                if self.accumulated.bytes != self.target_accumulated_bytes {
                    self.mode = TestMode::Error;
                    self.failure = Some(TestFailure::ByteCountMismatch);
                    return false;
                }
                self.accumulated.num_tests = 1;
                self.result.total = self.result.total.add(self.accumulated);

                let elapsed_time = self.accumulated.time;
                if self.result.max.time < elapsed_time {
                    self.result.max = self.accumulated;
                }
                if self.result.min.time > elapsed_time {
                    self.result.min = self.accumulated;
                    // A new minimum restarts the clock on the full trial
                    // budget: the wave keeps running while it still improves.
                    self.test_start_time = now;
                }
                self.block_count = 0;
                self.accumulated = RepetitionTestValue::zero();
            }
            if now - self.test_start_time > self.try_for_time {
                self.mode = TestMode::Completed;
            }
        }
        self.mode == TestMode::Testing
    }

    pub fn get_result(&self) -> (r: &RepetitionTestResult)
        ensures
            *r == self.result,
    {
        &self.result
    }

    pub fn has_error(&self) -> (r: bool)
        ensures
            r == (self.mode == TestMode::Error),
    {
        self.mode == TestMode::Error
    }
}

/// Law: reopening a `Completed` session with the target byte count and tick
/// frequency unchanged returns it to `Testing` and records no failure.
pub proof fn lemma_reopen_completed_same_config(s: RepetitionTester, seconds_to_try: u32, now: u64)
    requires
        s.mode == TestMode::Completed,
    ensures
        wave_spec(s, s.target_accumulated_bytes, s.cpu_timer_freq, seconds_to_try, now).mode
            == TestMode::Testing,
        wave_spec(s, s.target_accumulated_bytes, s.cpu_timer_freq, seconds_to_try, now).failure
            == s.failure,
{
}

/// Law: reopening a `Completed` session with a different target byte count is
/// a protocol violation and fails the session.
pub proof fn lemma_reopen_completed_changed_target(
    s: RepetitionTester,
    target_accumulated_bytes: u64,
    seconds_to_try: u32,
    now: u64,
)
    requires
        s.mode == TestMode::Completed,
        target_accumulated_bytes != s.target_accumulated_bytes,
    ensures
        wave_spec(s, target_accumulated_bytes, s.cpu_timer_freq, seconds_to_try, now).mode
            == TestMode::Error,
{
}

/// Law (convergence, plateau step): once the candidate's time has stopped
/// improving on the recorded minimum, an iteration folds in without lowering
/// the minimum or extending the deadline, and the wave completes as soon as
/// the budget has elapsed. Together with the improvement step below this is
/// why a candidate that plateaus at a floor always terminates the wave with
/// that floor as its reported minimum.
pub proof fn lemma_plateau_step(s: RepetitionTester, now: u64)
    requires
        s.mode == TestMode::Testing,
        s.block_count > 0,
        s.accumulated.bytes == s.target_accumulated_bytes,
        s.accumulated.time >= s.result.min.time,
        s.test_start_time <= now,
    ensures
        step_spec(s, now).result.min == s.result.min,
        step_spec(s, now).test_start_time == s.test_start_time,
        now - s.test_start_time > s.try_for_time ==> step_spec(s, now).mode == TestMode::Completed,
        now - s.test_start_time <= s.try_for_time ==> step_spec(s, now).mode == TestMode::Testing,
{
}

/// Law (convergence, improvement step): an iteration strictly faster than the
/// recorded minimum becomes the new minimum and restarts the deadline clock,
/// so the wave never completes on the same call that improves the floor.
pub proof fn lemma_new_minimum_extends_deadline(s: RepetitionTester, now: u64)
    requires
        s.mode == TestMode::Testing,
        s.block_count > 0,
        s.accumulated.bytes == s.target_accumulated_bytes,
        s.accumulated.time < s.result.min.time,
        s.test_start_time <= now,
    ensures
        step_spec(s, now).result.min.time == s.accumulated.time,
        step_spec(s, now).test_start_time == now,
        step_spec(s, now).mode == TestMode::Testing,
{
}

/// One whole benchmark iteration as the state machine sees it: the candidate
/// ran for `time` ticks, reported exactly the target byte count, and
/// `testing` was then called at tick `now`.
pub open spec fn feed_spec(s: RepetitionTester, time: u64, now: u64) -> RepetitionTester {
    step_spec(
        RepetitionTester {
            block_count: 1,
            accumulated: RepetitionTestValue {
                num_tests: 0,
                time,
                bytes: s.target_accumulated_bytes,
                page_faults: 0,
            },
            ..s
        },
        now,
    )
}

/// A whole run: each sample `(time, now)` is one iteration fed to the state
/// machine in order.
pub open spec fn run_spec(s: RepetitionTester, samples: Seq<(u64, u64)>) -> RepetitionTester
    decreases samples.len(),
{
    if samples.len() == 0 {
        s
    } else {
        run_spec(feed_spec(s, samples.first().0, samples.first().1), samples.drop_first())
    }
}

/// A session that has left `Testing` keeps its mode and its recorded minimum
/// whatever is fed to it afterwards.
pub proof fn lemma_terminal_run(s: RepetitionTester, samples: Seq<(u64, u64)>)
    requires
        s.mode != TestMode::Testing,
    ensures
        run_spec(s, samples).mode == s.mode,
        run_spec(s, samples).result.min == s.result.min,
    decreases samples.len(),
{
    if samples.len() > 0 {
        lemma_terminal_run(feed_spec(s, samples.first().0, samples.first().1), samples.drop_first());
    }
}

/// Law (convergence): once the candidate's time has plateaued at or above
/// the recorded floor, no run of further iterations changes the reported
/// minimum, and a run whose last call comes after the time budget has
/// elapsed leaves the session `Completed`. With the improvement step above
/// (a faster iteration lowers the minimum and restarts the clock), this is
/// the convergence-by-reset policy: the wave keeps running while it still
/// finds new floors, and completes once the budget passes without one.
pub proof fn lemma_plateau_run(s: RepetitionTester, samples: Seq<(u64, u64)>)
    requires
        s.mode == TestMode::Testing,
        forall|k: int| 0 <= k < samples.len() ==> (#[trigger] samples[k]).0 >= s.result.min.time,
        samples.len() > 0,
        samples.last().1 > s.test_start_time + s.try_for_time,
    ensures
        run_spec(s, samples).mode == TestMode::Completed,
        run_spec(s, samples).result.min == s.result.min,
    decreases samples.len(),
{
    assert(samples[0].0 >= s.result.min.time);
    let s1 = feed_spec(s, samples.first().0, samples.first().1);
    assert(s1.result.min == s.result.min);
    assert(s1.test_start_time == s.test_start_time);
    assert(s1.try_for_time == s.try_for_time);
    assert(run_spec(s, samples) == run_spec(s1, samples.drop_first()));
    if samples.len() == 1 {
        assert(s1.mode == TestMode::Completed);
        assert(run_spec(s1, samples.drop_first()) == s1);
    } else {
        assert(samples.drop_first().last() == samples.last());
        if s1.mode == TestMode::Testing {
            assert forall|k: int| 0 <= k < samples.drop_first().len() implies (#[trigger] samples
                .drop_first()[k]).0 >= s1.result.min.time by {
                assert(samples.drop_first()[k] == samples[k + 1]);
            }
            lemma_plateau_run(s1, samples.drop_first());
        } else {
            assert(s1.mode == TestMode::Completed);
            lemma_terminal_run(s1, samples.drop_first());
        }
    }
}

/// A scoped measurement block. Opening it subtracts the current tick and
/// page-fault readings from the session's accumulators; closing it adds the
/// readings taken at the end. The net effect of a balanced open/close pair is
/// that the accumulators grow by exactly the elapsed amounts, however many
/// blocks one logical iteration opens.
pub struct RepetitionTesterBlock {}

impl RepetitionTesterBlock {
    /// Opens a measurement block at tick `now` with `page_faults` faults
    /// already incurred by the process.
    pub fn new(tester: &mut RepetitionTester, now: u64, page_faults: u64) -> (b:
        RepetitionTesterBlock)
        requires
            old(tester).block_count < u32::MAX,
        ensures
            *final(tester) == (RepetitionTester {
                block_count: (old(tester).block_count + 1) as u32,
                accumulated: RepetitionTestValue {
                    time: wsub(old(tester).accumulated.time, now),
                    page_faults: wsub(old(tester).accumulated.page_faults, page_faults),
                    ..old(tester).accumulated
                },
                ..*old(tester)
            }),
    {
        tester.accumulated.time = tester.accumulated.time.wrapping_sub(now);
        tester.accumulated.page_faults = tester.accumulated.page_faults.wrapping_sub(page_faults);
        tester.block_count = tester.block_count + 1;
        RepetitionTesterBlock {}
    }

    /// Closes the block at tick `now` with `page_faults` faults incurred by
    /// the process so far.
    pub fn close(self, tester: &mut RepetitionTester, now: u64, page_faults: u64)
        ensures
            *final(tester) == (RepetitionTester {
                accumulated: RepetitionTestValue {
                    time: wadd(old(tester).accumulated.time, now),
                    page_faults: wadd(old(tester).accumulated.page_faults, page_faults),
                    ..old(tester).accumulated
                },
                ..*old(tester)
            }),
    {
        tester.accumulated.time = tester.accumulated.time.wrapping_add(now);
        tester.accumulated.page_faults = tester.accumulated.page_faults.wrapping_add(page_faults);
    }
}

} // verus!
