//! Wall-clock timing and a frames-per-second counter.
use core::time::Duration;
use std::time::{SystemTime, SystemTimeError};
use vstd::prelude::*;

verus! {

/// `std::time::SystemTime`, carried through as an opaque value.
#[verifier::external_type_specification]
#[verifier::external_body]
pub struct ExSystemTime(SystemTime);

/// `std::time::SystemTimeError`, carried through as an opaque value.
#[verifier::external_type_specification]
#[verifier::external_body]
pub struct ExSystemTimeError(SystemTimeError);

/// `SystemTime` is `Copy`, so its `clone` gives back the same time.
pub assume_specification[ <SystemTime as Clone>::clone ](t: &SystemTime) -> (r: SystemTime)
    ensures
        r == *t,
;

/// Calls `SystemTime::now`. Nothing is claimed of the result: it is the clock's reading.
#[verifier::external_body]
fn system_time_now() -> SystemTime {
    SystemTime::now()
}

/// Calls `SystemTime::elapsed`. Nothing is claimed of the result: it depends on the clock,
/// and is an error when the clock reads earlier than `start`.
#[verifier::external_body]
fn system_time_elapsed(start: &SystemTime) -> Result<Duration, SystemTimeError> {
    start.elapsed()
}

/// Calls `Duration::as_secs`. Nothing is claimed of the result: the duration is opaque here.
#[verifier::external_body]
fn duration_as_secs(d: &Duration) -> u64 {
    d.as_secs()
}

/// Why a timer could not measure the time since its start.
#[derive(Debug, Clone, Copy, PartialEq, Eq, Structural)]
pub enum TimerError {
    /// The wall clock now reads earlier than when the timer started.
    ClockBeforeStart,
}

/// A stopwatch started at a point of the wall clock.
#[derive(Clone, Debug)]
pub struct Timer {
    start: SystemTime,
    restarts: u64,
}

impl Timer {
    /// How many times the timer has been restarted since it was made, wrapping around.
    pub closed spec fn spec_restarts(&self) -> u64 {
        self.restarts
    }

    /// A timer started now.
    pub fn new() -> (r: Self)
        ensures
            r.spec_restarts() == 0,
    {
        Timer { start: system_time_now(), restarts: 0 }
    }

    /// Time since the timer was started; an error when the clock now reads earlier.
    pub fn elapsed(&self) -> Result<Duration, TimerError> {
        match system_time_elapsed(&self.start) {
            Ok(d) => Ok(d),
            Err(_) => Err(TimerError::ClockBeforeStart),
        }
    }

    /// Restarts the timer now.
    pub fn reset(&mut self)
        ensures
            final(self).spec_restarts() == old(self).spec_restarts().wrapping_add(1),
    {
        self.start = system_time_now();
        self.restarts = self.restarts.wrapping_add(1);
    }
}

/// The frame count and the reported rate after one more frame, ended when the timer had
/// measured `elapsed_secs` whole seconds.
pub open spec fn frame_step(count: u32, fps: u32, elapsed_secs: u64) -> (u32, u32) {
    let counted = count.wrapping_add(1);
    if elapsed_secs >= 1 {
        (0, counted)
    } else {
        (counted, fps)
    }
}

/// The frame count and the reported rate after frames ended at the measured seconds `secs`,
/// in order.
pub open spec fn frames_after(count: u32, fps: u32, secs: Seq<u64>) -> (u32, u32)
    decreases secs.len(),
{
    if secs.len() == 0 {
        (count, fps)
    } else {
        let before = frames_after(count, fps, secs.drop_last());
        frame_step(before.0, before.1, secs.last())
    }
}

/// Every frame of `secs` ended before a second had passed.
pub open spec fn all_short(secs: Seq<u64>) -> bool {
    forall|i: int| 0 <= i < secs.len() ==> #[trigger] secs[i] < 1
}

/// Short frames only add to the count and leave the reported rate alone.
proof fn lemma_short_frames(count: u32, fps: u32, short: Seq<u64>)
    requires
        all_short(short),
        count + short.len() <= u32::MAX,
    ensures
        frames_after(count, fps, short) == ((count + short.len()) as u32, fps),
    decreases short.len(),
{
    if short.len() > 0 {
        let rest = short.drop_last();
        assert forall|i: int| 0 <= i < rest.len() implies #[trigger] rest[i] < 1 by {
            assert(rest[i] == short[i]);
        }
        lemma_short_frames(count, fps, rest);
        assert(short.last() == short[short.len() - 1]);
    }
}

/// From `count` frames counted and rate `fps`: while frames end before a second has passed
/// (the readings `short`, of any length `k`) the rate stays `fps`, after each of them; the frame
/// that ends once a second has passed reports `count + k + 1`, every frame since the timer last
/// restarted, itself included, and the count starts again at 0.
pub proof fn lemma_fps_counts_frames_of_the_second(count: u32, fps: u32, short: Seq<u64>, secs: u64)
    requires
        all_short(short),
        count + short.len() + 1 <= u32::MAX,
        secs >= 1,
    ensures
        forall|j: int| 0 <= j <= short.len() ==> (#[trigger] frames_after(count, fps, short.take(j))).1 == fps,
        frames_after(count, fps, short.push(secs)) == (0u32, (count + short.len() + 1) as u32),
{
    assert forall|j: int| 0 <= j <= short.len() implies (#[trigger] frames_after(count, fps, short.take(j))).1
        == fps by {
        let t = short.take(j);
        assert forall|i: int| 0 <= i < t.len() implies #[trigger] t[i] < 1 by {
            assert(t[i] == short[i]);
        }
        lemma_short_frames(count, fps, t);
    }
    lemma_short_frames(count, fps, short);
    assert(short.push(secs).drop_last() =~= short);
}

/// Counts frames and reports how many ended during the last full second.
pub struct FpsCounter {
    timer: Timer,
    frame_count: u32,
    fps: u32,
}

impl FpsCounter {
    /// Frames counted since the timer last restarted.
    pub closed spec fn spec_frame_count(&self) -> u32 {
        self.frame_count
    }

    /// The rate last reported.
    pub closed spec fn spec_fps(&self) -> u32 {
        self.fps
    }

    /// The timer that measures the current second.
    pub closed spec fn spec_timer(&self) -> Timer {
        self.timer
    }

    /// A counter with no frames counted, reporting zero.
    pub fn new() -> (r: Self)
        ensures
            r.spec_frame_count() == 0,
            r.spec_fps() == 0,
    {
        Self { timer: Timer::new(), frame_count: 0, fps: 0 }
    }

    /// The number of frames that ended during the last full second measured.
    pub fn fps(&self) -> (r: u32)
        ensures
            r == self.spec_fps(),
    {
        self.fps
    }

    /// Counts one more frame, given the whole seconds the timer has measured.  Once a second
    /// has passed, the count becomes the reported rate and starts again from zero; the result
    /// says whether that happened, so that the timer is restarted.
    pub fn record_frame(&mut self, elapsed_secs: u64) -> (restart: bool)
        ensures
            restart == (elapsed_secs >= 1),
            final(self).spec_timer() == old(self).spec_timer(),
            (final(self).spec_frame_count(), final(self).spec_fps()) == frame_step(
                old(self).spec_frame_count(),
                old(self).spec_fps(),
                elapsed_secs,
            ),
            restart ==> final(self).spec_fps() == old(self).spec_frame_count().wrapping_add(1)
                && final(self).spec_frame_count() == 0,
            !restart ==> final(self).spec_fps() == old(self).spec_fps()
                && final(self).spec_frame_count() == old(self).spec_frame_count().wrapping_add(1),
    {
        self.frame_count = self.frame_count.wrapping_add(1);
        if elapsed_secs >= 1 {
            self.fps = self.frame_count;
            self.frame_count = 0;
            true
        } else {
            false
        }
    }

    /// Ends a frame: reads the whole seconds the timer has measured and counts the frame
    /// against them, a step of `frame_step` at that reading, which it returns; once a second has
    /// passed the timer restarts, otherwise it is left as it was.  When the clock reads earlier
    /// than the timer's start nothing changes and the error is returned.
    pub fn end_frame(&mut self) -> (r: Result<u64, TimerError>)
        ensures
            match r {
                Ok(secs) => {
                    &&& (final(self).spec_frame_count(), final(self).spec_fps()) == frame_step(
                        old(self).spec_frame_count(),
                        old(self).spec_fps(),
                        secs,
                    )
                    &&& secs < 1 ==> final(self).spec_timer() == old(self).spec_timer()
                    &&& secs >= 1 ==> final(self).spec_timer().spec_restarts()
                        == old(self).spec_timer().spec_restarts().wrapping_add(1)
                },
                Err(e) => {
                    &&& e == TimerError::ClockBeforeStart
                    &&& final(self).spec_frame_count() == old(self).spec_frame_count()
                    &&& final(self).spec_fps() == old(self).spec_fps()
                    &&& final(self).spec_timer() == old(self).spec_timer()
                },
            },
    {
        let secs = match self.timer.elapsed() {
            Ok(d) => duration_as_secs(&d),
            Err(e) => {
                return Err(e);
            },
        };
        if self.record_frame(secs) {
            self.timer.reset();
        }
        Ok(secs)
    }
}

/// A run of counter states, each reached from the one before by a frame ended at the reading
/// of the same position of `secs`, as `end_frame` (on `Ok`) and `record_frame` step.
pub open spec fn counter_run(states: Seq<FpsCounter>, secs: Seq<u64>) -> bool {
    &&& states.len() == secs.len() + 1
    &&& forall|i: int| 0 <= i < secs.len() ==> (#[trigger] states[i + 1].spec_frame_count(), states[i + 1].spec_fps())
        == frame_step(states[i].spec_frame_count(), states[i].spec_fps(), secs[i])
}

/// Over a run of ended frames the counter is where `frames_after` puts it, so the rate it
/// reports follows `lemma_fps_counts_frames_of_the_second`.
pub proof fn lemma_counter_run(states: Seq<FpsCounter>, secs: Seq<u64>)
    requires
        counter_run(states, secs),
    ensures
        (states.last().spec_frame_count(), states.last().spec_fps()) == frames_after(
            states[0].spec_frame_count(),
            states[0].spec_fps(),
            secs,
        ),
    decreases secs.len(),
{
    if secs.len() > 0 {
        let n = secs.len() - 1;
        let prefix = states.take(states.len() - 1);
        assert forall|i: int| 0 <= i < secs.drop_last().len() implies (#[trigger] prefix[i + 1].spec_frame_count(),
            prefix[i + 1].spec_fps()) == frame_step(prefix[i].spec_frame_count(), prefix[i].spec_fps(), secs.drop_last()[i]) by {
            assert(prefix[i + 1] == states[i + 1]);
            assert(prefix[i] == states[i]);
        }
        lemma_counter_run(prefix, secs.drop_last());
        assert(prefix.last() == states[n]);
        assert((states[n + 1].spec_frame_count(), states[n + 1].spec_fps()) == frame_step(
            states[n].spec_frame_count(),
            states[n].spec_fps(),
            secs[n],
        ));
    }
}

/// A frame that ends once a second has passed restarts the timer and reports every frame
/// since the last restart, itself included, then counts from zero; a frame that ends sooner
/// keeps the timer and the rate and only counts itself.  Here `c0` and `c1` are the counter
/// before and after an `end_frame` that read `secs` whole seconds.
pub proof fn lemma_end_frame_restarts_each_second(c0: FpsCounter, secs: u64, c1: FpsCounter)
    requires
        (c1.spec_frame_count(), c1.spec_fps()) == frame_step(c0.spec_frame_count(), c0.spec_fps(), secs),
        secs < 1 ==> c1.spec_timer() == c0.spec_timer(),
        secs >= 1 ==> c1.spec_timer().spec_restarts() == c0.spec_timer().spec_restarts().wrapping_add(1),
        c0.spec_frame_count() < u32::MAX,
    ensures
        secs >= 1 ==> {
            &&& c1.spec_fps() == c0.spec_frame_count() + 1
            &&& c1.spec_frame_count() == 0
            &&& c1.spec_timer().spec_restarts() != c0.spec_timer().spec_restarts()
        },
        secs < 1 ==> {
            &&& c1.spec_fps() == c0.spec_fps()
            &&& c1.spec_frame_count() == c0.spec_frame_count() + 1
            &&& c1.spec_timer() == c0.spec_timer()
        },
{
}

impl Default for Timer {
    /// A timer started now.
    fn default() -> Self {
        Self::new()
    }
}

impl Default for FpsCounter {
    fn default() -> (r: Self)
        ensures
            r.spec_frame_count() == 0,
            r.spec_fps() == 0,
    {
        Self::new()
    }
}

} // verus!
