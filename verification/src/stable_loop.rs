//! The fixed-timestep loop driver. Wall-clock frames arrive at whatever rate
//! the host manages; the driver converts them into zero or more fixed
//! simulation ticks per frame, drawing at most once per frame, measuring
//! frames per second, and bounding catch-up after a stall. Time is carried
//! in integer nanoseconds; reading the clock and sleeping are the caller's
//! business, so a frame is driven by passing the current timestamp in and
//! sleeping for the returned budget.

use vstd::prelude::*;

verus! {

/// One second, in the integer nanoseconds the driver counts time in.
pub const NANOS_PER_SECOND: u64 = 1000000000;

/// Ticks a frame may catch up before the accumulated lag is dropped
/// instead, unless the application says otherwise.
pub const MAX_UPDATES_PER_FRAME: u32 = 8;

/// An application driven by the fixed-timestep loop. The driver calls
/// `update` once per elapsed tick (stopping the whole loop when it returns
/// false) and `draw` at most once per frame, after at least one update ran.
pub trait StableLoop {
    /// One simulation tick; returns false to request termination.
    fn update(&mut self, current_fps: usize) -> bool;

    /// Renders a frame; side-effecting only.
    fn draw(&mut self, current_fps: usize);

    /// The fixed simulation tick rate, in ticks per second.
    fn target_fps(&self) -> u64 {
        crate::TARGET_FPS
    }

    /// How many ticks a frame may catch up before the accumulated lag is
    /// dropped instead.
    fn max_updates_per_frame(&self) -> u32 {
        MAX_UPDATES_PER_FRAME
    }
}

/// The duration of one simulation tick in nanoseconds: a second divided by
/// the tick rate, clamped into `1..=NANOS_PER_SECOND` so the driver always
/// makes progress.
pub open spec fn spec_target_frame_time(fps: int) -> int {
    if fps < 1 {
        NANOS_PER_SECOND as int
    } else if NANOS_PER_SECOND as int / fps < 1 {
        1
    } else {
        NANOS_PER_SECOND as int / fps
    }
}

/// The duration of one simulation tick for a given tick rate.
pub fn target_frame_time(fps: u64) -> (r: u64)
    ensures
        r == spec_target_frame_time(fps as int),
        1 <= r <= NANOS_PER_SECOND,
{
    if fps < 1 {
        NANOS_PER_SECOND
    } else {
        proof {
            assert(NANOS_PER_SECOND as int / (fps as int) <= NANOS_PER_SECOND) by (nonlinear_arith)
                requires
                    1 <= fps,
            ;
        }
        let t = NANOS_PER_SECOND / fps;
        if t < 1 {
            1
        } else {
            t
        }
    }
}

/// One tick of catch-up consumed from the accumulated lag: past the cap of
/// `max_updates` ticks the whole lag is dropped to zero, otherwise one tick
/// is subtracted.
pub open spec fn spec_consume_tick(acc: int, tick: int, max_updates: int) -> int {
    if acc > tick * max_updates {
        0
    } else {
        acc - tick
    }
}

/// The accumulated lag left after a frame in which every update ran: ticks
/// are consumed one at a time, each by [`spec_consume_tick`], until less
/// than one tick remains.
pub open spec fn spec_drain(acc: int, tick: int, max_updates: int) -> int
    decreases acc,
{
    if tick < 1 || acc < tick {
        acc
    } else {
        spec_drain(spec_consume_tick(acc, tick, max_updates), tick, max_updates)
    }
}

/// One tick of catch-up, as executable code.
pub fn consume_tick(acc: u64, tick: u64, max_updates: u32) -> (r: u64)
    requires
        1 <= tick <= NANOS_PER_SECOND,
        acc >= tick,
    ensures
        r == spec_consume_tick(acc as int, tick as int, max_updates as int),
        r < acc,
{
    proof {
        assert((tick as int) * (max_updates as int) <= 1000000000 * 4294967295) by (
        nonlinear_arith)
            requires
                0 <= tick <= 1000000000,
                0 <= max_updates <= 4294967295,
        ;
        assert(0 <= (tick as int) * (max_updates as int)) by (nonlinear_arith)
            requires
                0 <= tick,
                0 <= max_updates,
        ;
    }
    if acc > tick * (max_updates as u64) {
        0
    } else {
        acc - tick
    }
}

/// The mathematical state of the loop driver, all times in nanoseconds.
pub struct LoopView {
    /// When the previous frame was processed.
    pub prev_time: int,
    /// Start of the second the frame counter is counting in.
    pub prev_second: int,
    /// Wall-clock time not yet consumed by simulation ticks.
    pub time_accumulator: int,
    /// Frames drawn during the last full second.
    pub current_fps: int,
    /// Frames drawn so far in the current second.
    pub fps_counter: int,
}

/// The loop driver's bookkeeping between frames.
pub struct StableLoopState {
    prev_time: u64,
    prev_second: u64,
    time_accumulator: u64,
    current_fps: usize,
    fps_counter: usize,
}

impl View for StableLoopState {
    type V = LoopView;

    closed spec fn view(&self) -> LoopView {
        LoopView {
            prev_time: self.prev_time as int,
            prev_second: self.prev_second as int,
            time_accumulator: self.time_accumulator as int,
            current_fps: self.current_fps as int,
            fps_counter: self.fps_counter as int,
        }
    }
}

impl StableLoopState {
    /// The second being counted never starts after the last observed time.
    pub open spec fn wf(self) -> bool {
        self@.prev_second <= self@.prev_time
    }

    /// A fresh driver at time `now`: no accumulated lag, no frames counted.
    pub fn new(now: u64) -> (r: Self)
        ensures
            r.wf(),
            r@ == (LoopView {
                prev_time: now as int,
                prev_second: now as int,
                time_accumulator: 0,
                current_fps: 0,
                fps_counter: 0,
            }),
    {
        let prev_time = now;
        let prev_second = prev_time;
        let time_accumulator: u64 = 0;

        let current_fps: usize = 0;
        let fps_counter: usize = 0;

        Self { prev_time, prev_second, time_accumulator, current_fps, fps_counter }
    }

    /// One wall-clock frame at time `now`, with the caller-supplied tick
    /// rate and catch-up cap. Adds the elapsed time to the lag accumulator;
    /// runs `update` once per whole tick accumulated, stopping everything if
    /// it returns false; drops the lag to zero instead of subtracting when
    /// it exceeds `max_updates_per_frame` ticks; rolls the frames-per-second
    /// measurement over each full second; draws at most once, only if an
    /// update ran and the loop goes on. Returns whether the loop goes on,
    /// and how long to wait before the next frame.
    ///
    /// When the loop goes on — in particular whenever `update` always
    /// returns true — the final lag is exactly the tick-by-tick drain
    /// [`spec_drain`] of the gathered lag, below one tick, the wait budget
    /// is exactly the remainder of the tick, and the frame counter has
    /// risen exactly when a tick elapsed and a frame was therefore drawn.
    pub fn single_iteration<T: StableLoop>(
        &mut self,
        app: &mut T,
        now: u64,
        target_fps: u64,
        max_updates_per_frame: u32,
    ) -> (r: (bool, u64))
        requires
            old(self).wf(),
            old(self)@.prev_time <= now,
            old(self)@.time_accumulator + (now - old(self)@.prev_time) <= u64::MAX,
        ensures
            final(self).wf(),
            final(self)@.prev_time == now,
            final(self)@.prev_second <= now,
            now - final(self)@.prev_second < NANOS_PER_SECOND,
            ({
                let tick = spec_target_frame_time(target_fps as int);
                let lag = old(self)@.time_accumulator + (now - old(self)@.prev_time);
                let rolled = now - old(self)@.prev_second >= NANOS_PER_SECOND;
                let counted = if rolled {
                    0int
                } else {
                    old(self)@.fps_counter
                };
                &&& final(self)@.time_accumulator <= lag
                &&& rolled ==> final(self)@.current_fps == old(self)@.fps_counter
                &&& !rolled ==> final(self)@.current_fps == old(self)@.current_fps && final(
                    self)@.prev_second == old(self)@.prev_second
                &&& r.0 ==> final(self)@.time_accumulator == spec_drain(
                    lag,
                    tick,
                    max_updates_per_frame as int,
                )
                &&& r.0 ==> final(self)@.time_accumulator < tick
                &&& r.0 ==> r.1 == tick - final(self)@.time_accumulator
                &&& r.0 ==> final(self)@.fps_counter == (if lag >= tick {
                    if counted < usize::MAX {
                        counted + 1
                    } else {
                        counted
                    }
                } else {
                    counted
                })
                &&& !r.0 ==> final(self)@.fps_counter == counted
            }),
            r.1 <= NANOS_PER_SECOND,
            !r.0 ==> r.1 == 0,
    {
        let elapsed = now - self.prev_time;
        self.time_accumulator = self.time_accumulator + elapsed;

        let target_frame_time = target_frame_time(target_fps);
        let mut keep_going = true;
        let mut needs_draw = false;

        let ghost tick = spec_target_frame_time(target_fps as int);
        let ghost maxi = max_updates_per_frame as int;
        let ghost acc0 = self@.time_accumulator;
        let ghost pt0 = self@.prev_time;
        let ghost ps0 = self@.prev_second;
        let ghost cf0 = self@.current_fps;
        let ghost fc0 = self@.fps_counter;

        while self.time_accumulator >= target_frame_time
            invariant_except_break
                keep_going,
            invariant
                1 <= target_frame_time <= NANOS_PER_SECOND,
                target_frame_time == tick,
                maxi == max_updates_per_frame as int,
                self@.time_accumulator <= acc0,
                spec_drain(self@.time_accumulator as int, tick, maxi) == spec_drain(
                    acc0,
                    tick,
                    maxi,
                ),
                needs_draw == (self@.time_accumulator < acc0),
                self@.prev_time == pt0,
                self@.prev_second == ps0,
                self@.current_fps == cf0,
                self@.fps_counter == fc0,
            ensures
                keep_going ==> self@.time_accumulator < target_frame_time,
                self@.time_accumulator <= acc0,
                spec_drain(self@.time_accumulator as int, tick, maxi) == spec_drain(
                    acc0,
                    tick,
                    maxi,
                ),
                needs_draw == (self@.time_accumulator < acc0),
                self@.prev_time == pt0,
                self@.prev_second == ps0,
                self@.current_fps == cf0,
                self@.fps_counter == fc0,
            decreases self@.time_accumulator,
        {
            if app.update(self.current_fps) {
                needs_draw = true;
                let ghost acc_pre = self@.time_accumulator as int;
                self.time_accumulator = consume_tick(
                    self.time_accumulator,
                    target_frame_time,
                    max_updates_per_frame,
                );
                proof {
                    assert(self@.time_accumulator as int == spec_consume_tick(
                        acc_pre,
                        tick,
                        maxi,
                    ));
                    assert(spec_drain(acc_pre, tick, maxi) == spec_drain(
                        spec_consume_tick(acc_pre, tick, maxi),
                        tick,
                        maxi,
                    ));
                }
            } else {
                keep_going = false;
                break ;
            }
        }

        proof {
            if keep_going {
                assert(spec_drain(self@.time_accumulator as int, tick, maxi)
                    == self@.time_accumulator);
                if acc0 < tick {
                    assert(spec_drain(acc0, tick, maxi) == acc0);
                }
            }
        }
        let ghost acc_after = self@.time_accumulator;

        if now - self.prev_second >= NANOS_PER_SECOND {
            self.current_fps = self.fps_counter;
            self.fps_counter = 0;

            while now - self.prev_second >= NANOS_PER_SECOND
                invariant
                    self@.prev_second <= now,
                    self@.prev_time == pt0,
                    self@.time_accumulator == acc_after,
                    self@.current_fps == fc0,
                    self@.fps_counter == 0,
                decreases now - self@.prev_second,
            {
                self.prev_second = self.prev_second + NANOS_PER_SECOND;
            }
        }

        if keep_going && needs_draw {
            app.draw(self.current_fps);

            if self.fps_counter < usize::MAX {
                self.fps_counter = self.fps_counter + 1;
            }
        }

        self.prev_time = now;

        let wait = if keep_going {
            target_frame_time - self.time_accumulator
        } else {
            0
        };

        (keep_going, wait)
    }

    /// The frames-per-second measurement of the last full second, for
    /// diagnostic display; it never affects simulation results.
    pub fn current_fps(&self) -> (r: usize)
        ensures
            r == self@.current_fps,
    {
        self.current_fps
    }

    /// When the previous frame was processed; a frame's timestamp must not
    /// lie before it.
    pub fn prev_time(&self) -> (r: u64)
        ensures
            r == self@.prev_time,
    {
        self.prev_time
    }

    /// The wall-clock time not yet consumed by simulation ticks.
    pub fn time_accumulator(&self) -> (r: u64)
        ensures
            r == self@.time_accumulator,
    {
        self.time_accumulator
    }
}

} // verus!
