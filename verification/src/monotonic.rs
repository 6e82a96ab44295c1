//! A monotonic clock on the core's virtual timer, and the backend that
//! keeps its compare register in step with the queue of pending deadlines.
//!
//! The hardware is not touched here. Every operation takes the raw counter
//! value that the caller has just read and leaves, in the backend, the value
//! that belongs in the compare register and whether the timer may raise its
//! interrupt; the caller writes both through.

use crate::timer_queue::{ascending, due_count, waits, without, Entry, TimerQueue};
use vstd::prelude::*;

verus! {

/// Half of the counter's period: the counter has 64 bits.
pub const HALF_PERIOD: u64 = 0x8000_0000_0000_0000;

/// The counter's period: it wraps to 0 after this many raw ticks.
pub open spec fn period() -> int {
    0x1_0000_0000_0000_0000
}

/// Whether a sample `raw` that follows a sample `last` shows that the
/// counter wrapped in between: it fell by more than half a period.
pub open spec fn wrapped(last: u64, raw: u64) -> bool {
    raw < last && last - raw > HALF_PERIOD
}

/// Whether a sample `raw` may follow a sample `last` on a counter that is
/// read at least once in every half period: it did not fall, or it fell by
/// more than half a period.
pub open spec fn advances(last: u64, raw: u64) -> bool {
    raw >= last || wrapped(last, raw)
}

/// The raw ticks counted in all: the wraps seen, and the counter on top.
pub open spec fn raw_count(overflows: nat, raw: u64) -> int {
    overflows * period() + raw
}

/// The compare value one logical tick after `raw`, as the register holds it.
pub open spec fn one_tick_ahead(raw: u64, ticks_per_tick: u64) -> int {
    (raw + ticks_per_tick) % period()
}

/// The compare value that arms the timer for `deadline` when the counter
/// reads `raw_now`: the deadline in raw ticks if that is still ahead of the
/// counter, else one logical tick from now.
pub open spec fn compare_target(deadline: u64, raw_now: u64, ticks_per_tick: u64) -> int {
    let target = (deadline * ticks_per_tick) % period();
    if target <= raw_now {
        one_tick_ahead(raw_now, ticks_per_tick)
    } else {
        target
    }
}

/// Why the clock cannot be started.
#[derive(Clone, Copy, Debug, PartialEq, Eq, Structural)]
pub enum StartError {
    /// The logical tick rate is zero.
    ZeroTickRate,
    /// The timer's frequency is not a whole multiple of the logical tick rate.
    NotAMultiple,
    /// The timer's frequency is zero, so a logical tick would last no time.
    ZeroScale,
}

/// How many raw ticks make one logical tick, or why there is no such number.
pub open spec fn tick_scale(hardware_clock_hz: u32, logical_tick_hz: u32) -> Result<
    u64,
    StartError,
> {
    if logical_tick_hz == 0 {
        Err(StartError::ZeroTickRate)
    } else if hardware_clock_hz % logical_tick_hz != 0 {
        Err(StartError::NotAMultiple)
    } else if hardware_clock_hz / logical_tick_hz == 0 {
        Err(StartError::ZeroScale)
    } else {
        Ok((hardware_clock_hz / logical_tick_hz) as u64)
    }
}

/// The frequency that the timer counts at: the one asked for, or, where none
/// was asked for, the one that the timer itself reports.
pub fn timer_frequency(requested_hz: u32, reported_hz: u32) -> (hz: u32)
    ensures
        hz == if requested_hz == 0 {
            reported_hz
        } else {
            requested_hz
        },
{
    if requested_hz == 0 {
        reported_hz
    } else {
        requested_hz
    }
}

/// Computes how many raw ticks make one logical tick.
///
/// The rate must not be zero and must divide the timer's frequency: a
/// fractional scale is refused, not rounded.
pub fn ticks_per_tick(hardware_clock_hz: u32, logical_tick_hz: u32) -> (scale: Result<
    u64,
    StartError,
>)
    ensures
        scale == tick_scale(hardware_clock_hz, logical_tick_hz),
{
    if logical_tick_hz == 0 {
        Err(StartError::ZeroTickRate)
    } else if hardware_clock_hz % logical_tick_hz != 0 {
        Err(StartError::NotAMultiple)
    } else if hardware_clock_hz / logical_tick_hz == 0 {
        Err(StartError::ZeroScale)
    } else {
        Ok((hardware_clock_hz / logical_tick_hz) as u64)
    }
}

/// Where the clock stands in its life. It never goes back.
#[derive(Clone, Copy, Debug, PartialEq, Eq, Structural)]
pub enum Phase {
    /// Not started: there is no tick scale yet.
    Uninitialized,
    /// Started: the scale is fixed and the first interrupt is armed.
    Started,
    /// The timer interrupt has been served at least once.
    Running,
}

/// What the backend holds, as plain values.
pub struct TimerState {
    /// Where the clock stands in its life.
    pub phase: Phase,
    /// Raw ticks per logical tick; 0 until the clock is started.
    pub ticks_per_tick: u64,
    /// How often the counter has been seen to wrap since the start.
    pub overflows: nat,
    /// The raw counter value that was sampled last.
    pub last_sample: u64,
    /// The value that belongs in the compare register.
    pub compare: u64,
    /// Whether the timer may raise its interrupt.
    pub timer_enabled: bool,
    /// The pending deadlines, earliest first.
    pub pending: Seq<Entry>,
}

impl TimerState {
    /// Whether the clock has been started.
    pub open spec fn started(self) -> bool {
        self.phase != Phase::Uninitialized
    }

    /// What holds of every backend: a started clock has a scale, and the
    /// pending deadlines are in ascending order.
    pub open spec fn valid(self) -> bool {
        &&& self.started() <==> self.ticks_per_tick >= 1
        &&& ascending(self.pending)
    }

    /// The wraps seen once the sample `raw` is taken.
    pub open spec fn overflows_at(self, raw: u64) -> nat {
        if wrapped(self.last_sample, raw) {
            self.overflows + 1
        } else {
            self.overflows
        }
    }

    /// The state once the sample `raw` is taken.
    pub open spec fn observe(self, raw: u64) -> TimerState {
        TimerState { overflows: self.overflows_at(raw), last_sample: raw, ..self }
    }

    /// The logical time that the sample `raw` stands for: all raw ticks
    /// counted, wraps included, in whole logical ticks.
    pub open spec fn reading(self, raw: u64) -> int {
        raw_count(self.overflows_at(raw), raw) / (self.ticks_per_tick as int)
    }

    /// Whether the logical time at the sample `raw` fits the 64 bits of a
    /// tick count.
    pub open spec fn in_range(self, raw: u64) -> bool {
        self.reading(raw) <= u64::MAX
    }
}

/// The logical time fits 64 bits exactly when fewer wraps were seen than
/// there are raw ticks in a logical tick.
pub proof fn lemma_in_range(state: TimerState, raw: u64)
    requires
        state.ticks_per_tick >= 1,
    ensures
        state.in_range(raw) <==> state.overflows_at(raw) < state.ticks_per_tick,
        0 <= state.reading(raw),
{
    let o = state.overflows_at(raw) as int;
    let t = state.ticks_per_tick as int;
    let p = period();
    let w = raw_count(state.overflows_at(raw), raw);
    assert(w == o * p + raw);
    assert(0 <= o * p) by (nonlinear_arith)
        requires
            0 <= o,
            p == 0x1_0000_0000_0000_0000,
    ;
    assert(0 <= w / t) by (nonlinear_arith)
        requires
            0 <= w,
            1 <= t,
    ;
    if o < t {
        assert(w < t * p) by (nonlinear_arith)
            requires
                w == o * p + raw,
                0 <= raw < p,
                0 <= o < t,
        ;
        assert(w / t < p) by (nonlinear_arith)
            requires
                w < t * p,
                1 <= t,
        ;
    } else {
        assert(w >= t * p) by (nonlinear_arith)
            requires
                w == o * p + raw,
                0 <= raw,
                o >= t,
                p > 0,
        ;
        assert(w / t >= p) by (nonlinear_arith)
            requires
                w >= t * p,
                1 <= t,
        ;
    }
}

/// The logical times of one sample after another, each read from the state
/// that the samples before it left.
pub open spec fn readings(state: TimerState, samples: Seq<u64>) -> Seq<int>
    decreases samples.len(),
{
    if samples.len() == 0 {
        Seq::empty()
    } else {
        seq![state.reading(samples[0])] + readings(state.observe(samples[0]), samples.skip(1))
    }
}

/// Time does not go back from one sample to the next, whether or not the
/// counter wrapped in between, as long as the second sample did not fall
/// behind the first by half a period or less.
pub proof fn lemma_reading_does_not_go_back(state: TimerState, first: u64, second: u64)
    requires
        state.ticks_per_tick >= 1,
        advances(first, second),
    ensures
        state.reading(first) <= state.observe(first).reading(second),
{
    let t = state.ticks_per_tick as int;
    let o1 = state.overflows_at(first);
    let o2 = state.observe(first).overflows_at(second);
    let w1 = raw_count(o1, first);
    let w2 = raw_count(o2, second);
    assert(w1 <= w2) by (nonlinear_arith)
        requires
            w1 == o1 * period() + first,
            w2 == o2 * period() + second,
            period() == 0x1_0000_0000_0000_0000,
            first < period(),
            (o2 == o1 && first <= second) || o2 == o1 + 1,
    ;
    assert(w1 / t <= w2 / t) by (nonlinear_arith)
        requires
            w1 <= w2,
            1 <= t,
    ;
}

/// Over any run of samples of a counter that is read at least once in
/// every half period, through any number of wraps, the logical times
/// read never decrease.
pub proof fn lemma_readings_never_decrease(state: TimerState, samples: Seq<u64>)
    requires
        state.ticks_per_tick >= 1,
        forall|k: int| 0 <= k < samples.len() - 1 ==> advances(#[trigger] samples[k], samples[k + 1]),
    ensures
        readings(state, samples).len() == samples.len(),
        forall|i: int, j: int|
            0 <= i <= j < samples.len() ==> #[trigger] readings(state, samples)[i]
                <= #[trigger] readings(state, samples)[j],
    decreases samples.len(),
{
    if samples.len() > 0 {
        let next = state.observe(samples[0]);
        let rest = samples.skip(1);
        assert forall|k: int| 0 <= k < rest.len() - 1 implies advances(
            #[trigger] rest[k],
            rest[k + 1],
        ) by {
            assert(rest[k] == samples[k + 1] && rest[k + 1] == samples[k + 2]);
        }
        lemma_readings_never_decrease(next, rest);
        let all = readings(state, samples);
        let tail = readings(next, rest);
        assert(all =~= seq![state.reading(samples[0])] + tail);
        if rest.len() > 0 {
            assert(rest[0] == samples[1]);
            assert(advances(samples[0], samples[1]));
            lemma_reading_does_not_go_back(state, samples[0], samples[1]);
            assert(tail =~= seq![next.reading(rest[0])] + readings(
                next.observe(rest[0]),
                rest.skip(1),
            ));
            assert(all[0] <= tail[0]);
        }
        assert forall|i: int, j: int| 0 <= i <= j < samples.len() implies #[trigger] all[i]
            <= #[trigger] all[j] by {
            if i == 0 && j > 0 {
                assert(all[j] == tail[j - 1]);
                assert(tail[0] <= tail[j - 1]);
            } else if i > 0 {
                assert(all[i] == tail[i - 1] && all[j] == tail[j - 1]);
            }
        }
    }
}

/// The compare register is never armed at or behind the counter, unless the
/// counter is within one logical tick of its wrap: an armed deadline fires.
/// A deadline that has fallen behind the counter is armed exactly one
/// logical tick ahead; one that is still ahead is armed at its own raw tick.
pub proof fn lemma_compare_is_ahead(deadline: u64, raw_now: u64, ticks_per_tick: u64)
    requires
        ticks_per_tick >= 1,
        raw_now + ticks_per_tick < period(),
    ensures
        raw_now < compare_target(deadline, raw_now, ticks_per_tick) < period(),
        deadline * ticks_per_tick <= raw_now ==> compare_target(deadline, raw_now, ticks_per_tick)
            == raw_now + ticks_per_tick,
        raw_now < deadline * ticks_per_tick < period() ==> compare_target(
            deadline,
            raw_now,
            ticks_per_tick,
        ) == deadline * ticks_per_tick,
{
    let product = deadline * ticks_per_tick;
    assert(0 <= product) by (nonlinear_arith)
        requires
            product == deadline * ticks_per_tick,
    ;
}

/// A deadline that the clock has already reached when it is armed is not
/// dropped: it is armed one logical tick after the sample, as long as the
/// counter has not been seen to wrap.
pub proof fn lemma_late_deadline_fires_within_a_tick(state: TimerState, deadline: u64, raw_now: u64)
    requires
        state.ticks_per_tick >= 1,
        state.overflows_at(raw_now) == 0,
        deadline <= state.reading(raw_now),
    ensures
        compare_target(deadline, raw_now, state.ticks_per_tick) == one_tick_ahead(
            raw_now,
            state.ticks_per_tick,
        ),
{
    let t = state.ticks_per_tick as int;
    let d = deadline as int;
    let r = raw_now as int;
    assert(state.reading(raw_now) == r / t);
    assert(0 <= d * t <= r) by (nonlinear_arith)
        requires
            0 <= d <= r / t,
            1 <= t,
            0 <= r,
    ;
}

/// A deadline that the clock has not reached yet is armed at its own raw
/// tick, as long as the counter has not wrapped and that tick lies before
/// the wrap.
pub proof fn lemma_pending_deadline_is_armed_exactly(
    state: TimerState,
    deadline: u64,
    raw_now: u64,
)
    requires
        state.ticks_per_tick >= 1,
        state.overflows_at(raw_now) == 0,
        state.reading(raw_now) < deadline,
        deadline * state.ticks_per_tick < period(),
    ensures
        compare_target(deadline, raw_now, state.ticks_per_tick) == deadline * state.ticks_per_tick,
{
    let t = state.ticks_per_tick as int;
    let d = deadline as int;
    let r = raw_now as int;
    assert(state.reading(raw_now) == r / t);
    assert(r < d * t) by (nonlinear_arith)
        requires
            r / t < d,
            1 <= t,
            0 <= r,
    ;
}

/// A clock on the virtual timer together with its queue of deadlines.
pub struct VirtualTimerBackend {
    phase: Phase,
    ticks_per_tick: u64,
    overflows: u64,
    last_raw: u64,
    compare: u64,
    timer_enabled: bool,
    queue: TimerQueue,
}

impl View for VirtualTimerBackend {
    type V = TimerState;

    closed spec fn view(&self) -> TimerState {
        TimerState {
            phase: self.phase,
            ticks_per_tick: self.ticks_per_tick,
            overflows: self.overflows as nat,
            last_sample: self.last_raw,
            compare: self.compare,
            timer_enabled: self.timer_enabled,
            pending: self.queue@,
        }
    }
}

impl VirtualTimerBackend {
    /// The backend's invariant.
    pub open spec fn wf(&self) -> bool {
        self@.valid()
    }

    /// A backend whose clock is not started and whose queue is empty.
    pub fn new() -> (backend: Self)
        ensures
            backend.wf(),
            backend@ == (TimerState {
                phase: Phase::Uninitialized,
                ticks_per_tick: 0,
                overflows: 0,
                last_sample: 0,
                compare: 0,
                timer_enabled: false,
                pending: Seq::empty(),
            }),
    {
        VirtualTimerBackend {
            phase: Phase::Uninitialized,
            ticks_per_tick: 0,
            overflows: 0,
            last_raw: 0,
            compare: 0,
            timer_enabled: false,
            queue: TimerQueue::new(),
        }
    }

    /// Where the clock stands in its life.
    pub fn phase(&self) -> (phase: Phase)
        ensures
            phase == self@.phase,
    {
        self.phase
    }

    /// Whether the clock has been started.
    pub fn is_started(&self) -> (started: bool)
        ensures
            started == self@.started(),
    {
        match self.phase {
            Phase::Uninitialized => false,
            _ => true,
        }
    }

    /// Raw ticks per logical tick; 0 until the clock is started.
    pub fn ticks_per_tick(&self) -> (scale: u64)
        ensures
            scale == self@.ticks_per_tick,
    {
        self.ticks_per_tick
    }

    /// How often the counter has been seen to wrap since the start.
    pub fn overflows(&self) -> (overflows: u64)
        ensures
            overflows == self@.overflows,
    {
        self.overflows
    }

    /// The value that belongs in the compare register.
    pub fn compare(&self) -> (compare: u64)
        ensures
            compare == self@.compare,
    {
        self.compare
    }

    /// Whether the timer may raise its interrupt.
    pub fn is_timer_enabled(&self) -> (enabled: bool)
        ensures
            enabled == self@.timer_enabled,
    {
        self.timer_enabled
    }

    /// The queue of pending deadlines.
    pub fn timer_queue(&self) -> (queue: &TimerQueue)
        ensures
            queue@ == self@.pending,
            self.wf() ==> queue.wf(),
    {
        &self.queue
    }

    /// Starts the clock at the sample `raw_now`.
    ///
    /// Fails, and changes nothing, unless the logical tick rate is above
    /// zero and divides the timer's frequency. Otherwise the scale is
    /// fixed, the count of wraps starts at none, the compare register is
    /// armed one logical tick ahead, and the timer interrupt is enabled.
    /// A clock that is started again stays in the phase it has reached.
    pub fn start(&mut self, hardware_clock_hz: u32, logical_tick_hz: u32, raw_now: u64) -> (started:
        Result<(), StartError>)
        requires
            old(self).wf(),
        ensures
            final(self).wf(),
            match tick_scale(hardware_clock_hz, logical_tick_hz) {
                Ok(scale) => started == Ok::<(), StartError>(()) && final(self)@ == (TimerState {
                    phase: if old(self)@.phase == Phase::Running {
                        Phase::Running
                    } else {
                        Phase::Started
                    },
                    ticks_per_tick: scale,
                    overflows: 0,
                    last_sample: raw_now,
                    compare: one_tick_ahead(raw_now, scale) as u64,
                    timer_enabled: true,
                    pending: old(self)@.pending,
                }),
                Err(e) => started == Err::<(), StartError>(e) && final(self)@ == old(self)@,
            },
    {
        match ticks_per_tick(hardware_clock_hz, logical_tick_hz) {
            Err(e) => Err(e),
            Ok(scale) => {
                self.ticks_per_tick = scale;
                if let Phase::Uninitialized = self.phase {
                    self.phase = Phase::Started;
                }
                self.overflows = 0;
                self.last_raw = raw_now;
                self.compare = raw_now.wrapping_add(scale);
                self.timer_enabled = true;
                Ok(())
            },
        }
    }

    /// Whether the logical time at the sample `raw` fits a tick count, so
    /// that `now` may be asked for it.
    pub fn in_range(&self, raw: u64) -> (fits: bool)
        requires
            self.wf(),
            self@.started(),
        ensures
            fits == self@.in_range(raw),
    {
        proof {
            lemma_in_range(self@, raw);
        }
        let wrapped = raw < self.last_raw && self.last_raw - raw > HALF_PERIOD;
        if wrapped {
            self.overflows < self.ticks_per_tick - 1
        } else {
            self.overflows < self.ticks_per_tick
        }
    }

    /// The logical time at the sample `raw`.
    ///
    /// The counter wraps; the backend counts the wraps. A sample that is
    /// lower than the one before by more than half the counter's period is
    /// taken to lie past a wrap, and one more wrap is counted.
    pub fn now(&mut self, raw: u64) -> (ticks: u64)
        requires
            old(self).wf(),
            old(self)@.started(),
            old(self)@.in_range(raw),
        ensures
            final(self).wf(),
            final(self)@ == old(self)@.observe(raw),
            ticks == old(self)@.reading(raw),
    {
        proof {
            lemma_in_range(self@, raw);
        }
        if raw < self.last_raw && self.last_raw - raw > HALF_PERIOD {
            self.overflows = self.overflows + 1;
        }
        self.last_raw = raw;
        let wide: u128 = (self.overflows as u128) * 0x1_0000_0000_0000_0000u128 + (raw as u128);
        let ticks: u128 = wide / (self.ticks_per_tick as u128);
        ticks as u64
    }

    /// Arms the compare register for `deadline`, given that the counter
    /// reads `raw_now`.
    ///
    /// A deadline whose raw value is not ahead of the counter any more is
    /// armed one logical tick from now instead, so that it still fires.
    pub fn set_compare(&mut self, deadline: u64, raw_now: u64)
        requires
            old(self).wf(),
            old(self)@.started(),
        ensures
            final(self).wf(),
            final(self)@ == (TimerState {
                compare: compare_target(deadline, raw_now, old(self)@.ticks_per_tick) as u64,
                ..old(self)@
            }),
    {
        let mut raw = deadline.wrapping_mul(self.ticks_per_tick);
        if raw <= raw_now {
            raw = raw_now.wrapping_add(self.ticks_per_tick);
        }
        self.compare = raw;
    }

    /// Acknowledges the timer interrupt, given that the counter reads
    /// `raw_now`.
    ///
    /// With nothing queued, the compare register is armed one logical tick
    /// ahead, so that interrupts keep arriving and wraps keep being seen.
    /// Before the clock is started this does nothing.
    pub fn clear_compare_flag(&mut self, raw_now: u64)
        requires
            old(self).wf(),
        ensures
            final(self).wf(),
            final(self)@ == if old(self)@.started() && old(self)@.pending.len() == 0 {
                TimerState {
                    compare: one_tick_ahead(raw_now, old(self)@.ticks_per_tick) as u64,
                    ..old(self)@
                }
            } else {
                old(self)@
            },
    {
        if self.ticks_per_tick == 0 {
            return ;
        }
        if self.queue.is_empty() {
            self.compare = raw_now.wrapping_add(self.ticks_per_tick);
        }
    }

    /// Makes the timer interrupt fire at once: the timer is enabled and
    /// armed for the raw tick after `raw_now`.
    pub fn pend_interrupt(&mut self, raw_now: u64)
        requires
            old(self).wf(),
        ensures
            final(self).wf(),
            final(self)@ == (TimerState {
                compare: ((raw_now + 1) % period()) as u64,
                timer_enabled: true,
                ..old(self)@
            }),
    {
        self.timer_enabled = true;
        self.compare = raw_now.wrapping_add(1);
    }

    /// Lets the timer raise its interrupt. The counter is not touched.
    pub fn enable_timer(&mut self)
        requires
            old(self).wf(),
        ensures
            final(self).wf(),
            final(self)@ == (TimerState { timer_enabled: true, ..old(self)@ }),
    {
        self.timer_enabled = true;
    }

    /// Keeps the timer from raising its interrupt. The counter is not touched.
    pub fn disable_timer(&mut self)
        requires
            old(self).wf(),
        ensures
            final(self).wf(),
            final(self)@ == (TimerState { timer_enabled: false, ..old(self)@ }),
    {
        self.timer_enabled = false;
    }

    /// Queues `waiter` for `deadline`, given that the counter reads `raw_now`.
    ///
    /// Where the new entry becomes the head of the queue, the timer
    /// interrupt is pended, so that the handler arms the compare register
    /// for it.
    pub fn schedule(&mut self, deadline: u64, waiter: usize, raw_now: u64) -> (head_updated: bool)
        requires
            old(self).wf(),
            old(self)@.started(),
        ensures
            final(self).wf(),
            head_updated == (due_count(old(self)@.pending, deadline) == 0),
            final(self)@ == ({
                let pending = old(self)@.pending.insert(
                    due_count(old(self)@.pending, deadline) as int,
                    Entry { deadline, waiter },
                );
                if head_updated {
                    TimerState {
                        pending,
                        compare: ((raw_now + 1) % period()) as u64,
                        timer_enabled: true,
                        ..old(self)@
                    }
                } else {
                    TimerState { pending, ..old(self)@ }
                }
            }),
    {
        let head_updated = self.queue.insert(deadline, waiter);
        if head_updated {
            self.pend_interrupt(raw_now);
        }
        head_updated
    }

    /// Takes every entry of `waiter` out of the queue, and says whether
    /// there was one. An entry that has been delivered is not in the queue
    /// any more, so cancelling it changes nothing.
    pub fn cancel(&mut self, waiter: usize) -> (removed: bool)
        requires
            old(self).wf(),
        ensures
            final(self).wf(),
            removed == waits(old(self)@.pending, waiter),
            final(self)@ == (TimerState {
                pending: without(old(self)@.pending, waiter),
                ..old(self)@
            }),
    {
        self.queue.cancel(waiter)
    }

    /// Serves the timer interrupt, given that the counter reads `raw_now`.
    ///
    /// Every entry that is due at the logical time of the sample is taken
    /// off the queue and handed back, earliest first. Then the compare
    /// register is armed for the earliest deadline that is left, with the
    /// timer enabled; or, where none is left, armed one logical tick ahead
    /// with the timer disabled.
    pub fn on_interrupt(&mut self, raw_now: u64) -> (delivered: Vec<Entry>)
        requires
            old(self).wf(),
            old(self)@.started(),
            old(self)@.in_range(raw_now),
        ensures
            final(self).wf(),
            ({
                let now = old(self)@.reading(raw_now) as u64;
                let due = due_count(old(self)@.pending, now) as int;
                let pending = old(self)@.pending.skip(due);
                let scale = old(self)@.ticks_per_tick;
                &&& delivered@ == old(self)@.pending.take(due)
                &&& ascending(delivered@)
                &&& final(self)@ == (TimerState {
                    phase: Phase::Running,
                    pending,
                    timer_enabled: pending.len() > 0,
                    compare: if pending.len() > 0 {
                        compare_target(pending[0].deadline, raw_now, scale) as u64
                    } else {
                        one_tick_ahead(raw_now, scale) as u64
                    },
                    ..old(self)@.observe(raw_now)
                })
            }),
    {
        let now = self.now(raw_now);
        self.phase = Phase::Running;
        let delivered = self.queue.pop_due(now);
        match self.queue.peek() {
            Some(head) => {
                self.enable_timer();
                self.set_compare(head.deadline, raw_now);
            },
            None => {
                self.disable_timer();
                self.clear_compare_flag(raw_now);
            },
        }
        delivered
    }
}

} // verus!
