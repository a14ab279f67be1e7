//! The delay controller: owns a timer, keeps the prescalers computed for it,
//! and turns "wait this many milliseconds or microseconds" into bounded delays.

use vstd::prelude::*;
use crate::clock::{
    ceil_div, lemma_prescalers_fit, lemma_prescalers_round_up, lemma_us_prescaler_exact,
    ClockConfig, MICROS_PER_SECOND, MILLIS_PER_SECOND,
};
use crate::registers::{lemma_replay_concat, RegisterOp, TimerModel};
use crate::timer::{
    bounded_delay_ops, disable_ops, enable_ops, lemma_bounded_delay_effect, lemma_disable_effect,
    lemma_enable_effect, lemma_split_prescaler, register_prescaler, repetitions, TimerExt,
};

verus! {

/// Longest bounded delay, in ticks: the largest value of the 16-bit counter.
pub const MAX_TICKS: u32 = 0xffff;

/// Number of bounded delays that a delay of `n` ticks is split into: as many
/// as it takes with at most `MAX_TICKS` each, and one for `n == 0`.
pub open spec fn request_count(n: u32) -> nat {
    if n == 0 {
        1
    } else {
        ceil_div(n as nat, MAX_TICKS as nat)
    }
}

/// Durations of the bounded delays that a delay of `n` ticks is split into:
/// every one but the last is `MAX_TICKS` long, the last takes what is left.
pub open spec fn requests(n: u32) -> Seq<u16> {
    Seq::new(
        request_count(n),
        |i: int|
            if i + 1 < request_count(n) {
                MAX_TICKS as u16
            } else {
                (n - MAX_TICKS * (request_count(n) - 1)) as u16
            },
    )
}

/// Sum of `durations`.
pub open spec fn total(durations: Seq<u16>) -> nat
    decreases durations.len(),
{
    if durations.len() == 0 {
        0
    } else {
        total(durations.drop_last()) + durations.last() as nat
    }
}

/// Register accesses of one bounded delay after the other, each at
/// `prescaler`, with the given durations.
pub open spec fn requests_ops(prescaler: u32, durations: Seq<u16>) -> Seq<RegisterOp>
    decreases durations.len(),
{
    if durations.len() == 0 {
        Seq::empty()
    } else {
        requests_ops(prescaler, durations.drop_last()) + bounded_delay_ops(
            prescaler,
            durations.last(),
        )
    }
}

/// Register accesses of a delay of `n` ticks at `prescaler`.
pub open spec fn delay_ops(prescaler: u32, n: u32) -> Seq<RegisterOp> {
    requests_ops(prescaler, requests(n))
}

/// A delay controller as contracts see it.
pub struct DelayView<T> {
    /// The timer it owns.
    pub timer: T,
    /// Prescaler at which a tick lasts a microsecond.
    pub us_prescaler: u32,
    /// Prescaler at which a tick lasts a millisecond.
    pub ms_prescaler: u32,
}

/// Blocking delays on a timer of type `T`.
///
/// The controller owns the timer from `init` to `free`. The prescalers are
/// computed once, in `init`; a clock configuration that changes later is not
/// noticed.
pub struct TimerDelay<T> {
    t: T,
    us_pre: u32,
    ms_pre: u32,
}

impl<T> View for TimerDelay<T> {
    type V = DelayView<T>;

    closed spec fn view(&self) -> DelayView<T> {
        DelayView { timer: self.t, us_prescaler: self.us_pre, ms_prescaler: self.ms_pre }
    }
}

impl<T: TimerExt> TimerDelay<T> {
    /// `self` is the controller that `init` makes of `t` and `clocks`: it
    /// holds `t` switched on, and the prescalers for `clocks`.
    pub open spec fn is_init_of(&self, t: T, clocks: ClockConfig) -> bool {
        &&& self@.timer.trace() == t.trace() + enable_ops()
        &&& self@.timer.id() == t.id()
        &&& self@.us_prescaler == clocks.us_prescaler()
        &&& self@.ms_prescaler == clocks.ms_prescaler()
    }

    /// `t` is the timer that `free` hands back from `self`: the timer that
    /// `self` holds, switched off.
    pub open spec fn frees_to(&self, t: T) -> bool {
        &&& t.trace() == self@.timer.trace() + disable_ops()
        &&& t.id() == self@.timer.id()
    }

    /// `self` is `before` after its timer has made the accesses `ops`, and
    /// nothing else has changed.
    pub open spec fn follows(&self, before: &Self, ops: Seq<RegisterOp>) -> bool {
        &&& self@.timer.trace() == before@.timer.trace() + ops
        &&& self@.timer.id() == before@.timer.id()
        &&& self@.us_prescaler == before@.us_prescaler
        &&& self@.ms_prescaler == before@.ms_prescaler
    }

    /// Takes ownership of the timer, switches it on, and computes the
    /// prescalers from the clock configuration.
    ///
    /// The timer must not be on already.
    pub fn init(t: T, clocks: ClockConfig) -> (d: TimerDelay<T>)
        ensures
            d.is_init_of(t, clocks),
    {
        let mut t = t;
        t.enable();
        let (us_pre, ms_pre) = T::calc_pre(clocks);
        TimerDelay { t, us_pre, ms_pre }
    }

    /// Switches the timer off and hands it back.
    pub fn free(self) -> (t: T)
        ensures
            self.frees_to(t),
    {
        let mut t = self.t;
        t.disable();
        t
    }

    /// The prescaler used for microsecond delays.
    pub fn us_prescaler(&self) -> (pre: u32)
        ensures
            pre == self@.us_prescaler,
    {
        self.us_pre
    }

    /// The prescaler used for millisecond delays.
    pub fn ms_prescaler(&self) -> (pre: u32)
        ensures
            pre == self@.ms_prescaler,
    {
        self.ms_pre
    }

    /// Blocks for `n` ticks at `prescaler`, in bounded delays of at most
    /// `MAX_TICKS` each. The last one is run even when nothing is left for it.
    fn delay_ticks(&mut self, prescaler: u32, n: u32)
        ensures
            final(self).follows(old(self), delay_ops(prescaler, n)),
    {
        let mut rest: u32 = n;
        let ghost mut done: nat = 0;
        assert(requests(n).subrange(0, 0) =~= Seq::<u16>::empty());
        assert(self.t.trace() =~= old(self).t.trace() + Seq::<RegisterOp>::empty());
        while rest > MAX_TICKS
            invariant
                rest == n - MAX_TICKS * done,
                n > 0 ==> rest > 0,
                done < request_count(n),
                self.follows(
                    old(self),
                    requests_ops(prescaler, requests(n).subrange(0, done as int)),
                ),
            decreases rest,
        {
            self.t.delay(prescaler, MAX_TICKS as u16);
            rest -= MAX_TICKS;
            proof {
                let issued = requests(n).subrange(0, done as int);
                assert(requests(n).subrange(0, done as int + 1) =~= issued.push(MAX_TICKS as u16));
                lemma_requests_ops_push(prescaler, issued, MAX_TICKS as u16);
                assert(self.t.trace() =~= old(self).t.trace() + requests_ops(
                    prescaler,
                    issued.push(MAX_TICKS as u16),
                ));
                done = done + 1;
            }
        }
        self.t.delay(prescaler, rest as u16);
        proof {
            let issued = requests(n).subrange(0, done as int);
            assert(requests(n) =~= issued.push(rest as u16));
            lemma_requests_ops_push(prescaler, issued, rest as u16);
            assert(self.t.trace() =~= old(self).t.trace() + delay_ops(prescaler, n));
        }
    }

    /// Blocks for `ms` milliseconds.
    ///
    /// A time above `MAX_TICKS` is split: bounded delays of `MAX_TICKS`
    /// milliseconds while more than that is left, then one of what is left.
    pub fn delay_ms(&mut self, ms: u32)
        ensures
            final(self).follows(old(self), delay_ops(old(self)@.ms_prescaler, ms)),
    {
        let pre: u32 = self.ms_pre;
        self.delay_ticks(pre, ms);
    }

    /// Blocks for `ms` milliseconds, in one bounded delay.
    pub fn delay_ms_u16(&mut self, ms: u16)
        ensures
            final(self).follows(old(self), bounded_delay_ops(old(self)@.ms_prescaler, ms)),
    {
        self.t.delay(self.ms_pre, ms);
    }

    /// Blocks for `ms` milliseconds, in one bounded delay.
    pub fn delay_ms_u8(&mut self, ms: u8)
        ensures
            final(self).follows(old(self), bounded_delay_ops(old(self)@.ms_prescaler, ms as u16)),
    {
        self.t.delay(self.ms_pre, ms as u16);
    }

    /// Blocks for `us` microseconds.
    ///
    /// A time above `MAX_TICKS` is split: bounded delays of `MAX_TICKS`
    /// microseconds while more than that is left, then one of what is left.
    pub fn delay_us(&mut self, us: u32)
        ensures
            final(self).follows(old(self), delay_ops(old(self)@.us_prescaler, us)),
    {
        let pre: u32 = self.us_pre;
        self.delay_ticks(pre, us);
    }

    /// Blocks for `us` microseconds, in one bounded delay.
    pub fn delay_us_u16(&mut self, us: u16)
        ensures
            final(self).follows(old(self), bounded_delay_ops(old(self)@.us_prescaler, us)),
    {
        self.t.delay(self.us_pre, us);
    }

    /// Blocks for `us` microseconds, in one bounded delay.
    pub fn delay_us_u8(&mut self, us: u8)
        ensures
            final(self).follows(old(self), bounded_delay_ops(old(self)@.us_prescaler, us as u16)),
    {
        self.t.delay(self.us_pre, us as u16);
    }
}

/// One more bounded delay at the end of a run of them.
pub proof fn lemma_requests_ops_push(prescaler: u32, durations: Seq<u16>, time: u16)
    ensures
        requests_ops(prescaler, durations.push(time)) == requests_ops(prescaler, durations)
            + bounded_delay_ops(prescaler, time),
{
    assert(durations.push(time).drop_last() =~= durations);
}

/// How a delay of `n` ticks is split: into `ceil(n / MAX_TICKS)` bounded
/// delays, or one if `n` is zero; all but the last are `MAX_TICKS` long; the
/// last is never longer, and empty only if `n` is zero; together they last `n`
/// ticks, which is `n / MAX_TICKS` full lengths and a remainder.
pub proof fn lemma_requests_shape(n: u32)
    ensures
        requests(n).len() == request_count(n),
        request_count(n) == (if n == 0 {
            1
        } else {
            ceil_div(n as nat, MAX_TICKS as nat)
        }),
        request_count(n) == (if n % MAX_TICKS == 0 && n > 0 {
            (n / MAX_TICKS) as int
        } else {
            n / MAX_TICKS + 1
        }),
        forall|i: int| 0 <= i < requests(n).len() - 1 ==> requests(n)[i] == MAX_TICKS,
        requests(n).last() <= MAX_TICKS,
        requests(n).last() == n - MAX_TICKS * (request_count(n) - 1),
        requests(n).last() == 0 <==> n == 0,
        total(requests(n)) == n,
        n == (n / MAX_TICKS) * MAX_TICKS + n % MAX_TICKS,
{
    let all = requests(n);
    let full = all.drop_last();
    lemma_total_of_full(full);
    assert(all =~= full.push(all.last()));
}

/// A run of full-length bounded delays lasts `MAX_TICKS` times their number.
proof fn lemma_total_of_full(durations: Seq<u16>)
    requires
        forall|i: int| 0 <= i < durations.len() ==> durations[i] == MAX_TICKS,
    ensures
        total(durations) == MAX_TICKS * durations.len(),
    decreases durations.len(),
{
    if durations.len() > 0 {
        lemma_total_of_full(durations.drop_last());
    }
}

/// A delay that fits the counter is a single bounded delay.
pub proof fn lemma_short_delay_is_one_request(prescaler: u32, n: u32)
    requires
        n <= MAX_TICKS,
    ensures
        requests(n) == seq![n as u16],
        delay_ops(prescaler, n) == bounded_delay_ops(prescaler, n as u16),
{
    let none = Seq::<u16>::empty();
    assert(requests(n) =~= seq![n as u16]);
    assert(requests(n) =~= none.push(n as u16));
    lemma_requests_ops_push(prescaler, none, n as u16);
    assert(requests_ops(prescaler, none) + bounded_delay_ops(prescaler, n as u16)
        =~= bounded_delay_ops(prescaler, n as u16));
}

/// Bounded delays in a row on a ready timer: each runs its chained countdowns,
/// so the ticks spent are the repetitions times the sum of the durations, at
/// the register's share of `prescaler`. The timer is ready again afterwards.
pub proof fn lemma_requests_effect(s: TimerModel, prescaler: u32, durations: Seq<u16>)
    requires
        s.ready(),
    ensures
        durations.len() == 0 ==> s.replay(requests_ops(prescaler, durations)) == s,
        durations.len() > 0 ==> s.replay(requests_ops(prescaler, durations)) == (TimerModel {
            prescaler: register_prescaler(prescaler),
            counter: 0,
            update_flag: true,
            ticks: s.ticks + repetitions(prescaler) * total(durations),
            cycles: s.cycles + repetitions(prescaler) * total(durations) * (register_prescaler(
                prescaler,
            ) as nat),
            ..s
        }),
        s.replay(requests_ops(prescaler, durations)).ready(),
    decreases durations.len(),
{
    if durations.len() > 0 {
        let front = durations.drop_last();
        let time = durations.last();
        lemma_requests_effect(s, prescaler, front);
        let mid = s.replay(requests_ops(prescaler, front));
        lemma_replay_concat(s, requests_ops(prescaler, front), bounded_delay_ops(prescaler, time));
        lemma_bounded_delay_effect(mid, prescaler, time);
        let k = repetitions(prescaler);
        let r = register_prescaler(prescaler) as nat;
        let a = total(front);
        let b = time as nat;
        assert(k * a + k * b == k * (a + b) && k * a * r + k * b * r == k * (a + b) * r)
            by (nonlinear_arith);
        if front.len() == 0 {
            assert(k * 0 == 0 && k * 0 * r == 0) by (nonlinear_arith);
        }
    }
}

/// A whole delay of `n` ticks on a ready timer ends, spends `n` ticks for each
/// repetition that `prescaler` asks for, and leaves the timer ready.
pub proof fn lemma_delay_effect(s: TimerModel, prescaler: u32, n: u32)
    requires
        s.ready(),
    ensures
        s.replay(delay_ops(prescaler, n)) == (TimerModel {
            prescaler: register_prescaler(prescaler),
            counter: 0,
            update_flag: true,
            ticks: s.ticks + repetitions(prescaler) * (n as nat),
            cycles: s.cycles + repetitions(prescaler) * (n as nat) * (register_prescaler(
                prescaler,
            ) as nat),
            ..s
        }),
        s.replay(delay_ops(prescaler, n)).ready(),
{
    lemma_requests_shape(n);
    lemma_requests_effect(s, prescaler, requests(n));
}

/// A microsecond delay is never shorter than asked for. On a ready timer
/// `delay_us(us)` spends `us` ticks with the microsecond prescaler in the
/// register, and those last at least `us` microseconds of the input clock.
/// Where the bus frequency is a whole number of MHz they last exactly that.
pub proof fn lemma_delay_us_duration(s: TimerModel, clocks: ClockConfig, us: u32)
    requires
        s.ready(),
    ensures
        ({
            let pre = clocks.us_prescaler() as u32;
            let e = s.replay(delay_ops(pre, us));
            &&& pre == clocks.us_prescaler()
            &&& e.ready()
            &&& e.prescaler == pre
            &&& e.ticks == s.ticks + us
            &&& e.cycles == s.cycles + us * pre
            &&& (e.cycles - s.cycles) * MICROS_PER_SECOND >= us * clocks.effective_frequency()
            &&& clocks.peripheral_clock_hz % MICROS_PER_SECOND == 0 ==> (e.cycles - s.cycles)
                * MICROS_PER_SECOND == us * clocks.effective_frequency()
        }),
{
    lemma_prescalers_fit(clocks);
    lemma_prescalers_round_up(clocks);
    let pre = clocks.us_prescaler() as u32;
    lemma_split_prescaler(pre);
    lemma_delay_effect(s, pre, us);
    let f = clocks.effective_frequency();
    let k = us as nat;
    let p = pre as nat;
    assert(1 * k * p == k * p) by (nonlinear_arith);
    assert(k * p * 1_000_000 >= k * f) by (nonlinear_arith)
        requires
            p * 1_000_000 >= f,
    ;
    if clocks.peripheral_clock_hz % MICROS_PER_SECOND == 0 {
        lemma_us_prescaler_exact(clocks);
        assert(k * p * 1_000_000 == k * f) by (nonlinear_arith)
            requires
                p * 1_000_000 == f,
        ;
    }
}

/// A millisecond delay is never shorter than asked for as long as the
/// millisecond prescaler fits the 16-bit register. On a ready timer
/// `delay_ms(ms)` then spends `ms` ticks with that prescaler in the register,
/// and those last at least `ms` milliseconds of the input clock.
pub proof fn lemma_delay_ms_duration(s: TimerModel, clocks: ClockConfig, ms: u32)
    requires
        s.ready(),
        clocks.ms_prescaler() <= MAX_TICKS,
    ensures
        ({
            let pre = clocks.ms_prescaler() as u32;
            let e = s.replay(delay_ops(pre, ms));
            &&& e.ready()
            &&& e.prescaler == pre
            &&& e.ticks == s.ticks + ms
            &&& e.cycles == s.cycles + ms * pre
            &&& (e.cycles - s.cycles) * MILLIS_PER_SECOND >= ms * clocks.effective_frequency()
        }),
{
    lemma_prescalers_round_up(clocks);
    let pre = clocks.ms_prescaler() as u32;
    lemma_split_prescaler(pre);
    lemma_delay_effect(s, pre, ms);
    let f = clocks.effective_frequency();
    let k = ms as nat;
    let p = pre as nat;
    assert(1 * k * p == k * p) by (nonlinear_arith);
    assert(k * p * 1_000 >= k * f) by (nonlinear_arith)
        requires
            p * 1_000 >= f,
    ;
}

/// Freeing a controller right after `init` gives back the timer that went in:
/// the same peripheral, with nothing done to it but switching it on and off
/// again. Whatever state it was in before, it ends unclocked and out of reset,
/// with its registers at their reset values.
pub proof fn lemma_free_after_init<T: TimerExt>(
    t: T,
    clocks: ClockConfig,
    d: TimerDelay<T>,
    back: T,
    s: TimerModel,
)
    requires
        d.is_init_of(t, clocks),
        d.frees_to(back),
    ensures
        back.id() == t.id(),
        back.trace() == t.trace() + enable_ops() + disable_ops(),
        s.replay(enable_ops() + disable_ops()) == (TimerModel {
            clock_enabled: false,
            in_reset: false,
            ..s.cleared()
        }),
{
    lemma_replay_concat(s, enable_ops(), disable_ops());
    lemma_enable_effect(s);
    lemma_disable_effect(s.replay(enable_ops()));
}

/// Delays never get stuck on a timer that `init` has switched on: from any
/// state that is not stuck already, switching on and then delaying `n` ticks
/// at `prescaler` ends, after `n` ticks for each repetition.
pub proof fn lemma_delay_after_init_ends(s: TimerModel, prescaler: u32, n: u32)
    requires
        !s.hung,
    ensures
        ({
            let e = s.replay(enable_ops() + delay_ops(prescaler, n));
            &&& !e.hung
            &&& e.ready()
            &&& e.ticks == s.ticks + repetitions(prescaler) * (n as nat)
        }),
{
    lemma_replay_concat(s, enable_ops(), delay_ops(prescaler, n));
    lemma_enable_effect(s);
    lemma_delay_effect(s.replay(enable_ops()), prescaler, n);
}

} // verus!
