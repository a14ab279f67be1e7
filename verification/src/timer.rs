//! The timer as the delay controller sees it: a handle that performs register
//! accesses, and on top of it the three operations that program the timer.

use vstd::prelude::*;
use crate::clock::ClockConfig;
use crate::registers::{lemma_replay_concat, lemma_replay_push, RegisterOp, TimerModel};

verus! {

/// Width of the prescaler and counter registers: they hold values below this.
pub const REGISTER_RANGE: u32 = 0x1_0000;

/// Accesses that switch the timer on: gate its clock on, pulse its reset, and
/// select down-counting.
pub open spec fn enable_ops() -> Seq<RegisterOp> {
    seq![
        RegisterOp::EnableClock,
        RegisterOp::AssertReset,
        RegisterOp::ReleaseReset,
        RegisterOp::CountDown,
    ]
}

/// Accesses that switch the timer off: pulse its reset, then gate its clock
/// off.
pub open spec fn disable_ops() -> Seq<RegisterOp> {
    seq![RegisterOp::AssertReset, RegisterOp::ReleaseReset, RegisterOp::DisableClock]
}

/// Accesses of one countdown from `time` to zero.
pub open spec fn countdown_ops(time: u16) -> Seq<RegisterOp> {
    seq![
        RegisterOp::ClearUpdateFlag,
        RegisterOp::LoadCounter(time),
        RegisterOp::StartCounter,
        RegisterOp::WaitForUpdate,
        RegisterOp::StopCounter,
    ]
}

/// `block`, `n` times over.
pub open spec fn repeat_ops(block: Seq<RegisterOp>, n: nat) -> Seq<RegisterOp>
    decreases n,
{
    if n == 0 {
        Seq::empty()
    } else {
        repeat_ops(block, (n - 1) as nat) + block
    }
}

/// Number of countdowns that stand for one countdown at `prescaler`: one, and
/// one more for each time the register range fits into the prescaler.
pub open spec fn repetitions(prescaler: u32) -> nat {
    (prescaler / REGISTER_RANGE) as nat + 1
}

/// What of `prescaler` goes into the prescaler register: its remainder in the
/// register range.
pub open spec fn register_prescaler(prescaler: u32) -> u16 {
    (prescaler % REGISTER_RANGE) as u16
}

/// Accesses of one bounded delay: the prescaler register is written once, then
/// the countdown from `time` is run `repetitions(prescaler)` times.
pub open spec fn bounded_delay_ops(prescaler: u32, time: u16) -> Seq<RegisterOp> {
    seq![RegisterOp::SetPrescaler(register_prescaler(prescaler))] + repeat_ops(
        countdown_ops(time),
        repetitions(prescaler),
    )
}

/// A timer peripheral that can serve as a delay source.
///
/// An implementation supplies `perform`, one register access at a time, for
/// one concrete timer. The operations that program the timer are built on it
/// and are the same for every timer.
///
/// The handle must be the only way to reach the peripheral while it is in use:
/// the contracts describe the accesses made through it and assume that nobody
/// else makes any.
pub trait TimerExt: Sized {
    /// Every register access made through this handle so far, oldest first.
    spec fn trace(&self) -> Seq<RegisterOp>;

    /// Which peripheral this handle stands for. No register access changes it.
    spec fn id(&self) -> nat;

    /// Makes one register access. `WaitForUpdate` returns only after the
    /// counter has raised its flag.
    fn perform(&mut self, op: RegisterOp)
        ensures
            final(self).trace() == old(self).trace().push(op),
            final(self).id() == old(self).id(),
    ;

    /// Switches the timer on.
    ///
    /// Must not be called on a timer that is already on.
    fn enable(&mut self)
        ensures
            final(self).trace() == old(self).trace() + enable_ops(),
            final(self).id() == old(self).id(),
    {
        self.perform(RegisterOp::EnableClock);
        self.perform(RegisterOp::AssertReset);
        self.perform(RegisterOp::ReleaseReset);
        self.perform(RegisterOp::CountDown);
        assert(self.trace() =~= old(self).trace() + enable_ops());
    }

    /// Switches the timer off.
    fn disable(&mut self)
        ensures
            final(self).trace() == old(self).trace() + disable_ops(),
            final(self).id() == old(self).id(),
    {
        self.perform(RegisterOp::AssertReset);
        self.perform(RegisterOp::ReleaseReset);
        self.perform(RegisterOp::DisableClock);
        assert(self.trace() =~= old(self).trace() + disable_ops());
    }

    /// Computes the microsecond and the millisecond prescaler, in that order.
    ///
    /// Both are rounded up: a divider that is too large lengthens a delay, one
    /// that is too small would shorten it.
    fn calc_pre(clocks: ClockConfig) -> (pre: (u32, u32))
        ensures
            pre.0 == clocks.us_prescaler(),
            pre.1 == clocks.ms_prescaler(),
    {
        let mul: u64 = if clocks.divider_is_one { 2 } else { 1 };
        let freq_in: u64 = clocks.peripheral_clock_hz as u64 * mul;
        let us_pre: u64 = (freq_in + 999_999) / 1_000_000;
        let ms_pre: u64 = (freq_in + 999) / 1_000;
        (us_pre as u32, ms_pre as u32)
    }

    /// Runs one bounded delay: blocks for `time` ticks at `prescaler`.
    ///
    /// A prescaler that does not fit the 16-bit register is emulated: its low
    /// 16 bits go into the register, and the countdown is repeated once more
    /// for each unit of its high 16 bits.
    fn delay(&mut self, prescaler: u32, time: u16)
        ensures
            final(self).trace() == old(self).trace() + bounded_delay_ops(prescaler, time),
            final(self).id() == old(self).id(),
    {
        proof {
            lemma_split_prescaler(prescaler);
        }
        let reps: u32 = (prescaler >> 16) + 1;
        let low: u16 = (prescaler & 0xffff) as u16;
        self.perform(RegisterOp::SetPrescaler(low));
        let ghost base = old(self).trace().push(RegisterOp::SetPrescaler(low));
        for i in 0..reps
            invariant
                reps == repetitions(prescaler),
                self.trace() == base + repeat_ops(countdown_ops(time), i as nat),
                self.id() == old(self).id(),
        {
            self.perform(RegisterOp::ClearUpdateFlag);
            self.perform(RegisterOp::LoadCounter(time));
            self.perform(RegisterOp::StartCounter);
            self.perform(RegisterOp::WaitForUpdate);
            self.perform(RegisterOp::StopCounter);
            assert(self.trace() =~= base + repeat_ops(countdown_ops(time), (i + 1) as nat));
        }
        assert(self.trace() =~= old(self).trace() + bounded_delay_ops(prescaler, time));
    }
}

/// The split of a prescaler in shifts and masks: the repetitions are its high
/// 16 bits plus one, the register value its low 16 bits.
pub proof fn lemma_split_prescaler(prescaler: u32)
    ensures
        prescaler >> 16 <= 0xffff,
        prescaler & 0xffff <= 0xffff,
        repetitions(prescaler) == (prescaler >> 16) + 1,
        register_prescaler(prescaler) == prescaler & 0xffff,
        repetitions(prescaler) <= REGISTER_RANGE,
        prescaler < REGISTER_RANGE ==> repetitions(prescaler) == 1 && register_prescaler(prescaler)
            == prescaler,
{
    assert(prescaler >> 16 == prescaler / 0x1_0000) by (bit_vector);
    assert(prescaler & 0xffff == prescaler % 0x1_0000) by (bit_vector);
}

/// Switching on works from any state: afterwards the timer is clocked, out of
/// reset and counts downwards, with its registers at their reset values. What
/// the processor has waited so far is untouched.
pub proof fn lemma_enable_effect(s: TimerModel)
    ensures
        s.replay(enable_ops()) == (TimerModel {
            clock_enabled: true,
            in_reset: false,
            counts_down: true,
            ..s.cleared()
        }),
        !s.hung ==> s.replay(enable_ops()).ready(),
{
    let e = Seq::<RegisterOp>::empty();
    let a = e.push(RegisterOp::EnableClock);
    let b = a.push(RegisterOp::AssertReset);
    let c = b.push(RegisterOp::ReleaseReset);
    assert(enable_ops() =~= c.push(RegisterOp::CountDown));
    lemma_replay_push(s, e, RegisterOp::EnableClock);
    lemma_replay_push(s, a, RegisterOp::AssertReset);
    lemma_replay_push(s, b, RegisterOp::ReleaseReset);
    lemma_replay_push(s, c, RegisterOp::CountDown);
}

/// Switching off works from any state: afterwards the timer is unclocked, with
/// its registers at their reset values.
pub proof fn lemma_disable_effect(s: TimerModel)
    ensures
        s.replay(disable_ops()) == (TimerModel {
            clock_enabled: false,
            in_reset: false,
            ..s.cleared()
        }),
{
    let e = Seq::<RegisterOp>::empty();
    let a = e.push(RegisterOp::AssertReset);
    let b = a.push(RegisterOp::ReleaseReset);
    assert(disable_ops() =~= b.push(RegisterOp::DisableClock));
    lemma_replay_push(s, e, RegisterOp::AssertReset);
    lemma_replay_push(s, a, RegisterOp::ReleaseReset);
    lemma_replay_push(s, b, RegisterOp::DisableClock);
}

/// One countdown on a ready timer ends, takes `time` ticks at the prescaler
/// that the register holds, and leaves the timer ready.
pub proof fn lemma_countdown_effect(s: TimerModel, time: u16)
    requires
        s.ready(),
    ensures
        s.replay(countdown_ops(time)) == (TimerModel {
            counter: 0,
            update_flag: true,
            ticks: s.ticks + time as nat,
            cycles: s.cycles + (time as nat) * (s.prescaler as nat),
            ..s
        }),
{
    let e = Seq::<RegisterOp>::empty();
    let a = e.push(RegisterOp::ClearUpdateFlag);
    let b = a.push(RegisterOp::LoadCounter(time));
    let c = b.push(RegisterOp::StartCounter);
    let d = c.push(RegisterOp::WaitForUpdate);
    assert(countdown_ops(time) =~= d.push(RegisterOp::StopCounter));
    lemma_replay_push(s, e, RegisterOp::ClearUpdateFlag);
    lemma_replay_push(s, a, RegisterOp::LoadCounter(time));
    lemma_replay_push(s, b, RegisterOp::StartCounter);
    lemma_replay_push(s, c, RegisterOp::WaitForUpdate);
    lemma_replay_push(s, d, RegisterOp::StopCounter);
}

/// `n` countdowns in a row on a ready timer take `n * time` ticks.
pub proof fn lemma_repeated_countdowns_effect(s: TimerModel, time: u16, n: nat)
    requires
        s.ready(),
    ensures
        s.replay(repeat_ops(countdown_ops(time), n)) == (TimerModel {
            counter: if n > 0 { 0 } else { s.counter },
            update_flag: if n > 0 { true } else { s.update_flag },
            ticks: s.ticks + n * (time as nat),
            cycles: s.cycles + n * (time as nat) * (s.prescaler as nat),
            ..s
        }),
    decreases n,
{
    let block = countdown_ops(time);
    if n == 0 {
        assert(s.cycles + 0 * (time as nat) * (s.prescaler as nat) == s.cycles) by (nonlinear_arith);
    } else {
        let m = (n - 1) as nat;
        lemma_repeated_countdowns_effect(s, time, m);
        let mid = s.replay(repeat_ops(block, m));
        lemma_replay_concat(s, repeat_ops(block, m), block);
        lemma_countdown_effect(mid, time);
        let t = time as nat;
        let p = s.prescaler as nat;
        assert(m * t + t == n * t && m * t * p + t * p == n * t * p) by (nonlinear_arith)
            requires
                n == m + 1,
        ;
    }
}

/// The chained countdowns of a bounded delay: on a ready timer the prescaler
/// register receives the low 16 bits of `prescaler`, the countdown from `time`
/// runs once more than the high 16 bits say, and the ticks spent are the
/// repetitions times `time`. The timer is ready again afterwards.
pub proof fn lemma_bounded_delay_effect(s: TimerModel, prescaler: u32, time: u16)
    requires
        s.ready(),
    ensures
        repetitions(prescaler) == (prescaler >> 16) + 1,
        register_prescaler(prescaler) == prescaler & 0xffff,
        s.replay(bounded_delay_ops(prescaler, time)) == (TimerModel {
            prescaler: register_prescaler(prescaler),
            counter: 0,
            update_flag: true,
            ticks: s.ticks + repetitions(prescaler) * (time as nat),
            cycles: s.cycles + repetitions(prescaler) * (time as nat) * (register_prescaler(
                prescaler,
            ) as nat),
            ..s
        }),
        s.replay(bounded_delay_ops(prescaler, time)).ready(),
{
    lemma_split_prescaler(prescaler);
    let set = RegisterOp::SetPrescaler(register_prescaler(prescaler));
    let head = Seq::<RegisterOp>::empty().push(set);
    let tail = repeat_ops(countdown_ops(time), repetitions(prescaler));
    assert(seq![set] =~= head);
    lemma_replay_push(s, Seq::empty(), set);
    lemma_replay_concat(s, head, tail);
    lemma_repeated_countdowns_effect(s.replay(head), time, repetitions(prescaler));
}

} // verus!
