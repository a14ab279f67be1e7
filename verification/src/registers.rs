//! The register accesses a delay is made of, and a model of what they do to
//! the timer.

use vstd::prelude::*;

verus! {

/// One access to the timer's registers, or to the timer's bits in the reset and
/// clock control block.
///
/// The bits in the reset and clock control block share their registers with
/// other peripherals, so an implementation has to set and clear them one bit at
/// a time, never by reading and writing back the whole register.
#[derive(Clone, Copy, Debug, PartialEq, Eq, Structural)]
pub enum RegisterOp {
    /// Gate the timer's clock on.
    EnableClock,
    /// Gate the timer's clock off.
    DisableClock,
    /// Set the timer's reset bit.
    AssertReset,
    /// Clear the timer's reset bit.
    ReleaseReset,
    /// Make the counter count downwards.
    CountDown,
    /// Write the prescaler register.
    SetPrescaler(u16),
    /// Clear the flag that the counter raises when it reaches zero.
    ClearUpdateFlag,
    /// Write the counter register.
    LoadCounter(u16),
    /// Let the counter run.
    StartCounter,
    /// Spin until the counter has raised its flag. There is no timeout.
    WaitForUpdate,
    /// Halt the counter.
    StopCounter,
}

/// State of the modelled timer.
///
/// Besides the bits and registers it keeps what a caller of a delay cares
/// about: how long the processor has been kept waiting, and whether it is
/// stuck in a wait that cannot end.
pub struct TimerModel {
    /// The timer's clock is gated on.
    pub clock_enabled: bool,
    /// The timer is held in reset.
    pub in_reset: bool,
    /// The counter counts downwards.
    pub counts_down: bool,
    /// Content of the prescaler register.
    pub prescaler: u16,
    /// Content of the counter register.
    pub counter: u16,
    /// The counter is running.
    pub running: bool,
    /// The counter has reached zero since the flag was last cleared.
    pub update_flag: bool,
    /// A wait was entered that the counter could never end.
    pub hung: bool,
    /// Counter ticks spent in waits.
    pub ticks: nat,
    /// Input clock cycles spent in waits: each tick lasts as many cycles as
    /// the prescaler register held while it was counted.
    pub cycles: nat,
}

impl TimerModel {
    /// The timer's own registers can be written: it is clocked and out of reset.
    pub open spec fn accessible(self) -> bool {
        self.clock_enabled && !self.in_reset
    }

    /// The timer is set up for a countdown and idle.
    pub open spec fn ready(self) -> bool {
        self.accessible() && self.counts_down && !self.running && !self.hung
    }

    /// The timer's own registers at their reset values.
    pub open spec fn cleared(self) -> TimerModel {
        TimerModel {
            counts_down: false,
            prescaler: 0,
            counter: 0,
            running: false,
            update_flag: false,
            ..self
        }
    }

    /// Effect of one register access.
    ///
    /// The bits in the reset and clock control block can always be written.
    /// The timer's own registers ignore writes while the timer is unclocked or
    /// in reset. A wait returns at once when the flag is already up; otherwise
    /// it lasts until a running down-counter has counted its register to zero,
    /// and never ends if there is no such counter.
    pub open spec fn step(self, op: RegisterOp) -> TimerModel {
        match op {
            RegisterOp::EnableClock => TimerModel { clock_enabled: true, ..self },
            RegisterOp::DisableClock => TimerModel { clock_enabled: false, ..self },
            RegisterOp::AssertReset => TimerModel { in_reset: true, ..self.cleared() },
            RegisterOp::ReleaseReset => TimerModel { in_reset: false, ..self },
            RegisterOp::CountDown => if self.accessible() {
                TimerModel { counts_down: true, ..self }
            } else {
                self
            },
            RegisterOp::SetPrescaler(p) => if self.accessible() {
                TimerModel { prescaler: p, ..self }
            } else {
                self
            },
            RegisterOp::ClearUpdateFlag => if self.accessible() {
                TimerModel { update_flag: false, ..self }
            } else {
                self
            },
            RegisterOp::LoadCounter(c) => if self.accessible() {
                TimerModel { counter: c, ..self }
            } else {
                self
            },
            RegisterOp::StartCounter => if self.accessible() {
                TimerModel { running: true, ..self }
            } else {
                self
            },
            RegisterOp::StopCounter => if self.accessible() {
                TimerModel { running: false, ..self }
            } else {
                self
            },
            RegisterOp::WaitForUpdate => if self.update_flag {
                self
            } else if self.accessible() && self.running && self.counts_down {
                TimerModel {
                    counter: 0,
                    update_flag: true,
                    ticks: self.ticks + self.counter as nat,
                    cycles: self.cycles + (self.counter as nat) * (self.prescaler as nat),
                    ..self
                }
            } else {
                TimerModel { hung: true, ..self }
            },
        }
    }

    /// Effect of a sequence of register accesses, made in order.
    pub open spec fn replay(self, ops: Seq<RegisterOp>) -> TimerModel
        decreases ops.len(),
    {
        if ops.len() == 0 {
            self
        } else {
            self.replay(ops.drop_last()).step(ops.last())
        }
    }
}

/// Replaying one more access is one more step.
pub proof fn lemma_replay_push(s: TimerModel, ops: Seq<RegisterOp>, op: RegisterOp)
    ensures
        s.replay(ops.push(op)) == s.replay(ops).step(op),
{
    assert(ops.push(op).drop_last() =~= ops);
}

/// Replaying two sequences one after the other is replaying their
/// concatenation.
pub proof fn lemma_replay_concat(s: TimerModel, a: Seq<RegisterOp>, b: Seq<RegisterOp>)
    ensures
        s.replay(a + b) == s.replay(a).replay(b),
    decreases b.len(),
{
    if b.len() == 0 {
        assert(a + b =~= a);
    } else {
        lemma_replay_concat(s, a, b.drop_last());
        assert((a + b).drop_last() =~= a + b.drop_last());
    }
}

/// A wait that cannot end stays with the model: nothing clears `hung`.
pub proof fn lemma_hung_is_sticky(s: TimerModel, ops: Seq<RegisterOp>)
    requires
        s.hung,
    ensures
        s.replay(ops).hung,
    decreases ops.len(),
{
    if ops.len() > 0 {
        lemma_hung_is_sticky(s, ops.drop_last());
    }
}

} // verus!
