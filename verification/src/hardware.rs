//! The bridge to a real peripheral: code that touches registers implements
//! `RegisterAccess`, and `TracedTimer` makes a `TimerExt` of it.

use vstd::prelude::*;
use crate::registers::RegisterOp;
use crate::timer::TimerExt;

verus! {

/// Performs register accesses on one concrete timer.
///
/// This is all that has to be written for a new timer or microcontroller. An
/// implementation promises that `perform` makes the access it is asked for,
/// once, and no other. Of `Recorder` that is proved. Of an implementation
/// that touches hardware it cannot be: what the contracts of this library say
/// of a real timer holds as far as its `perform` keeps the promise.
pub trait RegisterAccess {
    /// Every register access performed so far, oldest first.
    ///
    /// What has been done to real registers is no part of any value, so an
    /// implementation for hardware has nothing to define here and leaves this
    /// function as it stands.
    open spec fn performed(&self) -> Seq<RegisterOp> {
        arbitrary()
    }

    /// Makes one register access. `RegisterOp::WaitForUpdate` returns only
    /// after the counter has raised its flag, which may take for ever.
    fn perform(&mut self, op: RegisterOp)
        ensures
            final(self).performed() == old(self).performed().push(op),
    ;
}

/// A timer made of a `RegisterAccess`: its trace is what the registers have
/// performed, and every access asked of it is passed on to them.
pub struct TracedTimer<R> {
    regs: R,
    id: u32,
}

impl<R: RegisterAccess> TracedTimer<R> {
    /// The register access that this timer drives.
    pub closed spec fn registers(&self) -> R {
        self.regs
    }

    /// Wraps `regs`, which stands for peripheral `id`. What `regs` has
    /// performed before stays on record.
    pub fn new(regs: R, id: u32) -> (t: TracedTimer<R>)
        ensures
            t.registers() == regs,
            t.id() == id,
            t.trace() == regs.performed(),
    {
        TracedTimer { regs, id }
    }

    /// The peripheral this timer stands for.
    pub fn peripheral(&self) -> (id: u32)
        ensures
            id == self.id(),
    {
        self.id
    }

    /// Gives the register access back.
    pub fn into_inner(self) -> (regs: R)
        ensures
            regs == self.registers(),
            regs.performed() == self.trace(),
    {
        self.regs
    }
}

impl<R: RegisterAccess> TimerExt for TracedTimer<R> {
    closed spec fn trace(&self) -> Seq<RegisterOp> {
        self.regs.performed()
    }

    closed spec fn id(&self) -> nat {
        self.id as nat
    }

    fn perform(&mut self, op: RegisterOp) {
        self.regs.perform(op);
    }
}

} // verus!
