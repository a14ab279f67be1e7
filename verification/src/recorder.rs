//! Registers that perform no access and write each one down instead.

use vstd::prelude::*;
use crate::hardware::RegisterAccess;
use crate::registers::RegisterOp;

verus! {

/// Stands in for a timer's registers where there are none: it keeps the
/// accesses it is asked for, in order, and returns from every wait at once.
pub struct Recorder {
    log: Vec<RegisterOp>,
}

impl Recorder {
    /// A recorder that has performed nothing.
    pub fn new() -> (r: Recorder)
        ensures
            r.performed() == Seq::<RegisterOp>::empty(),
    {
        Recorder { log: Vec::new() }
    }

    /// The accesses performed so far, oldest first.
    pub fn log(&self) -> (log: &Vec<RegisterOp>)
        ensures
            log@ == self.performed(),
    {
        &self.log
    }
}

impl RegisterAccess for Recorder {
    closed spec fn performed(&self) -> Seq<RegisterOp> {
        self.log@
    }

    fn perform(&mut self, op: RegisterOp) {
        self.log.push(op);
    }
}

} // verus!
