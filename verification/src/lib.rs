//! Blocking millisecond and microsecond delays on a general-purpose 16-bit
//! countdown timer, with the timer programming proved against a register model.

pub mod clock;
pub mod delay;
pub mod hardware;
pub mod recorder;
pub mod registers;
pub mod timer;
