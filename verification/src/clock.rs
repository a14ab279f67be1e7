//! Clock configuration and the prescalers derived from it.

use vstd::prelude::*;

verus! {

/// Ticks per second of a timer that counts microseconds.
pub const MICROS_PER_SECOND: u32 = 1_000_000;

/// Ticks per second of a timer that counts milliseconds.
pub const MILLIS_PER_SECOND: u32 = 1_000;

/// What the timer needs to know of the clock tree: the frequency of the
/// peripheral bus it hangs on, and whether the bus prescaler is 1.
#[derive(Clone, Copy, Debug, PartialEq, Eq, Structural)]
pub struct ClockConfig {
    /// Frequency of the peripheral bus clock, in Hz.
    pub peripheral_clock_hz: u32,
    /// `true` when the bus prescaler is 1: the bus clock is not divided, and
    /// the clock tree feeds the timer with twice the bus frequency. `false`
    /// when the bus prescaler is above 1: the timer runs at the bus frequency.
    pub divider_is_one: bool,
}

/// `n / d`, rounded up.
pub open spec fn ceil_div(n: nat, d: nat) -> nat
    recommends
        d > 0,
{
    (n + d - 1) as nat / d
}

impl ClockConfig {
    /// Frequency that reaches the timer's prescaler stage, in Hz: twice the
    /// bus frequency where the bus prescaler is 1, the bus frequency where it
    /// is above 1.
    pub open spec fn effective_frequency(self) -> nat {
        if self.divider_is_one {
            2 * (self.peripheral_clock_hz as nat)
        } else {
            self.peripheral_clock_hz as nat
        }
    }

    /// Smallest divider that makes one timer tick last at least a microsecond.
    pub open spec fn us_prescaler(self) -> nat {
        ceil_div(self.effective_frequency(), MICROS_PER_SECOND as nat)
    }

    /// Smallest divider that makes one timer tick last at least a millisecond.
    pub open spec fn ms_prescaler(self) -> nat {
        ceil_div(self.effective_frequency(), MILLIS_PER_SECOND as nat)
    }
}

/// `ceil_div(n, d)` is the least number of steps of size `d` that reach `n`:
/// that many steps reach it, one step fewer falls short, and no smaller count
/// `q` reaches it.
pub proof fn lemma_ceil_div_is_least(n: nat, d: nat, q: nat)
    requires
        d > 0,
    ensures
        ceil_div(n, d) * d >= n,
        n > 0 ==> (ceil_div(n, d) - 1) * d < n,
        n == 0 ==> ceil_div(n, d) == 0,
        q * d >= n ==> q >= ceil_div(n, d),
{
    let c = ceil_div(n, d);
    assert(c * d >= n && (n > 0 ==> (c - 1) * d < n) && (n == 0 ==> c == 0)) by (nonlinear_arith)
        requires
            d > 0,
            c == (n + d - 1) as nat / d,
    ;
    if q * d >= n {
        assert(q >= c) by (nonlinear_arith)
            requires
                d > 0,
                q * d >= n,
                c == (n + d - 1) as nat / d,
        ;
    }
}

/// Both prescalers fit their type, and the microsecond prescaler fits a
/// 16-bit register, whatever the 32-bit bus frequency.
pub proof fn lemma_prescalers_fit(clocks: ClockConfig)
    ensures
        clocks.us_prescaler() <= 8_590,
        clocks.ms_prescaler() <= 8_589_935,
{
}

/// Both prescalers are rounded up, and by less than one: a tick of the divided
/// clock lasts at least a microsecond (a millisecond), and with a divider one
/// smaller it would last less.
pub proof fn lemma_prescalers_round_up(clocks: ClockConfig)
    ensures
        clocks.us_prescaler() * MICROS_PER_SECOND >= clocks.effective_frequency(),
        clocks.ms_prescaler() * MILLIS_PER_SECOND >= clocks.effective_frequency(),
        clocks.effective_frequency() > 0 ==> (clocks.us_prescaler() - 1) * MICROS_PER_SECOND
            < clocks.effective_frequency(),
        clocks.effective_frequency() > 0 ==> (clocks.ms_prescaler() - 1) * MILLIS_PER_SECOND
            < clocks.effective_frequency(),
{
    lemma_ceil_div_is_least(clocks.effective_frequency(), MICROS_PER_SECOND as nat, 0);
    lemma_ceil_div_is_least(clocks.effective_frequency(), MILLIS_PER_SECOND as nat, 0);
}

/// On a bus frequency that is a whole number of MHz the microsecond prescaler
/// divides exactly: a tick of the divided clock lasts one microsecond.
pub proof fn lemma_us_prescaler_exact(clocks: ClockConfig)
    requires
        clocks.peripheral_clock_hz % MICROS_PER_SECOND == 0,
    ensures
        clocks.us_prescaler() == clocks.effective_frequency() / (MICROS_PER_SECOND as nat),
        clocks.us_prescaler() * MICROS_PER_SECOND == clocks.effective_frequency(),
{
}

/// On a bus frequency that is a whole number of kHz the millisecond prescaler
/// divides exactly.
pub proof fn lemma_ms_prescaler_exact(clocks: ClockConfig)
    requires
        clocks.peripheral_clock_hz % MILLIS_PER_SECOND == 0,
    ensures
        clocks.ms_prescaler() == clocks.effective_frequency() / (MILLIS_PER_SECOND as nat),
        clocks.ms_prescaler() * MILLIS_PER_SECOND == clocks.effective_frequency(),
{
}

} // verus!
