use timer_delay::clock::ClockConfig;
use timer_delay::delay::TimerDelay;
use timer_delay::hardware::{RegisterAccess, TracedTimer};
use timer_delay::registers::RegisterOp;
use timer_delay::timer::TimerExt;

/// Registers that only count what is done to them.
struct Counting {
    waits: u32,
    loaded: u64,
    clocked: bool,
    prescaler: u16,
}

impl RegisterAccess for Counting {
    fn perform(&mut self, op: RegisterOp) {
        match op {
            RegisterOp::EnableClock => self.clocked = true,
            RegisterOp::DisableClock => self.clocked = false,
            RegisterOp::SetPrescaler(p) => self.prescaler = p,
            RegisterOp::LoadCounter(time) => self.loaded += time as u64,
            RegisterOp::WaitForUpdate => self.waits += 1,
            _ => {}
        }
    }
}

fn fresh() -> Counting {
    Counting { waits: 0, loaded: 0, clocked: false, prescaler: 0 }
}

#[test]
fn controller_drives_registers_of_the_callers_own() {
    let clocks = ClockConfig { peripheral_clock_hz: 8_000_000, divider_is_one: true };
    let mut delay = TimerDelay::init(TracedTimer::new(fresh(), 1), clocks);
    assert_eq!(delay.us_prescaler(), 16);
    delay.delay_us(100_000u32);
    delay.delay_ms_u8(5);
    let timer = delay.free();
    assert_eq!(timer.peripheral(), 1);
    let regs = timer.into_inner();
    assert_eq!(regs.waits, 3);
    assert_eq!(regs.loaded, 100_005);
    assert_eq!(regs.prescaler, 16_000);
    assert!(!regs.clocked);
}

#[test]
fn traced_timer_hands_its_registers_back_untouched() {
    let timer = TracedTimer::new(fresh(), 7);
    assert_eq!(timer.peripheral(), 7);
    let regs = timer.into_inner();
    assert_eq!(regs.waits, 0);
    assert!(!regs.clocked);
}

#[test]
fn traced_timer_passes_each_access_on() {
    let mut timer = TracedTimer::new(fresh(), 2);
    timer.enable();
    timer.perform(RegisterOp::LoadCounter(3));
    timer.delay(0x3_0000, 10);
    let regs = timer.into_inner();
    assert!(regs.clocked);
    assert_eq!(regs.waits, 4);
    assert_eq!(regs.loaded, 43);
    assert_eq!(regs.prescaler, 0);
}
