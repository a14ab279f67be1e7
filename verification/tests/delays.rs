use timer_delay::clock::ClockConfig;
use timer_delay::delay::{TimerDelay, MAX_TICKS};
use timer_delay::hardware::{RegisterAccess, TracedTimer};
use timer_delay::recorder::Recorder;
use timer_delay::registers::RegisterOp;
use timer_delay::timer::TimerExt;

/// A timer clock of 16 MHz: the bus is divided, so its frequency is not doubled.
const MHZ_16: ClockConfig = ClockConfig { peripheral_clock_hz: 16_000_000, divider_is_one: false };

/// A timer clock of 84 MHz: the bus is divided, so its frequency is not doubled.
const MHZ_84: ClockConfig = ClockConfig { peripheral_clock_hz: 84_000_000, divider_is_one: false };

fn timer(id: u32) -> TracedTimer<Recorder> {
    TracedTimer::new(Recorder::new(), id)
}

fn log_of(timer: TracedTimer<Recorder>) -> Vec<RegisterOp> {
    timer.into_inner().log().clone()
}

fn enable() -> Vec<RegisterOp> {
    vec![
        RegisterOp::EnableClock,
        RegisterOp::AssertReset,
        RegisterOp::ReleaseReset,
        RegisterOp::CountDown,
    ]
}

fn disable() -> Vec<RegisterOp> {
    vec![RegisterOp::AssertReset, RegisterOp::ReleaseReset, RegisterOp::DisableClock]
}

fn bounded(register: u16, repetitions: usize, time: u16) -> Vec<RegisterOp> {
    let mut ops = vec![RegisterOp::SetPrescaler(register)];
    for _ in 0..repetitions {
        ops.push(RegisterOp::ClearUpdateFlag);
        ops.push(RegisterOp::LoadCounter(time));
        ops.push(RegisterOp::StartCounter);
        ops.push(RegisterOp::WaitForUpdate);
        ops.push(RegisterOp::StopCounter);
    }
    ops
}

/// Durations of the countdowns in `log`, each with the prescaler register it ran at.
fn countdowns(log: &[RegisterOp]) -> Vec<(u16, u16)> {
    let mut prescaler: u16 = 0;
    let mut counter: u16 = 0;
    let mut found = Vec::new();
    for op in log {
        match *op {
            RegisterOp::SetPrescaler(p) => prescaler = p,
            RegisterOp::LoadCounter(c) => counter = c,
            RegisterOp::WaitForUpdate => found.push((prescaler, counter)),
            _ => {}
        }
    }
    found
}

fn ticks(log: &[RegisterOp]) -> u64 {
    countdowns(log).iter().map(|&(_, time)| time as u64).sum()
}

/// Log of the delays that `run` issues on a fresh controller, without the switching on.
fn delays_at(
    clocks: ClockConfig,
    run: fn(&mut TimerDelay<TracedTimer<Recorder>>),
) -> Vec<RegisterOp> {
    let mut delay = TimerDelay::init(timer(0), clocks);
    run(&mut delay);
    let log = log_of(delay.free());
    assert_eq!(log[..4], enable()[..]);
    assert_eq!(log[log.len() - 3..], disable()[..]);
    log[4..log.len() - 3].to_vec()
}

#[test]
fn delay_ms_70000_is_two_bounded_delays() {
    let log = delays_at(MHZ_16, |d| d.delay_ms(70_000u32));
    let mut expected = bounded(16_000, 1, 0xffff);
    expected.extend(bounded(16_000, 1, 4_465));
    assert_eq!(log, expected);
    assert_eq!(countdowns(&log), vec![(16_000, 65_535), (16_000, 4_465)]);
}

#[test]
fn delay_ms_70000_at_84_mhz_uses_the_cached_prescaler_twice() {
    let mut delay = TimerDelay::init(timer(0), MHZ_84);
    assert_eq!(delay.ms_prescaler(), 84_000);
    delay.delay_ms(70_000u32);
    let log = log_of(delay.free());
    let mut expected = enable();
    expected.extend(bounded((84_000u32 & 0xffff) as u16, 2, 0xffff));
    expected.extend(bounded((84_000u32 & 0xffff) as u16, 2, 4_465));
    expected.extend(disable());
    assert_eq!(log, expected);
}

#[test]
fn delay_of_zero_still_runs_one_countdown() {
    let log = delays_at(MHZ_16, |d| d.delay_ms(0u32));
    assert_eq!(log, bounded(16_000, 1, 0));
    let log = delays_at(MHZ_16, |d| d.delay_us(0u32));
    assert_eq!(log, bounded(16, 1, 0));
}

#[test]
fn delay_up_to_the_counter_range_is_one_bounded_delay() {
    let log = delays_at(MHZ_16, |d| d.delay_us(1u32));
    assert_eq!(log, bounded(16, 1, 1));
    let log = delays_at(MHZ_16, |d| d.delay_us(0xffffu32));
    assert_eq!(log, bounded(16, 1, 0xffff));
}

#[test]
fn delay_just_above_the_counter_range_is_split() {
    let log = delays_at(MHZ_16, |d| d.delay_us(0x1_0000u32));
    assert_eq!(countdowns(&log), vec![(16, 0xffff), (16, 1)]);
}

#[test]
fn delay_of_whole_counter_ranges_has_no_empty_tail() {
    let log = delays_at(MHZ_16, |d| d.delay_us(2 * 0xffffu32));
    assert_eq!(countdowns(&log), vec![(16, 0xffff), (16, 0xffff)]);
    let log = delays_at(MHZ_16, |d| d.delay_ms(3 * 0xffffu32));
    assert_eq!(countdowns(&log), vec![(16_000, 0xffff), (16_000, 0xffff), (16_000, 0xffff)]);
}

#[test]
fn split_delays_add_up_to_the_request() {
    let requests: [u32; 9] = [0, 1, 65_534, 65_535, 65_536, 70_000, 131_070, 131_071, 200_000];
    for n in requests {
        let mut delay = TimerDelay::init(timer(0), MHZ_16);
        delay.delay_us(n);
        let log = log_of(delay.free());
        let runs = countdowns(&log);
        let expected_runs: u32 = if n == 0 { 1 } else { (n + MAX_TICKS - 1) / MAX_TICKS };
        assert_eq!(runs.len() as u32, expected_runs);
        assert_eq!(ticks(&log), n as u64);
        assert_eq!(
            ticks(&log),
            (n / MAX_TICKS) as u64 * MAX_TICKS as u64 + (n % MAX_TICKS) as u64
        );
        for &(register, time) in &runs[..runs.len() - 1] {
            assert_eq!((register, time), (16, 0xffff));
        }
    }
}

#[test]
fn delay_of_200000_is_four_bounded_delays() {
    let log = delays_at(MHZ_16, |d| d.delay_ms(200_000u32));
    assert_eq!(
        countdowns(&log),
        vec![(16_000, 65_535), (16_000, 65_535), (16_000, 65_535), (16_000, 3_395)]
    );
}

#[test]
fn longest_delay_is_65537_full_bounded_delays() {
    let mut delay = TimerDelay::init(timer(0), MHZ_16);
    delay.delay_us(u32::MAX);
    let log = log_of(delay.free());
    let runs = countdowns(&log);
    assert_eq!(runs.len(), 65_537);
    assert!(runs.iter().all(|&run| run == (16, 0xffff)));
    assert_eq!(ticks(&log), u32::MAX as u64);
}

#[test]
fn narrow_delays_are_one_bounded_delay() {
    assert_eq!(delays_at(MHZ_16, |d| d.delay_ms_u8(0)), bounded(16_000, 1, 0));
    assert_eq!(delays_at(MHZ_16, |d| d.delay_ms_u8(255)), bounded(16_000, 1, 255));
    assert_eq!(delays_at(MHZ_16, |d| d.delay_ms_u16(300)), bounded(16_000, 1, 300));
    assert_eq!(delays_at(MHZ_16, |d| d.delay_ms_u16(0xffff)), bounded(16_000, 1, 0xffff));
    assert_eq!(delays_at(MHZ_16, |d| d.delay_us_u8(7)), bounded(16, 1, 7));
    assert_eq!(delays_at(MHZ_16, |d| d.delay_us_u16(40_000)), bounded(16, 1, 40_000));
}

#[test]
fn narrow_and_wide_delays_agree_where_both_apply() {
    let wide = delays_at(MHZ_84, |d| d.delay_ms(1_234u32));
    let narrow = delays_at(MHZ_84, |d| d.delay_ms_u16(1_234));
    assert_eq!(wide, narrow);
}

#[test]
fn microsecond_delay_takes_one_tick_per_microsecond() {
    let log = delays_at(MHZ_84, |d| d.delay_us(1_500u32));
    assert_eq!(countdowns(&log), vec![(84, 1_500)]);
    assert_eq!(ticks(&log), 1_500);
}

#[test]
fn bounded_delay_splits_a_wide_prescaler() {
    let mut wide = timer(0);
    wide.delay(0x2_0005, 7);
    let log = log_of(wide);
    assert_eq!(log, bounded(5, 3, 7));
    assert_eq!(ticks(&log), 3 * 7);

    let mut wide = timer(0);
    wide.delay(0x1_0000, 9);
    assert_eq!(log_of(wide), bounded(0, 2, 9));

    let mut wide = timer(0);
    wide.delay(u32::MAX, 1);
    assert_eq!(log_of(wide), bounded(0xffff, 0x1_0000, 1));
}

#[test]
fn bounded_delay_with_a_narrow_prescaler_runs_once() {
    let mut narrow = timer(0);
    narrow.delay(0xffff, 0xffff);
    assert_eq!(log_of(narrow), bounded(0xffff, 1, 0xffff));

    let mut narrow = timer(0);
    narrow.delay(0, 0);
    assert_eq!(log_of(narrow), bounded(0, 1, 0));
}

#[test]
fn enable_and_disable_make_their_accesses_in_order() {
    let mut switched = timer(3);
    switched.enable();
    assert_eq!(log_of(switched), enable());

    let mut switched = timer(3);
    switched.enable();
    switched.disable();
    let mut expected = enable();
    expected.extend(disable());
    assert_eq!(log_of(switched), expected);
}

#[test]
fn free_after_init_returns_the_same_timer_switched_off() {
    let delay = TimerDelay::init(timer(42), MHZ_84);
    let back = delay.free();
    assert_eq!(back.peripheral(), 42);
    let log = log_of(back);
    let mut expected = enable();
    expected.extend(disable());
    assert_eq!(log, expected);
    assert_eq!(log.last(), Some(&RegisterOp::DisableClock));
}

#[test]
fn init_keeps_what_the_timer_did_before() {
    let mut used = Recorder::new();
    used.perform(RegisterOp::StopCounter);
    let delay = TimerDelay::init(TracedTimer::new(used, 5), MHZ_16);
    let log = log_of(delay.free());
    assert_eq!(log[0], RegisterOp::StopCounter);
    assert_eq!(log.len(), 1 + 4 + 3);
}

#[test]
fn prescalers_stay_as_computed_at_init() {
    let mut delay = TimerDelay::init(timer(0), MHZ_84);
    delay.delay_us(10u32);
    delay.delay_ms(10u32);
    delay.delay_us_u8(1);
    assert_eq!(delay.us_prescaler(), 84);
    assert_eq!(delay.ms_prescaler(), 84_000);
}

#[test]
fn new_recorder_is_empty() {
    let recorder = Recorder::new();
    assert!(recorder.log().is_empty());
    let wrapped = timer(9);
    assert_eq!(wrapped.peripheral(), 9);
    assert!(log_of(wrapped).is_empty());
}

#[test]
fn recorder_keeps_each_access_in_order() {
    let mut recorder = Recorder::new();
    recorder.perform(RegisterOp::LoadCounter(3));
    recorder.perform(RegisterOp::StartCounter);
    recorder.perform(RegisterOp::WaitForUpdate);
    assert_eq!(
        *recorder.log(),
        vec![RegisterOp::LoadCounter(3), RegisterOp::StartCounter, RegisterOp::WaitForUpdate]
    );
}

#[test]
fn traced_timer_performs_exactly_the_access_asked_for() {
    let mut one = timer(0);
    one.perform(RegisterOp::SetPrescaler(7));
    assert_eq!(log_of(one), vec![RegisterOp::SetPrescaler(7)]);
}
