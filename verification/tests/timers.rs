use remu::maths::clamp;
use remu::timers::{GenericDownTimer, GenericTimer, GenericTimerConfig};

#[test]
fn down_timer_sixty_updates_reach_zero_never_negative() {
    // Rate 60, value 10, one second delivered in sixtieths: the value
    // walks down to zero and never past it.
    let mut t = GenericDownTimer::new(&GenericTimerConfig { rate: 60 });
    t.set(10);
    let period = 1_000_000 / 60;
    let mut prev = t.get();
    for _ in 0..60 {
        t.update(period);
        let v = t.get();
        assert!(v <= prev);
        prev = v;
    }
    assert_eq!(t.get(), 0);
}

#[test]
fn down_timer_decrements_once_per_period() {
    let mut t = GenericDownTimer::new(&GenericTimerConfig { rate: 60 });
    t.set(10);
    t.update(16_666);
    assert_eq!(t.get(), 9);
    t.update(8_000);
    assert_eq!(t.get(), 9);
    t.update(8_666);
    assert_eq!(t.get(), 8);
}

#[test]
fn down_timer_catch_up_decrements_all_elapsed_periods() {
    let mut t = GenericDownTimer::new(&GenericTimerConfig { rate: 60 });
    t.set(10);
    t.update(3 * 16_666);
    assert_eq!(t.get(), 7);
}

#[test]
fn down_timer_set_get() {
    let mut t = GenericDownTimer::new(&GenericTimerConfig { rate: 60 });
    assert_eq!(t.get(), 0);
    t.set(42);
    assert_eq!(t.get(), 42);
}

#[test]
fn cadence_reports_whole_periods_and_keeps_remainder() {
    let mut t = GenericTimer::new(&GenericTimerConfig { rate: 1000 });
    t.update(2_500);
    assert_eq!(t.get_ratio(), 2);
    t.reset();
    assert_eq!(t.get_ratio(), 0);
    assert_eq!(t.passed(), 500);
    t.update(500);
    assert_eq!(t.get_ratio(), 1);
}

#[test]
fn clamp_bounds() {
    assert_eq!(clamp(5, 1, 10), 5);
    assert_eq!(clamp(0, 1, 10), 1);
    assert_eq!(clamp(11, 1, 10), 10);
    assert_eq!(clamp(1, 1, 10), 1);
    assert_eq!(clamp(10, 1, 10), 10);
}

#[test]
fn default_timer_config_rate_is_one() {
    assert_eq!(GenericTimerConfig::default().rate, 1);
}
