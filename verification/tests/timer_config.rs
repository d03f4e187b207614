use tt_rs::config::{ConfigError, SessionConfig};
use tt_rs::timer::Timer;

fn args(list: &[&str]) -> Vec<String> {
    list.iter().map(|s| s.to_string()).collect()
}

#[test]
fn timer_lifecycle() {
    let mut t = Timer::new(30, true);
    assert!(!t.is_started());
    assert!(!t.is_stopped());
    assert_eq!(t.get_elapsed(5000), 0);
    t.start(1000);
    assert!(t.is_started());
    assert_eq!(t.get_elapsed(4000), 3000);
    // a second start is a no-op
    t.start(2000);
    assert_eq!(t.get_elapsed(4000), 3000);
    t.stop(11_000);
    assert!(t.is_stopped());
    assert_eq!(t.get_elapsed(99_000), 0);
    // a second stop is a no-op
    t.stop(50_000);
    assert_eq!(t.get_time(0), 10_000);
    t.reset();
    assert!(!t.is_started());
    assert!(!t.is_stopped());
}

#[test]
fn timer_remaining_and_expiry() {
    let mut t = Timer::new(30, true);
    assert_eq!(t.get_remaining(0), 30);
    t.start(0);
    assert_eq!(t.get_remaining(12_000), 18);
    assert!(!t.is_out_of_time(29_999));
    assert!(t.is_out_of_time(30_000));
    assert!(t.is_out_of_time(31_000));
    // a clock reading before the start saturates to zero elapsed
    assert_eq!(t.get_elapsed(0), 0);
    let mut t2 = Timer::new(30, true);
    t2.start(5000);
    assert_eq!(t2.get_elapsed(4000), 0);
}

#[test]
fn timer_effective_duration_policy() {
    // explicit duration, still running: the configured span
    let mut t = Timer::new(30, true);
    t.start(0);
    assert_eq!(t.get_time(7_000), 30_000);
    // stopped: the measured span
    t.stop(9_000);
    assert_eq!(t.get_time(99_000), 9_000);
    // defaulted duration, still running: the elapsed time
    let mut d = Timer::new(1200, false);
    d.start(0);
    assert_eq!(t.get_time(7_000), 9_000);
    assert_eq!(d.get_time(7_000), 7_000);
    // not started at all: zero
    let n = Timer::new(1200, false);
    assert_eq!(n.get_time(7_000), 0);
}

#[test]
fn config_defaults() {
    let c = SessionConfig::from_args(&args(&["tt"])).unwrap();
    assert_eq!(c.duration_secs, 1200);
    assert!(!c.explicit_duration);
    assert_eq!(c.word_count, 25);
    assert!(!c.quote_mode);
    assert!(!c.restart_on_mistake);
}

#[test]
fn config_reads_all_flags() {
    let c = SessionConfig::from_args(&args(&["tt", "-t", "30", "-w", "10", "-q", "-d"])).unwrap();
    assert_eq!(c.duration_secs, 30);
    assert!(c.explicit_duration);
    assert_eq!(c.word_count, 10);
    assert!(c.quote_mode);
    assert!(c.restart_on_mistake);
}

#[test]
fn config_missing_time_value() {
    let e = SessionConfig::from_args(&args(&["tt", "-t"])).unwrap_err();
    assert_eq!(e, ConfigError::MissingTimeValue);
    assert_eq!(e.message(), "add time after -t in secs (e.g: -t 30)");
}

#[test]
fn config_invalid_time_value() {
    let e = SessionConfig::from_args(&args(&["tt", "-t", "abc"])).unwrap_err();
    assert_eq!(e, ConfigError::InvalidTimeValue);
    assert_eq!(e.message(), "incorrect duration: add time after -t in secs (e.g: -t 30)");
    let e2 = SessionConfig::from_args(&args(&["tt", "-t", ""])).unwrap_err();
    assert_eq!(e2, ConfigError::InvalidTimeValue);
    // a value too large for 64 bits is rejected, not wrapped
    let e3 = SessionConfig::from_args(&args(&["tt", "-t", "99999999999999999999"])).unwrap_err();
    assert_eq!(e3, ConfigError::InvalidTimeValue);
}

#[test]
fn config_word_count_errors() {
    let e = SessionConfig::from_args(&args(&["tt", "-w"])).unwrap_err();
    assert_eq!(e, ConfigError::MissingWordCountValue);
    assert_eq!(e.message(), "add number after -w (e.g: -w 30)");
    let e2 = SessionConfig::from_args(&args(&["tt", "-w", "ten"])).unwrap_err();
    assert_eq!(e2, ConfigError::InvalidWordCountValue);
    assert_eq!(e2.message(), "incorrect number: add number after -w (e.g: -w 30)");
}

#[test]
fn config_first_flag_occurrence_wins() {
    let c = SessionConfig::from_args(&args(&["tt", "-t", "5", "-t", "9"])).unwrap();
    assert_eq!(c.duration_secs, 5);
}

#[test]
fn parse_u64_reads_plain_decimals() {
    assert_eq!(tt_rs::config::parse_u64(&"0".to_string()), Some(0));
    assert_eq!(tt_rs::config::parse_u64(&"1200".to_string()), Some(1200));
    assert_eq!(
        tt_rs::config::parse_u64(&"18446744073709551615".to_string()),
        Some(u64::MAX)
    );
    assert_eq!(tt_rs::config::parse_u64(&"18446744073709551616".to_string()), None);
    assert_eq!(tt_rs::config::parse_u64(&"".to_string()), None);
    assert_eq!(tt_rs::config::parse_u64(&"12a".to_string()), None);
    assert_eq!(tt_rs::config::parse_u64(&"-5".to_string()), None);
}
