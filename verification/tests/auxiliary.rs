use sysinfo::{ProcessExt, System, SystemExt};
use whip::actions::Action;
use whip::auxiliary::{executor_path, is_process_running, read_timer, TimerError};
use whip::decimal::parse_unsigned;
use whip::timer::millis_from_counter;

#[test]
fn test_read_timer() {
    let result = read_timer(Some(10_000_000), Some(123_456_789));
    assert!(result.is_ok());
}

#[test]
fn timer_readings_become_milliseconds() {
    assert_eq!(read_timer(Some(10_000_000), Some(123_456_789)), Ok(12_345));
    assert_eq!(read_timer(None, Some(1)), Err(TimerError::FrequencyUnavailable));
    assert_eq!(read_timer(Some(1000), None), Err(TimerError::CounterUnavailable));
    assert_eq!(millis_from_counter(-1500, 1000), (-1500i64) as u64);
    assert_eq!(millis_from_counter(-1, 1000), u64::MAX);
    assert_eq!(millis_from_counter(-1, 3000), 0);
    assert_eq!(millis_from_counter(7, -2), (-3500i64) as u64);
    assert_eq!(TimerError::FrequencyUnavailable.message(), "Failed to read timer frequency");
    assert_eq!(TimerError::CounterUnavailable.message(), "Failed to read timer");
}

#[test]
fn test_is_blocked_process_running() {
    const BLOCKED_PROCESS_NAME: &str = "bratlocker.exe";

    let mut s = System::new_all();
    s.refresh_processes();
    let names: Vec<String> = s.processes().values().map(|p| p.name().to_string()).collect();
    let result = is_process_running(&names, BLOCKED_PROCESS_NAME);
    assert!(!result);
}

#[test]
fn process_names_are_compared_in_lower_case() {
    let names = vec![String::from("Explorer.EXE"), String::from("BratLocker.exe")];
    assert!(is_process_running(&names, "bratlocker.exe"));
    assert!(is_process_running(&names, "explorer.exe"));
    assert!(!is_process_running(&names, "Explorer.EXE"));
    assert!(!is_process_running(&Vec::new(), "executor.exe"));
}

#[test]
fn executor_lives_in_the_program_directory() {
    assert_eq!(executor_path("C:\\whip"), "C:\\whip\\executor.exe");
}

#[test]
fn executor_timer_and_activity() {
    let a = Action::default();
    assert_eq!(a.read_timer(Some(1000), Some(5)), Ok(5));
    assert_eq!(a.read_timer(Some(3), Some(10)), Ok(3333));
    assert_eq!(a.read_timer(None, None).unwrap_err(), "Failed to read timer frequency");
    assert_eq!(a.read_timer(Some(1000), None).unwrap_err(), "Failed to read timer");
    assert!(a.is_user_working(10, 3));
    assert!(!a.is_user_working(10, 10));
    assert!(!a.is_user_working(10, 11));
}

#[test]
fn unsigned_numbers_parse_like_from_str() {
    let codes = |s: &str| s.chars().map(|c| c as u32).collect::<Vec<u32>>();
    assert_eq!(parse_unsigned(&codes("255"), 255), Some(255));
    assert_eq!(parse_unsigned(&codes("256"), 255), None);
    assert_eq!(parse_unsigned(&codes("+0"), 255), Some(0));
    assert_eq!(parse_unsigned(&codes("+"), 255), None);
    assert_eq!(parse_unsigned(&codes(""), 255), None);
    assert_eq!(parse_unsigned(&codes("٣"), 255), None);
    for s in ["0", "42", "+42", "0042", "4294967295", "4294967296", "-1", "1_0", " 1"] {
        assert_eq!(parse_unsigned(&codes(s), u32::MAX), s.parse::<u32>().ok(), "{:?}", s);
    }
}

#[test]
fn later_readings_never_give_fewer_milliseconds() {
    let mut last = 0;
    for ticks in (0..5_000_000i64).step_by(333_331) {
        let ms = millis_from_counter(ticks, 3_579_545);
        assert!(ms >= last);
        last = ms;
    }
}
