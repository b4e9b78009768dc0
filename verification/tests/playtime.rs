use chrono::{Datelike, Timelike};
use whip::playtime::{DayDefinition, PlayTime};

#[test]
fn test_add_day() {
    let mut play_time = PlayTime::new();
    play_time.add_day(1, 8, 17);
    assert_eq!(play_time.days.len(), 1);
    assert_eq!(play_time.days[0].day, 1);
    assert_eq!(play_time.days[0].start_time, 8);
    assert_eq!(play_time.days[0].end_time, 17);
}

#[test]
fn test_remove_day() {
    let mut play_time = PlayTime::new();
    play_time.add_day(0, 8, 17);
    play_time.add_day(1, 8, 17);
    play_time.add_day(2, 8, 17);
    play_time.add_day(3, 8, 17);
    play_time.add_day(4, 8, 17);
    play_time.add_day(5, 8, 17);
    play_time.add_day(6, 8, 17);
    assert_eq!(play_time.days.len(), 7);
    play_time.remove_day(0);
    assert_eq!(play_time.days.len(), 6);
    play_time.remove_day(1);
    assert_eq!(play_time.days.len(), 5);
    play_time.remove_day(2);
    assert_eq!(play_time.days.len(), 4);
    play_time.remove_day(3);
    assert_eq!(play_time.days.len(), 3);
    play_time.remove_day(4);
    assert_eq!(play_time.days.len(), 2);
    play_time.remove_day(5);
    assert_eq!(play_time.days.len(), 1);
    play_time.remove_day(6);
    assert_eq!(play_time.days.len(), 0);
}

#[test]
fn test_is_play_time() {
    let mut play_time = PlayTime::new();
    play_time.add_day(0, 8, 17);
    play_time.add_day(1, 8, 17);
    play_time.add_day(2, 8, 17);
    play_time.add_day(3, 8, 17);
    play_time.add_day(4, 8, 17);
    play_time.add_day(5, 8, 17);
    play_time.add_day(6, 8, 17);

    let day = 1;
    let hour = 13;
    assert!(play_time.is_play_time_at(day, hour));

    let hour = 18;
    assert!(!play_time.is_play_time_at(day, hour));
}

#[test]
fn remove_day_keeps_the_others_in_order() {
    let mut play_time = PlayTime::new();
    play_time.add_day(2, 1, 2);
    play_time.add_day(3, 3, 4);
    play_time.add_day(2, 5, 6);
    play_time.add_day(4, 7, 8);
    play_time.remove_day(2);
    assert_eq!(
        play_time.days,
        vec![
            DayDefinition { day: 3, start_time: 3, end_time: 4 },
            DayDefinition { day: 4, start_time: 7, end_time: 8 },
        ]
    );
}

#[test]
fn remove_missing_day_changes_nothing() {
    let mut play_time = PlayTime::new();
    play_time.add_day(3, 8, 17);
    play_time.remove_day(5);
    assert_eq!(play_time.days.len(), 1);
}

#[test]
fn range_bounds_are_inclusive() {
    let mut play_time = PlayTime::new();
    play_time.add_day(3, 8, 17);
    assert!(play_time.is_play_time_at(3, 8));
    assert!(play_time.is_play_time_at(3, 17));
    assert!(!play_time.is_play_time_at(3, 7));
    assert!(!play_time.is_play_time_at(3, 18));
    assert!(!play_time.is_play_time_at(4, 12));
}

#[test]
fn empty_calendar_allows_nothing() {
    let play_time = PlayTime::new();
    for day in 0..7 {
        for hour in 0..24 {
            assert!(!play_time.is_play_time_at(day, hour));
        }
    }
}

#[test]
fn added_range_allows_its_hours() {
    let mut play_time = PlayTime::new();
    play_time.add_day(0, 20, 10);
    play_time.add_day(5, 9, 11);
    for hour in 9..=11 {
        assert!(play_time.is_play_time_at(5, hour));
    }
}

#[test]
fn removed_day_is_never_allowed() {
    let mut play_time = PlayTime::new();
    play_time.add_day(6, 0, 23);
    play_time.add_day(5, 0, 23);
    play_time.remove_day(6);
    for hour in 0..24 {
        assert!(!play_time.is_play_time_at(6, hour));
        assert!(play_time.is_play_time_at(5, hour));
    }
}

#[test]
fn play_time_now_matches_a_full_calendar() {
    let mut play_time = PlayTime::new();
    for day in 0..7 {
        play_time.add_day(day, 0, 23);
    }
    let now = chrono::Local::now();
    let day = now.weekday().num_days_from_sunday() as u8;
    let hour = now.hour() as u8;
    assert!(play_time.is_play_time_at(day, hour));
    assert!(!PlayTime::new().is_play_time_at(day, hour));
}
