use whip::playtime::PlayTime;
use whip::settings::{PlayTimeValue, RegistryValues, Settings, SettingsError, ValueName};

fn stored(settings: &Settings, play_time: PlayTime) -> RegistryValues {
    let saved = settings.to_values();
    RegistryValues {
        play_time: PlayTimeValue::Parsed(play_time),
        server_address: Some(saved.server_address),
        locking_interval: Some(saved.locking_interval),
        user_name: Some(saved.user_name),
        user_password: Some(saved.user_password),
        parental_control_password: Some(saved.parental_control_password),
        domain_name: Some(saved.domain_name),
        disabled: None,
    }
}

#[test]
fn test_add_two_days() {
    let mut settings = Settings::new();
    settings.play_time.add_day(1, 8, 17);
    settings.play_time.add_day(2, 8, 17);
    let mut written = PlayTime::new();
    for d in &settings.play_time.days {
        written.add_day(d.day, d.start_time, d.end_time);
    }
    let values = stored(&settings, written);
    assert_eq!(settings.play_time.days.len(), 2);

    //load and test
    let mut settings = Settings::new();
    settings.read_values(values).unwrap();
    assert_eq!(settings.play_time.days.len(), 2);
}

#[test]
fn new_settings_defaults() {
    let s = Settings::new();
    assert_eq!(s.domain_name, ".");
    assert!(s.user_name.is_empty());
    assert_eq!(s.check_is_worstation_locked_interval, 0);
    assert!(s.play_time.days.is_empty());
}

#[test]
fn saved_settings_read_back() {
    let mut s = Settings::new();
    s.server_address = String::from("127.0.0.1:1974");
    s.user_name = String::from("kid");
    s.user_password = String::from("pässwörd");
    s.parental_control_password = String::from("1234");
    s.domain_name = String::from("HOME");
    s.check_is_worstation_locked_interval = 60000;
    let saved = s.to_values();
    assert_eq!(saved.user_password, "cMOkc3N3w7ZyZA==");
    assert_eq!(saved.parental_control_password, "MTIzNA==");
    let mut t = Settings::new();
    t.current_directory = String::from("C:\\whip");
    t.read_values(stored(&s, PlayTime::new())).unwrap();
    assert_eq!(t.server_address, s.server_address);
    assert_eq!(t.user_name, s.user_name);
    assert_eq!(t.user_password, s.user_password);
    assert_eq!(t.parental_control_password, s.parental_control_password);
    assert_eq!(t.domain_name, s.domain_name);
    assert_eq!(t.check_is_worstation_locked_interval, 60000);
    assert_eq!(t.current_directory, "C:\\whip");
}

#[test]
fn missing_value_stops_reading() {
    let mut s = Settings::new();
    s.user_name = String::from("kid");
    let mut values = stored(&s, PlayTime::new());
    values.user_name = None;
    values.server_address = Some(String::from("addr"));
    let mut t = Settings::new();
    let r = t.read_values(values);
    assert!(matches!(r, Err(SettingsError::MissingValue(ValueName::UserName))));
    assert_eq!(t.server_address, "addr");
    assert!(t.user_name.is_empty());
}

#[test]
fn missing_or_malformed_calendar_changes_nothing() {
    let s = Settings::new();
    let mut values = stored(&s, PlayTime::new());
    values.play_time = PlayTimeValue::Missing;
    let mut t = Settings::new();
    t.play_time.add_day(1, 2, 3);
    assert!(matches!(t.read_values(values), Err(SettingsError::MissingValue(ValueName::PlayTime))));
    assert_eq!(t.play_time.days.len(), 1);
    let mut values = stored(&s, PlayTime::new());
    values.play_time = PlayTimeValue::Malformed;
    assert!(matches!(t.read_values(values), Err(SettingsError::MalformedPlayTime)));
}

#[test]
fn undecodable_password_is_kept_as_stored() {
    let s = Settings::new();
    let mut values = stored(&s, PlayTime::new());
    values.user_password = Some(String::from("not base64!"));
    let mut t = Settings::new();
    let r = t.read_values(values);
    assert!(matches!(r, Err(SettingsError::InvalidPassword(ValueName::UserPassword, _))));
    assert_eq!(t.user_password, "not base64!");

    let mut values = stored(&s, PlayTime::new());
    values.parental_control_password = Some(String::from("/w=="));
    let mut t = Settings::new();
    let r = t.read_values(values);
    assert!(matches!(r, Err(SettingsError::InvalidPassword(ValueName::ParentalControlPassword, _))));
    assert_eq!(t.parental_control_password, "/w==");
}

#[test]
fn init_puts_in_the_default_calendar() {
    let s = Settings::new();
    let mut t = Settings::new();
    let needs_save = t.init("C:\\whip", stored(&s, PlayTime::new())).unwrap();
    assert!(needs_save);
    assert_eq!(t.current_directory, "C:\\whip");
    assert_eq!(t.play_time.days.len(), 7);
    for (i, d) in t.play_time.days.iter().enumerate() {
        assert_eq!(d.day as usize, i);
        assert_eq!((d.start_time, d.end_time), (8, 23));
    }
    let mut calendar = PlayTime::new();
    calendar.add_day(3, 1, 2);
    let mut u = Settings::new();
    assert!(!u.init("D:", stored(&s, calendar)).unwrap());
    assert_eq!(u.play_time.days.len(), 1);
}

#[test]
fn init_reports_read_failure() {
    let s = Settings::new();
    let mut values = stored(&s, PlayTime::new());
    values.domain_name = None;
    let mut t = Settings::new();
    assert!(matches!(t.init("C:", values), Err(SettingsError::MissingValue(ValueName::DomainName))));
    assert!(t.play_time.days.is_empty());
}

#[test]
fn switch_is_read_where_stored() {
    let s = Settings::new();
    let mut values = stored(&s, PlayTime::new());
    values.disabled = Some(String::from("1"));
    let mut t = Settings::new();
    t.read_values(values).unwrap();
    assert_eq!(t.disabled, "1");
    let mut u = Settings::new();
    u.disabled = String::from("0");
    u.read_values(stored(&s, PlayTime::new())).unwrap();
    assert_eq!(u.disabled, "0");
}

#[test]
fn default_calendar_covers_sunday() {
    let s = Settings::new();
    let mut t = Settings::new();
    t.init("C:", stored(&s, PlayTime::new())).unwrap();
    assert!(t.play_time.is_play_time_at(0, 12));
    assert!(t.play_time.is_play_time_at(6, 23));
    assert!(!t.play_time.is_play_time_at(3, 7));
}
