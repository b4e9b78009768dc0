//! The supervision settings, as they are kept in the registry.
//!
//! Reading and writing the registry, and the JSON form of the calendar, are
//! left to the caller; this module decides what the stored values make of the
//! settings and what is to be stored.

use crate::codec::{base64_encoded, decode_password, decoded_password, encode_password, PasswordError};
use crate::playtime::{DayDefinition, PlayTime};
use vstd::prelude::*;
use vstd::utf8::encode_utf8;

verus! {

pub struct Settings {
    pub play_time: PlayTime,
    pub server_address: String,
    pub current_directory: String,
    pub user_name: String,
    pub user_password: String,
    pub parental_control_password: String,
    pub domain_name: String,
    pub check_is_worstation_locked_interval: u64,
    /// `"1"` (as a `u8`) switches the supervision off.
    pub disabled: String,
}

/// The settings as values.
pub struct SettingsView {
    pub play_time: Seq<DayDefinition>,
    pub server_address: Seq<char>,
    pub current_directory: Seq<char>,
    pub user_name: Seq<char>,
    pub user_password: Seq<char>,
    pub parental_control_password: Seq<char>,
    pub domain_name: Seq<char>,
    pub check_is_worstation_locked_interval: u64,
    pub disabled: Seq<char>,
}

impl View for Settings {
    type V = SettingsView;

    open spec fn view(&self) -> SettingsView {
        SettingsView {
            play_time: self.play_time.days@,
            server_address: self.server_address@,
            current_directory: self.current_directory@,
            user_name: self.user_name@,
            user_password: self.user_password@,
            parental_control_password: self.parental_control_password@,
            domain_name: self.domain_name@,
            check_is_worstation_locked_interval: self.check_is_worstation_locked_interval,
            disabled: self.disabled@,
        }
    }
}

/// The registry values that hold the settings.
#[derive(Clone, Copy, Debug, PartialEq, Eq, Structural)]
pub enum ValueName {
    PlayTime,
    ServerAddress,
    LockingInterval,
    UserName,
    UserPassword,
    ParentalControlPassword,
    DomainName,
}

/// Why the stored settings could not be taken.
#[derive(Debug)]
pub enum SettingsError {
    /// The value is missing, or not of its type.
    MissingValue(ValueName),
    /// The calendar is not valid JSON for it.
    MalformedPlayTime,
    /// A stored password is not what a password is stored as.
    InvalidPassword(ValueName, PasswordError),
}

/// The stored calendar, as the registry gave it.
pub enum PlayTimeValue {
    Missing,
    Malformed,
    Parsed(PlayTime),
}

/// The stored values, as the registry gave them; `None` where a value is
/// missing or not of its type.
pub struct RegistryValues {
    pub play_time: PlayTimeValue,
    pub server_address: Option<String>,
    pub locking_interval: Option<u64>,
    pub user_name: Option<String>,
    pub user_password: Option<String>,
    pub parental_control_password: Option<String>,
    pub domain_name: Option<String>,
    /// The switch that turns the supervision off; it is optional.
    pub disabled: Option<String>,
}

/// What is to be stored, besides the calendar, in the order it is stored.
pub struct SavedValues {
    pub server_address: String,
    pub locking_interval: u64,
    pub user_name: String,
    pub user_password: String,
    pub domain_name: String,
    pub parental_control_password: String,
}

pub enum PlayTimeValueView {
    Missing,
    Malformed,
    Parsed(Seq<DayDefinition>),
}

pub struct RegistryValuesView {
    pub play_time: PlayTimeValueView,
    pub server_address: Option<Seq<char>>,
    pub locking_interval: Option<u64>,
    pub user_name: Option<Seq<char>>,
    pub user_password: Option<Seq<char>>,
    pub parental_control_password: Option<Seq<char>>,
    pub domain_name: Option<Seq<char>>,
    pub disabled: Option<Seq<char>>,
}

pub open spec fn opt_view(s: Option<String>) -> Option<Seq<char>> {
    match s {
        Some(s) => Some(s@),
        None => None,
    }
}

impl View for RegistryValues {
    type V = RegistryValuesView;

    open spec fn view(&self) -> RegistryValuesView {
        RegistryValuesView {
            play_time: match self.play_time {
                PlayTimeValue::Missing => PlayTimeValueView::Missing,
                PlayTimeValue::Malformed => PlayTimeValueView::Malformed,
                PlayTimeValue::Parsed(p) => PlayTimeValueView::Parsed(p.days@),
            },
            server_address: opt_view(self.server_address),
            locking_interval: self.locking_interval,
            user_name: opt_view(self.user_name),
            user_password: opt_view(self.user_password),
            parental_control_password: opt_view(self.parental_control_password),
            domain_name: opt_view(self.domain_name),
            disabled: opt_view(self.disabled),
        }
    }
}

/// How reading stopped: at which value, and why.
pub enum ReadFailure {
    Missing(ValueName),
    MalformedPlayTime,
    InvalidPassword(ValueName),
}

/// The settings after reading the stored values into `s`, and where reading
/// stopped, if it did. Values are taken in their stored order; a failure
/// leaves the values before it taken and, for a password that does not
/// decode, the stored form in its place. The switch is optional: where it is
/// not stored, the settings keep theirs.
pub open spec fn read_values_result(s: SettingsView, v: RegistryValuesView) -> (SettingsView, Option<ReadFailure>) {
    match v.play_time {
        PlayTimeValueView::Missing => (s, Some(ReadFailure::Missing(ValueName::PlayTime))),
        PlayTimeValueView::Malformed => (s, Some(ReadFailure::MalformedPlayTime)),
        PlayTimeValueView::Parsed(p) => read_server_address(SettingsView { play_time: p, ..s }, v),
    }
}

pub open spec fn read_server_address(s: SettingsView, v: RegistryValuesView) -> (SettingsView, Option<ReadFailure>) {
    match v.server_address {
        None => (s, Some(ReadFailure::Missing(ValueName::ServerAddress))),
        Some(a) => match v.locking_interval {
            None => (SettingsView { server_address: a, ..s }, Some(ReadFailure::Missing(ValueName::LockingInterval))),
            Some(i) => read_user(
                SettingsView { server_address: a, check_is_worstation_locked_interval: i, ..s },
                v,
            ),
        },
    }
}

pub open spec fn read_user(s: SettingsView, v: RegistryValuesView) -> (SettingsView, Option<ReadFailure>) {
    match v.user_name {
        None => (s, Some(ReadFailure::Missing(ValueName::UserName))),
        Some(n) => {
            let s1 = SettingsView { user_name: n, ..s };
            match v.user_password {
                None => (s1, Some(ReadFailure::Missing(ValueName::UserPassword))),
                Some(raw) => match decoded_password(raw) {
                    None => (SettingsView { user_password: raw, ..s1 }, Some(ReadFailure::InvalidPassword(ValueName::UserPassword))),
                    Some(p) => read_parental(SettingsView { user_password: p, ..s1 }, v),
                },
            }
        },
    }
}

pub open spec fn read_parental(s: SettingsView, v: RegistryValuesView) -> (SettingsView, Option<ReadFailure>) {
    match v.parental_control_password {
        None => (s, Some(ReadFailure::Missing(ValueName::ParentalControlPassword))),
        Some(raw) => match decoded_password(raw) {
            None => (
                SettingsView { parental_control_password: raw, ..s },
                Some(ReadFailure::InvalidPassword(ValueName::ParentalControlPassword)),
            ),
            Some(p) => {
                let s1 = SettingsView { parental_control_password: p, ..s };
                match v.domain_name {
                    None => (s1, Some(ReadFailure::Missing(ValueName::DomainName))),
                    Some(d) => {
                        let s2 = SettingsView { domain_name: d, ..s1 };
                        match v.disabled {
                            Some(x) => (SettingsView { disabled: x, ..s2 }, None),
                            None => (s2, None),
                        }
                    },
                }
            },
        },
    }
}

/// `e` is the error for the failure `f`.
pub open spec fn error_matches(e: SettingsError, f: ReadFailure) -> bool {
    match (e, f) {
        (SettingsError::MissingValue(a), ReadFailure::Missing(b)) => a == b,
        (SettingsError::MalformedPlayTime, ReadFailure::MalformedPlayTime) => true,
        (SettingsError::InvalidPassword(a, _), ReadFailure::InvalidPassword(b)) => a == b,
        _ => false,
    }
}

/// `r` reports the outcome `f` of reading.
pub open spec fn reports(r: Result<(), SettingsError>, f: Option<ReadFailure>) -> bool {
    match (r, f) {
        (Ok(()), None) => true,
        (Err(e), Some(f)) => error_matches(e, f),
        _ => false,
    }
}

/// The calendar that is stored when none is: every day of the week, from
/// Sunday (0) to Saturday (6), from hour 8 to hour 23.
pub open spec fn default_days() -> Seq<DayDefinition> {
    seq![
        DayDefinition { day: 0, start_time: 8, end_time: 23 },
        DayDefinition { day: 1, start_time: 8, end_time: 23 },
        DayDefinition { day: 2, start_time: 8, end_time: 23 },
        DayDefinition { day: 3, start_time: 8, end_time: 23 },
        DayDefinition { day: 4, start_time: 8, end_time: 23 },
        DayDefinition { day: 5, start_time: 8, end_time: 23 },
        DayDefinition { day: 6, start_time: 8, end_time: 23 },
    ]
}

/// `saved` is what `s` is stored as: its values, with each password in
/// base64 of its UTF-8 bytes.
pub open spec fn stores(s: SettingsView, saved: SavedValues) -> bool {
    &&& saved.server_address@ == s.server_address
    &&& saved.locking_interval == s.check_is_worstation_locked_interval
    &&& saved.user_name@ == s.user_name
    &&& saved.user_password@ == base64_encoded(encode_utf8(s.user_password))
    &&& decoded_password(saved.user_password@) == Some(s.user_password)
    &&& saved.domain_name@ == s.domain_name
    &&& saved.parental_control_password@ == base64_encoded(encode_utf8(s.parental_control_password))
    &&& decoded_password(saved.parental_control_password@) == Some(s.parental_control_password)
}

fn take_password(raw: String, name: ValueName, slot: &mut String) -> (r: Result<(), SettingsError>)
    ensures
        match decoded_password(raw@) {
            Some(p) => r is Ok && final(slot)@ == p,
            None => final(slot)@ == raw@ && (r matches Err(SettingsError::InvalidPassword(n, _)) && n == name),
        },
{
    match decode_password(raw.as_str()) {
        Ok(p) => {
            *slot = p;
            Ok(())
        },
        Err(e) => {
            *slot = raw;
            Err(SettingsError::InvalidPassword(name, e))
        },
    }
}

impl Settings {
    pub fn new() -> (r: Self)
        ensures
            r@.play_time == Seq::<DayDefinition>::empty(),
            r@.server_address == Seq::<char>::empty(),
            r@.current_directory == Seq::<char>::empty(),
            r@.user_name == Seq::<char>::empty(),
            r@.user_password == Seq::<char>::empty(),
            r@.parental_control_password == Seq::<char>::empty(),
            r@.domain_name == "."@,
            r@.check_is_worstation_locked_interval == 0,
            r@.disabled == Seq::<char>::empty(),
    {
        Settings {
            play_time: PlayTime::new(),
            server_address: String::new(),
            current_directory: String::new(),
            user_name: String::new(),
            user_password: String::new(),
            parental_control_password: String::new(),
            domain_name: String::from_str("."),
            check_is_worstation_locked_interval: 0,
            disabled: String::new(),
        }
    }

    /// Takes the stored values, in their stored order, up to the first one
    /// that is missing or does not decode; then the switch, where it is stored.
    pub fn read_values(&mut self, values: RegistryValues) -> (r: Result<(), SettingsError>)
        ensures
            final(self)@ == read_values_result(old(self)@, values@).0,
            reports(r, read_values_result(old(self)@, values@).1),
    {
        let RegistryValues {
            play_time,
            server_address,
            locking_interval,
            user_name,
            user_password,
            parental_control_password,
            domain_name,
            disabled,
        } = values;
        match play_time {
            PlayTimeValue::Missing => {
                return Err(SettingsError::MissingValue(ValueName::PlayTime));
            },
            PlayTimeValue::Malformed => {
                return Err(SettingsError::MalformedPlayTime);
            },
            PlayTimeValue::Parsed(p) => {
                self.play_time = p;
            },
        }
        match server_address {
            None => {
                return Err(SettingsError::MissingValue(ValueName::ServerAddress));
            },
            Some(a) => {
                self.server_address = a;
            },
        }
        match locking_interval {
            None => {
                return Err(SettingsError::MissingValue(ValueName::LockingInterval));
            },
            Some(i) => {
                self.check_is_worstation_locked_interval = i;
            },
        }
        match user_name {
            None => {
                return Err(SettingsError::MissingValue(ValueName::UserName));
            },
            Some(n) => {
                self.user_name = n;
            },
        }
        match user_password {
            None => {
                return Err(SettingsError::MissingValue(ValueName::UserPassword));
            },
            Some(raw) => {
                let r = take_password(raw, ValueName::UserPassword, &mut self.user_password);
                if r.is_err() {
                    return r;
                }
            },
        }
        match parental_control_password {
            None => {
                return Err(SettingsError::MissingValue(ValueName::ParentalControlPassword));
            },
            Some(raw) => {
                let r = take_password(
                    raw,
                    ValueName::ParentalControlPassword,
                    &mut self.parental_control_password,
                );
                if r.is_err() {
                    return r;
                }
            },
        }
        match domain_name {
            None => {
                return Err(SettingsError::MissingValue(ValueName::DomainName));
            },
            Some(d) => {
                self.domain_name = d;
            },
        }
        match disabled {
            None => {},
            Some(x) => {
                self.disabled = x;
            },
        }
        Ok(())
    }

    /// Takes the program's directory and the stored values; where they hold
    /// no calendar, puts in the default one and answers that the settings
    /// are to be stored.
    pub fn init(&mut self, curr_dir: &str, values: RegistryValues) -> (r: Result<bool, SettingsError>)
        ensures
            ({
                let (read, failure) = read_values_result(
                    SettingsView { current_directory: curr_dir@, ..old(self)@ },
                    values@,
                );
                match failure {
                    Some(f) => r matches Err(e) && error_matches(e, f) && final(self)@ == read,
                    None => if read.play_time.len() == 0 {
                        r == Ok::<bool, SettingsError>(true)
                            && final(self)@ == SettingsView { play_time: default_days(), ..read }
                    } else {
                        r == Ok::<bool, SettingsError>(false) && final(self)@ == read
                    },
                }
            }),
    {
        self.current_directory = String::from_str(curr_dir);
        match self.read_values(values) {
            Err(e) => Err(e),
            Ok(()) => {
                if self.play_time.days.len() == 0 {
                    self.play_time.add_day(0, 8, 23);
                    self.play_time.add_day(1, 8, 23);
                    self.play_time.add_day(2, 8, 23);
                    self.play_time.add_day(3, 8, 23);
                    self.play_time.add_day(4, 8, 23);
                    self.play_time.add_day(5, 8, 23);
                    self.play_time.add_day(6, 8, 23);
                    proof {
                        assert(self.play_time.days@ =~= default_days());
                    }
                    Ok(true)
                } else {
                    Ok(false)
                }
            },
        }
    }

    /// What is to be stored for these settings, besides the calendar.
    pub fn to_values(&self) -> (r: SavedValues)
        ensures
            stores(self@, r),
    {
        SavedValues {
            server_address: self.server_address.clone(),
            locking_interval: self.check_is_worstation_locked_interval,
            user_name: self.user_name.clone(),
            user_password: encode_password(self.user_password.as_str()),
            domain_name: self.domain_name.clone(),
            parental_control_password: encode_password(self.parental_control_password.as_str()),
        }
    }
}

/// The values to read back after `saved` and the calendar `days` were stored.
pub open spec fn stored_values(saved: SavedValues, days: Seq<DayDefinition>) -> RegistryValuesView {
    RegistryValuesView {
        play_time: PlayTimeValueView::Parsed(days),
        server_address: Some(saved.server_address@),
        locking_interval: Some(saved.locking_interval),
        user_name: Some(saved.user_name@),
        user_password: Some(saved.user_password@),
        parental_control_password: Some(saved.parental_control_password@),
        domain_name: Some(saved.domain_name@),
        disabled: None,
    }
}

/// Reading back what was stored for settings `s` succeeds, and gives every
/// stored setting of `s`; the directory and the switch, which are not
/// stored, stay as they were in the settings read into.
pub proof fn law_read_gives_back_saved(s: SettingsView, t: SettingsView, saved: SavedValues)
    requires
        stores(s, saved),
    ensures
        read_values_result(t, stored_values(saved, s.play_time))
            == (SettingsView { current_directory: t.current_directory, disabled: t.disabled, ..s }, None::<ReadFailure>),
{
}

} // verus!
