//! The executor's view of the user's activity and of the timer.

use crate::auxiliary::{counter_overflows, read_timer};
use crate::timer::div_toward_zero;
use vstd::prelude::*;

verus! {

pub struct Action {}

impl Default for Action {
    fn default() -> (r: Self)
        ensures
            r == (Action {}),
    {
        Action {}
    }
}

impl Action {
    /// Whether the user works at the computer: some time passed from the
    /// last input to now. A last input later than now is no work.
    pub fn is_user_working(&self, current_time: u64, last_input_time: u64) -> (r: bool)
        ensures
            r == (current_time > last_input_time),
    {
        current_time > last_input_time
    }

    /// Milliseconds since start-up, from the counter's frequency and reading;
    /// `None` where a reading failed.
    pub fn read_timer(&self, frequency: Option<i64>, ticks: Option<i64>) -> (r: Result<u64, String>)
        requires
            match (frequency, ticks) {
                (Some(f), Some(t)) => !counter_overflows(f, t),
                _ => true,
            },
        ensures
            match (frequency, ticks) {
                (None, _) => r matches Err(e) && e@ == "Failed to read timer frequency"@,
                (Some(_), None) => r matches Err(e) && e@ == "Failed to read timer"@,
                (Some(f), Some(t)) => r == Ok::<u64, String>(div_toward_zero(t * 1000, f as int) as u64),
            },
    {
        match read_timer(frequency, ticks) {
            Ok(ms) => Ok(ms),
            Err(e) => Err(e.message()),
        }
    }
}

} // verus!
