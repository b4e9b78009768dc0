//! Helpers of the supervising service: the timer, running processes and the
//! executor's path.

use crate::timer::{div_toward_zero, millis_from_counter};
use vstd::prelude::*;

verus! {

/// Why the timer could not be read.
#[derive(Clone, Copy, Debug, PartialEq, Eq, Structural)]
pub enum TimerError {
    FrequencyUnavailable,
    CounterUnavailable,
}

impl TimerError {
    pub fn message(&self) -> (r: String)
        ensures
            r@ == match self {
                TimerError::FrequencyUnavailable => "Failed to read timer frequency"@,
                TimerError::CounterUnavailable => "Failed to read timer"@,
            },
    {
        match self {
            TimerError::FrequencyUnavailable => String::from_str("Failed to read timer frequency"),
            TimerError::CounterUnavailable => String::from_str("Failed to read timer"),
        }
    }
}

/// The readings of the performance counter cannot be turned into
/// milliseconds within `i64`.
pub open spec fn counter_overflows(frequency: i64, ticks: i64) -> bool {
    frequency == 0 || ticks * 1000 < i64::MIN || ticks * 1000 > i64::MAX || (ticks * 1000 == i64::MIN
        && frequency == -1)
}

/// Milliseconds since start-up, from the counter's frequency and reading;
/// `None` where the reading failed, and the counter is not read where the
/// frequency could not be.
pub fn read_timer(frequency: Option<i64>, ticks: Option<i64>) -> (r: Result<u64, TimerError>)
    requires
        match (frequency, ticks) {
            (Some(f), Some(t)) => !counter_overflows(f, t),
            _ => true,
        },
    ensures
        match (frequency, ticks) {
            (None, _) => r == Err::<u64, TimerError>(TimerError::FrequencyUnavailable),
            (Some(_), None) => r == Err::<u64, TimerError>(TimerError::CounterUnavailable),
            (Some(f), Some(t)) => r == Ok::<u64, TimerError>(div_toward_zero(t * 1000, f as int) as u64),
        },
{
    match frequency {
        None => Err(TimerError::FrequencyUnavailable),
        Some(f) => match ticks {
            None => Err(TimerError::CounterUnavailable),
            Some(t) => Ok(millis_from_counter(t, f)),
        },
    }
}

/// The text that `str::to_lowercase` makes of `s`.
pub uninterp spec fn lowercased(s: Seq<char>) -> Seq<char>;

/// `str::to_lowercase`: the lowercase form of `s`, by Unicode's rules.
#[verifier::external_body]
fn to_lowercase(s: &str) -> (r: String)
    ensures
        r@ == lowercased(s@),
{
    s.to_lowercase()
}

/// Whether a process runs whose name, in lower case, is `process_name`,
/// among the names of the running processes.
pub fn is_process_running(process_names: &Vec<String>, process_name: &str) -> (r: bool)
    ensures
        r == exists|i: int| 0 <= i < process_names@.len() && lowercased(#[trigger] process_names@[i]@) == process_name@,
{
    let wanted = String::from_str(process_name);
    let n: usize = process_names.len();
    for i in 0..n
        invariant
            n == process_names@.len(),
            wanted@ == process_name@,
            forall|j: int| 0 <= j < i ==> lowercased(#[trigger] process_names@[j]@) != process_name@,
    {
        if to_lowercase(process_names[i].as_str()) == wanted {
            return true;
        }
    }
    false
}

/// The executor's path in the directory `current_directory`.
pub fn executor_path(current_directory: &str) -> (r: String)
    ensures
        r@ == current_directory@ + "\\"@ + crate::engine::EXECUTOR_PROCESS_NAME@,
{
    String::from_str(current_directory).concat("\\").concat(crate::engine::EXECUTOR_PROCESS_NAME)
}

} // verus!
