//! The executor's side of the action protocol: names are turned back into
//! actions, and the outcome of the work is turned into the reply.

use crate::action;
use vstd::prelude::*;

verus! {

#[derive(Clone, Copy, Debug, PartialEq, Eq, Structural)]
pub enum ActionType {
    LockWorkstation,
    IsUserWorking,
    Quit,
}

/// What the outside work for an action came to.
pub enum ActionOutcome {
    /// The locker was started, or why it could not be.
    LockWorkstation(Result<(), String>),
    /// Whether the user works at the computer, or why that is unknown.
    IsUserWorking(Result<bool, String>),
    /// The executor was asked to stop; no work is done.
    Quit,
}

/// The action a wire name stands for, if any.
pub open spec fn parsed_action(name: Seq<char>) -> Option<ActionType> {
    if name == "lock_workstation"@ {
        Some(ActionType::LockWorkstation)
    } else if name == "is_user_working"@ {
        Some(ActionType::IsUserWorking)
    } else if name == "quit"@ {
        Some(ActionType::Quit)
    } else {
        None
    }
}

/// The reply that the executor gives for the outcome of an action.
pub open spec fn reply_for(outcome: ActionOutcome) -> Result<Seq<char>, Seq<char>> {
    match outcome {
        ActionOutcome::LockWorkstation(Ok(())) => Ok("Ok"@),
        ActionOutcome::LockWorkstation(Err(e)) => Err(e@),
        ActionOutcome::IsUserWorking(Ok(true)) => Ok("Ok"@),
        ActionOutcome::IsUserWorking(Ok(false)) => Ok("Not Ok"@),
        ActionOutcome::IsUserWorking(Err(e)) => Err("Error: "@ + e@),
        ActionOutcome::Quit => Ok("quit"@),
    }
}

pub trait ActionProcessor: Sized {
    fn new() -> Self;

    fn process(&self, outcome: ActionOutcome) -> Result<String, String>;

    fn translate(&self, action_name: &str) -> Result<ActionType, String>;
}

pub struct Processor {}

impl ActionProcessor for Processor {
    fn new() -> Self {
        Processor {}
    }

    /// The reply for the outcome of the work that an action asked for.
    fn process(&self, outcome: ActionOutcome) -> (r: Result<String, String>)
        ensures
            match (r, reply_for(outcome)) {
                (Ok(s), Ok(t)) => s@ == t,
                (Err(s), Err(t)) => s@ == t,
                _ => false,
            },
    {
        match outcome {
            ActionOutcome::LockWorkstation(result) => match result {
                Ok(()) => Ok(String::from_str("Ok")),
                Err(e) => Err(e),
            },
            ActionOutcome::IsUserWorking(result) => match result {
                Ok(working) => {
                    if working {
                        Ok(String::from_str("Ok"))
                    } else {
                        Ok(String::from_str("Not Ok"))
                    }
                },
                Err(e) => Err(String::from_str("Error: ").concat(e.as_str())),
            },
            ActionOutcome::Quit => Ok(String::from_str("quit")),
        }
    }

    /// The action named `action_name`, or the error that names the unknown one.
    fn translate(&self, action_name: &str) -> (r: Result<ActionType, String>)
        ensures
            match parsed_action(action_name@) {
                Some(a) => r == Ok::<ActionType, String>(a),
                None => r matches Err(e) && e@ == "Unknown action: "@ + action_name@,
            },
    {
        let name = String::from_str(action_name);
        if name == String::from_str("lock_workstation") {
            Ok(ActionType::LockWorkstation)
        } else if name == String::from_str("is_user_working") {
            Ok(ActionType::IsUserWorking)
        } else if name == String::from_str("quit") {
            Ok(ActionType::Quit)
        } else {
            Err(String::from_str("Unknown action: ").concat(action_name))
        }
    }
}

/// The executor's counterpart of an action of the service.
pub open spec fn counterpart(a: action::ActionType) -> ActionType {
    match a {
        action::ActionType::LockWorkstation => ActionType::LockWorkstation,
        action::ActionType::IsUserWorking => ActionType::IsUserWorking,
        action::ActionType::Quit => ActionType::Quit,
    }
}

/// Every action that the service names is understood by the executor as the
/// same action.
pub proof fn law_service_names_are_understood(a: action::ActionType)
    ensures
        parsed_action(action::action_name(a)) == Some(counterpart(a)),
{
    reveal_strlit("lock_workstation");
    reveal_strlit("is_user_working");
    reveal_strlit("quit");
    assert("lock_workstation"@[0] != "is_user_working"@[0]);
    assert("lock_workstation"@.len() != "quit"@.len());
    assert("is_user_working"@.len() != "quit"@.len());
}

} // verus!
