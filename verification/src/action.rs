//! The actions that the supervising service asks the executor to perform, and
//! their names on the wire.

use vstd::prelude::*;

verus! {

#[derive(Clone, Copy, Debug, PartialEq, Eq, Structural)]
pub enum ActionType {
    LockWorkstation,
    IsUserWorking,
    Quit,
}

/// The wire name of each action.
pub open spec fn action_name(action: ActionType) -> Seq<char> {
    match action {
        ActionType::LockWorkstation => "lock_workstation"@,
        ActionType::IsUserWorking => "is_user_working"@,
        ActionType::Quit => "quit"@,
    }
}

pub trait Action: Sized {
    fn new() -> Self;

    fn translate(&self, action: ActionType) -> Result<String, String>;
}

pub struct ServiceAction {}

impl Action for ServiceAction {
    fn new() -> Self {
        ServiceAction {}
    }

    /// The wire name of `action`; every action has one.
    fn translate(&self, action: ActionType) -> (r: Result<String, String>)
        ensures
            r matches Ok(name) && name@ == action_name(action),
    {
        match action {
            ActionType::LockWorkstation => Ok(String::from_str("lock_workstation")),
            ActionType::IsUserWorking => Ok(String::from_str("is_user_working")),
            ActionType::Quit => Ok(String::from_str("quit")),
        }
    }
}

} // verus!
