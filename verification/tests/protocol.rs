use whip::action::{self, Action, ServiceAction};
use whip::actionprocessor::{ActionOutcome, ActionProcessor, ActionType, Processor};
use whip::client::{ClientError, ServiceClient};

#[test]
fn service_names() {
    let a: ServiceAction = Action::new();
    assert_eq!(a.translate(action::ActionType::LockWorkstation).unwrap(), "lock_workstation");
    assert_eq!(a.translate(action::ActionType::IsUserWorking).unwrap(), "is_user_working");
    assert_eq!(a.translate(action::ActionType::Quit).unwrap(), "quit");
}

#[test]
fn executor_understands_every_service_name() {
    let a: ServiceAction = Action::new();
    let p: Processor = ActionProcessor::new();
    for (s, e) in [
        (action::ActionType::LockWorkstation, ActionType::LockWorkstation),
        (action::ActionType::IsUserWorking, ActionType::IsUserWorking),
        (action::ActionType::Quit, ActionType::Quit),
    ] {
        let name = a.translate(s).unwrap();
        assert_eq!(p.translate(&name).unwrap(), e);
        assert_eq!(whip::server::execute_action(&name).unwrap(), e);
    }
}

#[test]
fn unknown_action_is_named() {
    let p: Processor = ActionProcessor::new();
    assert_eq!(p.translate("reboot").unwrap_err(), "Unknown action: reboot");
    assert_eq!(p.translate("Quit").unwrap_err(), "Unknown action: Quit");
}

#[test]
fn replies_for_outcomes() {
    let p: Processor = ActionProcessor::new();
    assert_eq!(p.process(ActionOutcome::LockWorkstation(Ok(()))).unwrap(), "Ok");
    assert_eq!(p.process(ActionOutcome::LockWorkstation(Err(String::from("no locker")))).unwrap_err(), "no locker");
    assert_eq!(p.process(ActionOutcome::IsUserWorking(Ok(true))).unwrap(), "Ok");
    assert_eq!(p.process(ActionOutcome::IsUserWorking(Ok(false))).unwrap(), "Not Ok");
    assert_eq!(p.process(ActionOutcome::IsUserWorking(Err(String::from("x")))).unwrap_err(), "Error: x");
    assert_eq!(p.process(ActionOutcome::Quit).unwrap(), "quit");
}

#[test]
fn test_send_action() {
    let client = ServiceClient::new();
    let action_type = action::ActionType::LockWorkstation;

    let r = client.request(action_type);
    assert_eq!(r.unwrap(), "lock_workstation");
}

#[test]
fn only_ok_reply_succeeds() {
    let client = ServiceClient::new();
    assert!(client.check_response(b"Ok").is_ok());
    match client.check_response(b"Error processing action: x") {
        Err(ClientError::ErrorResponse(b)) => assert_eq!(b, b"Error processing action: x".to_vec()),
        _ => panic!("expected an error"),
    }
    assert!(client.check_response(b"").is_err());
    assert!(client.check_response(b"Ok ").is_err());
    assert!(client.check_response(b"ok").is_err());
}
