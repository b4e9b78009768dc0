use whip::actionprocessor::ActionType;
use whip::server::{
    action_reply, ends_session, execute_action, on_read, password_file_path, program_directory, ReadDecision,
    ServerParams, MAX_READ_BUFFER_SIZE,
};
use whip::server::{Session, SessionEvent, SessionOrder, SessionPhase};
use whip::wreg::WReg;

#[test]
fn request_names_are_cleaned() {
    assert_eq!(execute_action("quit\r\n\0garbage").unwrap(), ActionType::Quit);
    assert_eq!(execute_action("\u{feff}lock_workstation\n").unwrap(), ActionType::LockWorkstation);
    assert_eq!(execute_action("is_user_working").unwrap(), ActionType::IsUserWorking);
    assert_eq!(
        execute_action("sleep\n\0").unwrap_err(),
        "Error translating action: Unknown action: sleep"
    );
}

#[test]
fn processing_errors_are_prefixed() {
    assert_eq!(action_reply(Ok(String::from("Ok"))), "Ok");
    assert_eq!(action_reply(Err(String::from("boom"))), "Error processing action: boom");
}

#[test]
fn reads_are_decided() {
    let mut data = vec![0u8; MAX_READ_BUFFER_SIZE];
    assert!(matches!(on_read(&mut data, 0), ReadDecision::Close));
    assert!(matches!(on_read(&mut data, MAX_READ_BUFFER_SIZE - 1), ReadDecision::Close));
    data[..4].copy_from_slice(b"quit");
    data[4] = b'x';
    match on_read(&mut data, 4) {
        ReadDecision::Request(text) => {
            assert_eq!(data[4], 0);
            assert_eq!(execute_action(&text).unwrap(), ActionType::Quit);
        },
        _ => panic!("expected a request"),
    }
    data[10] = 0xff;
    assert!(matches!(on_read(&mut data, 4), ReadDecision::NotUtf8));
}

#[test]
fn quit_reply_ends_the_session() {
    assert!(ends_session(&String::from("quit")));
    assert!(!ends_session(&String::from("Ok")));
}

#[test]
fn program_directory_is_found() {
    assert_eq!(program_directory("\\\\?\\C:\\Program Files\\whip\\executor.exe", '\\'), "C:\\Program Files\\whip");
    assert_eq!(program_directory("\\\\.\\C:\\whip\\\\executor.exe", '\\'), "C:\\whip");
    assert_eq!(program_directory("executor.exe", '\\'), "");
    assert_eq!(program_directory("/usr/bin/executor", '/'), "usr/bin");
    assert_eq!(
        password_file_path("C:\\whip", '\\', "pp.txt"),
        "C:\\whip\\pp.txt"
    );
}

#[test]
fn server_params_hold_the_password() {
    let p = ServerParams::new(String::from("secret"));
    assert_eq!(p.get_parental_control_password(), "secret");
}

#[test]
fn registry_takes_base64_password() {
    let mut r = WReg::new();
    assert_eq!(r.get_parental_control_password(), "");
    assert!(r.set_parental_control_password("MTIzNA==").is_ok());
    assert_eq!(r.get_parental_control_password(), "1234");
    assert!(r.set_parental_control_password("***").is_err());
    assert_eq!(r.get_parental_control_password(), "1234");
    assert!(matches!(
        r.set_parental_control_password("/w=="),
        Err(whip::codec::PasswordError::InvalidUtf8(_))
    ));
    assert_eq!(r.get_parental_control_password(), "1234");
}

#[test]
fn session_runs_request_reply_and_quit() {
    let mut data = vec![0u8; MAX_READ_BUFFER_SIZE];
    let mut session = Session::new();
    assert!(matches!(session.step(&mut data, SessionEvent::WouldBlock), SessionOrder::SleepThenRead));
    data[..15].copy_from_slice(b"is_user_working");
    match session.step(&mut data, SessionEvent::Received(15)) {
        SessionOrder::Execute(text) => assert_eq!(execute_action(&text).unwrap(), ActionType::IsUserWorking),
        _ => panic!("expected an action"),
    }
    match session.step(&mut data, SessionEvent::Processed(String::from("Ok"))) {
        SessionOrder::Write(reply) => assert_eq!(reply, "Ok"),
        _ => panic!("expected a reply"),
    }
    assert!(matches!(session.step(&mut data, SessionEvent::Written(true)), SessionOrder::Read));
    data[..4].copy_from_slice(b"quit");
    session.step(&mut data, SessionEvent::Received(4));
    assert!(matches!(
        session.step(&mut data, SessionEvent::Processed(String::from("quit"))),
        SessionOrder::StopRunning
    ));
    assert_eq!(session.phase, SessionPhase::Ended);
}

#[test]
fn session_ends_on_bad_reads() {
    let mut data = vec![0u8; MAX_READ_BUFFER_SIZE];
    let mut session = Session::new();
    assert!(matches!(session.step(&mut data, SessionEvent::Received(0)), SessionOrder::Shutdown));
    assert_eq!(session.phase, SessionPhase::Ended);
    let mut session = Session::new();
    assert!(matches!(session.step(&mut data, SessionEvent::ReadFailed), SessionOrder::Shutdown));
    let mut session = Session::new();
    data[3] = 0xff;
    match session.step(&mut data, SessionEvent::Received(2)) {
        SessionOrder::Write(reply) => assert_eq!(reply, "not utf8 string"),
        _ => panic!("expected a reply"),
    }
    assert!(matches!(session.step(&mut data, SessionEvent::Written(false)), SessionOrder::Shutdown));
}
