use whip::engine::{
    requested_additional_minutes, supervision_disabled, Effect, EngineCore, EngineError, EngineEvent,
    EngineStep, Next, Phase, Query,
};
use whip::settings::Settings;

fn settings() -> Settings {
    let mut s = Settings::new();
    s.user_name = String::from("kid");
    s.check_is_worstation_locked_interval = 5000;
    s
}

fn units(text: &str) -> Vec<u16> {
    let mut v: Vec<u16> = text.encode_utf16().collect();
    v.resize(255, 0);
    v
}

fn asks(step: &EngineStep, q: Query) -> bool {
    matches!(step.next, Next::Ask(x) if x == q)
}

fn finished_ok(step: &EngineStep) -> bool {
    matches!(step.next, Next::Finish(Ok(())))
}

/// Runs the engine from the start of a run up to the timer question.
fn up_to_timer(core: &mut EngineCore, s: &Settings) {
    let step = core.begin();
    assert!(asks(&step, Query::CurrentUserName));
    let step = core.step(s, EngineEvent::UserName(String::from("kid")));
    assert!(asks(&step, Query::IsPlayTime));
    let step = core.step(s, EngineEvent::PlayTime(false));
    assert!(asks(&step, Query::ReadTimer));
    assert!(step.effects.is_empty());
}

#[test]
fn critical_error_ends_every_run() {
    let mut core = EngineCore::new(true);
    let step = core.begin();
    assert!(matches!(step.next, Next::Finish(Err(EngineError::CriticalError))));
    assert!(step.effects.is_empty());
    let step = core.begin();
    assert!(matches!(step.next, Next::Finish(Err(EngineError::CriticalError))));
}

#[test]
fn other_user_ends_the_run() {
    let s = settings();
    let mut core = EngineCore::new(false);
    core.begin();
    let step = core.step(&s, EngineEvent::UserName(String::from("parent")));
    assert!(finished_ok(&step));
    assert!(step.effects.is_empty());
    assert_eq!(core.phase, Phase::Idle);
}

#[test]
fn disabled_supervision_unblocks_once() {
    let mut s = settings();
    s.disabled = String::from("1");
    let mut core = EngineCore::new(false);
    core.begin();
    let step = core.step(&s, EngineEvent::UserName(String::from("kid")));
    assert!(finished_ok(&step));
    assert_eq!(step.effects, vec![Effect::WriteUnblock]);
    core.begin();
    let step = core.step(&s, EngineEvent::UserName(String::from("kid")));
    assert!(step.effects.is_empty());
}

#[test]
fn disabled_switch_reads_as_u8() {
    let mut s = settings();
    for (text, off) in [("1", true), ("+1", true), ("001", true), ("0", false), ("2", false), ("", false), ("-1", false), ("1 ", false), ("x", false)] {
        s.disabled = String::from(text);
        assert_eq!(supervision_disabled(&s), off, "{:?}", text);
    }
}

#[test]
fn play_time_unblocks_and_drops_granted_time() {
    let s = settings();
    let mut core = EngineCore::new(false);
    core.requested_additional_playtime = 60000;
    core.begin();
    core.step(&s, EngineEvent::UserName(String::from("kid")));
    let step = core.step(&s, EngineEvent::PlayTime(true));
    assert_eq!(step.effects, vec![Effect::WriteUnblock]);
    assert!(asks(&step, Query::TakeReloadRequest));
    assert_eq!(core.requested_additional_playtime, 0);
    assert!(core.sent_unblock_event);
    let step = core.step(&s, EngineEvent::ReloadRequested(false));
    assert_eq!(step.effects, vec![Effect::Sleep]);
    assert!(finished_ok(&step));
}

#[test]
fn request_for_additional_time_is_granted() {
    let s = settings();
    let mut core = EngineCore::new(false);
    up_to_timer(&mut core, &s);
    let step = core.step(&s, EngineEvent::Timer(Some(7000)));
    assert!(asks(&step, Query::ReadSharedMemory));
    let step = core.step(&s, EngineEvent::SharedMemory(units("addtime:15")));
    assert_eq!(step.effects, vec![Effect::ClearAdditionalTime, Effect::WriteUnblock]);
    assert!(asks(&step, Query::TakeReloadRequest));
    assert_eq!(core.requested_additional_playtime, 15 * 60 * 1000);
    assert_eq!(core.last_time, 7000);
}

#[test]
fn additional_time_counts_down_and_runs_out() {
    let s = settings();
    let mut core = EngineCore::new(false);
    core.requested_additional_playtime = 10_000;
    core.last_time = 1_000;
    up_to_timer(&mut core, &s);
    let step = core.step(&s, EngineEvent::Timer(Some(4_000)));
    assert!(step.effects.is_empty());
    assert!(asks(&step, Query::TakeReloadRequest));
    assert_eq!(core.requested_additional_playtime, 7_000);
    assert_eq!(core.last_time, 4_000);
    core.step(&s, EngineEvent::ReloadRequested(false));
    up_to_timer(&mut core, &s);
    core.step(&s, EngineEvent::Timer(Some(20_000)));
    assert_eq!(core.requested_additional_playtime, 0);
}

#[test]
fn lock_is_sent_after_the_interval() {
    let s = settings();
    let mut core = EngineCore::new(false);
    up_to_timer(&mut core, &s);
    core.step(&s, EngineEvent::Timer(Some(6_000)));
    let step = core.step(&s, EngineEvent::SharedMemory(units("")));
    assert!(asks(&step, Query::IsBlockerRunning));
    assert_eq!(core.last_lock_workstation_event_sent_time, 6_000);
    let step = core.step(&s, EngineEvent::ProcessRunning(false));
    assert!(asks(&step, Query::IsExecutorRunning));
    let step = core.step(&s, EngineEvent::ProcessRunning(false));
    assert_eq!(step.effects, vec![Effect::LoadExecutor, Effect::SendLockWorkstation]);
    assert!(asks(&step, Query::TakeReloadRequest));

    // Within the interval nothing is checked.
    core.step(&s, EngineEvent::ReloadRequested(false));
    up_to_timer(&mut core, &s);
    core.step(&s, EngineEvent::Timer(Some(8_000)));
    let step = core.step(&s, EngineEvent::SharedMemory(units("")));
    assert!(asks(&step, Query::TakeReloadRequest));
    assert!(step.effects.is_empty());
}

#[test]
fn running_locker_stops_the_lock_path() {
    let s = settings();
    let mut core = EngineCore::new(false);
    up_to_timer(&mut core, &s);
    core.step(&s, EngineEvent::Timer(Some(6_000)));
    core.step(&s, EngineEvent::SharedMemory(units("")));
    let step = core.step(&s, EngineEvent::ProcessRunning(true));
    assert!(step.effects.is_empty());
    assert!(asks(&step, Query::TakeReloadRequest));
}

#[test]
fn running_executor_is_not_started_again() {
    let s = settings();
    let mut core = EngineCore::new(false);
    up_to_timer(&mut core, &s);
    core.step(&s, EngineEvent::Timer(Some(6_000)));
    core.step(&s, EngineEvent::SharedMemory(units("")));
    core.step(&s, EngineEvent::ProcessRunning(false));
    let step = core.step(&s, EngineEvent::ProcessRunning(true));
    assert_eq!(step.effects, vec![Effect::SendLockWorkstation]);
}

#[test]
fn timer_failure_is_critical_but_the_run_goes_on() {
    let s = settings();
    let mut core = EngineCore::new(false);
    up_to_timer(&mut core, &s);
    let step = core.step(&s, EngineEvent::Timer(None));
    assert!(core.critical_error);
    assert!(asks(&step, Query::ReadSharedMemory));
    assert_eq!(core.phase, Phase::AwaitSharedMemory { curr_time: 0 });
}

#[test]
fn failed_reload_is_critical() {
    let s = settings();
    let mut core = EngineCore::new(false);
    core.begin();
    core.step(&s, EngineEvent::UserName(String::from("kid")));
    core.step(&s, EngineEvent::PlayTime(true));
    let step = core.step(&s, EngineEvent::ReloadRequested(true));
    assert!(asks(&step, Query::ReloadSettings));
    let step = core.step(&s, EngineEvent::SettingsReloaded(false));
    assert_eq!(step.effects, vec![Effect::Sleep]);
    assert!(finished_ok(&step));
    assert!(core.critical_error);
    assert!(matches!(core.begin().next, Next::Finish(Err(EngineError::CriticalError))));
}

#[test]
fn successful_reload_rearms_the_watch() {
    let s = settings();
    let mut core = EngineCore::new(false);
    core.begin();
    core.step(&s, EngineEvent::UserName(String::from("kid")));
    core.step(&s, EngineEvent::PlayTime(true));
    core.step(&s, EngineEvent::ReloadRequested(true));
    let step = core.step(&s, EngineEvent::SettingsReloaded(true));
    assert_eq!(step.effects, vec![Effect::RearmReloadNotifier, Effect::Sleep]);
    assert!(!core.critical_error);
}

#[test]
fn unexpected_event_asks_again() {
    let s = settings();
    let mut core = EngineCore::new(false);
    core.begin();
    let before = core;
    let step = core.step(&s, EngineEvent::PlayTime(true));
    assert_eq!(core, before);
    assert!(asks(&step, Query::CurrentUserName));
    assert!(step.effects.is_empty());
}

#[test]
fn overflowing_countdown_is_reported() {
    let s = settings();
    let mut core = EngineCore::new(false);
    core.requested_additional_playtime = 1;
    core.last_time = u64::MAX / 2;
    up_to_timer(&mut core, &s);
    assert!(core.step_overflows(&s, &EngineEvent::Timer(Some(u64::MAX))));
    assert!(!core.step_overflows(&s, &EngineEvent::Timer(Some(10))));
}

#[test]
fn additional_minutes_are_read_from_shared_memory() {
    assert_eq!(requested_additional_minutes(&units("addtime:30")), Some(30));
    assert_eq!(requested_additional_minutes(&units("addtime:+7")), Some(7));
    assert_eq!(requested_additional_minutes(&units("addtime:4294967295")), Some(u32::MAX));
    assert_eq!(requested_additional_minutes(&units("addtime:4294967296")), None);
    assert_eq!(requested_additional_minutes(&units("addtime:")), None);
    assert_eq!(requested_additional_minutes(&units("addtime:-1")), None);
    assert_eq!(requested_additional_minutes(&units("addtime:1x")), None);
    assert_eq!(requested_additional_minutes(&units("unblock:")), None);
    assert_eq!(requested_additional_minutes(&units("")), None);
    // Without a terminating zero nothing is read.
    let full: Vec<u16> = "addtime:5".encode_utf16().cycle().take(255).collect();
    assert_eq!(requested_additional_minutes(&full), None);
    let mut late = units("addtime:5");
    late[9] = 0x00e9;
    assert_eq!(requested_additional_minutes(&late), None);
}

#[test]
fn lock_requests_are_an_interval_apart() {
    let s = settings();
    let mut core = EngineCore::new(false);
    let mut lock_times = Vec::new();
    for now in (6_000u64..40_000).step_by(1_000) {
        up_to_timer(&mut core, &s);
        core.step(&s, EngineEvent::Timer(Some(now)));
        let mut step = core.step(&s, EngineEvent::SharedMemory(units("")));
        while let Next::Ask(q) = step.next {
            if step.effects.contains(&Effect::SendLockWorkstation) {
                lock_times.push(core.last_lock_workstation_event_sent_time);
            }
            let event = match q {
                Query::IsBlockerRunning | Query::IsExecutorRunning => EngineEvent::ProcessRunning(false),
                Query::TakeReloadRequest => EngineEvent::ReloadRequested(false),
                _ => panic!("unexpected question"),
            };
            step = core.step(&s, event);
        }
    }
    assert_eq!(lock_times, vec![6_000, 11_000, 16_000, 21_000, 26_000, 31_000, 36_000]);
}

#[test]
fn unblock_is_written_once() {
    let mut core = EngineCore::new(false);
    let mut effects = Vec::new();
    core.send_unblock_event(&mut effects);
    core.send_unblock_event(&mut effects);
    assert_eq!(effects, vec![Effect::WriteUnblock]);
    assert!(core.sent_unblock_event);
}
