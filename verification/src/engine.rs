//! The supervising service's decisions, one run at a time.
//!
//! A run asks for outside facts one at a time (the logged-in user, the clock,
//! the shared memory, running processes, the reload request) and orders
//! outside effects (the unblock message, clearing the shared memory,
//! starting the executor, the lock request, sleeping). The caller performs
//! each effect in order, answers each question with an event, and feeds the
//! event back, until the run finishes.

use crate::decimal::{parse_unsigned, parsed_unsigned};
use crate::settings::Settings;
use vstd::prelude::*;

verus! {

/// The process that shows the lock screen.
pub const BLOCKED_PROCESS_NAME: &'static str = "bratlocker.exe";

/// The executor, which runs as the supervised user.
pub const EXECUTOR_PROCESS_NAME: &'static str = "executor.exe";

/// How long to sleep after a run, in milliseconds.
pub const SLEEP_TIME: u64 = 1000;

/// How many UTF-16 units of the shared memory are read for a request of
/// additional time.
pub const SLICE_LENGTH: usize = 255;

/// Where the engine is in a run.
#[derive(Clone, Copy, Debug, PartialEq, Eq, Structural)]
pub enum Phase {
    Idle,
    AwaitUserName,
    AwaitPlayTime,
    AwaitTimer,
    AwaitSharedMemory { curr_time: u64 },
    AwaitBlockerCheck,
    AwaitExecutorCheck,
    AwaitReloadRequest,
    AwaitReload,
}

/// A fact that the engine asks for.
#[derive(Clone, Copy, Debug, PartialEq, Eq, Structural)]
pub enum Query {
    /// The name of the user logged in now.
    CurrentUserName,
    /// Whether the calendar allows the computer now.
    IsPlayTime,
    /// Milliseconds since start-up.
    ReadTimer,
    /// The first `SLICE_LENGTH` UTF-16 units of the shared memory.
    ReadSharedMemory,
    /// Whether `BLOCKED_PROCESS_NAME` runs.
    IsBlockerRunning,
    /// Whether `EXECUTOR_PROCESS_NAME` runs.
    IsExecutorRunning,
    /// Whether the stored settings changed since the last question; the
    /// question takes the request.
    TakeReloadRequest,
    /// Read the stored settings again: whether that succeeded.
    ReloadSettings,
}

/// An effect that the engine orders.
#[derive(Clone, Copy, Debug, PartialEq, Eq, Structural)]
pub enum Effect {
    /// Write `"unblock:"` to the shared memory, under its lock.
    WriteUnblock,
    /// Clear the shared memory.
    ClearAdditionalTime,
    /// Start the executor as the supervised user.
    LoadExecutor,
    /// Send the lock-workstation action to the executor.
    SendLockWorkstation,
    /// Watch the stored settings for the next change.
    RearmReloadNotifier,
    /// Sleep `SLEEP_TIME` milliseconds.
    Sleep,
}

/// The answer to a `Query`.
pub enum EngineEvent {
    UserName(String),
    PlayTime(bool),
    /// `None` where the timer could not be read.
    Timer(Option<u64>),
    SharedMemory(Vec<u16>),
    ProcessRunning(bool),
    ReloadRequested(bool),
    SettingsReloaded(bool),
}

#[derive(Clone, Copy, Debug, PartialEq, Eq, Structural)]
pub enum EngineError {
    /// A critical error happened earlier; the service is to quit.
    CriticalError,
}

impl EngineError {
    pub fn message(&self) -> (r: String)
        ensures
            r@ == "Quiting due to critical error"@,
    {
        String::from_str("Quiting due to critical error")
    }
}

/// What comes after the effects of a step.
#[derive(Clone, Copy, Debug)]
pub enum Next {
    Ask(Query),
    Finish(Result<(), EngineError>),
}

pub struct EngineStep {
    /// To be performed in this order, before `next`.
    pub effects: Vec<Effect>,
    pub next: Next,
}

/// The event as a value.
pub enum EventView {
    UserName(Seq<char>),
    PlayTime(bool),
    Timer(Option<u64>),
    SharedMemory(Seq<u16>),
    ProcessRunning(bool),
    ReloadRequested(bool),
    SettingsReloaded(bool),
}

impl View for EngineEvent {
    type V = EventView;

    open spec fn view(&self) -> EventView {
        match self {
            EngineEvent::UserName(s) => EventView::UserName(s@),
            EngineEvent::PlayTime(b) => EventView::PlayTime(*b),
            EngineEvent::Timer(t) => EventView::Timer(*t),
            EngineEvent::SharedMemory(v) => EventView::SharedMemory(v@),
            EngineEvent::ProcessRunning(b) => EventView::ProcessRunning(*b),
            EngineEvent::ReloadRequested(b) => EventView::ReloadRequested(*b),
            EngineEvent::SettingsReloaded(b) => EventView::SettingsReloaded(*b),
        }
    }
}

/// The state that the engine keeps between runs, and within one.
#[derive(Clone, Copy, Debug, PartialEq, Eq, Structural)]
pub struct EngineCore {
    /// Once set, every run ends in `EngineError::CriticalError`.
    pub critical_error: bool,
    pub sent_unblock_event: bool,
    /// Additional time still granted, in milliseconds.
    pub requested_additional_playtime: u64,
    /// When the additional time was last counted down.
    pub last_time: u64,
    pub last_lock_workstation_event_sent_time: u64,
    pub phase: Phase,
}

/// The settings that the decisions read.
pub struct Config {
    pub user_name: Seq<char>,
    pub disabled: Seq<char>,
    pub lock_interval: u64,
}

pub open spec fn config_of(settings: &Settings) -> Config {
    Config {
        user_name: settings.user_name@,
        disabled: settings.disabled@,
        lock_interval: settings.check_is_worstation_locked_interval,
    }
}

/// The code points of a text.
pub open spec fn codes(s: Seq<char>) -> Seq<u32> {
    s.map_values(|c: char| c as u32)
}

/// The switch reads as the number 1 (a `u8`); anything else, or nothing,
/// leaves the supervision on.
pub open spec fn is_disabled(disabled: Seq<char>) -> bool {
    parsed_unsigned(codes(disabled), 255) == Some(1nat)
}

/// `"addtime:"` in UTF-16.
pub open spec fn addtime_prefix() -> Seq<u16> {
    seq![0x61u16, 0x64, 0x64, 0x74, 0x69, 0x6d, 0x65, 0x3a]
}

/// The index of the first zero unit, if there is one.
pub open spec fn first_zero(units: Seq<u16>) -> Option<nat>
    decreases units.len(),
{
    if units.len() == 0 {
        None
    } else if units[0] == 0 {
        Some(0nat)
    } else {
        match first_zero(units.drop_first()) {
            Some(k) => Some(k + 1),
            None => None,
        }
    }
}

/// The minutes of additional time that the shared memory asks for: the text
/// before its first zero unit (none where there is no zero unit, or it comes
/// first) reads `"addtime:"` followed by a `u32` number.
pub open spec fn requested_minutes(units: Seq<u16>) -> Option<nat> {
    match first_zero(units) {
        Some(len) => if len > 0 && len >= 8 && units.take(8) == addtime_prefix() {
            parsed_unsigned(units.subrange(8, len as int).map_values(|u: u16| u as u32), u32::MAX as nat)
        } else {
            None
        },
        None => None,
    }
}

pub open spec fn ask(s: EngineCore, phase: Phase, effects: Seq<Effect>, q: Query) -> (EngineCore, Seq<Effect>, Next) {
    (EngineCore { phase, ..s }, effects, Next::Ask(q))
}

pub open spec fn finish(s: EngineCore, effects: Seq<Effect>, r: Result<(), EngineError>) -> (EngineCore, Seq<Effect>, Next) {
    (EngineCore { phase: Phase::Idle, ..s }, effects, Next::Finish(r))
}

/// Sending the unblock message: once until it is reset.
pub open spec fn unblock(s: EngineCore) -> (EngineCore, Seq<Effect>) {
    if s.sent_unblock_event {
        (s, Seq::empty())
    } else {
        (EngineCore { sent_unblock_event: true, ..s }, seq![Effect::WriteUnblock])
    }
}

/// The end of the play-time check: on to the reload request.
pub open spec fn to_reload(s: EngineCore, effects: Seq<Effect>) -> (EngineCore, Seq<Effect>, Next) {
    ask(s, Phase::AwaitReloadRequest, effects, Query::TakeReloadRequest)
}

/// The question that `phase` waits on.
pub open spec fn pending(phase: Phase) -> Next {
    match phase {
        Phase::Idle => Next::Finish(Ok(())),
        Phase::AwaitUserName => Next::Ask(Query::CurrentUserName),
        Phase::AwaitPlayTime => Next::Ask(Query::IsPlayTime),
        Phase::AwaitTimer => Next::Ask(Query::ReadTimer),
        Phase::AwaitSharedMemory { .. } => Next::Ask(Query::ReadSharedMemory),
        Phase::AwaitBlockerCheck => Next::Ask(Query::IsBlockerRunning),
        Phase::AwaitExecutorCheck => Next::Ask(Query::IsExecutorRunning),
        Phase::AwaitReloadRequest => Next::Ask(Query::TakeReloadRequest),
        Phase::AwaitReload => Next::Ask(Query::ReloadSettings),
    }
}

/// The start of a run.
pub open spec fn begin_result(s: EngineCore) -> (EngineCore, Seq<Effect>, Next) {
    if s.critical_error {
        finish(s, Seq::empty(), Err(EngineError::CriticalError))
    } else {
        ask(s, Phase::AwaitUserName, Seq::empty(), Query::CurrentUserName)
    }
}

/// Counting down the additional time by the time passed since `last_time`.
pub open spec fn remaining_additional_time(requested: u64, last_time: u64, curr_time: u64) -> int {
    (requested as i64) - ((curr_time as i64) - (last_time as i64))
}

/// The arithmetic of a step leaves `i64`, where the service would stop.
pub open spec fn step_overflows(s: EngineCore, c: Config, e: EventView) -> bool {
    match (s.phase, e) {
        (Phase::AwaitTimer, EventView::Timer(t)) => {
            let curr = match t {
                Some(t) => t,
                None => 0u64,
            };
            let elapsed = (curr as i64) - (s.last_time as i64);
            s.requested_additional_playtime != 0 && (elapsed < i64::MIN || elapsed > i64::MAX
                || remaining_additional_time(s.requested_additional_playtime, s.last_time, curr)
                < i64::MIN || remaining_additional_time(
                s.requested_additional_playtime,
                s.last_time,
                curr,
            ) > i64::MAX)
        },
        (Phase::AwaitSharedMemory { curr_time }, EventView::SharedMemory(units)) => {
            let since = (curr_time as i64) - (s.last_lock_workstation_event_sent_time as i64);
            requested_minutes(units) is None && (since < i64::MIN || since > i64::MAX)
        },
        _ => false,
    }
}

/// One step of a run: the event answers the question that the phase waits
/// on. An event that answers another question changes nothing and asks again.
pub open spec fn step_result(s: EngineCore, c: Config, e: EventView) -> (EngineCore, Seq<Effect>, Next) {
    match (s.phase, e) {
        (Phase::AwaitUserName, EventView::UserName(name)) => {
            if name != c.user_name {
                finish(s, Seq::empty(), Ok(()))
            } else if is_disabled(c.disabled) {
                let (s1, eff) = unblock(s);
                finish(s1, eff, Ok(()))
            } else {
                ask(s, Phase::AwaitPlayTime, Seq::empty(), Query::IsPlayTime)
            }
        },
        (Phase::AwaitPlayTime, EventView::PlayTime(allowed)) => {
            if allowed {
                let (s1, eff) = unblock(s);
                to_reload(EngineCore { requested_additional_playtime: 0, ..s1 }, eff)
            } else {
                ask(EngineCore { sent_unblock_event: false, ..s }, Phase::AwaitTimer, Seq::empty(), Query::ReadTimer)
            }
        },
        (Phase::AwaitTimer, EventView::Timer(t)) => {
            let s1 = match t {
                Some(_) => s,
                None => EngineCore { critical_error: true, ..s },
            };
            let curr = match t {
                Some(t) => t,
                None => 0u64,
            };
            if s.requested_additional_playtime == 0 {
                ask(s1, Phase::AwaitSharedMemory { curr_time: curr }, Seq::empty(), Query::ReadSharedMemory)
            } else {
                let left = remaining_additional_time(s.requested_additional_playtime, s.last_time, curr);
                to_reload(
                    EngineCore {
                        requested_additional_playtime: if left < 0 { 0 } else { left as u64 },
                        last_time: curr,
                        ..s1
                    },
                    Seq::empty(),
                )
            }
        },
        (Phase::AwaitSharedMemory { curr_time }, EventView::SharedMemory(units)) => {
            match requested_minutes(units) {
                Some(m) => {
                    let s1 = EngineCore {
                        requested_additional_playtime: (m * 60000) as u64,
                        last_time: curr_time,
                        ..s
                    };
                    let (s2, eff) = unblock(s1);
                    to_reload(s2, seq![Effect::ClearAdditionalTime] + eff)
                },
                None => {
                    if (curr_time as i64) - (s.last_lock_workstation_event_sent_time as i64)
                        < (c.lock_interval as i64) {
                        to_reload(s, Seq::empty())
                    } else {
                        ask(
                            EngineCore { last_lock_workstation_event_sent_time: curr_time, ..s },
                            Phase::AwaitBlockerCheck,
                            Seq::empty(),
                            Query::IsBlockerRunning,
                        )
                    }
                },
            }
        },
        (Phase::AwaitBlockerCheck, EventView::ProcessRunning(running)) => {
            if running {
                to_reload(s, Seq::empty())
            } else {
                ask(s, Phase::AwaitExecutorCheck, Seq::empty(), Query::IsExecutorRunning)
            }
        },
        (Phase::AwaitExecutorCheck, EventView::ProcessRunning(running)) => {
            if running {
                to_reload(s, seq![Effect::SendLockWorkstation])
            } else {
                to_reload(s, seq![Effect::LoadExecutor, Effect::SendLockWorkstation])
            }
        },
        (Phase::AwaitReloadRequest, EventView::ReloadRequested(requested)) => {
            if requested {
                ask(s, Phase::AwaitReload, Seq::empty(), Query::ReloadSettings)
            } else {
                finish(s, seq![Effect::Sleep], Ok(()))
            }
        },
        (Phase::AwaitReload, EventView::SettingsReloaded(ok)) => {
            if ok {
                finish(s, seq![Effect::RearmReloadNotifier, Effect::Sleep], Ok(()))
            } else {
                finish(EngineCore { critical_error: true, ..s }, seq![Effect::Sleep], Ok(()))
            }
        },
        _ => (s, Seq::empty(), pending(s.phase)),
    }
}

/// Where a zero unit stands first.
proof fn lemma_first_zero(units: Seq<u16>, k: int)
    requires
        0 <= k <= units.len(),
        forall|j: int| 0 <= j < k ==> units[j] != 0,
    ensures
        k < units.len() && units[k] == 0 ==> first_zero(units) == Some(k as nat),
        k == units.len() ==> first_zero(units) is None,
    decreases k,
{
    if k > 0 {
        let rest = units.drop_first();
        assert forall|j: int| 0 <= j < k - 1 implies rest[j] != 0 by {
            assert(rest[j] == units[j + 1]);
        }
        lemma_first_zero(rest, k - 1);
    }
}

/// The minutes of additional time that the shared memory asks for.
pub fn requested_additional_minutes(units: &Vec<u16>) -> (r: Option<u32>)
    ensures
        match requested_minutes(units@) {
            Some(m) => r == Some(m as u32),
            None => r is None,
        },
{
    let n: usize = units.len();
    let mut len: usize = 0;
    let mut found = false;
    let mut i: usize = 0;
    while i < n
        invariant
            n == units@.len(),
            i <= n,
            !found ==> forall|j: int| 0 <= j < i ==> units@[j] != 0,
            found ==> len < n && units@[len as int] == 0 && forall|j: int| 0 <= j < len ==> units@[j] != 0,
        decreases n - i,
    {
        if !found && units[i] == 0 {
            len = i;
            found = true;
        }
        i = i + 1;
    }
    proof {
        if found {
            lemma_first_zero(units@, len as int);
        } else {
            lemma_first_zero(units@, n as int);
        }
    }
    if !found || len == 0 || len < 8 {
        return None;
    }
    let prefix: [u16; 8] = [0x61, 0x64, 0x64, 0x74, 0x69, 0x6d, 0x65, 0x3a];
    let mut k: usize = 0;
    while k < 8
        invariant
            k <= 8,
            8 <= len < n,
            n == units@.len(),
            prefix@ == addtime_prefix(),
            forall|j: int| 0 <= j < k ==> units@[j] == addtime_prefix()[j],
        decreases 8 - k,
    {
        if units[k] != prefix[k] {
            proof {
                assert(units@.take(8)[k as int] != addtime_prefix()[k as int]);
            }
            return None;
        }
        k = k + 1;
    }
    proof {
        assert(units@.take(8) =~= addtime_prefix());
    }
    let mut digits: Vec<u32> = Vec::new();
    let mut p: usize = 8;
    while p < len
        invariant
            8 <= p <= len < n,
            n == units@.len(),
            digits@ == units@.subrange(8, p as int).map_values(|u: u16| u as u32),
        decreases len - p,
    {
        digits.push(units[p] as u32);
        proof {
            assert(units@.subrange(8, p as int + 1).map_values(|u: u16| u as u32)
                =~= units@.subrange(8, p as int).map_values(|u: u16| u as u32).push(units@[p as int] as u32));
        }
        p = p + 1;
    }
    parse_unsigned(&digits, u32::MAX)
}

/// The code points of `s`.
fn code_points(s: &String) -> (r: Vec<u32>)
    ensures
        r@ == codes(s@),
{
    let mut r: Vec<u32> = Vec::new();
    let ghost src = s@;
    for c in it: s.as_str().chars()
        invariant
            it.seq() == src,
            r@ == codes(src.take(it.index() as int)),
    {
        proof {
            assert(codes(src.take(it.index() as int + 1)) =~= codes(src.take(it.index() as int)).push(c as u32));
        }
        r.push(c as u32);
    }
    proof {
        assert(src.take(src.len() as int) == src);
    }
    r
}

/// Whether the switch in the settings turns the supervision off.
pub fn supervision_disabled(settings: &Settings) -> (r: bool)
    ensures
        r == is_disabled(settings.disabled@),
{
    match parse_unsigned(&code_points(&settings.disabled), 255) {
        Some(v) => v == 1,
        None => false,
    }
}

fn sleep_only() -> (r: Vec<Effect>)
    ensures
        r@ == seq![Effect::Sleep],
{
    let mut r = Vec::new();
    r.push(Effect::Sleep);
    assert(r@ =~= seq![Effect::Sleep]);
    r
}

/// `step` is the outcome `o` for the state `after`.
pub open spec fn outcome_is(after: EngineCore, step: EngineStep, o: (EngineCore, Seq<Effect>, Next)) -> bool {
    after == o.0 && step.effects@ == o.1 && step.next == o.2
}

impl EngineCore {
    /// The state before the first run.
    pub fn new(critical_error: bool) -> (r: Self)
        ensures
            r == (EngineCore {
                critical_error,
                sent_unblock_event: false,
                requested_additional_playtime: 0,
                last_time: 0,
                last_lock_workstation_event_sent_time: 0,
                phase: Phase::Idle,
            }),
    {
        EngineCore {
            critical_error,
            sent_unblock_event: false,
            requested_additional_playtime: 0,
            last_time: 0,
            last_lock_workstation_event_sent_time: 0,
            phase: Phase::Idle,
        }
    }

    fn ask_next(&mut self, phase: Phase, effects: Vec<Effect>, q: Query) -> (r: EngineStep)
        ensures
            outcome_is(*final(self), r, ask(*old(self), phase, effects@, q)),
    {
        self.phase = phase;
        EngineStep { effects, next: Next::Ask(q) }
    }

    fn finish_run(&mut self, effects: Vec<Effect>, result: Result<(), EngineError>) -> (r: EngineStep)
        ensures
            outcome_is(*final(self), r, finish(*old(self), effects@, result)),
    {
        self.phase = Phase::Idle;
        EngineStep { effects, next: Next::Finish(result) }
    }

    /// Orders the unblock message, unless it was ordered since the last reset.
    pub fn send_unblock_event(&mut self, effects: &mut Vec<Effect>)
        ensures
            *final(self) == unblock(*old(self)).0,
            final(effects)@ == old(effects)@ + unblock(*old(self)).1,
    {
        if !self.sent_unblock_event {
            effects.push(Effect::WriteUnblock);
            self.sent_unblock_event = true;
        } else {
            assert(effects@ == effects@ + Seq::<Effect>::empty());
        }
    }

    /// Starts a run.
    pub fn begin(&mut self) -> (r: EngineStep)
        ensures
            outcome_is(*final(self), r, begin_result(*old(self))),
    {
        if self.critical_error {
            self.finish_run(Vec::new(), Err(EngineError::CriticalError))
        } else {
            self.ask_next(Phase::AwaitUserName, Vec::new(), Query::CurrentUserName)
        }
    }

    /// Whether `step` would leave `i64` on this event; the service stops there.
    pub fn step_overflows(&self, settings: &Settings, event: &EngineEvent) -> (r: bool)
        ensures
            r == step_overflows(*self, config_of(settings), event@),
    {
        match (self.phase, event) {
            (Phase::AwaitTimer, EngineEvent::Timer(t)) => {
                if self.requested_additional_playtime == 0 {
                    return false;
                }
                let curr: u64 = match t {
                    Some(t) => *t,
                    None => 0,
                };
                let a: i128 = curr as i64 as i128;
                let b: i128 = self.last_time as i64 as i128;
                let elapsed: i128 = a - b;
                if elapsed < i64::MIN as i128 || elapsed > i64::MAX as i128 {
                    return true;
                }
                let left: i128 = self.requested_additional_playtime as i64 as i128 - elapsed;
                left < i64::MIN as i128 || left > i64::MAX as i128
            },
            (Phase::AwaitSharedMemory { curr_time }, EngineEvent::SharedMemory(units)) => {
                let since: i128 = curr_time as i64 as i128 - self.last_lock_workstation_event_sent_time as i64 as i128;
                requested_additional_minutes(units).is_none() && (since < i64::MIN as i128 || since > i64::MAX as i128)
            },
            _ => false,
        }
    }

    /// One step of a run: takes the answer to the question asked last.
    pub fn step(&mut self, settings: &Settings, event: EngineEvent) -> (r: EngineStep)
        requires
            !step_overflows(*old(self), config_of(settings), event@),
        ensures
            outcome_is(*final(self), r, step_result(*old(self), config_of(settings), event@)),
    {
        match (self.phase, event) {
            (Phase::AwaitUserName, EngineEvent::UserName(name)) => {
                if name != settings.user_name {
                    self.finish_run(Vec::new(), Ok(()))
                } else if supervision_disabled(settings) {
                    let mut effects = Vec::new();
                    self.send_unblock_event(&mut effects);
                    self.finish_run(effects, Ok(()))
                } else {
                    self.ask_next(Phase::AwaitPlayTime, Vec::new(), Query::IsPlayTime)
                }
            },
            (Phase::AwaitPlayTime, EngineEvent::PlayTime(allowed)) => {
                if allowed {
                    let mut effects = Vec::new();
                    self.send_unblock_event(&mut effects);
                    self.requested_additional_playtime = 0;
                    self.ask_next(Phase::AwaitReloadRequest, effects, Query::TakeReloadRequest)
                } else {
                    self.sent_unblock_event = false;
                    self.ask_next(Phase::AwaitTimer, Vec::new(), Query::ReadTimer)
                }
            },
            (Phase::AwaitTimer, EngineEvent::Timer(t)) => {
                let curr_time: u64 = match t {
                    Some(t) => t,
                    None => {
                        self.critical_error = true;
                        0
                    },
                };
                if self.requested_additional_playtime == 0 {
                    self.ask_next(Phase::AwaitSharedMemory { curr_time }, Vec::new(), Query::ReadSharedMemory)
                } else {
                    let i_curr_time: i64 = curr_time as i64;
                    let mut i_requested: i64 = self.requested_additional_playtime as i64;
                    i_requested -= i_curr_time - self.last_time as i64;
                    self.last_time = curr_time;
                    if i_requested < 0 {
                        self.requested_additional_playtime = 0;
                    } else {
                        self.requested_additional_playtime = i_requested as u64;
                    }
                    self.ask_next(Phase::AwaitReloadRequest, Vec::new(), Query::TakeReloadRequest)
                }
            },
            (Phase::AwaitSharedMemory { curr_time }, EngineEvent::SharedMemory(units)) => {
                match requested_additional_minutes(&units) {
                    Some(minutes) => {
                        let requested: u64 = minutes as u64;
                        self.requested_additional_playtime = requested * 60000;
                        let mut effects = Vec::new();
                        effects.push(Effect::ClearAdditionalTime);
                        self.last_time = curr_time;
                        self.send_unblock_event(&mut effects);
                        self.ask_next(Phase::AwaitReloadRequest, effects, Query::TakeReloadRequest)
                    },
                    None => {
                        let i_curr_time: i64 = curr_time as i64;
                        let i_last_time: i64 = self.last_lock_workstation_event_sent_time as i64;
                        if i_curr_time - i_last_time < settings.check_is_worstation_locked_interval as i64 {
                            self.ask_next(Phase::AwaitReloadRequest, Vec::new(), Query::TakeReloadRequest)
                        } else {
                            self.last_lock_workstation_event_sent_time = curr_time;
                            self.ask_next(Phase::AwaitBlockerCheck, Vec::new(), Query::IsBlockerRunning)
                        }
                    },
                }
            },
            (Phase::AwaitBlockerCheck, EngineEvent::ProcessRunning(running)) => {
                if running {
                    self.ask_next(Phase::AwaitReloadRequest, Vec::new(), Query::TakeReloadRequest)
                } else {
                    self.ask_next(Phase::AwaitExecutorCheck, Vec::new(), Query::IsExecutorRunning)
                }
            },
            (Phase::AwaitExecutorCheck, EngineEvent::ProcessRunning(running)) => {
                let mut effects = Vec::new();
                if !running {
                    effects.push(Effect::LoadExecutor);
                }
                effects.push(Effect::SendLockWorkstation);
                proof {
                    if running {
                        assert(effects@ =~= seq![Effect::SendLockWorkstation]);
                    } else {
                        assert(effects@ =~= seq![Effect::LoadExecutor, Effect::SendLockWorkstation]);
                    }
                }
                self.ask_next(Phase::AwaitReloadRequest, effects, Query::TakeReloadRequest)
            },
            (Phase::AwaitReloadRequest, EngineEvent::ReloadRequested(requested)) => {
                if requested {
                    self.ask_next(Phase::AwaitReload, Vec::new(), Query::ReloadSettings)
                } else {
                    self.finish_run(sleep_only(), Ok(()))
                }
            },
            (Phase::AwaitReload, EngineEvent::SettingsReloaded(ok)) => {
                if ok {
                    let mut effects = Vec::new();
                    effects.push(Effect::RearmReloadNotifier);
                    effects.push(Effect::Sleep);
                    assert(effects@ =~= seq![Effect::RearmReloadNotifier, Effect::Sleep]);
                    self.finish_run(effects, Ok(()))
                } else {
                    self.critical_error = true;
                    self.finish_run(sleep_only(), Ok(()))
                }
            },
            _ => {
                let next = match self.phase {
                    Phase::Idle => Next::Finish(Ok(())),
                    Phase::AwaitUserName => Next::Ask(Query::CurrentUserName),
                    Phase::AwaitPlayTime => Next::Ask(Query::IsPlayTime),
                    Phase::AwaitTimer => Next::Ask(Query::ReadTimer),
                    Phase::AwaitSharedMemory { .. } => Next::Ask(Query::ReadSharedMemory),
                    Phase::AwaitBlockerCheck => Next::Ask(Query::IsBlockerRunning),
                    Phase::AwaitExecutorCheck => Next::Ask(Query::IsExecutorRunning),
                    Phase::AwaitReloadRequest => Next::Ask(Query::TakeReloadRequest),
                    Phase::AwaitReload => Next::Ask(Query::ReloadSettings),
                };
                EngineStep { effects: Vec::new(), next }
            },
        }
    }
}

/// The invariant of the engine: on the lock path of a run the unblock
/// message is not marked sent, and once the timer was read there, no
/// additional time is granted.
pub open spec fn engine_inv(s: EngineCore) -> bool {
    &&& (s.phase is AwaitTimer || s.phase is AwaitSharedMemory || s.phase is AwaitBlockerCheck
        || s.phase is AwaitExecutorCheck) ==> !s.sent_unblock_event
    &&& (s.phase is AwaitSharedMemory || s.phase is AwaitBlockerCheck || s.phase is AwaitExecutorCheck)
        ==> s.requested_additional_playtime == 0
}

/// The engine's invariant holds from the start and is kept by every step.
pub proof fn law_invariant_kept(s: EngineCore, c: Config, e: EventView)
    ensures
        engine_inv(EngineCore {
            critical_error: s.critical_error,
            sent_unblock_event: false,
            requested_additional_playtime: 0,
            last_time: 0,
            last_lock_workstation_event_sent_time: 0,
            phase: Phase::Idle,
        }),
        engine_inv(s) ==> engine_inv(begin_result(s).0),
        engine_inv(s) ==> engine_inv(step_result(s, c, e).0),
{
}

/// A critical error is never cleared, and every later run ends at once with
/// it, with no effect.
pub proof fn law_critical_error_is_permanent(s: EngineCore, c: Config, e: EventView)
    requires
        s.critical_error,
    ensures
        step_result(s, c, e).0.critical_error,
        begin_result(s).0.critical_error,
        begin_result(s).1 == Seq::<Effect>::empty(),
        begin_result(s).2 == Next::Finish(Err(EngineError::CriticalError)),
{
}

/// A lock request is sent only from the last check of the lock path, and
/// never while additional time is granted.
pub proof fn law_no_lock_during_additional_time(s: EngineCore, c: Config, e: EventView)
    requires
        engine_inv(s),
        step_result(s, c, e).1.contains(Effect::SendLockWorkstation),
    ensures
        s.phase is AwaitExecutorCheck,
        s.requested_additional_playtime == 0,
        step_result(s, c, e).0.requested_additional_playtime == 0,
{
    if !(s.phase is AwaitExecutorCheck) {
        let r = step_result(s, c, e);
        assert(!r.1.contains(Effect::SendLockWorkstation)) by {
            assert forall|i: int| 0 <= i < r.1.len() implies r.1[i] != Effect::SendLockWorkstation by {}
        }
    }
}

/// Each effect is ordered only by the decision that calls for it:
/// - the shared memory is cleared only right after a valid request for
///   additional time was read from it;
/// - the executor is started only when the check found it not running;
/// - the lock request is sent only from the executor check;
/// - answering the user name (with supervision on), the calendar's "no", the
///   timer, the locker check and the reload request (when a reload is asked
///   for) orders nothing;
/// - starting a run orders nothing.
pub proof fn law_effects_come_from_their_decisions(s: EngineCore, c: Config, e: EventView)
    ensures
        step_result(s, c, e).1.contains(Effect::ClearAdditionalTime) ==> (s.phase is AwaitSharedMemory
            && (e matches EventView::SharedMemory(units) && requested_minutes(units) is Some)),
        step_result(s, c, e).1.contains(Effect::LoadExecutor) ==> (s.phase is AwaitExecutorCheck && e
            == EventView::ProcessRunning(false)),
        step_result(s, c, e).1.contains(Effect::SendLockWorkstation) ==> s.phase is AwaitExecutorCheck,
        (s.phase is AwaitUserName && (e matches EventView::UserName(name) && name == c.user_name
            && !is_disabled(c.disabled))) ==> step_result(s, c, e).1 == Seq::<Effect>::empty(),
        (s.phase is AwaitPlayTime && e == EventView::PlayTime(false)) ==> step_result(s, c, e).1 == Seq::<
            Effect,
        >::empty(),
        (s.phase is AwaitTimer && e is Timer) ==> step_result(s, c, e).1 == Seq::<Effect>::empty(),
        (s.phase is AwaitBlockerCheck && e is ProcessRunning) ==> step_result(s, c, e).1 == Seq::<
            Effect,
        >::empty(),
        (s.phase is AwaitReloadRequest && e == EventView::ReloadRequested(true)) ==> step_result(s, c, e).1
            == Seq::<Effect>::empty(),
        begin_result(s).1 == Seq::<Effect>::empty(),
{
    let r = step_result(s, c, e);
    if !(s.phase is AwaitSharedMemory && (e matches EventView::SharedMemory(units) && requested_minutes(
        units,
    ) is Some)) {
        assert(!r.1.contains(Effect::ClearAdditionalTime)) by {
            assert forall|i: int| 0 <= i < r.1.len() implies r.1[i] != Effect::ClearAdditionalTime by {}
        }
    }
    if !(s.phase is AwaitExecutorCheck && e == EventView::ProcessRunning(false)) {
        assert(!r.1.contains(Effect::LoadExecutor)) by {
            assert forall|i: int| 0 <= i < r.1.len() implies r.1[i] != Effect::LoadExecutor by {}
        }
    }
    if !(s.phase is AwaitExecutorCheck) {
        assert(!r.1.contains(Effect::SendLockWorkstation)) by {
            assert forall|i: int| 0 <= i < r.1.len() implies r.1[i] != Effect::SendLockWorkstation by {}
        }
    }
}

/// The lock path of a run is entered only when the calendar denied the
/// computer in that run: the only way into waiting for the timer is the
/// answer that it is not play time.
pub proof fn law_lock_path_needs_denied_play_time(s: EngineCore, c: Config, e: EventView)
    requires
        !(s.phase is AwaitTimer),
        step_result(s, c, e).0.phase is AwaitTimer,
    ensures
        s.phase is AwaitPlayTime,
        e == EventView::PlayTime(false),
{
}

/// During play time the unblock message is ordered (once), granted time is
/// dropped, and the run goes on to the reload request with no lock request.
pub proof fn law_play_time_unblocks(s: EngineCore, c: Config)
    requires
        s.phase is AwaitPlayTime,
    ensures
        ({
            let (t, effects, next) = step_result(s, c, EventView::PlayTime(true));
            &&& t.requested_additional_playtime == 0
            &&& t.sent_unblock_event
            &&& effects == (if s.sent_unblock_event { Seq::<Effect>::empty() } else { seq![Effect::WriteUnblock] })
            &&& next == Next::Ask(Query::TakeReloadRequest)
        }),
{
}

/// Granted time is counted down by the time that passed since it was last
/// counted, and runs out at zero; meanwhile no lock check is made.
pub proof fn law_additional_time_counts_down(s: EngineCore, c: Config, now: u64)
    requires
        s.phase is AwaitTimer,
        s.requested_additional_playtime > 0,
        s.requested_additional_playtime <= i64::MAX,
        now <= i64::MAX,
        s.last_time <= i64::MAX,
    ensures
        ({
            let (t, effects, next) = step_result(s, c, EventView::Timer(Some(now)));
            let left = s.requested_additional_playtime - (now - s.last_time);
            &&& t.requested_additional_playtime == (if left < 0 { 0 } else { left })
            &&& t.last_time == now
            &&& effects == Seq::<Effect>::empty()
            &&& next == Next::Ask(Query::TakeReloadRequest)
        }),
{
}

/// A request for additional time in the shared memory grants that many
/// minutes, clears the request and orders the unblock message.
pub proof fn law_request_grants_minutes(s: EngineCore, c: Config, units: Seq<u16>, minutes: nat)
    requires
        s.phase matches Phase::AwaitSharedMemory { .. },
        !s.sent_unblock_event,
        requested_minutes(units) == Some(minutes),
    ensures
        ({
            let (t, effects, next) = step_result(s, c, EventView::SharedMemory(units));
            &&& t.requested_additional_playtime == minutes * 60000
            &&& t.sent_unblock_event
            &&& effects == seq![Effect::ClearAdditionalTime, Effect::WriteUnblock]
            &&& next == Next::Ask(Query::TakeReloadRequest)
        }),
{
    assert(minutes <= u32::MAX);
    assert(minutes * 60000 <= u64::MAX) by (nonlinear_arith)
        requires
            minutes <= u32::MAX,
    ;
    assert(seq![Effect::ClearAdditionalTime] + seq![Effect::WriteUnblock] =~= seq![Effect::ClearAdditionalTime, Effect::WriteUnblock]);
}

/// The lock request is sent when it is due: outside play time, with no
/// granted or requested additional time, once the lock interval has passed
/// since the last lock check and while the lock screen does not run.
pub proof fn law_lock_when_due(s: EngineCore, c: Config, units: Seq<u16>, executor_running: bool)
    requires
        s.phase matches Phase::AwaitSharedMemory { .. },
        requested_minutes(units) is None,
        ({
            let curr = s.phase->curr_time;
            let since = (curr as i64) - (s.last_lock_workstation_event_sent_time as i64);
            i64::MIN <= since <= i64::MAX && since >= (c.lock_interval as i64)
        }),
    ensures
        ({
            let (s1, e1, n1) = step_result(s, c, EventView::SharedMemory(units));
            let (s2, e2, n2) = step_result(s1, c, EventView::ProcessRunning(false));
            let (s3, e3, n3) = step_result(s2, c, EventView::ProcessRunning(executor_running));
            &&& e1 == Seq::<Effect>::empty() && n1 == Next::Ask(Query::IsBlockerRunning)
            &&& s1.last_lock_workstation_event_sent_time == s.phase->curr_time
            &&& e2 == Seq::<Effect>::empty() && n2 == Next::Ask(Query::IsExecutorRunning)
            &&& e3.last() == Effect::SendLockWorkstation
            &&& e3.contains(Effect::LoadExecutor) == !executor_running
        }),
{
    let (s1, e1, n1) = step_result(s, c, EventView::SharedMemory(units));
    let (s2, e2, n2) = step_result(s1, c, EventView::ProcessRunning(false));
    let e3 = step_result(s2, c, EventView::ProcessRunning(executor_running)).1;
    if executor_running {
        assert(e3 == seq![Effect::SendLockWorkstation]);
        assert forall|i: int| 0 <= i < e3.len() implies e3[i] != Effect::LoadExecutor by {}
    } else {
        assert(e3[0] == Effect::LoadExecutor);
    }
}

/// While the supervision is switched off, a run of the logged-in user orders
/// at most the unblock message and ends; no lock is ever requested.
pub proof fn law_disabled_never_locks(s: EngineCore, c: Config, name: Seq<char>)
    requires
        s.phase is AwaitUserName,
        name == c.user_name,
        is_disabled(c.disabled),
    ensures
        ({
            let (t, effects, next) = step_result(s, c, EventView::UserName(name));
            &&& t.phase is Idle
            &&& next == Next::Finish(Ok(()))
            &&& effects == (if s.sent_unblock_event { Seq::<Effect>::empty() } else { seq![Effect::WriteUnblock] })
        }),
{
}

/// How many questions at most are left in a run from a phase.
pub open spec fn phase_rank(phase: Phase) -> nat {
    match phase {
        Phase::Idle => 0,
        Phase::AwaitReload => 1,
        Phase::AwaitReloadRequest => 2,
        Phase::AwaitExecutorCheck => 3,
        Phase::AwaitBlockerCheck => 4,
        Phase::AwaitSharedMemory { .. } => 5,
        Phase::AwaitTimer => 6,
        Phase::AwaitPlayTime => 7,
        Phase::AwaitUserName => 8,
    }
}

/// `e` answers the question that `phase` waits on.
pub open spec fn answers(phase: Phase, e: EventView) -> bool {
    match (phase, e) {
        (Phase::AwaitUserName, EventView::UserName(_)) => true,
        (Phase::AwaitPlayTime, EventView::PlayTime(_)) => true,
        (Phase::AwaitTimer, EventView::Timer(_)) => true,
        (Phase::AwaitSharedMemory { .. }, EventView::SharedMemory(_)) => true,
        (Phase::AwaitBlockerCheck, EventView::ProcessRunning(_)) => true,
        (Phase::AwaitExecutorCheck, EventView::ProcessRunning(_)) => true,
        (Phase::AwaitReloadRequest, EventView::ReloadRequested(_)) => true,
        (Phase::AwaitReload, EventView::SettingsReloaded(_)) => true,
        _ => false,
    }
}

/// A run ends: every answered question moves it closer to its end, it ends
/// exactly when it returns to idle, and a question that is not answered is
/// asked again with nothing changed.
pub proof fn law_runs_end(s: EngineCore, c: Config, e: EventView)
    ensures
        answers(s.phase, e) ==> phase_rank(step_result(s, c, e).0.phase) < phase_rank(s.phase),
        !answers(s.phase, e) ==> step_result(s, c, e) == (s, Seq::<Effect>::empty(), pending(s.phase)),
        (step_result(s, c, e).2 is Finish) == (step_result(s, c, e).0.phase is Idle),
        (begin_result(s).2 is Finish) == (begin_result(s).0.phase is Idle),
{
}

/// Ordering the unblock message twice with nothing in between writes it at
/// most once: exactly once where it was not marked sent, and then it is
/// marked sent; where it was marked, nothing changes.
pub proof fn law_unblock_twice(s: EngineCore)
    ensures
        unblock(s).0.sent_unblock_event,
        unblock(s).1 == (if s.sent_unblock_event { Seq::<Effect>::empty() } else { seq![Effect::WriteUnblock] }),
        unblock(unblock(s).0).1 == Seq::<Effect>::empty(),
        unblock(unblock(s).0).0 == unblock(s).0,
        s.sent_unblock_event ==> unblock(s).0 == s,
{
}

/// An input to the engine: the start of a run, or the answer to a question.
pub enum Input {
    Begin,
    Answer(EventView),
}

pub open spec fn apply_input(s: EngineCore, c: Config, i: Input) -> (EngineCore, Seq<Effect>, Next) {
    match i {
        Input::Begin => begin_result(s),
        Input::Answer(e) => step_result(s, c, e),
    }
}

/// The state after a sequence of inputs.
pub open spec fn state_after(s0: EngineCore, c: Config, inputs: Seq<Input>) -> EngineCore
    decreases inputs.len(),
{
    if inputs.len() == 0 {
        s0
    } else {
        apply_input(state_after(s0, c, inputs.drop_last()), c, inputs.last()).0
    }
}

/// The input at position `k` orders a lock request.
pub open spec fn lock_sent_at(s0: EngineCore, c: Config, inputs: Seq<Input>, k: int) -> bool {
    0 <= k < inputs.len() && apply_input(state_after(s0, c, inputs.take(k)), c, inputs[k]).1.contains(
        Effect::SendLockWorkstation,
    )
}

/// A time as the engine compares times: as an `i64`.
pub open spec fn signed_time(t: u64) -> int {
    (t as i64) as int
}

proof fn lemma_state_after_step(s0: EngineCore, c: Config, inputs: Seq<Input>, j: int)
    requires
        0 <= j < inputs.len(),
    ensures
        state_after(s0, c, inputs.take(j + 1)) == apply_input(state_after(s0, c, inputs.take(j)), c, inputs[j]).0,
{
    assert(inputs.take(j + 1).drop_last() == inputs.take(j));
    assert(inputs.take(j + 1).last() == inputs[j]);
}

proof fn lemma_lock_only_from_executor_check(s: EngineCore, c: Config, i: Input)
    requires
        apply_input(s, c, i).1.contains(Effect::SendLockWorkstation),
    ensures
        s.phase is AwaitExecutorCheck,
        i matches Input::Answer(EventView::ProcessRunning(_)),
        apply_input(s, c, i).0.phase is AwaitReloadRequest,
        apply_input(s, c, i).0.last_lock_workstation_event_sent_time == s.last_lock_workstation_event_sent_time,
{
    let r = apply_input(s, c, i);
    if !(s.phase is AwaitExecutorCheck && i matches Input::Answer(EventView::ProcessRunning(_))) {
        assert forall|k: int| 0 <= k < r.1.len() implies r.1[k] != Effect::SendLockWorkstation by {}
    }
}

/// After a lock request at `k1`, the time of the last lock check never goes
/// back, and on the lock path it is at least one interval later.
proof fn lemma_after_lock(s0: EngineCore, c: Config, inputs: Seq<Input>, k1: int, j: int)
    requires
        lock_sent_at(s0, c, inputs, k1),
        k1 < j <= inputs.len(),
        c.lock_interval <= i64::MAX,
    ensures
        ({
            let t1 = signed_time(state_after(s0, c, inputs.take(k1)).last_lock_workstation_event_sent_time);
            let sj = state_after(s0, c, inputs.take(j));
            &&& signed_time(sj.last_lock_workstation_event_sent_time) >= t1
            &&& (sj.phase is AwaitBlockerCheck || sj.phase is AwaitExecutorCheck)
                ==> signed_time(sj.last_lock_workstation_event_sent_time) >= t1 + c.lock_interval
        }),
    decreases j,
{
    let s1 = state_after(s0, c, inputs.take(k1));
    if j == k1 + 1 {
        lemma_state_after_step(s0, c, inputs, k1);
        lemma_lock_only_from_executor_check(s1, c, inputs[k1]);
    } else {
        lemma_after_lock(s0, c, inputs, k1, j - 1);
        lemma_state_after_step(s0, c, inputs, j - 1);
    }
}

/// Lock requests are spaced: a later one comes at least one lock interval,
/// by the engine's clock, after an earlier one.
pub proof fn law_locks_are_spaced(s0: EngineCore, c: Config, inputs: Seq<Input>, k1: int, k2: int)
    requires
        k1 < k2,
        lock_sent_at(s0, c, inputs, k1),
        lock_sent_at(s0, c, inputs, k2),
        c.lock_interval <= i64::MAX,
    ensures
        signed_time(state_after(s0, c, inputs.take(k2)).last_lock_workstation_event_sent_time)
            >= signed_time(state_after(s0, c, inputs.take(k1)).last_lock_workstation_event_sent_time)
            + c.lock_interval,
{
    lemma_after_lock(s0, c, inputs, k1, k2);
    lemma_lock_only_from_executor_check(state_after(s0, c, inputs.take(k2)), c, inputs[k2]);
}

/// The unblock message is ordered at most once until the calendar denies the
/// computer again: a step that orders it starts from a state where it was
/// not yet ordered, and marks it ordered.
pub proof fn law_unblock_sent_once(s: EngineCore, c: Config, e: EventView)
    requires
        step_result(s, c, e).1.contains(Effect::WriteUnblock),
    ensures
        !s.sent_unblock_event,
        step_result(s, c, e).0.sent_unblock_event,
{
    let r = step_result(s, c, e);
    if s.sent_unblock_event || !r.0.sent_unblock_event {
        assert(!r.1.contains(Effect::WriteUnblock)) by {
            assert forall|i: int| 0 <= i < r.1.len() implies r.1[i] != Effect::WriteUnblock by {}
        }
    }
}

} // verus!
