//! The executor's request handling: what a request on the wire asks for, what
//! is replied, and where the password file is looked for.

use crate::action;
use crate::actionprocessor::{counterpart, law_service_names_are_understood, parsed_action, ActionProcessor, ActionType, Processor};
use crate::extensions::{before_nul, law_clean_text_is_kept, without_bom, without_newlines, MyStringExtensions};
use vstd::prelude::*;
use vstd::utf8::{decode_utf8, valid_utf8};

verus! {

/// The size of the buffer that a request is read into.
pub const MAX_READ_BUFFER_SIZE: usize = 1024;

/// The name of the file, in the program's directory, that holds the
/// parental-control password.
pub const PARENT_PASSWORD_FILE_NAME: &'static str = "pp.txt";

pub struct ServerParams {
    parent_pass: String,
}

impl ServerParams {
    pub closed spec fn password(&self) -> Seq<char> {
        self.parent_pass@
    }

    pub fn new(parent_pass: String) -> (r: Self)
        ensures
            r.password() == parent_pass@,
    {
        ServerParams { parent_pass }
    }

    pub fn get_parental_control_password(&self) -> (r: &str)
        ensures
            r@ == self.password(),
    {
        self.parent_pass.as_str()
    }
}

/// The action name that a request carries: the text before its first NUL,
/// without byte-order marks and line breaks.
pub open spec fn normalized_name(text: Seq<char>) -> Seq<char> {
    without_newlines(without_bom(before_nul(text)))
}

/// Reads the action that a request asks for; where there is none, the reply
/// that says so.
pub fn execute_action(action_name: &str) -> (r: Result<ActionType, String>)
    ensures
        match parsed_action(normalized_name(action_name@)) {
            Some(a) => r == Ok::<ActionType, String>(a),
            None => r matches Err(reply) && reply@ == "Error translating action: "@
                + "Unknown action: "@ + normalized_name(action_name@),
        },
{
    let processor: Processor = ActionProcessor::new();
    let s = String::create_string_from_str(action_name);
    let s = s.check_utf16();
    let s = s.remove_newline();
    match processor.translate(s.as_str()) {
        Ok(action) => Ok(action),
        Err(e) => {
            let reply = String::from_str("Error translating action: ").concat(e.as_str());
            proof {
                assert(reply@ =~= "Error translating action: "@ + "Unknown action: "@ + normalized_name(action_name@));
            }
            Err(reply)
        },
    }
}

/// A name made of lower-case ASCII letters and underscores.
pub open spec fn plain_name(s: Seq<char>) -> bool {
    forall|i: int| 0 <= i < s.len() ==> ('a' <= #[trigger] s[i] <= 'z' || s[i] == '_')
}

#[verifier::spinoff_prover]
#[verifier::rlimit(5)]
proof fn lemma_quit_is_plain()
    ensures
        plain_name("quit"@),
{
    reveal_strlit("quit");
    let s = "quit"@;
    assert(s =~= seq!['q', 'u', 'i', 't']);
}

#[verifier::spinoff_prover]
#[verifier::rlimit(5)]
proof fn lemma_lock_workstation_is_plain()
    ensures
        plain_name("lock_workstation"@),
{
    reveal_strlit("lock_workstation");
    let s = "lock_workstation"@;
    assert(s =~= seq!['l', 'o', 'c', 'k', '_', 'w', 'o', 'r', 'k', 's', 't', 'a', 't', 'i', 'o', 'n']);
}

#[verifier::spinoff_prover]
#[verifier::rlimit(5)]
proof fn lemma_is_user_working_is_plain()
    ensures
        plain_name("is_user_working"@),
{
    reveal_strlit("is_user_working");
    let s = "is_user_working"@;
    assert(s =~= seq!['i', 's', '_', 'u', 's', 'e', 'r', '_', 'w', 'o', 'r', 'k', 'i', 'n', 'g']);
}

/// Every action that the service names reaches the executor as the same
/// action: its name passes the clean-up unchanged and is understood.
pub proof fn law_requests_reach_the_executor(a: action::ActionType)
    ensures
        parsed_action(normalized_name(action::action_name(a))) == Some(counterpart(a)),
{
    let name = action::action_name(a);
    match a {
        action::ActionType::LockWorkstation => lemma_lock_workstation_is_plain(),
        action::ActionType::IsUserWorking => lemma_is_user_working_is_plain(),
        action::ActionType::Quit => lemma_quit_is_plain(),
    }
    assert forall|i: int| 0 <= i < name.len() implies name[i] != '\0' && name[i] != '\u{feff}' && name[i]
        != '\n' && name[i] != '\r' by {
        assert('a' <= name[i] <= 'z' || name[i] == '_');
    }
    law_clean_text_is_kept(name);
    law_service_names_are_understood(a);
}

/// The reply for what processing an action gave.
pub fn action_reply(processed: Result<String, String>) -> (r: String)
    ensures
        match processed {
            Ok(s) => r@ == s@,
            Err(e) => r@ == "Error processing action: "@ + e@,
        },
{
    match processed {
        Ok(s) => s,
        Err(e) => String::from_str("Error processing action: ").concat(e.as_str()),
    }
}

/// What a read from the client comes to.
pub enum ReadDecision {
    /// Nothing was read, or too much: the connection is shut down.
    Close,
    /// The buffer holds this text.
    Request(String),
    /// The buffer is not UTF-8: `"not utf8 string"` is replied.
    NotUtf8,
}

/// Decides on a read of `size` bytes into the buffer `data`: the byte after
/// them is zeroed, and the whole buffer is taken as the request's text.
pub fn on_read(data: &mut Vec<u8>, size: usize) -> (r: ReadDecision)
    requires
        old(data)@.len() == MAX_READ_BUFFER_SIZE,
    ensures
        if size == 0 || size >= MAX_READ_BUFFER_SIZE - 1 {
            r is Close && final(data)@ == old(data)@
        } else {
            &&& final(data)@ == old(data)@.update(size as int, 0u8)
            &&& valid_utf8(final(data)@) ==> (r matches ReadDecision::Request(t) && t@ == decode_utf8(final(data)@))
            &&& !valid_utf8(final(data)@) ==> r is NotUtf8
        },
{
    if size == 0 || size >= MAX_READ_BUFFER_SIZE - 1 {
        return ReadDecision::Close;
    }
    data.set(size, 0);
    let copy = data.clone();
    proof {
        assert(copy@ =~= data@);
    }
    match String::from_utf8(copy) {
        Ok(text) => ReadDecision::Request(text),
        Err(_) => ReadDecision::NotUtf8,
    }
}

/// Where a client's session is.
#[derive(Clone, Copy, Debug, PartialEq, Eq, Structural)]
pub enum SessionPhase {
    /// Waiting for the next read.
    Reading,
    /// Waiting for the result of the action that a request asked for.
    Executing,
    /// Waiting for a reply to be written.
    Writing,
    /// The connection is shut down; the session is over.
    Ended,
}

/// What happened outside, in answer to the last order.
pub enum SessionEvent {
    /// A read put this many bytes into the buffer.
    Received(usize),
    /// A read found nothing yet.
    WouldBlock,
    /// A read failed otherwise.
    ReadFailed,
    /// The action that was ordered gave this result.
    Processed(String),
    /// Whether writing the reply succeeded.
    Written(bool),
}

/// What the session orders next.
pub enum SessionOrder {
    /// Read from the client into the buffer.
    Read,
    /// Sleep a while, then read again.
    SleepThenRead,
    /// Perform the action that this request text names; answer `Processed`.
    Execute(String),
    /// Write this reply; answer `Written`.
    Write(String),
    /// The executor is asked to quit: stop the server, write `"Ok"`, shut
    /// the connection down and end the session.
    StopRunning,
    /// Shut the connection down and end the session.
    Shutdown,
}

pub enum SessionEventView {
    Received(usize),
    WouldBlock,
    ReadFailed,
    Processed(Seq<char>),
    Written(bool),
}

impl View for SessionEvent {
    type V = SessionEventView;

    open spec fn view(&self) -> SessionEventView {
        match self {
            SessionEvent::Received(n) => SessionEventView::Received(*n),
            SessionEvent::WouldBlock => SessionEventView::WouldBlock,
            SessionEvent::ReadFailed => SessionEventView::ReadFailed,
            SessionEvent::Processed(r) => SessionEventView::Processed(r@),
            SessionEvent::Written(ok) => SessionEventView::Written(*ok),
        }
    }
}

pub enum SessionOrderView {
    Read,
    SleepThenRead,
    Execute(Seq<char>),
    Write(Seq<char>),
    StopRunning,
    Shutdown,
}

impl View for SessionOrder {
    type V = SessionOrderView;

    open spec fn view(&self) -> SessionOrderView {
        match self {
            SessionOrder::Read => SessionOrderView::Read,
            SessionOrder::SleepThenRead => SessionOrderView::SleepThenRead,
            SessionOrder::Execute(t) => SessionOrderView::Execute(t@),
            SessionOrder::Write(t) => SessionOrderView::Write(t@),
            SessionOrder::StopRunning => SessionOrderView::StopRunning,
            SessionOrder::Shutdown => SessionOrderView::Shutdown,
        }
    }
}

/// One step of a session: the phase after `event` and the order it gives,
/// for the buffer `data` after the event (a read zeroes the byte after what
/// it read, see `on_read`). An event that does not answer the phase's order
/// ends the session.
pub open spec fn session_step_result(
    phase: SessionPhase,
    event: SessionEventView,
    size_ok: bool,
    data: Seq<u8>,
) -> (SessionPhase, SessionOrderView) {
    match (phase, event) {
        (SessionPhase::Reading, SessionEventView::Received(_)) => {
            if !size_ok {
                (SessionPhase::Ended, SessionOrderView::Shutdown)
            } else if valid_utf8(data) {
                (SessionPhase::Executing, SessionOrderView::Execute(decode_utf8(data)))
            } else {
                (SessionPhase::Writing, SessionOrderView::Write("not utf8 string"@))
            }
        },
        (SessionPhase::Reading, SessionEventView::WouldBlock) => (SessionPhase::Reading, SessionOrderView::SleepThenRead),
        (SessionPhase::Reading, SessionEventView::ReadFailed) => (SessionPhase::Ended, SessionOrderView::Shutdown),
        (SessionPhase::Executing, SessionEventView::Processed(result)) => {
            if result == "quit"@ {
                (SessionPhase::Ended, SessionOrderView::StopRunning)
            } else {
                (SessionPhase::Writing, SessionOrderView::Write(result))
            }
        },
        (SessionPhase::Writing, SessionEventView::Written(ok)) => {
            if ok {
                (SessionPhase::Reading, SessionOrderView::Read)
            } else {
                (SessionPhase::Ended, SessionOrderView::Shutdown)
            }
        },
        _ => (SessionPhase::Ended, SessionOrderView::Shutdown),
    }
}

/// A read of `size` bytes is one that the session takes as a request.
pub open spec fn readable_size(size: usize) -> bool {
    !(size == 0 || size >= MAX_READ_BUFFER_SIZE - 1)
}

/// The handling of one client connection, step by step.
pub struct Session {
    pub phase: SessionPhase,
}

impl Session {
    /// A new session reads first.
    pub fn new() -> (r: Self)
        ensures
            r.phase == SessionPhase::Reading,
    {
        Session { phase: SessionPhase::Reading }
    }

    /// Takes what happened in answer to the last order and gives the next.
    pub fn step(&mut self, data: &mut Vec<u8>, event: SessionEvent) -> (r: SessionOrder)
        requires
            old(data)@.len() == MAX_READ_BUFFER_SIZE,
        ensures
            final(data)@ == (match (old(self).phase, event@) {
                (SessionPhase::Reading, SessionEventView::Received(n)) => if readable_size(n) {
                    old(data)@.update(n as int, 0u8)
                } else {
                    old(data)@
                },
                _ => old(data)@,
            }),
            ({
                let size_ok = match event@ {
                    SessionEventView::Received(n) => readable_size(n),
                    _ => false,
                };
                (final(self).phase, r@) == session_step_result(old(self).phase, event@, size_ok, final(data)@)
            }),
    {
        match (self.phase, event) {
            (SessionPhase::Reading, SessionEvent::Received(size)) => {
                match on_read(data, size) {
                    ReadDecision::Close => {
                        self.phase = SessionPhase::Ended;
                        SessionOrder::Shutdown
                    },
                    ReadDecision::Request(text) => {
                        self.phase = SessionPhase::Executing;
                        SessionOrder::Execute(text)
                    },
                    ReadDecision::NotUtf8 => {
                        self.phase = SessionPhase::Writing;
                        SessionOrder::Write(String::from_str("not utf8 string"))
                    },
                }
            },
            (SessionPhase::Reading, SessionEvent::WouldBlock) => SessionOrder::SleepThenRead,
            (SessionPhase::Reading, SessionEvent::ReadFailed) => {
                self.phase = SessionPhase::Ended;
                SessionOrder::Shutdown
            },
            (SessionPhase::Executing, SessionEvent::Processed(result)) => {
                if ends_session(&result) {
                    self.phase = SessionPhase::Ended;
                    SessionOrder::StopRunning
                } else {
                    self.phase = SessionPhase::Writing;
                    SessionOrder::Write(result)
                }
            },
            (SessionPhase::Writing, SessionEvent::Written(ok)) => {
                if ok {
                    self.phase = SessionPhase::Reading;
                    SessionOrder::Read
                } else {
                    self.phase = SessionPhase::Ended;
                    SessionOrder::Shutdown
                }
            },
            _ => {
                self.phase = SessionPhase::Ended;
                SessionOrder::Shutdown
            },
        }
    }
}

/// The result of an action other than `"quit"` is written back to the client
/// exactly as it is, and the session then waits for that write.
pub proof fn law_result_is_written_back(result: Seq<char>, size_ok: bool, data: Seq<u8>)
    requires
        result != "quit"@,
    ensures
        session_step_result(SessionPhase::Executing, SessionEventView::Processed(result), size_ok, data)
            == (SessionPhase::Writing, SessionOrderView::Write(result)),
{
}

/// The server is stopped only at the end of a session, right after an action
/// whose result is `"quit"`; reads of nothing or of too much, and failed
/// reads, end the session with no reply and without stopping the server; a
/// read that finds nothing yet is retried after a sleep; an ended session
/// stays ended.
pub proof fn law_session(phase: SessionPhase, event: SessionEventView, size_ok: bool, data: Seq<u8>)
    ensures
        ({
            let (next, order) = session_step_result(phase, event, size_ok, data);
            &&& order is StopRunning ==> (phase is Executing && event == SessionEventView::Processed("quit"@)
                && next is Ended)
            &&& (phase is Reading && event is Received && !size_ok) ==> (order is Shutdown && next is Ended)
            &&& (phase is Reading && event is ReadFailed) ==> (order is Shutdown && next is Ended)
            &&& (phase is Reading && event is WouldBlock) ==> (order is SleepThenRead && next is Reading)
            &&& phase is Ended ==> (order is Shutdown && next is Ended)
            &&& (order is Shutdown || order is StopRunning) <==> next is Ended
        }),
{
}

/// Whether the reply ends the session: the executor was asked to quit.
pub fn ends_session(action_result: &String) -> (r: bool)
    ensures
        r == (action_result@ == "quit"@),
{
    *action_result == String::from_str("quit")
}

/// `s` with every occurrence of `pat` taken out, matching from the left.
pub open spec fn removed(s: Seq<char>, pat: Seq<char>) -> Seq<char>
    decreases s.len(),
{
    if s.len() == 0 || pat.len() == 0 {
        s
    } else if s.len() >= pat.len() && s.take(pat.len() as int) == pat {
        removed(s.skip(pat.len() as int), pat)
    } else {
        seq![s[0]] + removed(s.drop_first(), pat)
    }
}

/// The pieces of `s` between separators: one more than there are separators.
pub open spec fn split_on(s: Seq<char>, sep: char) -> Seq<Seq<char>>
    decreases s.len(),
{
    if s.len() == 0 {
        seq![Seq::<char>::empty()]
    } else {
        let r = split_on(s.drop_last(), sep);
        if s.last() == sep {
            r.push(Seq::<char>::empty())
        } else {
            r.update(r.len() - 1, r.last().push(s.last()))
        }
    }
}

/// The non-empty pieces, joined by the separator.
pub open spec fn join_nonempty(parts: Seq<Seq<char>>, sep: char) -> Seq<char>
    decreases parts.len(),
{
    if parts.len() == 0 {
        Seq::empty()
    } else {
        let head = join_nonempty(parts.drop_last(), sep);
        let last = parts.last();
        if last.len() == 0 {
            head
        } else if head.len() == 0 {
            last
        } else {
            head + seq![sep] + last
        }
    }
}

/// The DOS device prefixes `\\?\` and `\\.\`.
pub open spec fn device_prefix_question() -> Seq<char> {
    seq!['\\', '\\', '?', '\\']
}

pub open spec fn device_prefix_dot() -> Seq<char> {
    seq!['\\', '\\', '.', '\\']
}

/// The directory of the program at `exe`: the path without DOS device
/// prefixes and without its last piece, with empty pieces left out.
pub open spec fn program_dir_of(exe: Seq<char>, sep: char) -> Seq<char> {
    let path = removed(removed(exe, device_prefix_question()), device_prefix_dot());
    join_nonempty(split_on(path, sep).drop_last(), sep)
}

proof fn lemma_split_on_len(s: Seq<char>, sep: char)
    ensures
        split_on(s, sep).len() >= 1,
    decreases s.len(),
{
    if s.len() > 0 {
        lemma_split_on_len(s.drop_last(), sep);
    }
}

/// No two neighbouring characters of `s` are both `c`.
pub open spec fn no_doubled(s: Seq<char>, c: char) -> bool {
    forall|i: int| 0 <= i && i + 1 < s.len() ==> !(#[trigger] s[i] == c && s[i + 1] == c)
}

/// The index of the last `sep` in `s`, or -1 where there is none.
pub open spec fn last_index_of(s: Seq<char>, sep: char) -> int
    decreases s.len(),
{
    if s.len() == 0 {
        -1
    } else if s.last() == sep {
        s.len() - 1
    } else {
        last_index_of(s.drop_last(), sep)
    }
}

proof fn lemma_no_device_prefix(s: Seq<char>, pat: Seq<char>)
    requires
        no_doubled(s, '\\'),
        pat.len() >= 2,
        pat[0] == '\\',
        pat[1] == '\\',
    ensures
        removed(s, pat) == s,
    decreases s.len(),
{
    if s.len() > 0 {
        if s.len() >= pat.len() && s.take(pat.len() as int) == pat {
            assert(s.take(pat.len() as int)[0] == s[0]);
            assert(s.take(pat.len() as int)[1] == s[1]);
            assert(false);
        }
        let t = s.drop_first();
        assert forall|i: int| 0 <= i && i + 1 < t.len() implies !(#[trigger] t[i] == '\\' && t[i + 1]
            == '\\') by {
            assert(t[i] == s[i + 1] && t[i + 1] == s[i + 2]);
        }
        lemma_no_device_prefix(t, pat);
        assert(seq![s[0]] + t =~= s);
    }
}

proof fn lemma_split_at_last_separator(q: Seq<char>, sep: char)
    requires
        q.len() > 0 ==> q[0] != sep,
        no_doubled(q, sep),
    ensures
        -1 <= last_index_of(q, sep) < q.len(),
        last_index_of(q, sep) >= 0 ==> q[last_index_of(q, sep)] == sep,
        forall|j: int| last_index_of(q, sep) < j < q.len() ==> q[j] != sep,
        split_on(q, sep).last() == q.skip(last_index_of(q, sep) + 1),
        join_nonempty(split_on(q, sep).drop_last(), sep) == (if last_index_of(q, sep) < 0 {
            Seq::<char>::empty()
        } else {
            q.take(last_index_of(q, sep))
        }),
    decreases q.len(),
{
    if q.len() == 0 {
        assert(q.skip(0) =~= q);
    } else {
        let p = q.drop_last();
        assert forall|i: int| 0 <= i && i + 1 < p.len() implies !(#[trigger] p[i] == sep && p[i + 1] == sep) by {
            assert(p[i] == q[i] && p[i + 1] == q[i + 1]);
        }
        lemma_split_at_last_separator(p, sep);
        lemma_split_on_len(p, sep);
        let r = split_on(p, sep);
        let lp = last_index_of(p, sep);
        if q.last() == sep {
            assert(q.len() >= 2);
            assert(p.last() != sep) by {
                assert(!(q[q.len() - 2] == sep && q[q.len() - 1] == sep));
            }
            assert(r.push(Seq::<char>::empty()).drop_last() == r);
            assert(q.skip(q.len() as int) =~= Seq::<char>::empty());
            assert(r == r.drop_last().push(r.last()));
            assert(lp < p.len() - 1);
            if lp < 0 {
                assert(p.skip(0) =~= p);
            } else {
                assert(lp > 0);
                assert(p.take(lp).len() > 0);
                assert(p.skip(lp + 1).len() > 0);
                assert(p.take(lp) + seq![sep] + p.skip(lp + 1) =~= p);
            }
            assert(q.take(q.len() - 1) =~= p);
        } else {
            let c = q.last();
            assert(r.update(r.len() - 1, r.last().push(c)).drop_last() =~= r.drop_last());
            assert(p.skip(lp + 1).push(c) =~= q.skip(lp + 1));
            if lp >= 0 {
                assert(q.take(lp) =~= p.take(lp));
            }
            assert forall|j: int| lp < j < q.len() implies q[j] != sep by {
                if j < p.len() {
                    assert(q[j] == p[j]);
                }
            }
        }
    }
}

/// For a path with no doubled backslash (so with no DOS device prefix), no
/// leading separator and no doubled separator (so with no empty piece), the
/// program directory is the whole path up to its last separator, every
/// directory piece kept; a path with no separator has none.
pub proof fn law_program_dir_is_path_before_last_separator(path: Seq<char>, sep: char)
    requires
        no_doubled(path, '\\'),
        path.len() > 0 ==> path[0] != sep,
        no_doubled(path, sep),
    ensures
        (forall|j: int| 0 <= j < path.len() ==> path[j] != sep) ==> program_dir_of(path, sep)
            == Seq::<char>::empty(),
        forall|k: int|
            0 <= k < path.len() && path[k] == sep && (forall|j: int| k < j < path.len() ==> path[j] != sep)
                ==> program_dir_of(path, sep) == #[trigger] path.take(k),
{
    lemma_no_device_prefix(path, device_prefix_question());
    lemma_no_device_prefix(path, device_prefix_dot());
    lemma_split_at_last_separator(path, sep);
    let ls = last_index_of(path, sep);
    if ls >= 0 {
        assert(path[ls] == sep);
    }
    assert forall|k: int|
        0 <= k < path.len() && path[k] == sep && (forall|j: int| k < j < path.len() ==> path[j] != sep)
            implies program_dir_of(path, sep) == #[trigger] path.take(k) by {
        assert(k <= ls);
        if k < ls {
            assert(path[ls] == sep);
        }
    }
}

/// A DOS device prefix in front of a path is dropped: the program directory
/// is that of the path behind it.
pub proof fn law_device_prefix_is_dropped(rest: Seq<char>, sep: char)
    requires
        no_doubled(rest, '\\'),
        rest.len() > 0 ==> rest[0] != '\\',
    ensures
        program_dir_of(device_prefix_question() + rest, sep) == program_dir_of(rest, sep),
        program_dir_of(device_prefix_dot() + rest, sep) == program_dir_of(rest, sep),
{
    let q = device_prefix_question();
    let d = device_prefix_dot();
    lemma_no_device_prefix(rest, q);
    lemma_no_device_prefix(rest, d);
    let s = q + rest;
    assert(s.take(4) =~= q);
    assert(s.skip(4) =~= rest);
    assert(removed(s, q) == rest);
    let t = d + rest;
    let t1 = t.drop_first();
    let t2 = t1.drop_first();
    let t3 = t2.drop_first();
    assert(t3 =~= seq!['\\'] + rest);
    assert(t3.skip(1) =~= rest);
    assert(t3.drop_first() =~= rest);
    if t3.len() >= 4 {
        assert(t3.take(4)[1] == rest[0]);
    }
    assert(removed(t3, q) =~= t3);
    assert(t.take(4)[2] == '.');
    if t1.len() >= 4 {
        assert(t1.take(4)[1] == '.');
    }
    if t2.len() >= 4 {
        assert(t2.take(4)[0] == '.');
    }
    assert(removed(t2, q) =~= t2);
    assert(removed(t1, q) =~= t1);
    assert(removed(t, q) =~= t);
    assert(t.take(4) =~= d);
    assert(t.skip(4) =~= rest);
}

proof fn lemma_pieces_hold_no_separator(s: Seq<char>, sep: char)
    ensures
        forall|i: int, j: int|
            0 <= i < split_on(s, sep).len() && 0 <= j < split_on(s, sep)[i].len() ==> #[trigger] split_on(
                s,
                sep,
            )[i][j] != sep,
    decreases s.len(),
{
    if s.len() > 0 {
        lemma_pieces_hold_no_separator(s.drop_last(), sep);
        lemma_split_on_len(s.drop_last(), sep);
    }
}

proof fn lemma_joined_has_no_empty_piece(parts: Seq<Seq<char>>, sep: char)
    requires
        forall|i: int, j: int| 0 <= i < parts.len() && 0 <= j < parts[i].len() ==> #[trigger] parts[i][j] != sep,
    ensures
        join_nonempty(parts, sep).len() > 0 ==> join_nonempty(parts, sep)[0] != sep && join_nonempty(
            parts,
            sep,
        ).last() != sep,
        no_doubled(join_nonempty(parts, sep), sep),
    decreases parts.len(),
{
    if parts.len() > 0 {
        let init = parts.drop_last();
        assert forall|i: int, j: int| 0 <= i < init.len() && 0 <= j < init[i].len() implies #[trigger] init[i][j]
            != sep by {
            assert(init[i] == parts[i]);
        }
        lemma_joined_has_no_empty_piece(init, sep);
        let head = join_nonempty(init, sep);
        let last = parts.last();
        assert(forall|j: int| 0 <= j < last.len() ==> last[j] != sep) by {
            assert forall|j: int| 0 <= j < last.len() implies last[j] != sep by {
                assert(parts[parts.len() - 1][j] != sep);
            }
        }
        if last.len() > 0 && head.len() > 0 {
            let r = head + seq![sep] + last;
            let h = head.len();
            assert forall|i: int| 0 <= i && i + 1 < r.len() implies !(#[trigger] r[i] == sep && r[i + 1]
                == sep) by {
                if i + 1 < h {
                    assert(r[i] == head[i] && r[i + 1] == head[i + 1]);
                } else if i + 1 == h {
                    assert(r[i] == head[h - 1]);
                } else if i == h {
                    assert(r[i + 1] == last[0]);
                } else {
                    assert(r[i] == last[i - h - 1]);
                }
            }
            assert(r[0] == head[0]);
            assert(r.last() == last[last.len() - 1]);
        }
    }
}

/// The program directory never holds an empty piece: it neither begins nor
/// ends with the separator, and no two separators stand side by side in it.
pub proof fn law_program_dir_has_no_empty_piece(exe: Seq<char>, sep: char)
    ensures
        program_dir_of(exe, sep).len() > 0 ==> program_dir_of(exe, sep)[0] != sep && program_dir_of(
            exe,
            sep,
        ).last() != sep,
        no_doubled(program_dir_of(exe, sep), sep),
{
    let path = removed(removed(exe, device_prefix_question()), device_prefix_dot());
    lemma_pieces_hold_no_separator(path, sep);
    lemma_split_on_len(path, sep);
    let parts = split_on(path, sep);
    let init = parts.drop_last();
    assert forall|i: int, j: int| 0 <= i < init.len() && 0 <= j < init[i].len() implies #[trigger] init[i][j]
        != sep by {
        assert(init[i] == parts[i]);
    }
    lemma_joined_has_no_empty_piece(init, sep);
}

fn chars_of(s: &str) -> (r: Vec<char>)
    ensures
        r@ == s@,
{
    let mut r: Vec<char> = Vec::new();
    for c in it: s.chars()
        invariant
            it.seq() == s@,
            r@ == s@.take(it.index() as int),
    {
        proof {
            assert(s@.take(it.index() as int + 1) == s@.take(it.index() as int).push(c));
        }
        r.push(c);
    }
    proof {
        assert(s@.take(s@.len() as int) == s@);
    }
    r
}

fn string_of(chars: &Vec<char>) -> (r: String)
    ensures
        r@ == chars@,
{
    let mut r = String::new();
    let n: usize = chars.len();
    for i in 0..n
        invariant
            n == chars@.len(),
            r@ == chars@.take(i as int),
    {
        proof {
            assert(chars@.take(i as int + 1) == chars@.take(i as int).push(chars@[i as int]));
        }
        r.push(chars[i]);
    }
    proof {
        assert(chars@.take(n as int) == chars@);
    }
    r
}

/// `s` with every occurrence of `pat` taken out.
fn remove_all(s: &Vec<char>, pat: &Vec<char>) -> (r: Vec<char>)
    requires
        pat@.len() > 0,
    ensures
        r@ == removed(s@, pat@),
{
    let n: usize = s.len();
    let m: usize = pat.len();
    let mut out: Vec<char> = Vec::new();
    let mut i: usize = 0;
    proof {
        assert(s@.skip(0) == s@);
    }
    while i < n
        invariant
            i <= n,
            n == s@.len(),
            m == pat@.len(),
            m > 0,
            out@ + removed(s@.skip(i as int), pat@) == removed(s@, pat@),
        decreases n - i,
    {
        let ghost rest = s@.skip(i as int);
        let mut matched = m <= n - i;
        let mut j: usize = 0;
        while matched && j < m
            invariant
                j <= m,
                n == s@.len(),
                m == pat@.len(),
                rest == s@.skip(i as int),
                matched ==> i + m <= n,
                matched ==> forall|k: int| 0 <= k < j ==> rest[k] == pat@[k],
                !matched ==> !(rest.len() >= m && rest.take(m as int) == pat@),
            decreases m - j + (if matched { 1int } else { 0int }),
        {
            if s[i + j] != pat[j] {
                proof {
                    if rest.len() >= m && rest.take(m as int) == pat@ {
                        assert(rest.take(m as int)[j as int] == rest[j as int]);
                    }
                }
                matched = false;
            } else {
                j = j + 1;
            }
        }
        if matched {
            proof {
                assert(rest.take(m as int) =~= pat@);
                assert(rest.skip(m as int) =~= s@.skip(i + m));
            }
            i = i + m;
        } else {
            proof {
                assert(rest.drop_first() =~= s@.skip(i + 1));
                assert(out@.push(s@[i as int]) + removed(s@.skip(i + 1), pat@) =~= out@ + (seq![s@[i as int]]
                    + removed(rest.drop_first(), pat@)));
            }
            out.push(s[i]);
            i = i + 1;
        }
    }
    proof {
        assert(out@ + Seq::<char>::empty() =~= out@);
    }
    out
}

/// The directory of the program at `exe_path`, with `separator` between the
/// pieces; empty where the path has no directory piece.
pub fn program_directory(exe_path: &str, separator: char) -> (r: String)
    ensures
        r@ == program_dir_of(exe_path@, separator),
{
    let question: Vec<char> = vec!['\\', '\\', '?', '\\'];
    let dot: Vec<char> = vec!['\\', '\\', '.', '\\'];
    proof {
        assert(question@ =~= device_prefix_question());
        assert(dot@ =~= device_prefix_dot());
    }
    let path = remove_all(&remove_all(&chars_of(exe_path), &question), &dot);
    let n: usize = path.len();
    let mut dir: Vec<char> = Vec::new();
    let mut current: Vec<char> = Vec::new();
    for i in 0..n
        invariant
            n == path@.len(),
            split_on(path@.take(i as int), separator).len() >= 1,
            dir@ == join_nonempty(split_on(path@.take(i as int), separator).drop_last(), separator),
            current@ == split_on(path@.take(i as int), separator).last(),
    {
        let c: char = path[i];
        let ghost p = path@.take(i as int);
        let ghost parts = split_on(p, separator);
        proof {
            assert(path@.take(i as int + 1).drop_last() == p);
            assert(path@.take(i as int + 1).last() == c);
            lemma_split_on_len(path@.take(i as int + 1), separator);
        }
        if c == separator {
            proof {
                assert(parts.push(Seq::<char>::empty()).drop_last() == parts);
                assert(parts == parts.drop_last().push(parts.last()));
            }
            if current.len() > 0 {
                if dir.len() > 0 {
                    dir.push(separator);
                }
                let mut k: usize = 0;
                let ghost before = dir@;
                while k < current.len()
                    invariant
                        k <= current@.len(),
                        dir@ == before + current@.take(k as int),
                    decreases current@.len() - k,
                {
                    proof {
                        assert(current@.take(k as int + 1) == current@.take(k as int).push(current@[k as int]));
                    }
                    dir.push(current[k]);
                    k = k + 1;
                }
                proof {
                    assert(current@.take(current@.len() as int) == current@);
                }
            }
            current = Vec::new();
        } else {
            proof {
                assert(parts.update(parts.len() - 1, parts.last().push(c)).drop_last() == parts.drop_last());
            }
            current.push(c);
        }
    }
    proof {
        assert(path@.take(n as int) == path@);
    }
    string_of(&dir)
}

/// The password file's path in the directory `program_dir`.
pub fn password_file_path(program_dir: &str, separator: char, file_name: &str) -> (r: String)
    ensures
        r@ == program_dir@ + seq![separator] + file_name@,
{
    let mut r = String::from_str(program_dir);
    r.push(separator);
    r.append(file_name);
    r
}

} // verus!
