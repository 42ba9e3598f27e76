//! Decisions of the background service: how it answers control requests,
//! when it stops polling, and what it reads from the output of system
//! commands.

use vstd::prelude::*;
use crate::text::{chars_of, split_spans, sub_chars, word_spans, occurs, occurs_in, split_on, words, spans_text, span_text, contains_text};

verus! {

/// A control request sent to the service by the system.
#[derive(Clone, Copy, Debug, PartialEq, Eq, Structural)]
pub enum ServiceControlRequest {
    Interrogate,
    Stop,
    /// A user-defined event, by its code.
    UserEvent(u32),
    /// Any other request.
    Other,
}

/// The service's answer to a control request.
#[derive(Clone, Copy, Debug, PartialEq, Eq, Structural)]
pub enum ControlHandlerReply {
    NoError,
    NotImplemented,
}

/// What handling a control request amounts to.
#[derive(Clone, Copy, Debug, PartialEq, Eq, Structural)]
pub struct ControlResponse {
    /// The service must be told to shut down.
    pub request_shutdown: bool,
    /// The answer given to the system.
    pub reply: ControlHandlerReply,
}

/// The user-event code that asks the service to stop.
pub const STOP_EVENT_CODE: u32 = 130;

/// How a control request is handled: an interrogation is answered, a stop
/// request and the user event with code 130 shut the service down, and
/// anything else is not implemented.
pub open spec fn control_response(request: ServiceControlRequest) -> ControlResponse {
    match request {
        ServiceControlRequest::Interrogate => ControlResponse {
            request_shutdown: false,
            reply: ControlHandlerReply::NoError,
        },
        ServiceControlRequest::Stop => ControlResponse {
            request_shutdown: true,
            reply: ControlHandlerReply::NoError,
        },
        ServiceControlRequest::UserEvent(code) => ControlResponse {
            request_shutdown: code == STOP_EVENT_CODE,
            reply: ControlHandlerReply::NoError,
        },
        ServiceControlRequest::Other => ControlResponse {
            request_shutdown: false,
            reply: ControlHandlerReply::NotImplemented,
        },
    }
}

/// Handles a control request sent to the service.
pub fn handle_service_control(request: ServiceControlRequest) -> (r: ControlResponse)
    ensures
        r == control_response(request),
{
    match request {
        ServiceControlRequest::Interrogate => ControlResponse {
            request_shutdown: false,
            reply: ControlHandlerReply::NoError,
        },
        ServiceControlRequest::Stop => ControlResponse {
            request_shutdown: true,
            reply: ControlHandlerReply::NoError,
        },
        ServiceControlRequest::UserEvent(code) => ControlResponse {
            request_shutdown: code == STOP_EVENT_CODE,
            reply: ControlHandlerReply::NoError,
        },
        ServiceControlRequest::Other => ControlResponse {
            request_shutdown: false,
            reply: ControlHandlerReply::NotImplemented,
        },
    }
}

/// What one wait for the shutdown signal gave.
#[derive(Clone, Copy, Debug, PartialEq, Eq, Structural)]
pub enum ShutdownPoll {
    /// The shutdown signal arrived.
    Signalled,
    /// The signalling side is gone.
    Disconnected,
    /// Nothing arrived before the timeout.
    TimedOut,
}

/// Whether the service loop ends after a wait: it goes on only when the
/// wait timed out.
pub fn stops_after(poll: ShutdownPoll) -> (r: bool)
    ensures
        r == !(poll is TimedOut),
{
    match poll {
        ShutdownPoll::TimedOut => false,
        _ => true,
    }
}

/// Whether the process list printed by `tasklist` names the back-up program.
pub fn backup_program_listed(tasklist_output: &str) -> (r: bool)
    ensures
        r == occurs_in(tasklist_output@, "backup_program.exe"@),
{
    contains_text(tasklist_output, "backup_program.exe")
}

/// The name of the scheduled task that starts the back-up program.
pub open spec fn launcher_task() -> Seq<char> {
    "BackupProgramLauncher"@
}

/// The arguments of `schtasks` that create the task starting `program`
/// once at `start_time` (HH:MM) for `user`, interactively, with the
/// highest privileges, replacing an earlier task of the same name.
pub open spec fn create_task_args(program: Seq<char>, start_time: Seq<char>, user: Seq<char>) -> Seq<
    Seq<char>,
> {
    seq![
        "/Create"@,
        "/TN"@,
        launcher_task(),
        "/TR"@,
        program,
        "/SC"@,
        "ONCE"@,
        "/ST"@,
        start_time,
        "/RU"@,
        user,
        "/IT"@,
        "/F"@,
        "/RL"@,
        "HIGHEST"@,
    ]
}

/// The arguments of `schtasks` that run the task at once.
pub open spec fn run_task_args() -> Seq<Seq<char>> {
    seq!["/Run"@, "/TN"@, launcher_task()]
}

/// The arguments of `schtasks` that create the launcher task.
pub fn schtasks_create_args(program_path: &str, start_time: &str, user: &str) -> (r: Vec<String>)
    ensures
        r@.map_values(|a: String| a@) == create_task_args(program_path@, start_time@, user@),
{
    let mut r: Vec<String> = Vec::new();
    r.push(String::from_str("/Create"));
    r.push(String::from_str("/TN"));
    r.push(String::from_str("BackupProgramLauncher"));
    r.push(String::from_str("/TR"));
    r.push(program_path.to_owned());
    r.push(String::from_str("/SC"));
    r.push(String::from_str("ONCE"));
    r.push(String::from_str("/ST"));
    r.push(start_time.to_owned());
    r.push(String::from_str("/RU"));
    r.push(user.to_owned());
    r.push(String::from_str("/IT"));
    r.push(String::from_str("/F"));
    r.push(String::from_str("/RL"));
    r.push(String::from_str("HIGHEST"));
    assert(r@.map_values(|a: String| a@) =~= create_task_args(program_path@, start_time@, user@));
    r
}

/// The arguments of `schtasks` that run the launcher task.
pub fn schtasks_run_args() -> (r: Vec<String>)
    ensures
        r@.map_values(|a: String| a@) == run_task_args(),
{
    let mut r: Vec<String> = Vec::new();
    r.push(String::from_str("/Run"));
    r.push(String::from_str("/TN"));
    r.push(String::from_str("BackupProgramLauncher"));
    assert(r@.map_values(|a: String| a@) =~= run_task_args());
    r
}

/// Why no user name could be read from the session list.
#[derive(Clone, Copy, Debug, PartialEq, Eq, Structural)]
pub enum SessionError {
    /// No line mentions an active session.
    NoActiveSession,
    /// The line of the active session has fewer than two words.
    UnparsableUserName,
}

/// The first of `lines` in which `pat` occurs.
pub open spec fn first_containing(lines: Seq<Seq<char>>, pat: Seq<char>) -> Option<Seq<char>>
    decreases lines.len(),
{
    if lines.len() == 0 {
        None
    } else if occurs_in(lines[0], pat) {
        Some(lines[0])
    } else {
        first_containing(lines.drop_first(), pat)
    }
}

/// The user of the active session in the output of `query session`: the
/// second word of the first line that contains `Active`. (Cutting at line
/// feeds alone gives the same answer as `str::lines`: a carriage return
/// left at a line's end is whitespace, and `Active` holds none.)
pub open spec fn session_user(output: Seq<char>) -> Result<Seq<char>, SessionError> {
    match first_containing(split_on(output, '\n'), "Active"@) {
        None => Err(SessionError::NoActiveSession),
        Some(line) => if words(line).len() >= 2 {
            Ok(words(line)[1])
        } else {
            Err(SessionError::UnparsableUserName)
        },
    }
}

/// The user name of the active session listed by `query session`.
pub fn active_session_user(query_output: &str) -> (r: Result<String, SessionError>)
    ensures
        r matches Ok(name) ==> session_user(query_output@) == Ok::<Seq<char>, SessionError>(
            name@,
        ),
        r matches Err(e) ==> session_user(query_output@) == Err::<Seq<char>, SessionError>(e),
{
    let v = chars_of(query_output);
    let pat = chars_of("Active");
    let lines = split_spans(&v, '\n');
    let ghost pieces = split_on(query_output@, '\n');
    let mut k: usize = 0;
    assert(pieces.skip(0) =~= pieces);
    while k < lines.len()
        invariant
            v@ == query_output@,
            pat@ == "Active"@,
            spans_text(v@, lines@) == pieces,
            pieces == split_on(query_output@, '\n'),
            forall|j: int| 0 <= j < lines@.len() ==> #[trigger] lines@[j].0 <= lines@[j].1 <= v@.len(),
            k <= lines.len(),
            first_containing(pieces, "Active"@) == first_containing(pieces.skip(k as int), "Active"@),
        decreases lines.len() - k,
    {
        let (a, b) = lines[k];
        assert(lines@[k as int].0 <= lines@[k as int].1 <= v@.len());
        let line = sub_chars(&v, a, b);
        proof {
            assert(pieces[k as int] == span_text(v@, lines@[k as int]));
            assert(pieces.skip(k as int)[0] == pieces[k as int]);
            assert(pieces.skip(k as int).drop_first() =~= pieces.skip(k + 1));
        }
        if occurs(&line, &pat) {
            let spans = word_spans(&line);
            if spans.len() >= 2 {
                let (s, e) = spans[1];
                assert(spans@[1].0 <= spans@[1].1 <= line@.len());
                let name = query_output.substring_char(a + s, a + e).to_owned();
                proof {
                    assert(words(line@)[1] == span_text(line@, spans@[1]));
                    assert(span_text(line@, spans@[1]) =~= query_output@.subrange(
                        a + s,
                        a + e,
                    ));
                }
                return Ok(name);
            }
            return Err(SessionError::UnparsableUserName);
        }
        k = k + 1;
    }
    Err(SessionError::NoActiveSession)
}

} // verus!
