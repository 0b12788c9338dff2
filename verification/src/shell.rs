//! Interactive shells in containers.
use crate::argv::push_three;
use crate::error::{AppError, AppResult};
use crate::text::{cat2, no_texts, texts, trim, trimmed};
use vstd::prelude::*;

verus! {

/// Event with output of a shell; the id of the shell follows.
pub const SHELL_OUT_PREFIX: &'static str = "shell-out:";

/// Event at the end of a shell; the id of the shell follows.
pub const SHELL_CLOSED_PREFIX: &'static str = "shell-closed:";

/// Starts bash where it is there, else sh. The probe comes first: where starting a
/// program fails, the shell ends before it could try another.
pub const SHELL_PROBE: &'static str =
    "if command -v bash >/dev/null 2>&1; then exec bash; else exec sh; fi";

/// How long a shell waits for its listener to be attached before it starts, in
/// milliseconds.
pub const START_DELAY_MILLIS: u64 = 150;

/// What a shell is started with.
pub open spec fn shell_words(wanted: Seq<char>) -> Seq<Seq<char>> {
    seq![
        "/bin/sh"@,
        "-c"@,
        (if trimmed(wanted).len() == 0 {
            SHELL_PROBE@
        } else {
            "exec "@ + trimmed(wanted)
        }),
    ]
}

/// What a shell is started with. The user's own command runs through a shell, so
/// that it can be a whole command line, and takes the place of that shell.
pub fn shell_cmd(override_cmd: &str) -> (r: Vec<String>)
    ensures
        texts(r@) == shell_words(override_cmd@),
{
    let wanted = trim(override_cmd);
    let mut v = no_texts();
    if wanted.is_empty() {
        push_three(&mut v, "/bin/sh", "-c", SHELL_PROBE);
    } else {
        let line = cat2("exec ", wanted);
        push_three(&mut v, "/bin/sh", "-c", line.as_str());
    }
    assert(texts(v@) =~= shell_words(override_cmd@));
    v
}

/// The event with the output of a shell.
pub fn out_event(stream_id: &str) -> (r: String)
    ensures
        r@ == SHELL_OUT_PREFIX@ + stream_id@,
{
    cat2(SHELL_OUT_PREFIX, stream_id)
}

/// The event at the end of a shell.
pub fn closed_event(stream_id: &str) -> (r: String)
    ensures
        r@ == SHELL_CLOSED_PREFIX@ + stream_id@,
{
    cat2(SHELL_CLOSED_PREFIX, stream_id)
}

/// What happens to a shell.
pub enum ShellEvent {
    /// So many bytes of output were read; none at the end.
    Read(usize),
    /// Reading output failed.
    ReadFailed(String),
    /// Input was passed on.
    Input,
    /// Input could not be passed on.
    InputFailed,
    /// There is no more input.
    InputClosed,
    /// The terminal has a new size, or none will come any more.
    Resized,
}

/// How a shell ends at an event, if it does.
pub fn shell_step(ev: ShellEvent) -> (r: Option<AppResult<String>>)
    ensures
        match (r, ev) {
            (Some(Ok(t)), ShellEvent::Read(n)) => n == 0 && t@ == "session ended"@,
            (None, ShellEvent::Read(n)) => n > 0,
            (Some(Err(e)), ShellEvent::ReadFailed(m)) => e.is_other(m@),
            (Some(Ok(t)), ShellEvent::InputFailed) => t@ == "stdin closed"@,
            (Some(Ok(t)), ShellEvent::InputClosed) => t@ == "input closed"@,
            (None, ShellEvent::Input) => true,
            (None, ShellEvent::Resized) => true,
            _ => false,
        },
{
    match ev {
        ShellEvent::Read(n) => {
            if n == 0 {
                Some(Ok("session ended".to_owned()))
            } else {
                None
            }
        },
        ShellEvent::ReadFailed(m) => Some(Err(AppError::Other(m))),
        ShellEvent::Input => None,
        ShellEvent::InputFailed => Some(Ok("stdin closed".to_owned())),
        ShellEvent::InputClosed => Some(Ok("input closed".to_owned())),
        ShellEvent::Resized => None,
    }
}

// ---------------------------------------------------------------------------
// Laws
// ---------------------------------------------------------------------------

/// A shell is started through `/bin/sh -c`: with the user's command, which takes its place,
/// or, where that is blank, with bash if it is there and sh if not.
pub proof fn law_shell_runs_what_was_asked_for(wanted: &str, r: Vec<String>)
    requires
        call_ensures(shell_cmd, (wanted,), r),
    ensures
        r@.len() == 3,
        r@[0]@ == "/bin/sh"@,
        r@[1]@ == "-c"@,
        trimmed(wanted@).len() > 0 ==> r@[2]@ == "exec "@ + trimmed(wanted@),
        trimmed(wanted@).len() == 0 ==> r@[2]@
            == "if command -v bash >/dev/null 2>&1; then exec bash; else exec sh; fi"@,
{
    let t = texts(r@);
    assert(t.len() == r@.len());
    assert(t[0] == r@[0]@);
    assert(t[1] == r@[1]@);
    assert(t[2] == r@[2]@);
}

/// A shell goes on while it is read from and written to, and ends where either does, saying
/// which.
pub proof fn law_shell_ends_where_its_streams_do(
    n: usize,
    m: String,
    read: Option<AppResult<String>>,
    failed: Option<AppResult<String>>,
    unwritten: Option<AppResult<String>>,
    closed: Option<AppResult<String>>,
    written: Option<AppResult<String>>,
    resized: Option<AppResult<String>>,
)
    requires
        call_ensures(shell_step, (ShellEvent::Read(n),), read),
        call_ensures(shell_step, (ShellEvent::ReadFailed(m),), failed),
        call_ensures(shell_step, (ShellEvent::InputFailed,), unwritten),
        call_ensures(shell_step, (ShellEvent::InputClosed,), closed),
        call_ensures(shell_step, (ShellEvent::Input,), written),
        call_ensures(shell_step, (ShellEvent::Resized,), resized),
    ensures
        n > 0 <==> read is None,
        n == 0 ==> (read matches Some(Ok(t)) && t@ == "session ended"@),
        failed matches Some(Err(e)) && e.is_other(m@),
        unwritten matches Some(Ok(t)) && t@ == "stdin closed"@,
        closed matches Some(Ok(t)) && t@ == "input closed"@,
        written is None && resized is None,
{
}

} // verus!
