//! tmux: the arguments niles hands it and what it makes of tmux's answers.
use vstd::prelude::*;

pub mod list_windows;
pub mod target;

use crate::digits::{decimal, push_decimal};
use crate::statuslog::{lossy_text, utf8_lossy};
use crate::text::{
    chars_of, is_empty_str, lines_of, lines_of_chars, owned, push_str, str_eq, texts, trim,
    trim_end, trim_end_str, trim_str,
};
use target::{exact, exact_spec, PaneTarget, SessionName};

verus! {

/// What a finished tmux command left behind.
pub struct CommandOutput {
    pub success: bool,
    pub stdout: Vec<u8>,
    pub stderr: Vec<u8>,
}

/// The key that submits a line once its text has been typed.
pub const SEND_LINE_SUBMIT_KEY: &'static str = "C-m";

/// How long the pane must hold still before a paste counts as ingested, in milliseconds.
pub const SEND_QUIET_WINDOW_MS: u64 = 500;

/// Longest wait for a paste to render and go quiet, in milliseconds.
pub const SEND_SETTLE_TIMEOUT_MS: u64 = 6000;

/// Longest wait for the pane to change after the submit key, in seconds.
pub const SEND_SUBMIT_TIMEOUT_SECS: u64 = 3;

/// Pane rows captured while watching a send land.
pub const SEND_WATCH_LINES: usize = 50;

pub open spec fn strs_text(v: Seq<&str>) -> Seq<Seq<char>> {
    v.map_values(|s: &str| s@)
}

/// Owned copies of the arguments, in order.
pub fn collect_args(args: &[&str]) -> (r: Vec<String>)
    ensures
        texts(r@) == strs_text(args@),
{
    let mut r: Vec<String> = Vec::new();
    let mut i: usize = 0;
    while i < args.len()
        invariant
            i <= args@.len(),
            texts(r@) == strs_text(args@).take(i as int),
        decreases args.len() - i,
    {
        let ghost before = texts(r@);
        r.push(owned(args[i]));
        assert(texts(r@) =~= before.push(args@[i as int]@));
        assert(strs_text(args@).take(i + 1) =~= strs_text(args@).take(i as int).push(
            args@[i as int]@,
        ));
        i += 1;
    }
    assert(strs_text(args@).take(args@.len() as int) =~= strs_text(args@));
    r
}

/// The `-S` start line: all history for zero lines, else that many lines back.
pub fn capture_start(lines: usize) -> (r: String)
    ensures
        lines == 0 ==> r@ == "-"@,
        lines > 0 ==> r@ == "-"@ + decimal(lines as nat),
{
    let mut r = owned("-");
    if lines > 0 {
        push_decimal(&mut r, lines as u64);
    }
    r
}

/// A pane capture without tmux's padding: trailing whitespace removed and one newline
/// restored, or nothing at all for a blank pane.
pub open spec fn capture_text(stdout: Seq<u8>) -> Seq<char> {
    let trimmed = trim_end(utf8_lossy(stdout));
    if trimmed.len() == 0 {
        trimmed
    } else {
        trimmed + "\n"@
    }
}

pub fn format_capture(stdout: &Vec<u8>) -> (r: String)
    ensures
        r@ == capture_text(stdout@),
{
    let text = lossy_text(stdout, 0, stdout.len());
    assert(stdout@.subrange(0, stdout@.len() as int) =~= stdout@);
    let mut trimmed = trim_end_str(text.as_str());
    if is_empty_str(trimmed.as_str()) {
        trimmed
    } else {
        push_str(&mut trimmed, "\n");
        trimmed
    }
}

/// Whether some listed line is exactly `window_name`.
pub fn window_name_taken(stdout: &Vec<u8>, window_name: &str) -> (r: bool)
    ensures
        r == lines_of(utf8_lossy(stdout@)).contains(window_name@),
{
    let text = lossy_text(stdout, 0, stdout.len());
    assert(stdout@.subrange(0, stdout@.len() as int) =~= stdout@);
    let lines = lines_of_chars(&chars_of(text.as_str()));
    let ghost all = lines@.map_values(|l: String| l@);
    let mut i: usize = 0;
    while i < lines.len()
        invariant
            i <= lines@.len(),
            all == lines@.map_values(|l: String| l@),
            all == lines_of(utf8_lossy(stdout@)),
            forall|j: int| 0 <= j < i ==> all[j] != window_name@,
        decreases lines.len() - i,
    {
        if str_eq(lines[i].as_str(), window_name) {
            assert(all[i as int] == window_name@);
            return true;
        }
        i += 1;
    }
    false
}

/// The session name `display-message -p '#S'` printed, if it printed one.
pub fn session_name_from_stdout(stdout: &Vec<u8>) -> (r: Option<String>)
    ensures
        trim(utf8_lossy(stdout@)).len() == 0 ==> r is None,
        trim(utf8_lossy(stdout@)).len() > 0 ==> (r matches Some(s) && s@ == trim(utf8_lossy(stdout@))),
{
    let text = lossy_text(stdout, 0, stdout.len());
    assert(stdout@.subrange(0, stdout@.len() as int) =~= stdout@);
    let session = trim_str(text.as_str());
    if is_empty_str(session.as_str()) {
        None
    } else {
        Some(session)
    }
}

/// Types `line` into `target` literally, as one argument whatever it holds.
pub fn send_line_literal_args<'a>(target: &'a str, line: &'a str) -> (r: [&'a str; 5])
    ensures
        r@[0]@ == "send-keys"@,
        r@[1]@ == "-t"@,
        r@[2] == target,
        r@[3]@ == "-l"@,
        r@[4] == line,
{
    ["send-keys", "-t", target, "-l", line]
}

/// Sends the submit key to `target`, as its own keystroke.
pub fn send_line_submit_args(target: &str) -> (r: [&str; 4])
    ensures
        r@[0]@ == "send-keys"@,
        r@[1]@ == "-t"@,
        r@[2] == target,
        r@[3]@ == SEND_LINE_SUBMIT_KEY@,
{
    ["send-keys", "-t", target, SEND_LINE_SUBMIT_KEY]
}

/// `=session:`: a new window goes into exactly this session, at its next free index.
pub fn new_window_session_target(session: &SessionName) -> (r: String)
    ensures
        r@ == exact_spec(session@) + ":"@,
{
    let mut r = exact(session.as_str());
    push_str(&mut r, ":");
    r
}

pub fn new_window_args<'a>(
    session_target: &'a str,
    window_name: &'a str,
    cwd: &'a str,
    command: &'a str,
) -> (r: [&'a str; 9])
    ensures
        r@[0]@ == "new-window"@,
        r@[1]@ == "-d"@,
        r@[2]@ == "-t"@,
        r@[3] == session_target,
        r@[4]@ == "-n"@,
        r@[5] == window_name,
        r@[6]@ == "-c"@,
        r@[7] == cwd,
        r@[8] == command,
{
    ["new-window", "-d", "-t", session_target, "-n", window_name, "-c", cwd, command]
}

/// Checks the session's window listing for a window already named `window_name`.
pub fn ensure_window_available(session: &SessionName, window_name: &str, listing: &CommandOutput) -> (r:
    Result<(), String>)
    ensures
        !listing.success ==> (r matches Err(e) && e@ == "tmux list-windows failed for session "@
            + session@ + ": "@ + trim(utf8_lossy(listing.stderr@))),
        listing.success && lines_of(utf8_lossy(listing.stdout@)).contains(window_name@) ==> (
        r matches Err(e) && e@ == "tmux window "@ + session@ + ":"@ + window_name@
            + " already exists"@),
        listing.success && !lines_of(utf8_lossy(listing.stdout@)).contains(window_name@) ==> r
            is Ok,
{
    if !listing.success {
        let stderr = lossy_text(&listing.stderr, 0, listing.stderr.len());
        assert(listing.stderr@.subrange(0, listing.stderr@.len() as int) =~= listing.stderr@);
        let mut e = owned("tmux list-windows failed for session ");
        push_str(&mut e, session.as_str());
        push_str(&mut e, ": ");
        push_str(&mut e, trim_str(stderr.as_str()).as_str());
        return Err(e);
    }
    if window_name_taken(&listing.stdout, window_name) {
        let mut e = owned("tmux window ");
        push_str(&mut e, session.as_str());
        push_str(&mut e, ":");
        push_str(&mut e, window_name);
        push_str(&mut e, " already exists");
        return Err(e);
    }
    Ok(())
}

/// The message a command that needs tmux fails with outside it.
pub open spec fn outside_tmux_text() -> Seq<char> {
    "niles must run inside tmux. Start one with `tmux new -s niles`, or attach an existing session, then rerun."@
}

/// Why no current session can be had, where none can: outside tmux, or inside it with no name,
/// or an empty one.
pub open spec fn session_refusal(in_tmux: bool, name: Option<Seq<char>>) -> Option<Seq<char>> {
    if !in_tmux {
        Some(outside_tmux_text())
    } else if name is None {
        Some("failed to determine the current tmux session name"@)
    } else if name.unwrap().len() == 0 {
        Some("tmux session name cannot be empty"@)
    } else {
        None
    }
}

/// The session this process runs in: being outside tmux is an error, not a cue to invent a
/// session.
pub fn current_session(in_tmux: bool, name: Option<String>) -> (r: Result<SessionName, String>)
    ensures
        session_refusal(in_tmux, match name { Some(n) => Some(n@), None => None }) matches Some(m) ==> (r matches Err(e) && e@ == m),
        session_refusal(in_tmux, match name { Some(n) => Some(n@), None => None }) is None ==> r is Ok,
        !in_tmux ==> (r matches Err(e) && e@
            == "niles must run inside tmux. Start one with `tmux new -s niles`, or attach an existing session, then rerun."@),
        in_tmux && name is None ==> (r matches Err(e) && e@
            == "failed to determine the current tmux session name"@),
        in_tmux && name is Some && name.unwrap()@.len() == 0 ==> (r matches Err(e) && e@
            == "tmux session name cannot be empty"@),
        in_tmux && name is Some && name.unwrap()@.len() > 0 ==> (r matches Ok(s) && s@
            == name.unwrap()@),
{
    if !in_tmux {
        return Err(
            owned(
                "niles must run inside tmux. Start one with `tmux new -s niles`, or attach an existing session, then rerun.",
            ),
        );
    }
    match name {
        None => Err(owned("failed to determine the current tmux session name")),
        Some(n) => SessionName::new(n),
    }
}

/// Watching a pasted message render and go quiet before the submit key is sent.
///
/// Times are milliseconds since the watch began. A pane that never changes may simply not
/// echo what it is handed, and one that never goes quiet is an agent already busy: both give
/// up at the timeout with the last capture, and the submit is still sent.
pub struct Settle {
    pub previous: String,
    pub rendered: bool,
    pub quiet_since: Option<u64>,
}

impl Settle {
    pub fn new(before: String) -> (r: Settle)
        ensures
            r.previous == before,
            !r.rendered,
            r.quiet_since is None,
    {
        Settle { previous: before, rendered: false, quiet_since: None }
    }

    /// One capture, taken at `now`: the pane text it settled on, or `None` to keep watching.
    pub fn observe(&mut self, current: String, now: u64) -> (r: Option<String>)
        requires
            old(self).quiet_since matches Some(t) ==> t <= now,
        ensures
            current@ == old(self).previous@ ==> final(self).previous == old(self).previous
                && final(self).rendered == old(self).rendered && final(self).quiet_since == Some(
                match old(self).quiet_since {
                    Some(t) => t,
                    None => now,
                },
            ),
            current@ != old(self).previous@ ==> final(self).previous == current
                && final(self).rendered && final(self).quiet_since is None,
            current@ == old(self).previous@ && old(self).rendered && now - final(self).quiet_since.unwrap() >= SEND_QUIET_WINDOW_MS ==> r == Some(current),
            !(current@ == old(self).previous@ && old(self).rendered && now - final(self).quiet_since.unwrap() >= SEND_QUIET_WINDOW_MS) ==> r == if now >= SEND_SETTLE_TIMEOUT_MS {
                Some(final(self).previous)
            } else {
                None
            },
    {
        if str_eq(current.as_str(), self.previous.as_str()) {
            let since = match self.quiet_since {
                Some(t) => t,
                None => now,
            };
            self.quiet_since = Some(since);
            if self.rendered && now - since >= SEND_QUIET_WINDOW_MS {
                return Some(current);
            }
        } else {
            self.rendered = true;
            self.quiet_since = None;
            self.previous = current;
        }
        if now >= SEND_SETTLE_TIMEOUT_MS {
            Some(self.previous.clone())
        } else {
            None
        }
    }
}

/// The error a submit that changed nothing is reported with.
pub open spec fn submit_lost_text(target: Seq<char>) -> Seq<char> {
    "message was typed into "@ + target
        + " but the submit key did not take: the pane has not changed in "@ + decimal(
        SEND_SUBMIT_TIMEOUT_SECS as nat,
    )
        + "s. The text is most likely still sitting unsent in the composer — check it with `niles peek`, then send again once the pane is idle."@
}

/// One capture after the submit key, taken `elapsed_secs` in: done once the pane has moved;
/// an error once the timeout has passed with it still; otherwise keep watching.
pub fn submit_check(target: &PaneTarget, staged: &str, current: &str, elapsed_secs: u64) -> (r:
    Option<Result<(), String>>)
    ensures
        current@ != staged@ ==> r == Some(Ok::<(), String>(())),
        current@ == staged@ && elapsed_secs >= SEND_SUBMIT_TIMEOUT_SECS ==> (r matches Some(Err(e))
            && e@ == submit_lost_text(target@)),
        current@ == staged@ && elapsed_secs < SEND_SUBMIT_TIMEOUT_SECS ==> r is None,
{
    if !str_eq(current, staged) {
        return Some(Ok(()));
    }
    if elapsed_secs >= SEND_SUBMIT_TIMEOUT_SECS {
        let mut e = owned("message was typed into ");
        push_str(&mut e, target.as_str());
        push_str(&mut e, " but the submit key did not take: the pane has not changed in ");
        push_decimal(&mut e, SEND_SUBMIT_TIMEOUT_SECS);
        push_str(
            &mut e,
            "s. The text is most likely still sitting unsent in the composer — check it with `niles peek`, then send again once the pane is idle.",
        );
        return Some(Err(e));
    }
    None
}

} // verus!
