//! The shell session manager: a session state machine, framed command
//! construction with a unique sentinel, and a sentinel-terminated,
//! size-bounded output reader.
use vstd::prelude::*;
use crate::base::str_opt;
use crate::base::ToolError;
use crate::base::ToolResult;
use crate::text::chars_equal;
use crate::text::chars_to_string;
use crate::text::dec_digits;
use crate::text::find_sub;
use crate::text::has_match_from;
use crate::text::push_chars;
use crate::text::push_dec_u64;
use crate::text::push_str_chars;
use crate::text::str_to_chars;
use crate::text::trim_chars;
use crate::text::trim_spec;

verus! {

/// Wall-clock budget for one command, in seconds.
pub const TIMEOUT_SECONDS: u64 = 30;

/// Ceiling on captured output, in characters.
pub const MAX_OUTPUT_SIZE: usize = 1048576;

/// The sentinel line that the framed command emits after the command's own
/// output, whatever its exit status.
pub open spec fn sentinel() -> Seq<char> {
    "<<BASH_TOOL_SENTINEL_UNIQUE_STRING_12345>>"@
}

/// The marker that the framing's inner timeout utility prints when the
/// command overran its budget.
pub open spec fn timeout_marker() -> Seq<char> {
    "command execution timed out"@
}

/// The notice appended when the output ceiling is reached.
pub open spec fn overflow_notice() -> Seq<char> {
    "\n... output too large, truncated ..."@
}

/// The notice appended when the read loop overran the time budget.
pub open spec fn overtime_notice() -> Seq<char> {
    "\ncommand took too long and was forcibly stopped"@
}

/// The lifecycle of a shell session.
pub enum SessionState {
    /// No interpreter process has been started yet.
    NotStarted,
    /// A live interpreter process is attached.
    Running,
    /// The last command overran its budget; commands are rejected until an
    /// explicit restart.
    TimedOut,
}

/// Whether a session in `state` may run a command now.
pub open spec fn ready_to_run(state: SessionState, has_command: bool) -> bool {
    !(state is TimedOut) && has_command
}

/// The session state machine. The interpreter process itself and its
/// streams are owned by the caller; this records what the session is
/// allowed to do.
pub struct BashSession {
    /// Current lifecycle state.
    pub state: SessionState,
}

impl BashSession {
    /// A fresh session: no process yet.
    pub fn new() -> (r: BashSession)
        ensures
            r.state is NotStarted,
    {
        BashSession { state: SessionState::NotStarted }
    }

    /// An explicit restart: whatever came before, the session is live again
    /// (the caller has killed any old process and started a fresh one). The
    /// result's advisory field reports the restart; no command is run.
    pub fn on_restart(&mut self) -> (r: ToolResult)
        ensures
            final(self).state is Running,
            r.output is None,
            r.error is None,
            r.base64_image is None,
            str_opt(r.system) == Some("The tool has been restarted."@),
    {
        self.state = SessionState::Running;
        let mut m: Vec<char> = Vec::new();
        push_str_chars(&mut m, "The tool has been restarted.");
        ToolResult { output: None, error: None, base64_image: None, system: Some(chars_to_string(&m)) }
    }

    /// The caller has started (or found live) an interpreter process.
    pub fn on_start(&mut self)
        ensures
            final(self).state is Running,
    {
        self.state = SessionState::Running;
    }

    /// Admission check before a command: a timed-out session rejects every
    /// command until an explicit restart, and a command must be present.
    pub fn check_ready(&self, has_command: bool) -> (r: Result<(), ToolError>)
        ensures
            r is Ok <==> ready_to_run(self.state, has_command),
            r is Err && self.state is TimedOut ==> r->Err_0.message@
                == "The session has timed out; restart it with restart: true"@,
            r is Err && !(self.state is TimedOut) ==> r->Err_0.message@
                == "No command was provided."@,
    {
        match self.state {
            SessionState::TimedOut => {
                let mut m: Vec<char> = Vec::new();
                push_str_chars(&mut m, "The session has timed out; restart it with restart: true");
                Err(ToolError::new(chars_to_string(&m)))
            },
            _ => {
                if has_command {
                    Ok(())
                } else {
                    let mut m: Vec<char> = Vec::new();
                    push_str_chars(&mut m, "No command was provided.");
                    Err(ToolError::new(chars_to_string(&m)))
                }
            },
        }
    }

    /// The command overran its wall-clock budget: the session is marked
    /// timed out (commands are rejected until an explicit restart) and the
    /// returned error names the budget and the command.
    pub fn on_timeout(&mut self, command: &String) -> (e: ToolError)
        ensures
            final(self).state is TimedOut,
            e.message@ == "Command execution timed out ("@ + dec_digits(TIMEOUT_SECONDS as nat)
                + " seconds): "@ + command@,
    {
        self.state = SessionState::TimedOut;
        let mut m: Vec<char> = Vec::new();
        push_str_chars(&mut m, "Command execution timed out (");
        push_dec_u64(&mut m, TIMEOUT_SECONDS);
        push_str_chars(&mut m, " seconds): ");
        push_str_chars(&mut m, command.as_str());
        ToolError::new(chars_to_string(&m))
    }

    /// The framing reported that the command itself overran the inner
    /// budget: the session is marked timed out and the returned error names
    /// the budget.
    pub fn on_inner_timeout(&mut self) -> (e: ToolError)
        ensures
            final(self).state is TimedOut,
            e.message@ == "Command execution timed out ("@ + dec_digits(TIMEOUT_SECONDS as nat)
                + " seconds)"@,
    {
        self.state = SessionState::TimedOut;
        let mut m: Vec<char> = Vec::new();
        push_str_chars(&mut m, "Command execution timed out (");
        push_dec_u64(&mut m, TIMEOUT_SECONDS);
        push_str_chars(&mut m, " seconds)");
        ToolError::new(chars_to_string(&m))
    }

    /// The interpreter process was found dead before the command was
    /// written: a normal, recoverable outcome. The result carries the exit
    /// code and advises a restart.
    pub fn on_process_exit(&self, code: Option<i32>) -> (r: ToolResult)
        ensures
            r.output is None,
            str_opt(r.error) == Some(
                "bash has exited with code "@ + crate::text::dec_digits_signed(
                    match code {
                        Some(c) => c as int,
                        None => -1,
                    },
                ),
            ),
            r.base64_image is None,
            str_opt(r.system) == Some("The tool must be restarted."@),
    {
        let c: i64 = match code {
            Some(c) => c as i64,
            None => -1,
        };
        let mut m: Vec<char> = Vec::new();
        push_str_chars(&mut m, "bash has exited with code ");
        crate::text::push_dec_i64(&mut m, c);
        let mut sysm: Vec<char> = Vec::new();
        push_str_chars(&mut sysm, "The tool must be restarted.");
        ToolResult {
            output: None,
            error: Some(chars_to_string(&m)),
            base64_image: None,
            system: Some(chars_to_string(&sysm)),
        }
    }
}

/// A timed-out session never admits a command; after an explicit restart a
/// session admits any present command again. This is the admission rule
/// that `check_ready` enforces and `on_restart` re-arms.
pub proof fn lemma_timed_out_until_restart(s: BashSession, hc: bool)
    ensures
        s.state is TimedOut ==> !ready_to_run(s.state, hc),
        s.state is Running ==> ready_to_run(s.state, true),
{
}

/// `s` with every double quote preceded by a backslash.
pub open spec fn escaped_quotes(s: Seq<char>) -> Seq<char>
    decreases s.len(),
{
    if s.len() == 0 {
        Seq::empty()
    } else {
        escaped_quotes(s.drop_last()) + if s.last() == '"' {
            seq!['\\', '"']
        } else {
            seq![s.last()]
        }
    }
}

fn escape_quotes(v: &Vec<char>) -> (r: Vec<char>)
    ensures
        r@ == escaped_quotes(v@),
{
    let mut out: Vec<char> = Vec::new();
    let mut i: usize = 0;
    while i < v.len()
        invariant
            i <= v@.len(),
            out@ == escaped_quotes(v@.take(i as int)),
        decreases v@.len() - i,
    {
        proof {
            assert(v@.take(i + 1).drop_last() =~= v@.take(i as int));
            assert(v@.take(i + 1).last() == v@[i as int]);
        }
        let c = v[i];
        if c == '"' {
            out.push('\\');
            out.push('"');
            proof {
                assert(out@ =~= escaped_quotes(v@.take(i + 1)));
            }
        } else {
            out.push(c);
            proof {
                assert(out@ =~= escaped_quotes(v@.take(i + 1)));
            }
        }
        i += 1;
    }
    proof {
        assert(v@.take(v@.len() as int) =~= v@);
    }
    out
}

/// The framed form of a command: the command (double quotes escaped) under
/// an inner timeout utility whose budget leaves the manager slack to react,
/// with standard error merged in, followed unconditionally by the sentinel
/// on a line of its own.
pub open spec fn wrapped_command(cmd: Seq<char>) -> Seq<char> {
    "{ timeout "@ + dec_digits((TIMEOUT_SECONDS - 5) as nat) + " "@ + escaped_quotes(cmd)
        + " || echo \""@ + timeout_marker() + "\"; } 2>&1; echo \""@ + sentinel() + "\""@
}

/// Frames `command` for the interpreter, as `wrapped_command` describes.
pub fn wrap_command(command: &String) -> (r: String)
    ensures
        r@ == wrapped_command(command@),
{
    let cv = str_to_chars(command.as_str());
    let escaped = escape_quotes(&cv);
    let mut m: Vec<char> = Vec::new();
    push_str_chars(&mut m, "{ timeout ");
    push_dec_u64(&mut m, TIMEOUT_SECONDS - 5);
    push_str_chars(&mut m, " ");
    push_chars(&mut m, &escaped);
    push_str_chars(&mut m, " || echo \"");
    push_str_chars(&mut m, "command execution timed out");
    push_str_chars(&mut m, "\"; } 2>&1; echo \"");
    push_str_chars(&mut m, "<<BASH_TOOL_SENTINEL_UNIQUE_STRING_12345>>");
    push_str_chars(&mut m, "\"");
    proof {
        assert(m@ =~= wrapped_command(command@));
    }
    chars_to_string(&m)
}

/// Reads a framed command's output line by line: accepts lines until the
/// sentinel line arrives (it is stripped) or the size ceiling is reached
/// (a truncation notice is appended and reading stops).
pub struct OutputReader {
    out: Vec<char>,
    kept: Ghost<Seq<Seq<char>>>,
    done: bool,
    truncated: bool,
}

impl OutputReader {
    /// The captured output is exactly the accepted lines (with a fixed
    /// notice appended after truncation or overtime), and no accepted line
    /// is the sentinel line.
    pub closed spec fn wf(&self) -> bool {
        &&& (self.truncated ==> self.done)
        &&& (!self.truncated ==> self.out@ == self.kept@.flatten())
        &&& (self.truncated ==> self.out@ == self.kept@.flatten() + overflow_notice()
            || self.out@ == self.kept@.flatten() + overtime_notice())
        &&& forall|i: int|
            0 <= i < self.kept@.len() ==> trim_spec(#[trigger] self.kept@[i]) != sentinel()
    }

    /// The lines accepted so far.
    pub closed spec fn lines(&self) -> Seq<Seq<char>> {
        self.kept@
    }

    /// The captured output so far.
    pub closed spec fn output_view(&self) -> Seq<char> {
        self.out@
    }

    /// Whether reading has stopped.
    pub closed spec fn is_done(&self) -> bool {
        self.done
    }

    pub fn new() -> (r: OutputReader)
        ensures
            r.wf(),
            r.lines() == Seq::<Seq<char>>::empty(),
            r.output_view() == Seq::<char>::empty(),
            !r.is_done(),
    {
        let r = OutputReader {
            out: Vec::new(),
            kept: Ghost(Seq::empty()),
            done: false,
            truncated: false,
        };
        proof {
            assert(Seq::<Seq<char>>::empty().flatten() =~= Seq::<char>::empty());
        }
        r
    }

    /// Offers one line read from the interpreter; returns whether reading
    /// must stop. The sentinel line stops reading and is never captured; a
    /// line that would pass the ceiling is dropped in favour of a
    /// truncation notice; any other line is appended to the output.
    pub fn push_line(&mut self, line: &String) -> (stop: bool)
        requires
            old(self).wf(),
            !old(self).is_done(),
        ensures
            final(self).wf(),
            ({
                if trim_spec(line@) == sentinel() {
                    stop && final(self).is_done() && final(self).lines() == old(self).lines()
                        && final(self).output_view() == old(self).output_view()
                } else if old(self).output_view().len() + line@.len() > MAX_OUTPUT_SIZE {
                    stop && final(self).is_done() && final(self).lines() == old(self).lines()
                        && final(self).output_view() == old(self).output_view()
                        + overflow_notice()
                } else {
                    !stop && !final(self).is_done() && final(self).lines() == old(
                        self,
                    ).lines().push(line@) && final(self).output_view() == old(self).output_view()
                        + line@
                }
            }),
    {
        broadcast use Seq::lemma_flatten_push;

        let lv = str_to_chars(line.as_str());
        let trimmed = trim_chars(&lv);
        let sent = str_to_chars("<<BASH_TOOL_SENTINEL_UNIQUE_STRING_12345>>");
        if chars_equal(&trimmed, &sent) {
            self.done = true;
            return true;
        }
        if self.out.len() > MAX_OUTPUT_SIZE || lv.len() > MAX_OUTPUT_SIZE - self.out.len() {
            push_str_chars(&mut self.out, "\n... output too large, truncated ...");
            self.done = true;
            self.truncated = true;
            return true;
        }
        push_chars(&mut self.out, &lv);
        proof {
            self.kept@ = self.kept@.push(line@);
        }
        false
    }

    /// The read loop overran the time budget: a notice is appended and
    /// reading stops.
    pub fn mark_overtime(&mut self)
        requires
            old(self).wf(),
            !old(self).is_done(),
        ensures
            final(self).wf(),
            final(self).is_done(),
            final(self).lines() == old(self).lines(),
            final(self).output_view() == old(self).output_view() + overtime_notice(),
    {
        push_str_chars(&mut self.out, "\ncommand took too long and was forcibly stopped");
        self.done = true;
        self.truncated = true;
    }

    /// Whether the captured output reports that the command overran the
    /// framing's inner budget (the marker or the overtime notice occurs).
    pub fn indicates_timeout(&self) -> (r: bool)
        ensures
            r == (has_match_from(self.output_view(), timeout_marker(), 0) || has_match_from(
                self.output_view(),
                "command took too long and was forcibly stopped"@,
                0,
            )),
    {
        let marker = str_to_chars("command execution timed out");
        let overtime = str_to_chars("command took too long and was forcibly stopped");
        proof {
            reveal_strlit("command execution timed out");
            reveal_strlit("command took too long and was forcibly stopped");
        }
        let a = match find_sub(&self.out, &marker, 0) {
            Some(_) => true,
            None => false,
        };
        if a {
            return true;
        }
        match find_sub(&self.out, &overtime, 0) {
            Some(_) => true,
            None => false,
        }
    }

    /// Assembles the command's result: the captured output (absent if
    /// empty) and the separately collected standard error text (absent if
    /// empty).
    pub fn into_result(self, stderr: String) -> (r: ToolResult)
        ensures
            self.output_view().len() == 0 ==> r.output is None,
            self.output_view().len() > 0 ==> str_opt(r.output) == Some(self.output_view()),
            stderr@.len() == 0 ==> r.error is None,
            stderr@.len() > 0 ==> r.error == Some(stderr),
            r.base64_image is None,
            r.system is None,
    {
        let output = if self.out.len() == 0 {
            None
        } else {
            Some(chars_to_string(&self.out))
        };
        let error = if stderr.as_str().unicode_len() == 0 {
            None
        } else {
            Some(stderr)
        };
        ToolResult { output, error, base64_image: None, system: None }
    }
}

/// The sentinel marker never appears in the output of a successful shell
/// result: the captured output consists exactly of the accepted lines (plus
/// a fixed notice after truncation or overtime, neither of which holds the
/// sentinel), and every accepted line differs from the sentinel after
/// trimming: the sentinel line the framing emits is always stripped.
pub proof fn lemma_sentinel_never_in_output(r: OutputReader)
    requires
        r.wf(),
    ensures
        forall|i: int| 0 <= i < r.lines().len() ==> trim_spec(#[trigger] r.lines()[i]) != sentinel(),
        r.output_view() == r.lines().flatten() || r.output_view() == r.lines().flatten()
            + overflow_notice() || r.output_view() == r.lines().flatten() + overtime_notice(),
{
}

} // verus!
