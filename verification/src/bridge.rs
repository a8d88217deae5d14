//! The line protocol of the debug bridge, a loopback command server for
//! driving the guest from a host over USB. Each input line is a shell command
//! run in a tracked working directory, or a control verb (`:timeout N`,
//! `:quit`); after each command the server writes its output and one trailer
//! line `###TERAX code=<exit> cwd=<cwd_after> timed_out=<bool>###`.
//!
//! `BridgeSession` holds what a connection remembers between lines and
//! decides what each line does; the connection loop performs it.
use vstd::prelude::*;
use crate::native::NativeCommandOutput;
use crate::text::{
    chars_of, dec, dec_bool, dec_int, parse_u64, parse_u64_spec, push_bool, push_chars,
    push_decimal, push_i32, push_range, push_str, strip_line_end, strip_line_end_len, string_of,
    trim, trim_bounds,
};

verus! {

/// Loopback port the bridge listens on.
pub const BRIDGE_PORT: u16 = 8765;

/// Time a command may run before a `:timeout` line changes it, in seconds.
pub const DEFAULT_TIMEOUT_SECS: u64 = 60;

/// What the connection does with one input line.
#[derive(Debug, PartialEq, Eq)]
pub enum BridgeAction {
    /// Nothing (an empty line).
    Skip,
    /// Close the connection.
    Quit,
    /// Write this text back.
    Reply(String),
    /// Run this shell command, then pass its result to `after_run`.
    Run(String),
}

/// The state of one bridge connection: the working directory commands run in
/// and their timeout.
#[derive(Debug)]
pub struct BridgeSession {
    cwd: String,
    timeout: u64,
}

/// The text of an input line once its trailing CR/LF are removed.
pub open spec fn command_text(line: Seq<char>) -> Seq<char> {
    strip_line_end(line)
}

/// The control verb that sets the timeout, with its trailing space.
pub open spec fn timeout_verb() -> Seq<char> {
    ":timeout "@
}

/// The timeout a `:timeout` line with argument `rest` sets, if it is a number.
pub open spec fn timeout_setting(rest: Seq<char>) -> Option<u64> {
    match parse_u64_spec(trim(rest)) {
        Some(v) => Some(if v >= 1 {
            v
        } else {
            1
        }),
        None => None,
    }
}

/// The trailer written after a command's output.
pub open spec fn run_trailer(code: i32, cwd: Seq<char>, timed_out: bool) -> Seq<char> {
    "\n###TERAX code="@ + dec_int(code as int) + " cwd="@ + cwd + " timed_out="@ + dec_bool(
        timed_out,
    ) + "###\n"@
}

/// Law: the trailer reports the command's own `timed_out` flag, whatever its
/// exit code and cwd: it ends with `true###` or `false###` and a newline
/// according to the flag, so a timed-out and a finished command never get
/// the same trailer.
pub proof fn lemma_trailer_reports_timeout(code: i32, cwd: Seq<char>, timed_out: bool)
    ensures
        ({
            let t = run_trailer(code, cwd, timed_out);
            let tail = dec_bool(timed_out) + "###\n"@;
            t.len() >= tail.len() && t.skip(t.len() - tail.len()) == tail
        }),
        run_trailer(code, cwd, true) != run_trailer(code, cwd, false),
{
    reveal_strlit("###\n");
    let tail = dec_bool(timed_out) + "###\n"@;
    let head = "\n###TERAX code="@ + dec_int(code as int) + " cwd="@ + cwd + " timed_out="@;
    let t = run_trailer(code, cwd, timed_out);
    assert(t == head + tail);
    assert(t.skip(t.len() - tail.len()) == tail);
    let a = run_trailer(code, cwd, true);
    let b = run_trailer(code, cwd, false);
    assert(a == head + dec_bool(true) + "###\n"@);
    assert(b == head + dec_bool(false) + "###\n"@);
    assert(a.len() != b.len());
}

fn chars_equal(a: &[char], b: &[char]) -> (r: bool)
    ensures
        r == (a@ == b@),
{
    if a.len() != b.len() {
        return false;
    }
    let mut i: usize = 0;
    while i < a.len()
        invariant
            a@.len() == b@.len(),
            i <= a@.len(),
            forall|j: int| 0 <= j < i ==> a@[j] == b@[j],
        decreases a.len() - i,
    {
        if a[i] != b[i] {
            return false;
        }
        i = i + 1;
    }
    proof {
        assert(a@ =~= b@);
    }
    true
}

fn chars_start_with(a: &[char], n: usize, prefix: &[char]) -> (r: bool)
    requires
        n <= a@.len(),
    ensures
        r == (prefix@.len() <= n && a@.take(n as int).take(prefix@.len() as int) == prefix@),
{
    if prefix.len() > n {
        return false;
    }
    let mut i: usize = 0;
    while i < prefix.len()
        invariant
            prefix@.len() <= n <= a@.len(),
            i <= prefix@.len(),
            forall|j: int| 0 <= j < i ==> a@[j] == prefix@[j],
        decreases prefix.len() - i,
    {
        if a[i] != prefix[i] {
            proof {
                assert(a@.take(n as int).take(prefix@.len() as int)[i as int] == a@[i as int]);
            }
            return false;
        }
        i = i + 1;
    }
    proof {
        assert(a@.take(n as int).take(prefix@.len() as int) =~= prefix@);
    }
    true
}

impl BridgeSession {
    #[verifier::type_invariant]
    spec fn inv(self) -> bool {
        &&& self.timeout >= 1
        &&& self.cwd@.len() > 0
    }

    /// The directory the next command runs in.
    pub closed spec fn cwd_view(&self) -> Seq<char> {
        self.cwd@
    }

    /// The timeout of the next command, in seconds.
    pub closed spec fn timeout_secs(&self) -> u64 {
        self.timeout
    }

    /// A new connection: commands run in `/root` with a 60 s timeout.
    pub fn new() -> (r: Self)
        ensures
            r.cwd_view() == "/root"@,
            r.timeout_secs() == DEFAULT_TIMEOUT_SECS,
    {
        proof {
            reveal_strlit("/root");
        }
        BridgeSession { cwd: "/root".to_owned(), timeout: DEFAULT_TIMEOUT_SECS }
    }

    /// The directory the next command runs in.
    pub fn cwd(&self) -> (r: &String)
        ensures
            r@ == self.cwd_view(),
    {
        &self.cwd
    }

    /// The timeout of the next command, in seconds; never below one.
    pub fn timeout(&self) -> (r: u64)
        ensures
            r == self.timeout_secs(),
            r >= 1,
    {
        proof {
            use_type_invariant(self);
        }
        self.timeout
    }

    /// The line written when a client connects.
    pub fn greeting(&self) -> (r: String)
        ensures
            r@ == "# terax-debug-bridge ready (cwd="@ + self.cwd_view() + ", timeout="@ + dec(
                self.timeout_secs() as nat,
            ) + "s). Lines are shell commands; ':timeout N' / ':quit' are control verbs.\n"@,
    {
        let mut out: Vec<char> = Vec::new();
        push_str(&mut out, "# terax-debug-bridge ready (cwd=");
        push_str(&mut out, self.cwd.as_str());
        push_str(&mut out, ", timeout=");
        push_decimal(&mut out, self.timeout as u128);
        push_str(
            &mut out,
            "s). Lines are shell commands; ':timeout N' / ':quit' are control verbs.\n",
        );
        string_of(&out)
    }

    /// Decides what an input line does. Trailing CR/LF are dropped; an empty
    /// line does nothing; `:quit` ends the connection; `:timeout N` sets the
    /// timeout to `N` (at least one second) and confirms it, or reports an
    /// argument that is not a number; anything else is a command to run.
    pub fn step(&mut self, line: &str) -> (r: BridgeAction)
        ensures
            final(self).cwd_view() == old(self).cwd_view(),
            final(self).timeout_secs() >= 1,
            ({
                let c = command_text(line@);
                if c.len() == 0 {
                    r is Skip && final(self).timeout_secs() == old(self).timeout_secs()
                } else if c == ":quit"@ {
                    r is Quit && final(self).timeout_secs() == old(self).timeout_secs()
                } else if timeout_verb().len() <= c.len() && c.take(timeout_verb().len() as int)
                    == timeout_verb() {
                    let rest = c.skip(timeout_verb().len() as int);
                    match timeout_setting(rest) {
                        Some(t) => final(self).timeout_secs() == t && (r matches BridgeAction::Reply(
                            m,
                        ) && m@ == "# timeout="@ + dec(t as nat) + "s\n"@),
                        None => final(self).timeout_secs() == old(self).timeout_secs()
                            && (r matches BridgeAction::Reply(m) && m@ == "# invalid timeout: "@
                            + rest + "\n"@),
                    }
                } else {
                    final(self).timeout_secs() == old(self).timeout_secs()
                        && (r matches BridgeAction::Run(cmd) && cmd@ == c)
                }
            }),
    {
        proof {
            use_type_invariant(&*self);
        }
        let cs = chars_of(line);
        let n = strip_line_end_len(&cs);
        if n == 0 {
            return BridgeAction::Skip;
        }
        let quit = chars_of(":quit");
        let mut command: Vec<char> = Vec::new();
        push_range(&mut command, &cs, 0, n);
        if chars_equal(&command, &quit) {
            return BridgeAction::Quit;
        }
        let verb = chars_of(":timeout ");
        if chars_start_with(&cs, n, &verb) {
            let vl = verb.len();
            proof {
                assert(command@ == cs@.take(n as int));
            }
            let (a, b) = trim_bounds(&cs, vl, n);
            proof {
                assert(cs@.subrange(vl as int, n as int) == command@.skip(vl as int));
            }
            match parse_u64(&cs, a, b) {
                Some(v) => {
                    let t: u64 = if v >= 1 {
                        v
                    } else {
                        1
                    };
                    self.timeout = t;
                    let mut out: Vec<char> = Vec::new();
                    push_str(&mut out, "# timeout=");
                    push_decimal(&mut out, t as u128);
                    push_str(&mut out, "s\n");
                    BridgeAction::Reply(string_of(&out))
                },
                None => {
                    let mut out: Vec<char> = Vec::new();
                    push_str(&mut out, "# invalid timeout: ");
                    push_range(&mut out, &cs, vl, n);
                    push_str(&mut out, "\n");
                    BridgeAction::Reply(string_of(&out))
                },
            }
        } else {
            BridgeAction::Run(string_of(&command))
        }
    }

    /// What is written after a command ran: its output and the trailer, or
    /// the error line. A non-empty `cwd_after` becomes the directory of the
    /// next command.
    pub fn after_run(&mut self, result: Result<NativeCommandOutput, String>) -> (r: String)
        ensures
            final(self).timeout_secs() == old(self).timeout_secs(),
            final(self).cwd_view().len() > 0,
            match result {
                Ok(o) => {
                    &&& final(self).cwd_view() == (if o.cwd_after@.len() > 0 {
                        o.cwd_after@
                    } else {
                        old(self).cwd_view()
                    })
                    &&& r@ == o.stdout@ + run_trailer(o.exit_code, final(self).cwd_view(), o.timed_out)
                },
                Err(e) => {
                    &&& final(self).cwd_view() == old(self).cwd_view()
                    &&& r@ == "\n###TERAX error="@ + e@ + "###\n"@
                },
            },
    {
        proof {
            use_type_invariant(&*self);
        }
        match result {
            Ok(output) => {
                if !output.cwd_after.as_str().is_empty() {
                    proof {
                        assert(output.cwd_after@.len() > 0);
                    }
                    self.cwd = output.cwd_after;
                }
                let mut out: Vec<char> = Vec::new();
                push_str(&mut out, output.stdout.as_str());
                push_str(&mut out, "\n###TERAX code=");
                push_i32(&mut out, output.exit_code);
                push_str(&mut out, " cwd=");
                push_str(&mut out, self.cwd.as_str());
                push_str(&mut out, " timed_out=");
                push_bool(&mut out, output.timed_out);
                push_str(&mut out, "###\n");
                string_of(&out)
            },
            Err(err) => {
                let mut out: Vec<char> = Vec::new();
                push_str(&mut out, "\n###TERAX error=");
                push_str(&mut out, err.as_str());
                push_str(&mut out, "###\n");
                string_of(&out)
            },
        }
    }
}

} // verus!
