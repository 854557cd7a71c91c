//! Commands for the illumos tooling: a program and an argument vector,
//! never a shell string, and what running one produced.
use vstd::prelude::*;
use crate::text::{chars_of, concat, dec_signed, has_char, string_from};

verus! {

/// Where `pfexec` lives on illumos.
pub const PFEXEC: &'static str = "/usr/bin/pfexec";

/// A program and its arguments.
#[derive(Debug, Clone, PartialEq, Eq)]
pub struct Command {
    /// Program name or path.
    pub program: String,
    /// Arguments, each passed verbatim.
    pub args: Vec<String>,
    /// Run through `pfexec` (a mutation that needs the RBAC profile).
    pub privileged: bool,
}

/// The views of a sequence of strings.
pub open spec fn string_views(v: Seq<String>) -> Seq<Seq<char>> {
    v.map_values(|s: String| s@)
}

/// An argument as a command line shows it: quoted when empty or spaced.
pub open spec fn shown_arg(a: Seq<char>) -> Seq<char> {
    if a.len() == 0 || a.contains(' ') {
        seq!['\''] + a + seq!['\'']
    } else {
        a
    }
}

/// The arguments as a command line shows them, each after a space.
pub open spec fn shown_args(args: Seq<Seq<char>>) -> Seq<char>
    decreases args.len(),
{
    if args.len() == 0 {
        Seq::<char>::empty()
    } else {
        shown_args(args.drop_last()) + seq![' '] + shown_arg(args.last())
    }
}

/// The command line without `pfexec`.
pub open spec fn plain_line(c: Command) -> Seq<char> {
    c.program@ + shown_args(string_views(c.args@))
}

/// The command line as typed, `pfexec ` first when privileged.
pub open spec fn display_line(c: Command) -> Seq<char> {
    if c.privileged {
        "pfexec "@ + plain_line(c)
    } else {
        plain_line(c)
    }
}

impl Command {
    /// A command with no arguments.
    pub fn new(program: &str) -> (c: Command)
        ensures
            c.program@ == program@,
            c.args@.len() == 0,
            !c.privileged,
    {
        Command { program: program.to_owned(), args: Vec::new(), privileged: false }
    }

    /// The command with one more argument.
    pub fn arg(self, a: &str) -> (c: Command)
        ensures
            c.program == self.program,
            string_views(c.args@) == string_views(self.args@).push(a@),
            c.privileged == self.privileged,
    {
        let mut c = self;
        c.args.push(a.to_owned());
        assert(string_views(c.args@) == string_views(self.args@).push(a@));
        c
    }

    /// The command with one more argument, given as a `String`.
    pub fn arg_string(self, a: String) -> (c: Command)
        ensures
            c.program == self.program,
            string_views(c.args@) == string_views(self.args@).push(a@),
            c.privileged == self.privileged,
    {
        let ghost av = a@;
        let mut c = self;
        c.args.push(a);
        assert(string_views(c.args@) == string_views(self.args@).push(av));
        c
    }

    /// The command with several more arguments.
    pub fn args(self, list: &[&str]) -> (c: Command)
        ensures
            c.program == self.program,
            string_views(c.args@) == string_views(self.args@) + list@.map_values(|s: &str| s@),
            c.privileged == self.privileged,
    {
        let mut c = self;
        let mut i: usize = 0;
        while i < list.len()
            invariant
                0 <= i <= list.len(),
                c.program == self.program,
                c.privileged == self.privileged,
                string_views(c.args@) == string_views(self.args@) + list@.take(i as int).map_values(|s: &str| s@),
            decreases list.len() - i,
        {
            let ghost before = string_views(c.args@);
            c.args.push(list[i].to_owned());
            assert(string_views(c.args@) == before.push(list@[i as int]@));
            assert(list@.take(i + 1).map_values(|s: &str| s@) == list@.take(i as int).map_values(|s: &str| s@).push(list@[i as int]@));
            i = i + 1;
        }
        assert(list@.take(list.len() as int) == list@);
        c
    }

    /// Marked to run through `pfexec`.
    pub fn privileged(self) -> (c: Command)
        ensures
            c.program == self.program,
            c.args == self.args,
            c.privileged,
    {
        let mut c = self;
        c.privileged = true;
        c
    }

    /// The command line as it would be typed, for logs and errors.
    pub fn display(&self) -> (r: String)
        ensures
            r@ == display_line(*self),
    {
        let p = self.plain_chars();
        if self.privileged {
            let pre = chars_of("pfexec ");
            let all = concat(pre.as_slice(), p.as_slice());
            string_from(all.as_slice())
        } else {
            string_from(p.as_slice())
        }
    }

    /// The command line without the `pfexec` prefix; what scripts match.
    pub fn plain(&self) -> (r: String)
        ensures
            r@ == plain_line(*self),
    {
        let p = self.plain_chars();
        string_from(p.as_slice())
    }

    fn plain_chars(&self) -> (r: Vec<char>)
        ensures
            r@ == plain_line(*self),
    {
        let mut s = chars_of(self.program.as_str());
        let mut i: usize = 0;
        while i < self.args.len()
            invariant
                0 <= i <= self.args.len(),
                s@ == self.program@ + shown_args(string_views(self.args@).take(i as int)),
            decreases self.args.len() - i,
        {
            let a = chars_of(self.args[i].as_str());
            s.push(' ');
            let shown = if a.len() == 0 || has_char(a.as_slice(), ' ') {
                let mut q: Vec<char> = Vec::new();
                q.push('\'');
                let q = concat(q.as_slice(), a.as_slice());
                let mut q = q;
                q.push('\'');
                q
            } else {
                a
            };
            let ghost prev = s@;
            s = concat(s.as_slice(), shown.as_slice());
            proof {
                let v = string_views(self.args@);
                assert(v.take(i + 1).drop_last() == v.take(i as int));
                assert(v.take(i + 1).last() == self.args@[i as int]@);
                assert(shown@ == shown_arg(self.args@[i as int]@));
                assert(s@ == self.program@ + (shown_args(v.take(i as int)) + seq![' '] + shown_arg(self.args@[i as int]@)));
            }
            i = i + 1;
        }
        assert(string_views(self.args@).take(self.args.len() as int) == string_views(self.args@));
        s
    }
}

/// What a program produced.
#[derive(Debug, Clone, Default, PartialEq, Eq)]
pub struct Output {
    /// Exit status; `-1` when killed by a signal.
    pub status: i32,
    /// Standard output, lossily decoded.
    pub stdout: String,
    /// Standard error, lossily decoded.
    pub stderr: String,
}

/// Why a command did not succeed.
#[derive(Debug, Clone)]
pub enum ShellError {
    /// The program could not be started.
    Spawn {
        /// The command line.
        command: String,
        /// The OS error text.
        reason: String,
    },
    /// The program ran and reported failure.
    Failed {
        /// The command line.
        command: String,
        /// Exit status.
        status: i32,
        /// Trimmed standard error.
        stderr: String,
    },
    /// The program was not scripted (fake runner only).
    Unscripted {
        /// The command line.
        command: String,
    },
}

/// The message a shell error shows.
pub open spec fn shell_message(e: ShellError) -> Seq<char> {
    match e {
        ShellError::Spawn { command, reason } => "cannot run "@ + command@ + ": "@ + reason@,
        ShellError::Failed { command, status, stderr } => command@ + " failed (status "@ + dec_signed(status as int)
            + "): "@ + stderr@,
        ShellError::Unscripted { command } => "no scripted answer for "@ + command@,
    }
}

/// The tool's own message in an error, empty when there is none.
pub open spec fn error_text(e: ShellError) -> Seq<char> {
    match e {
        ShellError::Failed { stderr, .. } => stderr@,
        ShellError::Spawn { reason, .. } => reason@,
        ShellError::Unscripted { .. } => Seq::<char>::empty(),
    }
}

impl ShellError {
    /// The tool's own message, when it produced one.
    pub fn stderr(&self) -> (r: &str)
        ensures
            r@ == error_text(*self),
    {
        match self {
            ShellError::Failed { stderr, .. } => stderr.as_str(),
            ShellError::Spawn { reason, .. } => reason.as_str(),
            ShellError::Unscripted { .. } => {
                proof {
                    reveal_strlit("");
                }
                assert(""@ =~= Seq::<char>::empty());
                ""
            },
        }
    }

    /// The message the error shows.
    pub fn message(&self) -> (r: String)
        ensures
            r@ == shell_message(*self),
    {
        match self {
            ShellError::Spawn { command, reason } => {
                let a = chars_of("cannot run ");
                let b = concat(a.as_slice(), chars_of(command.as_str()).as_slice());
                let c = concat(b.as_slice(), chars_of(": ").as_slice());
                let d = concat(c.as_slice(), chars_of(reason.as_str()).as_slice());
                string_from(d.as_slice())
            },
            ShellError::Failed { command, status, stderr } => {
                let a = chars_of(command.as_str());
                let b = concat(a.as_slice(), chars_of(" failed (status ").as_slice());
                let n = if *status < 0 {
                    let m = crate::text::dec_chars((-(*status as i64)) as u64);
                    let mut neg: Vec<char> = Vec::new();
                    neg.push('-');
                    assert(neg@ == seq!['-']);
                    concat(neg.as_slice(), m.as_slice())
                } else {
                    crate::text::dec_chars(*status as u64)
                };
                assert(n@ == dec_signed(*status as int));
                let c = concat(b.as_slice(), n.as_slice());
                let d = concat(c.as_slice(), chars_of("): ").as_slice());
                let e = concat(d.as_slice(), chars_of(stderr.as_str()).as_slice());
                string_from(e.as_slice())
            },
            ShellError::Unscripted { command } => {
                let a = chars_of("no scripted answer for ");
                let b = concat(a.as_slice(), chars_of(command.as_str()).as_slice());
                string_from(b.as_slice())
            },
        }
    }
}

/// A coarse classification of a driver failure, for HTTP mapping.
#[derive(Debug, Clone, Copy, PartialEq, Eq, Structural)]
pub enum FailureKind {
    /// The object does not exist.
    NotFound,
    /// The object already exists.
    Exists,
    /// Busy, has dependents, or otherwise refused for now.
    Conflict,
    /// Not permitted.
    Forbidden,
    /// Bad arguments.
    Invalid,
    /// Anything else.
    Other,
}

/// The program that spawns commands, `pfexec` first when privileged.
#[derive(Debug, Clone)]
pub struct SystemRunner {
    pfexec: String,
}

impl SystemRunner {
    /// A runner using the standard `pfexec` path.
    pub fn new() -> (r: SystemRunner)
        ensures
            r.pfexec_path() == PFEXEC@,
    {
        SystemRunner { pfexec: PFEXEC.to_owned() }
    }

    /// A runner with a different privilege-escalation program.
    pub fn with_pfexec(pfexec: &str) -> (r: SystemRunner)
        ensures
            r.pfexec_path() == pfexec@,
    {
        SystemRunner { pfexec: pfexec.to_owned() }
    }

    /// The privilege-escalation program, in the contracts.
    pub closed spec fn pfexec_path(&self) -> Seq<char> {
        self.pfexec@
    }

    /// The privilege-escalation program this runner uses.
    pub fn pfexec(&self) -> (r: &str)
        ensures
            r@ == self.pfexec_path(),
    {
        self.pfexec.as_str()
    }
}

impl Default for SystemRunner {
    fn default() -> (r: SystemRunner)
        ensures
            r.pfexec_path() == PFEXEC@,
    {
        SystemRunner::new()
    }
}

/// A canned answer for a scripted runner.
#[derive(Debug)]
pub struct Script {
    /// Matches when the command line starts with this text.
    pub prefix: String,
    /// What to answer.
    pub answer: Result<Output, ShellError>,
}

} // verus!
