//! Child processes of extensions: what may be started, what is kept of their
//! output, and when they are started again.
use vstd::prelude::*;

use crate::error::{ErrorView, OpsCodexError, OpsResult};
use crate::text::{
    chars_of, contains, contains_str, decimal, decimal_of, has_char, has_prefix, is_lower, same,
    split, split_str, starts_with, string_of, views,
};

verus! {

pub const MAX_STDERR_BYTES: usize = 4096;

pub const MAX_RESTARTS: u32 = 5;

/// A process that is to be started. Times are in seconds, paths are texts.
#[derive(Debug)]
pub struct SpawnSpec {
    pub command: String,
    pub args: Vec<String>,
    pub cwd: Option<String>,
    pub env: Vec<(String, String)>,
    pub timeout: u64,
    pub max_output_bytes: usize,
}

/// What a process left behind.
#[derive(Debug)]
pub struct SupervisorOutput {
    pub stdout: Vec<u8>,
    pub stderr: Vec<u8>,
    pub truncated: bool,
}

#[derive(Clone, Copy, Debug)]
pub struct ChildSupervisor {
    pub max_restarts: u32,
}

impl Default for ChildSupervisor {
    fn default() -> (r: Self)
        ensures
            r.max_restarts == 2,
    {
        ChildSupervisor { max_restarts: 2 }
    }
}

// ---------------------------------------------------------------------------
// Paths
// ---------------------------------------------------------------------------
pub open spec fn path_error(path: Seq<char>) -> Option<ErrorView> {
    if path.contains('\0') || split(path, '/').contains(".."@) {
        Some(ErrorView::Policy("extension path cannot contain parent directory segments"@))
    } else {
        None
    }
}

/// What is wrong with a command; `exists` tells whether there is such a file.
pub open spec fn command_error(command: Seq<char>, exists: bool) -> Option<ErrorView> {
    if path_error(command) is Some {
        path_error(command)
    } else if !starts_with(command, "/"@) {
        Some(ErrorView::Policy("extension command must be an absolute path"@))
    } else if !exists {
        Some(ErrorView::NotFound("extension command "@ + command))
    } else {
        None
    }
}

pub fn validate_path(path: &str) -> (r: OpsResult<()>)
    ensures
        match r {
            Ok(_) => path_error(path@) is None,
            Err(e) => path_error(path@) == Some(e@),
        },
{
    let parts = split_str(path, '/');
    let ghost seen = views(parts@);
    let mut bad = has_char(path, '\0');
    let mut i: usize = 0;
    while i < parts.len() && !bad
        invariant
            i <= parts@.len(),
            seen == views(parts@),
            seen == split(path@, '/'),
            bad ==> path_error(path@) is Some,
            !bad ==> !path@.contains('\0'),
            !bad ==> forall|k: int| 0 <= k < i ==> #[trigger] seen[k] != ".."@,
        decreases parts@.len() - i,
    {
        assert(seen[i as int] == parts@[i as int]@);
        if same(parts[i].as_str(), "..") {
            assert(seen.contains(".."@));
            bad = true;
        }
        i += 1;
    }
    if bad {
        return Err(
            OpsCodexError::Policy(
                "extension path cannot contain parent directory segments".to_owned(),
            ),
        );
    }
    Ok(())
}

pub fn validate_command(command: &str, exists: bool) -> (r: OpsResult<()>)
    ensures
        match r {
            Ok(_) => command_error(command@, exists) is None,
            Err(e) => command_error(command@, exists) == Some(e@),
        },
{
    match validate_path(command) {
        Ok(_) => {},
        Err(e) => return Err(e),
    }
    if !has_prefix(command, "/") {
        return Err(OpsCodexError::Policy("extension command must be an absolute path".to_owned()));
    }
    if !exists {
        let mut message = "extension command ".to_owned();
        message.append(command);
        return Err(OpsCodexError::NotFound(message));
    }
    Ok(())
}

// ---------------------------------------------------------------------------
// Environment
// ---------------------------------------------------------------------------
pub open spec fn upper_char(c: char) -> char {
    if is_lower(c) {
        ((c as u32) - 32) as char
    } else {
        c
    }
}

/// The text with the letters a to z in upper case.
pub open spec fn upper(s: Seq<char>) -> Seq<char> {
    s.map_values(|c: char| upper_char(c))
}

fn upper_str(s: &str) -> (r: String)
    ensures
        r@ == upper(s@),
{
    let chars = chars_of(s);
    let mut out: Vec<char> = Vec::new();
    let mut i: usize = 0;
    while i < chars.len()
        invariant
            i <= chars@.len(),
            out@.len() == i,
            forall|k: int| 0 <= k < i ==> #[trigger] out@[k] == upper_char(chars@[k]),
        decreases chars@.len() - i,
    {
        let c: char = chars[i];
        if c >= 'a' && c <= 'z' {
            let code: u8 = c as u8;
            out.push((code - 32) as char);
        } else {
            out.push(c);
        }
        i += 1;
    }
    assert(out@ =~= upper(s@));
    string_of(&out)
}

/// The variable may hold a credential.
pub open spec fn may_be_secret(key: Seq<char>) -> bool {
    let name = upper(key);
    contains(name, "TOKEN"@) || contains(name, "SECRET"@) || contains(name, "PASSWORD"@)
        || contains(name, "API_KEY"@) || name == "AWS_SECRET_ACCESS_KEY"@ || name
        == "OPENAI_API_KEY"@
}

pub fn is_blocked_env(key: &str) -> (r: bool)
    ensures
        r == may_be_secret(key@),
{
    let name = upper_str(key);
    let name = name.as_str();
    contains_str(name, "TOKEN") || contains_str(name, "SECRET") || contains_str(name, "PASSWORD")
        || contains_str(name, "API_KEY") || same(name, "AWS_SECRET_ACCESS_KEY") || same(
        name,
        "OPENAI_API_KEY",
    )
}

/// The variables that a process is given.
pub open spec fn passed_on(env: Seq<(String, String)>) -> Seq<(String, String)>
    decreases env.len(),
{
    if env.len() == 0 {
        Seq::empty()
    } else if may_be_secret(env.last().0@) {
        passed_on(env.drop_last())
    } else {
        passed_on(env.drop_last()).push(env.last())
    }
}

/// The variables that a process is given, in order; none that may hold a
/// credential is among them.
pub fn child_env(env: &Vec<(String, String)>) -> (r: Vec<(String, String)>)
    ensures
        r@ == passed_on(env@),
        forall|i: int| 0 <= i < r@.len() ==> !may_be_secret((#[trigger] r@[i]).0@),
{
    let mut r: Vec<(String, String)> = Vec::new();
    let mut i: usize = 0;
    assert(env@.take(0) =~= Seq::empty());
    while i < env.len()
        invariant
            i <= env@.len(),
            r@ == passed_on(env@.take(i as int)),
            forall|k: int| 0 <= k < r@.len() ==> !may_be_secret((#[trigger] r@[k]).0@),
        decreases env@.len() - i,
    {
        assert(env@.take(i + 1).drop_last() =~= env@.take(i as int));
        assert(env@.take(i + 1).last() == env@[i as int]);
        if !is_blocked_env(env[i].0.as_str()) {
            r.push((env[i].0.clone(), env[i].1.clone()));
        }
        i += 1;
    }
    assert(env@.take(i as int) =~= env@);
    r
}

// ---------------------------------------------------------------------------
// Output
// ---------------------------------------------------------------------------
/// What is kept of an output, and whether something was left out.
pub open spec fn kept(output: Seq<u8>, max: int) -> (Seq<u8>, bool) {
    if output.len() > max {
        (output.take(max), true)
    } else {
        (output, false)
    }
}

/// An output that is read piece by piece.
#[derive(Debug)]
pub struct BoundedOutput {
    pub max: usize,
    pub bytes: Vec<u8>,
    pub truncated: bool,
}

impl BoundedOutput {
    pub open spec fn well_formed(&self) -> bool {
        self.bytes@.len() <= self.max && (self.truncated ==> self.bytes@.len() == self.max)
    }

    /// What was kept of what has been read.
    pub open spec fn holds(&self, output: Seq<u8>) -> bool {
        (self.bytes@, self.truncated) == kept(output, self.max as int)
    }

    pub fn new(max: usize) -> (r: Self)
        ensures
            r.well_formed(),
            r.max == max,
            r.holds(Seq::empty()),
    {
        BoundedOutput { max, bytes: Vec::new(), truncated: false }
    }

    /// Takes the next piece of the output. Whatever had been read before it, the
    /// same is kept as if all had been read at once.
    pub fn accept(&mut self, piece: &[u8])
        requires
            old(self).well_formed(),
        ensures
            final(self).well_formed(),
            final(self).max == old(self).max,
            forall|output: Seq<u8>| #[trigger]
                old(self).holds(output) ==> final(self).holds(output + piece@),
    {
        let ghost before = self.bytes@;
        if self.truncated {
            proof {
                let max = self.max as int;
                assert forall|output: Seq<u8>| #[trigger] old(self).holds(output) implies self.holds(
                    output + piece@,
                ) by {
                    assert((output + piece@).take(max) =~= output.take(max));
                }
            }
            return;
        }
        let remaining = self.max - self.bytes.len();
        let wanted = if piece.len() > remaining {
            remaining
        } else {
            piece.len()
        };
        let mut i: usize = 0;
        while i < wanted
            invariant
                i <= wanted <= piece@.len(),
                self.max == old(self).max,
                !self.truncated,
                self.bytes@ == before + piece@.take(i as int),
            decreases wanted - i,
        {
            self.bytes.push(piece[i]);
            assert(self.bytes@ =~= before + piece@.take(i + 1));
            i += 1;
        }
        if piece.len() > remaining {
            self.truncated = true;
        }
        proof {
            let max = self.max as int;
            assert forall|output: Seq<u8>| #[trigger] old(self).holds(output) implies self.holds(
                output + piece@,
            ) by {
                let all = output + piece@;
                assert(before == output);
                if piece@.len() > remaining {
                    assert(all.take(max) =~= before + piece@.take(wanted as int));
                } else {
                    assert(all =~= before + piece@.take(wanted as int));
                }
            }
        }
    }
}

/// What was read and kept does not depend on how the output came in pieces.
pub proof fn law_pieces_do_not_matter(a: BoundedOutput, b: BoundedOutput, output: Seq<u8>)
    requires
        a.holds(output),
        b.holds(output),
        a.max == b.max,
    ensures
        a.bytes@ == b.bytes@,
        a.truncated == b.truncated,
        a.bytes@.len() <= a.max,
{
}

// ---------------------------------------------------------------------------
// One run
// ---------------------------------------------------------------------------
/// How the wait for a process ended.
#[derive(Debug)]
pub enum Waited {
    Cancelled,
    TimedOut,
    Failed(String),
    Exited { success: bool, code: Option<i32> },
}

/// The numeral of a number with its sign.
pub open spec fn signed(n: int) -> Seq<char> {
    if n < 0 {
        "-"@ + decimal((-n) as nat)
    } else {
        decimal(n as nat)
    }
}

fn signed_of(n: i32) -> (r: String)
    ensures
        r@ == signed(n as int),
{
    if n < 0 {
        let mut r = "-".to_owned();
        let magnitude: i64 = -(n as i64);
        r.append(decimal_of(magnitude as u64).as_str());
        r
    } else {
        decimal_of(n as u64)
    }
}

pub open spec fn wait_error(waited: Waited) -> Option<ErrorView> {
    match waited {
        Waited::Cancelled => Some(ErrorView::Cancelled),
        Waited::TimedOut => Some(ErrorView::Timeout("extension process timed out"@)),
        Waited::Failed(e) => Some(ErrorView::Tool("extension process wait failed: "@ + e@)),
        Waited::Exited { success, code } => if success {
            None
        } else {
            Some(
                ErrorView::Tool(
                    "extension process exited with "@ + signed(
                        match code {
                            Some(code) => code as int,
                            None => -1,
                        },
                    ),
                ),
            )
        },
    }
}

/// What came of a process that was started, given what was kept of its output.
pub fn finish_run(waited: Waited, stdout: BoundedOutput, stderr: BoundedOutput) -> (r: OpsResult<
    SupervisorOutput,
>)
    ensures
        match r {
            Ok(output) => wait_error(waited) is None && output.stdout == stdout.bytes
                && output.stderr == stderr.bytes && output.truncated == stdout.truncated,
            Err(e) => wait_error(waited) == Some(e@),
        },
{
    match waited {
        Waited::Cancelled => Err(OpsCodexError::Cancelled),
        Waited::TimedOut => Err(OpsCodexError::Timeout("extension process timed out".to_owned())),
        Waited::Failed(e) => {
            let mut message = "extension process wait failed: ".to_owned();
            message.append(e.as_str());
            Err(OpsCodexError::Tool(message))
        },
        Waited::Exited { success, code } => {
            if success {
                return Ok(
                    SupervisorOutput {
                        stdout: stdout.bytes,
                        stderr: stderr.bytes,
                        truncated: stdout.truncated,
                    },
                );
            }
            let code: i32 = match code {
                Some(code) => code,
                None => -1,
            };
            let mut message = "extension process exited with ".to_owned();
            message.append(signed_of(code).as_str());
            Err(OpsCodexError::Tool(message))
        },
    }
}

// ---------------------------------------------------------------------------
// Restarts
// ---------------------------------------------------------------------------
pub open spec fn is_retryable(error: ErrorView) -> bool {
    error is Timeout || error is Tool
}

pub fn is_retryable_supervisor_failure(error: &OpsCodexError) -> (r: bool)
    ensures
        r == is_retryable(error@),
{
    match error {
        OpsCodexError::Timeout(_) => true,
        OpsCodexError::Tool(_) => true,
        _ => false,
    }
}

/// What follows an attempt.
#[derive(Debug)]
pub enum Attempt {
    Again(u32),
    Done(OpsResult<SupervisorOutput>),
}

impl ChildSupervisor {
    /// A supervisor that starts a process again no more than a few times.
    pub fn new(max_restarts: u32) -> (r: Self)
        ensures
            r.max_restarts == (if max_restarts < MAX_RESTARTS {
                max_restarts
            } else {
                MAX_RESTARTS
            }),
    {
        ChildSupervisor {
            max_restarts: if max_restarts < MAX_RESTARTS {
                max_restarts
            } else {
                MAX_RESTARTS
            },
        }
    }

    /// What is wrong with a process that is to be started.
    pub open spec fn spawn_error(spec: SpawnSpec, exists: bool) -> Option<ErrorView> {
        match command_error(spec.command@, exists) {
            Some(e) => Some(e),
            None => match spec.cwd {
                Some(cwd) => path_error(cwd@),
                None => None,
            },
        }
    }

    /// Whether a process may be started; `exists` tells whether there is such a
    /// command.
    pub fn check_spawn(spec: &SpawnSpec, exists: bool) -> (r: OpsResult<()>)
        ensures
            match r {
                Ok(_) => Self::spawn_error(*spec, exists) is None,
                Err(e) => Self::spawn_error(*spec, exists) == Some(e@),
            },
    {
        match validate_command(spec.command.as_str(), exists) {
            Ok(_) => {},
            Err(e) => return Err(e),
        }
        match &spec.cwd {
            Some(cwd) => validate_path(cwd.as_str()),
            None => Ok(()),
        }
    }

    /// A failure after `attempts` restarts leads to another one.
    pub open spec fn starts_again(&self, attempts: u32, error: ErrorView, cancelled: bool) -> bool {
        is_retryable(error) && attempts < self.max_restarts && !cancelled
    }

    /// What follows the outcome of a run, when the process was started again
    /// `attempts` times before.
    pub fn run_once(
        &self,
        attempts: u32,
        outcome: OpsResult<SupervisorOutput>,
        cancelled: bool,
    ) -> (r: Attempt)
        ensures
            match outcome {
                Ok(_) => r == Attempt::Done(outcome),
                Err(e) => if self.starts_again(attempts, e@, cancelled) {
                    r == Attempt::Again((attempts + 1) as u32)
                } else {
                    r == Attempt::Done(outcome)
                },
            },
    {
        match outcome {
            Ok(output) => Attempt::Done(Ok(output)),
            Err(error) => {
                if is_retryable_supervisor_failure(&error) && attempts < self.max_restarts
                    && !cancelled {
                    Attempt::Again(attempts + 1)
                } else {
                    Attempt::Done(Err(error))
                }
            },
        }
    }
}

/// The failures of a process, each of which led to another start.
pub open spec fn keeps_restarting(
    supervisor: ChildSupervisor,
    failures: Seq<(ErrorView, bool)>,
) -> bool {
    forall|i: int|
        0 <= i < failures.len() && i <= u32::MAX ==> supervisor.starts_again(
            i as u32,
            (#[trigger] failures[i]).0,
            failures[i].1,
        )
}

/// A process is not started again more often than the supervisor allows.
pub proof fn law_restarts_are_bounded(
    supervisor: ChildSupervisor,
    failures: Seq<(ErrorView, bool)>,
)
    requires
        keeps_restarting(supervisor, failures),
    ensures
        failures.len() <= supervisor.max_restarts,
{
    let i = supervisor.max_restarts as int;
    if failures.len() > i {
        assert(supervisor.starts_again(i as u32, failures[i].0, failures[i].1));
    }
}

} // verus!
