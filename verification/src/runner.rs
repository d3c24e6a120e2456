//! Running one command: what is asked, how each attempt is judged, when it is
//! tried again and after what wait, and what is reported at the end.

use vstd::prelude::*;
use vstd::string::*;
use crate::duration::{format_duration, rendered_duration, Duration};
use crate::model::RunStatus;
use crate::sorted_map::SortedMap;
use crate::text::{
    blank, chars_of, is_blank, join_lines, joined, lemma_tail_run_len, line_views, lines, lines_of,
    only, push_signed_decimal, signed_decimal, slice, string_of, views, without_trailing,
};

verus! {

/// The exit code reported for an attempt that ran out of time.
pub const EXIT_TIMEOUT: i32 = 124;

/// The exit code reported where no command could be run.
pub const EXIT_NOT_RUN: i32 = 127;

/// The longest wait between two attempts, in nanoseconds: one minute.
pub const BACKOFF_CEILING: u128 = 60_000_000_000;

/// How many lines of standard error are kept.
pub const TAIL_LINES: usize = 10;

/// How many characters of standard error are kept.
pub const TAIL_CHARS: usize = 1400;

/// One command to run, with how long it may take and how often it is tried.
#[derive(Debug, Clone)]
pub struct Request {
    pub name: String,
    pub command_preview: String,
    pub use_shell: bool,
    pub argv: Vec<String>,
    pub shell: String,
    pub dir: String,
    pub env: SortedMap<String>,
    pub timeout: Duration,
    pub retries: i32,
    pub retry_backoff: Duration,
    pub stream_output: bool,
}

/// What a run came to.
#[derive(Debug, Clone)]
pub struct RunResult {
    /// Nanoseconds since the Unix epoch, UTC.
    pub started_at: i128,
    pub duration: Duration,
    pub exit_code: i32,
    pub status: RunStatus,
    pub stderr_tail: Option<String>,
}

/// A run that failed, with the reason.
#[derive(Debug, Clone)]
pub struct RunFailure {
    pub result: RunResult,
    pub message: String,
}

/// The program to start and its arguments.
#[derive(Debug, Clone)]
pub struct CommandLine {
    pub program: String,
    pub args: Vec<String>,
}

/// The kind of system that the command runs on.
#[derive(Debug, Clone, Copy, PartialEq, Eq, Structural)]
pub enum Platform {
    Unix,
    Windows,
}

/// What one attempt came to.
#[derive(Debug, Clone)]
pub enum Attempt {
    /// The command ran and succeeded.
    Succeeded { exit_code: i32, stderr_tail: Option<String> },
    /// The command ran and failed, or ran out of time.
    Failed { exit_code: i32, stderr_tail: Option<String>, error: String },
    /// The command could not be run.
    NotRun { error: String },
}

/// What a run came to, all attempts taken together.
#[derive(Debug, Clone)]
pub struct Outcome {
    pub exit_code: i32,
    pub status: RunStatus,
    pub stderr_tail: Option<String>,
    pub error: Option<String>,
}

/// Where a run stands between attempts.
#[derive(Debug, Clone, Copy, PartialEq, Eq, Structural)]
pub struct Retry {
    /// How many attempts the run may make.
    pub attempts: u32,
    /// How many attempts have been made and have failed.
    pub made: u32,
    /// The wait after the first failed attempt.
    pub base: Duration,
}

/// What follows an attempt.
#[derive(Debug, Clone)]
pub enum Next {
    /// Wait, then make another attempt from `state`.
    Again { wait: Duration, state: Retry },
    /// The run is over.
    Finished(Outcome),
}

/// The last `limit` items of `s`, or all of them where there are no more.
pub open spec fn last_items<A>(s: Seq<A>, limit: nat) -> Seq<A> {
    if s.len() > limit {
        s.skip(s.len() - limit)
    } else {
        s
    }
}

/// The end of `input`: nothing where it holds only line feeds; else, of the
/// text before the line feeds that end it, the last `line_limit` lines, and of
/// those the last `char_limit` characters.
pub open spec fn tail_of(input: Seq<char>, line_limit: nat, char_limit: nat) -> Option<Seq<char>> {
    let trimmed = without_trailing(input, only('\n'));
    if trimmed.len() == 0 {
        None
    } else {
        Some(last_items(joined(last_items(lines_of(trimmed), line_limit), "\n"@), char_limit))
    }
}

/// The end of `input`, within the two limits.
pub fn tail(input: &str, line_limit: usize, char_limit: usize) -> (r: Option<String>)
    ensures
        match tail_of(input@, line_limit as nat, char_limit as nat) {
            Some(t) => r is Some && r->0@ == t,
            None => r is None,
        },
{
    let v = chars_of(input);
    let mut end: usize = v.len();
    while end > 0 && v[end - 1] == '\n'
        invariant
            end <= v.len(),
            forall|i: int| end <= i < v.len() ==> v@[i] == '\n',
        decreases end,
    {
        end -= 1;
    }
    proof {
        lemma_tail_run_len(v@, only('\n'), v.len() - end);
    }
    if end == 0 {
        return None;
    }
    let trimmed = slice(&v, 0, end);
    assert(trimmed@ == without_trailing(input@, only('\n')));
    let all = lines(&trimmed);
    let from: usize = if all.len() > line_limit {
        all.len() - line_limit
    } else {
        0
    };
    let out = join_lines(&all, from, "\n");
    proof {
        let views = line_views(all@);
        assert(views.len() == all.len());
        if from == 0 {
            assert(views.skip(0) == views);
        }
        assert(views.skip(from as int) == last_items(lines_of(trimmed@), line_limit as nat));
    }
    let start: usize = if out.len() > char_limit {
        out.len() - char_limit
    } else {
        0
    };
    proof {
        assert(out@.subrange(start as int, out.len() as int) == last_items(
            out@,
            char_limit as nat,
        ));
    }
    Some(string_of(&out, start, out.len()))
}

/// `base`, doubled `times` times: `base * 2^times`.
pub open spec fn doubling(base: nat, times: nat) -> nat
    decreases times,
{
    if times == 0 {
        base
    } else {
        2 * doubling(base, (times - 1) as nat)
    }
}

/// The wait after the failed attempt number `attempt`, counted from 0, in
/// nanoseconds: `base * 2^attempt`, and a minute at most.
pub open spec fn delay_of(base: nat, attempt: nat) -> nat {
    if doubling(base, attempt) < BACKOFF_CEILING {
        doubling(base, attempt)
    } else {
        BACKOFF_CEILING as nat
    }
}

/// Doubling more often gives no less.
pub proof fn lemma_doubling_grows(base: nat, a: nat, b: nat)
    requires
        a <= b,
    ensures
        doubling(base, a) <= doubling(base, b),
    decreases b,
{
    if a < b {
        lemma_doubling_grows(base, a, (b - 1) as nat);
    }
}

/// The wait after the failed attempt number `attempt`.
pub fn backoff_delay(base: Duration, attempt: u32) -> (d: Duration)
    ensures
        d@ == delay_of(base@, attempt as nat),
{
    let mut nanos: u128 = base.as_nanos();
    let mut i: u32 = 0;
    while i < attempt && nanos < BACKOFF_CEILING
        invariant
            i <= attempt,
            nanos == doubling(base@, i as nat),
        decreases attempt - i,
    {
        nanos = nanos * 2;
        i += 1;
    }
    if nanos < BACKOFF_CEILING {
        Duration::from_nanos(nanos)
    } else {
        proof {
            lemma_doubling_grows(base@, i as nat, attempt as nat);
        }
        Duration::from_nanos(BACKOFF_CEILING)
    }
}

/// Why a request cannot be run at all, if it cannot.
pub open spec fn request_error(req: Request) -> Option<Seq<char>> {
    if req.retries < 0 {
        Some("retries must be >= 0"@)
    } else if req.use_shell && blank(req.shell@) {
        Some("shell command is required"@)
    } else if !req.use_shell && req.argv@.len() == 0 {
        Some("exec command is required"@)
    } else {
        None
    }
}

/// The wait after the first failed attempt: the request's, or a second where
/// it gives none.
pub open spec fn base_wait(req: Request) -> Duration {
    if req.retry_backoff@ == 0 {
        Duration::of_secs(1)
    } else {
        req.retry_backoff
    }
}

/// What a failed attempt leaves as the outcome, if the run ends with it.
pub open spec fn failure_of(attempt: Attempt) -> Outcome {
    match attempt {
        Attempt::Succeeded { exit_code, stderr_tail } => Outcome {
            exit_code,
            status: RunStatus::Success,
            stderr_tail,
            error: None,
        },
        Attempt::Failed { exit_code, stderr_tail, error } => Outcome {
            exit_code,
            status: RunStatus::Failed,
            stderr_tail,
            error: Some(error),
        },
        Attempt::NotRun { error } => Outcome {
            exit_code: EXIT_NOT_RUN,
            status: RunStatus::Failed,
            stderr_tail: None,
            error: Some(error),
        },
    }
}

/// Where the run of `req` stands before its first attempt: it may make one
/// attempt more than `req` asks for retries. Nothing where `req` cannot be
/// run at all.
pub open spec fn first_state(req: Request) -> Option<Retry> {
    if request_error(req) is None {
        Some(Retry { attempts: (req.retries + 1) as u32, made: 0, base: base_wait(req) })
    } else {
        None
    }
}

impl Retry {
    /// Whether a further attempt may follow the next one.
    pub open spec fn more_left(self) -> bool {
        self.made + 1 < self.attempts
    }

    /// What follows an attempt that came to `attempt`: the end at once where
    /// it succeeded; where it failed, another attempt after the wait, as long
    /// as attempts are left, and else the end with this attempt's data.
    pub open spec fn next_of(self, attempt: Attempt) -> Next {
        if attempt is Succeeded || !self.more_left() {
            Next::Finished(failure_of(attempt))
        } else {
            Next::Again {
                wait: Duration { nanos: delay_of(self.base@, self.made as nat) as u128 },
                state: Retry { attempts: self.attempts, made: (self.made + 1) as u32, base: self.base },
            }
        }
    }

    /// Where the run of `req` stands before its first attempt; or why it
    /// cannot be run at all.
    pub fn start(req: &Request) -> (r: Result<Retry, String>)
        ensures
            match r {
                Ok(state) => first_state(*req) == Some(state),
                Err(message) => first_state(*req) is None && request_error(*req) == Some(
                    message@,
                ),
            },
    {
        if req.retries < 0 {
            return Err("retries must be >= 0".to_string());
        }
        if req.use_shell && is_blank(req.shell.as_str()) {
            return Err("shell command is required".to_string());
        }
        if !req.use_shell && req.argv.len() == 0 {
            return Err("exec command is required".to_string());
        }
        let base = if req.retry_backoff.is_zero() {
            Duration::from_secs(1)
        } else {
            req.retry_backoff
        };
        Ok(Retry { attempts: req.retries as u32 + 1, made: 0, base })
    }

    /// Takes in what an attempt came to and says what follows.
    pub fn record(self, attempt: Attempt) -> (next: Next)
        ensures
            next == self.next_of(attempt),
    {
        let more = self.made < self.attempts && self.attempts - self.made > 1;
        match attempt {
            Attempt::Succeeded { exit_code, stderr_tail } => Next::Finished(
                Outcome { exit_code, status: RunStatus::Success, stderr_tail, error: None },
            ),
            Attempt::Failed { exit_code, stderr_tail, error } => {
                if more {
                    self.again()
                } else {
                    Next::Finished(
                        Outcome {
                            exit_code,
                            status: RunStatus::Failed,
                            stderr_tail,
                            error: Some(error),
                        },
                    )
                }
            },
            Attempt::NotRun { error } => {
                if more {
                    self.again()
                } else {
                    Next::Finished(
                        Outcome {
                            exit_code: EXIT_NOT_RUN,
                            status: RunStatus::Failed,
                            stderr_tail: None,
                            error: Some(error),
                        },
                    )
                }
            },
        }
    }

    fn again(self) -> (next: Next)
        requires
            self.more_left(),
        ensures
            next == (Next::Again {
                wait: Duration { nanos: delay_of(self.base@, self.made as nat) as u128 },
                state: Retry { attempts: self.attempts, made: (self.made + 1) as u32, base: self.base },
            }),
    {
        let wait = backoff_delay(self.base, self.made);
        Next::Again {
            wait,
            state: Retry { attempts: self.attempts, made: self.made + 1, base: self.base },
        }
    }
}

/// The state after the first `k` of `reports`, as long as none of them has
/// ended the run.
pub open spec fn state_after(start: Retry, reports: Seq<Attempt>, k: nat) -> Option<Retry>
    decreases k,
{
    if k == 0 {
        Some(start)
    } else {
        match state_after(start, reports, (k - 1) as nat) {
            Some(state) => match state.next_of(reports[k - 1]) {
                Next::Again { state, .. } => Some(state),
                Next::Finished(_) => None,
            },
            None => None,
        }
    }
}

/// A run whose attempts all fail makes as many attempts as it may, no more
/// and no fewer. After the failed attempt number `k`, counted from 0, it
/// waits for `base * 2^k`, a minute at most, and tries again; after the last
/// it does not wait, and ends with what the last attempt came to.
pub proof fn lemma_all_attempts_fail(start: Retry, reports: Seq<Attempt>, k: nat)
    requires
        start.made == 0,
        1 <= start.attempts,
        reports.len() >= start.attempts,
        forall|i: int| 0 <= i < reports.len() ==> !(#[trigger] reports[i] is Succeeded),
        k < start.attempts,
    ensures
        state_after(start, reports, k) == Some(
            Retry { attempts: start.attempts, made: k as u32, base: start.base },
        ),
        k + 1 < start.attempts ==> (Retry {
            attempts: start.attempts,
            made: k as u32,
            base: start.base,
        }).next_of(reports[k as int]) == (Next::Again {
            wait: Duration { nanos: delay_of(start.base@, k) as u128 },
            state: Retry { attempts: start.attempts, made: (k + 1) as u32, base: start.base },
        }),
        k + 1 == start.attempts ==> (Retry {
            attempts: start.attempts,
            made: k as u32,
            base: start.base,
        }).next_of(reports[k as int]) == Next::Finished(failure_of(reports[k as int])),
    decreases k,
{
    if k > 0 {
        lemma_all_attempts_fail(start, reports, (k - 1) as nat);
    }
}

/// A request that asks for a negative number of retries is turned down
/// before any attempt. Any other that names a command may make one attempt
/// more than it asks for retries, and so one at least.
pub proof fn lemma_attempt_budget(req: Request)
    ensures
        req.retries < 0 ==> first_state(req) is None,
        first_state(req) is Some ==> first_state(req)->0.attempts == req.retries + 1
            && first_state(req)->0.attempts >= 1 && first_state(req)->0.made == 0,
        0 <= req.retries <= 10 && (if req.use_shell {
            !blank(req.shell@)
        } else {
            req.argv@.len() > 0
        }) ==> first_state(req) is Some,
{
}

/// The failure reported for a request that cannot be run at all.
pub fn rejected(message: String, now: i128) -> (failure: RunFailure)
    ensures
        failure.message == message,
        failure.result.started_at == now,
        failure.result.duration@ == 0,
        failure.result.exit_code == EXIT_NOT_RUN,
        failure.result.status == RunStatus::Failed,
        failure.result.stderr_tail is None,
{
    RunFailure {
        result: RunResult {
            started_at: now,
            duration: Duration::from_secs(0),
            exit_code: EXIT_NOT_RUN,
            status: RunStatus::Failed,
            stderr_tail: None,
        },
        message,
    }
}

/// The text of an error, if there is one; else nothing.
pub open spec fn error_text(error: Option<String>) -> Seq<char> {
    match error {
        Some(e) => e@,
        None => Seq::empty(),
    }
}

/// What is reported for a run that came to `outcome`, began at `started_at`
/// and took `elapsed`.
pub fn conclude(outcome: Outcome, started_at: i128, elapsed: Duration) -> (r: Result<
    RunResult,
    RunFailure,
>)
    ensures
        match r {
            Ok(result) => outcome.status == RunStatus::Success && result == (RunResult {
                started_at,
                duration: elapsed,
                exit_code: outcome.exit_code,
                status: RunStatus::Success,
                stderr_tail: outcome.stderr_tail,
            }),
            Err(failure) => outcome.status == RunStatus::Failed && failure.result == (RunResult {
                started_at,
                duration: elapsed,
                exit_code: outcome.exit_code,
                status: RunStatus::Failed,
                stderr_tail: outcome.stderr_tail,
            }) && failure.message@ == error_text(outcome.error),
        },
{
    let result = RunResult {
        started_at,
        duration: elapsed,
        exit_code: outcome.exit_code,
        status: outcome.status,
        stderr_tail: outcome.stderr_tail,
    };
    match outcome.status {
        RunStatus::Success => Ok(result),
        RunStatus::Failed => {
            let message = match outcome.error {
                Some(e) => e,
                None => String::new(),
            };
            Err(RunFailure { result, message })
        },
    }
}

/// How long to wait for the command: without limit where the timeout is
/// zero, else for the timeout.
pub fn wait_limit(timeout: Duration) -> (limit: Option<Duration>)
    ensures
        limit == if timeout@ == 0 {
            None
        } else {
            Some(timeout)
        },
{
    if timeout.is_zero() {
        None
    } else {
        Some(timeout)
    }
}

/// The view of a text that may be missing.
pub open spec fn text_of(text: Option<String>) -> Option<Seq<char>> {
    match text {
        Some(t) => Some(t@),
        None => None,
    }
}

/// Whether `attempt` is how a command that ran is judged: by the timeout
/// first, which a timeout of zero never brings; then by its success; then by
/// its exit code, which is 1 where the system gives none.
pub open spec fn judged(
    attempt: Attempt,
    timed_out: bool,
    succeeded: bool,
    code: Option<i32>,
    stderr: Seq<char>,
    timeout: Duration,
) -> bool {
    let kept = tail_of(stderr, TAIL_LINES as nat, TAIL_CHARS as nat);
    if timed_out && timeout@ > 0 {
        &&& attempt matches Attempt::Failed { exit_code, stderr_tail, error }
        &&& exit_code == EXIT_TIMEOUT
        &&& text_of(stderr_tail) == kept
        &&& error@ == "command timed out after "@ + rendered_duration(timeout@)
    } else if succeeded {
        &&& attempt matches Attempt::Succeeded { exit_code, stderr_tail }
        &&& exit_code == 0
        &&& text_of(stderr_tail) == kept
    } else {
        &&& attempt matches Attempt::Failed { exit_code, stderr_tail, error }
        &&& exit_code == match code {
            Some(c) => c,
            None => 1,
        }
        &&& text_of(stderr_tail) == kept
        &&& error@ == "command failed with exit code "@ + signed_decimal(exit_code as int)
    }
}

/// Judges a command that ran: `timed_out` says whether it was stopped for
/// running out of time, `succeeded` and `code` how it exited, `stderr` what
/// it wrote to standard error, `timeout` how long it was given.
pub fn judge(
    timed_out: bool,
    succeeded: bool,
    code: Option<i32>,
    stderr: &str,
    timeout: Duration,
) -> (attempt: Attempt)
    ensures
        judged(attempt, timed_out, succeeded, code, stderr@, timeout),
{
    let stderr_tail = tail(stderr, TAIL_LINES, TAIL_CHARS);
    if timed_out && !timeout.is_zero() {
        let mut error = "command timed out after ".to_string();
        error.append(format_duration(timeout).as_str());
        return Attempt::Failed { exit_code: EXIT_TIMEOUT, stderr_tail, error };
    }
    if succeeded {
        return Attempt::Succeeded { exit_code: 0, stderr_tail };
    }
    let exit_code = match code {
        Some(c) => c,
        None => 1,
    };
    let mut error = "command failed with exit code ".to_string();
    push_signed_decimal(&mut error, exit_code as i128);
    Attempt::Failed { exit_code, stderr_tail, error }
}

/// Whether `line` is the command line of `req` on `platform`: the shell with
/// the text as its one command, or the first token as the program and the
/// others as its arguments.
pub open spec fn command_line_of(req: Request, platform: Platform, line: CommandLine) -> bool {
    if req.use_shell {
        &&& line.program@ == match platform {
            Platform::Unix => "/bin/sh"@,
            Platform::Windows => "cmd"@,
        }
        &&& views(line.args@) == seq![
            match platform {
                Platform::Unix => "-c"@,
                Platform::Windows => "/C"@,
            },
            req.shell@,
        ]
    } else {
        &&& req.argv@.len() > 0
        &&& line.program@ == req.argv@[0]@
        &&& views(line.args@) == views(req.argv@).skip(1)
    }
}

/// The program to start for `req` and its arguments.
pub fn build_command(req: &Request, platform: Platform) -> (r: Result<CommandLine, String>)
    ensures
        match r {
            Ok(line) => command_line_of(*req, platform, line),
            Err(message) => !req.use_shell && req.argv@.len() == 0 && message@
                == "exec command is required"@,
        },
{
    if req.use_shell {
        let (program, flag) = match platform {
            Platform::Unix => ("/bin/sh", "-c"),
            Platform::Windows => ("cmd", "/C"),
        };
        let mut args: Vec<String> = Vec::new();
        args.push(flag.to_string());
        args.push(req.shell.clone());
        assert(views(args@) =~= seq![flag@, req.shell@]);
        return Ok(CommandLine { program: program.to_string(), args });
    }
    if req.argv.len() == 0 {
        return Err("exec command is required".to_string());
    }
    let mut args: Vec<String> = Vec::new();
    let mut i: usize = 1;
    while i < req.argv.len()
        invariant
            1 <= i <= req.argv.len(),
            args@.len() == i - 1,
            forall|j: int| 0 <= j < i - 1 ==> args@[j] == req.argv@[j + 1],
        decreases req.argv.len() - i,
    {
        args.push(req.argv[i].clone());
        i += 1;
    }
    assert(views(args@) =~= views(req.argv@).skip(1));
    Ok(CommandLine { program: req.argv[0].clone(), args })
}

/// An attempt that ran out of its time, which is not zero, has failed with
/// the code 124. With a timeout of zero no attempt runs out of time: it is
/// judged by its exit alone.
pub proof fn lemma_timeout(
    attempt: Attempt,
    timed_out: bool,
    succeeded: bool,
    code: Option<i32>,
    stderr: Seq<char>,
    timeout: Duration,
    untimed: Attempt,
)
    requires
        judged(attempt, timed_out, succeeded, code, stderr, timeout),
        judged(untimed, false, succeeded, code, stderr, timeout),
    ensures
        timed_out && timeout@ > 0 ==> attempt is Failed && attempt->Failed_exit_code
            == EXIT_TIMEOUT,
        timeout@ == 0 ==> (attempt is Succeeded <==> untimed is Succeeded) && (attempt is Failed
            ==> attempt->Failed_exit_code == untimed->Failed_exit_code && attempt->Failed_error@
            == untimed->Failed_error@),
{
}

} // verus!
