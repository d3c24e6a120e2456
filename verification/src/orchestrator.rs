//! Running a task by name: the check for cycles, the course of a group of
//! tasks, and the record and the announcement that a finished run leaves.

use vstd::prelude::*;
use vstd::string::*;
use crate::app_error::{AppError, ExitCode};
use crate::config::ResolvedTask;
use crate::duration::Duration;
use crate::model::{
    source_to_str, source_word, status_to_str, status_word, RunRecord, RunSource, RunStatus,
};
use crate::notify::{announced, should_notify, Event};
use crate::outside::{now_unix_nanos, random_bytes};
use crate::runner::{Request, RunResult};
use crate::text::{
    clone_strings, concat, digit, join, joined, lemma_first_index, lemma_no_index,
    push_signed_decimal, signed_decimal, str_eq, views,
};

verus! {

/// The chain of names that closes a cycle: the tasks in flight from the first
/// `name` on, and `name` again. Nothing where `name` is not in flight.
pub open spec fn cycle_of(stack: Seq<Seq<char>>, name: Seq<char>) -> Option<Seq<Seq<char>>> {
    match stack.index_of_first(name) {
        Some(i) => Some(stack.skip(i).push(name)),
        None => None,
    }
}

/// What is reported for a cycle.
pub open spec fn cycle_message(cycle: Seq<Seq<char>>) -> Seq<char> {
    "task dependency cycle: "@ + joined(cycle, " -> "@)
}

/// The chain of names that running `name` would close, if any.
pub fn find_cycle(stack: &Vec<String>, name: &str) -> (r: Option<Vec<String>>)
    ensures
        match cycle_of(views(stack@), name@) {
            Some(cycle) => r is Some && views(r->0@) == cycle,
            None => r is None,
        },
{
    let ghost names = views(stack@);
    let mut i: usize = 0;
    while i < stack.len()
        invariant
            i <= stack.len(),
            names == views(stack@),
            forall|j: int| 0 <= j < i ==> names[j] != name@,
        decreases stack.len() - i,
    {
        if str_eq(stack[i].as_str(), name) {
            proof {
                lemma_first_index(names, name@, i as int);
            }
            let mut cycle: Vec<String> = Vec::new();
            let mut k: usize = i;
            while k < stack.len()
                invariant
                    i <= k <= stack.len(),
                    cycle@.len() == k - i,
                    forall|j: int| 0 <= j < k - i ==> cycle@[j] == stack@[i + j],
                decreases stack.len() - k,
            {
                cycle.push(stack[k].clone());
                k += 1;
            }
            cycle.push(name.to_string());
            assert(views(cycle@) =~= names.skip(i as int).push(name@));
            return Some(cycle);
        }
        i += 1;
    }
    proof {
        lemma_no_index(names, name@);
    }
    None
}

/// Takes up the task `name`: where it is in flight already, reports the
/// cycle and leaves the stack as it is; else puts it on the stack.
pub fn enter(stack: &mut Vec<String>, name: &str) -> (r: Result<(), AppError>)
    ensures
        match cycle_of(views(old(stack)@), name@) {
            Some(cycle) => r is Err && r->Err_0.kind() == ExitCode::Usage && r->Err_0.text()
                == cycle_message(cycle) && final(stack)@ == old(stack)@,
            None => r is Ok && views(final(stack)@) == views(old(stack)@).push(name@),
        },
{
    match find_cycle(stack, name) {
        Some(cycle) => {
            let chain = join(&cycle, " -> ");
            Err(AppError::usage(concat("task dependency cycle: ", chain.as_str())))
        },
        None => {
            stack.push(name.to_string());
            assert(views(stack@) =~= views(old(stack)@).push(name@));
            Ok(())
        },
    }
}

/// Lays down the task taken up last.
pub fn leave(stack: &mut Vec<String>)
    ensures
        final(stack)@ == if old(stack)@.len() > 0 {
            old(stack)@.drop_last()
        } else {
            old(stack)@
        },
{
    let _ = stack.pop();
}

/// How the run of one member of a group ended.
#[derive(Debug, Clone)]
pub enum ChildEnd {
    /// It succeeded.
    Passed,
    /// It failed, for the reason given.
    Failed(String),
    /// It could not be run for how the program was called or set up, as
    /// where it would close a cycle. That ends the whole run.
    Fatal(AppError),
    /// It did not come to an end of its own.
    Crashed,
}

/// What a group does next.
#[derive(Debug, Clone, Copy, PartialEq, Eq, Structural)]
pub enum GroupStep {
    /// Run the member at this index and report its end.
    Run(usize),
    /// Run all members at once and report the end of each, in their order.
    RunAll,
    /// Nothing more: the group is over.
    Close,
}

/// What a group came to.
#[derive(Debug, Clone)]
pub struct GroupSummary {
    pub status: RunStatus,
    pub exit_code: i32,
    pub stderr_tail: Option<String>,
}

/// A group of tasks in the course of its run.
#[derive(Debug, Clone)]
pub struct Group {
    /// The names of the members, in their order.
    pub members: Vec<String>,
    /// Whether the members run at once.
    pub parallel: bool,
    /// How many members have ended.
    pub ended: usize,
    /// What the members that failed have left, in their order.
    pub failures: Vec<String>,
    /// The first failure that ends the whole run, if a member came to one.
    pub fatal: Option<AppError>,
}

/// What the member `member` leaves where it ended with `end`.
pub open spec fn failure_text(member: Seq<char>, end: ChildEnd) -> Seq<Seq<char>> {
    match end {
        ChildEnd::Passed => Seq::empty(),
        ChildEnd::Failed(reason) => seq![member + ": "@ + reason@],
        ChildEnd::Fatal(error) => seq![member + ": "@ + error.text()],
        ChildEnd::Crashed => seq!["task thread panicked"@],
    }
}

/// What was fatal to a group after a member ended with `end`: what was so
/// before, or else the failure that `end` brings, if it brings one.
pub open spec fn fatal_after(fatal: Option<AppError>, end: ChildEnd) -> Option<AppError> {
    match fatal {
        Some(_) => fatal,
        None => match end {
            ChildEnd::Fatal(error) => Some(error),
            _ => None,
        },
    }
}

/// Whether `end` is how the run of a member that came to `result` ended for
/// its group: a failure of usage is fatal and is kept as it is; of any other
/// failure the text is the reason.
pub open spec fn ended_as(result: Result<(), AppError>, end: ChildEnd) -> bool {
    match result {
        Ok(_) => end is Passed,
        Err(error) => if error.kind() == ExitCode::Usage {
            end == ChildEnd::Fatal(error)
        } else {
            end matches ChildEnd::Failed(reason) && reason@ == error.text()
        },
    }
}

/// How the run of a member that came to `result` ended for its group.
pub fn end_of(result: Result<(), AppError>) -> (end: ChildEnd)
    ensures
        ended_as(result, end),
{
    match result {
        Ok(_) => ChildEnd::Passed,
        Err(error) => {
            if error.class() == ExitCode::Usage {
                ChildEnd::Fatal(error)
            } else {
                ChildEnd::Failed(error.to_string())
            }
        },
    }
}

/// A group in the course of its run, as contracts speak of it.
pub ghost struct GroupView {
    pub members: Seq<Seq<char>>,
    pub parallel: bool,
    pub ended: nat,
    pub failures: Seq<Seq<char>>,
    pub fatal: Option<AppError>,
}

impl View for Group {
    type V = GroupView;

    open spec fn view(&self) -> GroupView {
        GroupView {
            members: views(self.members@),
            parallel: self.parallel,
            ended: self.ended as nat,
            failures: views(self.failures@),
            fatal: self.fatal,
        }
    }
}

impl GroupView {
    /// The group before any member has run.
    pub open spec fn fresh(members: Seq<Seq<char>>, parallel: bool) -> GroupView {
        GroupView { members, parallel, ended: 0, failures: Seq::empty(), fatal: None }
    }

    /// What the group does next: nothing once a member has failed or all
    /// have ended; else all members at once, or the next member alone.
    pub open spec fn step(self) -> GroupStep {
        if !self.passed() || self.ended >= self.members.len() {
            GroupStep::Close
        } else if self.parallel {
            GroupStep::RunAll
        } else {
            GroupStep::Run(self.ended as usize)
        }
    }

    /// The group after the member whose turn it is ended with `end`.
    pub open spec fn after(self, end: ChildEnd) -> GroupView {
        if self.ended < self.members.len() {
            GroupView {
                ended: self.ended + 1,
                failures: self.failures + failure_text(self.members[self.ended as int], end),
                fatal: fatal_after(self.fatal, end),
                ..self
            }
        } else {
            self
        }
    }

    /// Whether the group has come to nothing but success.
    pub open spec fn passed(self) -> bool {
        self.failures.len() == 0 && self.fatal is None
    }

    /// Whether `result` is what the caller of the group is told: nothing
    /// where it passed; the failure that was fatal to it, unchanged; else
    /// what the members left, joined with `; `, as a failure of the run.
    pub open spec fn tells(self, result: Result<(), AppError>) -> bool {
        match self.fatal {
            Some(error) => result == Err::<(), AppError>(error),
            None => if self.failures.len() == 0 {
                result is Ok
            } else {
                &&& result is Err
                &&& result->Err_0.kind() == ExitCode::RuntimeFailure
                &&& result->Err_0.text() == joined(self.failures, "; "@)
            },
        }
    }

    /// The group after the ends of `ends` have been taken in, one by one, for
    /// as long as the group asks for one member more.
    pub open spec fn run_in_turn(self, ends: Seq<ChildEnd>) -> GroupView
        decreases ends.len(),
    {
        if ends.len() == 0 || !(self.step() is Run) {
            self
        } else {
            self.after(ends[0]).run_in_turn(ends.drop_first())
        }
    }

    /// The group after all the ends of `ends` have been taken in.
    pub open spec fn run_at_once(self, ends: Seq<ChildEnd>) -> GroupView
        decreases ends.len(),
    {
        if ends.len() == 0 {
            self
        } else {
            self.after(ends[0]).run_at_once(ends.drop_first())
        }
    }
}

/// In a group whose members run in turn, a member that fails is the last to
/// run: the group asks for no member after it, and it has not passed.
pub proof fn lemma_failure_ends_turns(group: GroupView, end: ChildEnd)
    requires
        !group.parallel,
        group.step() is Run,
        !(end is Passed),
    ensures
        group.after(end).step() == GroupStep::Close,
        !group.after(end).passed(),
{
}

/// A member that cannot be run for how the program was called or set up, as
/// where it would close a cycle, ends its group, in turn or at once: the
/// group asks for no member more, and its caller is told that very failure,
/// of usage, with its text as it was. So it is with the group above, and so
/// the failure comes out of every group it lies under.
pub proof fn lemma_usage_failure_comes_out(
    group: GroupView,
    error: AppError,
    end: ChildEnd,
    told: Result<(), AppError>,
    above: ChildEnd,
)
    requires
        group.fatal is None,
        group.ended < group.members.len(),
        error.kind() == ExitCode::Usage,
        ended_as(Err(error), end),
        group.after(end).tells(told),
        ended_as(told, above),
    ensures
        end == ChildEnd::Fatal(error),
        group.after(end).step() == GroupStep::Close,
        told == Err::<(), AppError>(error),
        above == ChildEnd::Fatal(error),
{
}

/// A group whose members run in turn runs them in their order, each once,
/// up to the first that fails: where the member at `i` is that one, `i + 1`
/// members have ended in the end, whatever the ends of the others would have
/// been, and the group is left with the failure of the member at `i` alone.
pub proof fn lemma_turns_stop_at_first_failure(
    group: GroupView,
    ends: Seq<ChildEnd>,
    i: int,
)
    requires
        !group.parallel,
        group.passed(),
        group.ended + ends.len() == group.members.len(),
        0 <= i < ends.len(),
        !(ends[i] is Passed),
        forall|j: int| 0 <= j < i ==> ends[j] is Passed,
    ensures
        group.run_in_turn(ends).ended == group.ended + i + 1,
        group.run_in_turn(ends).failures == failure_text(
            group.members[group.ended + i],
            ends[i],
        ),
        !group.run_in_turn(ends).passed(),
    decreases ends.len(),
{
    let next = group.after(ends[0]);
    let rest = ends.drop_first();
    if i == 0 {
        assert(next.failures =~= failure_text(group.members[group.ended as int], ends[0]));
        assert(next.step() == GroupStep::Close);
        if rest.len() > 0 {
            assert(next.run_in_turn(rest) == next);
        }
    } else {
        assert(next.failures =~= group.failures);
        assert forall|j: int| 0 <= j < i - 1 implies rest[j] is Passed by {
            assert(rest[j] == ends[j + 1]);
        }
        assert(rest[i - 1] == ends[i]);
        lemma_turns_stop_at_first_failure(next, rest, i - 1);
    }
}

/// A group all of whose members succeed passes, and all its members have run:
/// in turn as well as at once.
pub proof fn lemma_all_pass(group: GroupView, ends: Seq<ChildEnd>)
    requires
        group.passed(),
        group.ended + ends.len() == group.members.len(),
        forall|j: int| 0 <= j < ends.len() ==> ends[j] is Passed,
    ensures
        !group.parallel ==> group.run_in_turn(ends).passed() && group.run_in_turn(ends).ended
            == group.members.len(),
        group.run_at_once(ends).passed(),
        group.run_at_once(ends).ended == group.members.len(),
        group.run_at_once(ends).step() == GroupStep::Close,
    decreases ends.len(),
{
    if ends.len() > 0 {
        let next = group.after(ends[0]);
        let rest = ends.drop_first();
        assert(next.failures =~= group.failures);
        assert forall|j: int| 0 <= j < rest.len() implies rest[j] is Passed by {
            assert(rest[j] == ends[j + 1]);
        }
        lemma_all_pass(next, rest);
    }
}

impl Group {
    /// The group of the task `resolved`, before any member has run. A group
    /// cannot report as JSON.
    pub fn open(resolved: &ResolvedTask, as_json: bool) -> (r: Result<Group, AppError>)
        ensures
            match r {
                Ok(group) => !as_json && group@ == GroupView::fresh(
                    views(resolved.sub_tasks@),
                    resolved.parallel,
                ),
                Err(e) => as_json && e.kind() == ExitCode::Usage && e.text()
                    == "--json is not supported for composed tasks yet"@,
            },
    {
        if as_json {
            return Err(AppError::usage("--json is not supported for composed tasks yet".to_string()));
        }
        let group = Group {
            members: clone_strings(&resolved.sub_tasks),
            parallel: resolved.parallel,
            ended: 0,
            failures: Vec::new(),
            fatal: None,
        };
        assert(views(group.failures@) =~= Seq::<Seq<char>>::empty());
        Ok(group)
    }

    /// What the group does next.
    pub fn next_step(&self) -> (r: GroupStep)
        ensures
            r == self@.step(),
    {
        if self.failures.len() > 0 || self.fatal.is_some() || self.ended >= self.members.len() {
            GroupStep::Close
        } else if self.parallel {
            GroupStep::RunAll
        } else {
            GroupStep::Run(self.ended)
        }
    }

    /// Takes in the end of the member whose turn it is: the next in order.
    pub fn record_end(&mut self, end: ChildEnd)
        ensures
            final(self)@ == old(self)@.after(end),
    {
        if self.ended >= self.members.len() {
            return ;
        }
        match end {
            ChildEnd::Passed => {},
            ChildEnd::Failed(reason) => {
                let mut text = self.members[self.ended].clone();
                text.append(": ");
                text.append(reason.as_str());
                self.failures.push(text);
            },
            ChildEnd::Fatal(error) => {
                let mut text = self.members[self.ended].clone();
                text.append(": ");
                text.append(error.to_string().as_str());
                self.failures.push(text);
                if self.fatal.is_none() {
                    self.fatal = Some(error);
                }
            },
            ChildEnd::Crashed => {
                self.failures.push("task thread panicked".to_string());
            },
        }
        self.ended += 1;
        assert(views(self.failures@) =~= old(self)@.after(end).failures);
    }

    /// What the group came to: success where it passed; else failure with
    /// code 1 and what the members left, joined with `; `.
    pub fn summary(&self) -> (r: GroupSummary)
        ensures
            self@.passed() ==> r.status == RunStatus::Success && r.exit_code == 0 && r.stderr_tail
                is None,
            !self@.passed() ==> r.status == RunStatus::Failed && r.exit_code == 1 && r.stderr_tail
                is Some && r.stderr_tail->0@ == joined(self@.failures, "; "@),
    {
        if self.failures.len() == 0 && self.fatal.is_none() {
            GroupSummary { status: RunStatus::Success, exit_code: 0, stderr_tail: None }
        } else {
            GroupSummary {
                status: RunStatus::Failed,
                exit_code: 1,
                stderr_tail: Some(join(&self.failures, "; ")),
            }
        }
    }

    /// What the caller of the group is told.
    pub fn result(&self) -> (r: Result<(), AppError>)
        ensures
            self@.tells(r),
    {
        match &self.fatal {
            Some(error) => Err(error.clone()),
            None => {
                if self.failures.len() == 0 {
                    Ok(())
                } else {
                    Err(AppError::runtime(join(&self.failures, "; ")))
                }
            },
        }
    }
}

/// The lower-case hexadecimal digit for `n`, for `n < 16`.
pub open spec fn hex_digit(n: nat) -> char {
    if n < 10 {
        digit(n)
    } else {
        ((87 + n) as u8) as char
    }
}

/// The bytes in lower-case hexadecimal, two digits to a byte.
pub open spec fn hex(bytes: Seq<u8>) -> Seq<char>
    decreases bytes.len(),
{
    if bytes.len() == 0 {
        Seq::empty()
    } else {
        hex(bytes.drop_last()) + seq![
            hex_digit((bytes.last() / 16) as nat),
            hex_digit((bytes.last() % 16) as nat),
        ]
    }
}

/// The whole milliseconds in `nanos` nanoseconds, rounded towards zero.
pub open spec fn millis_in(nanos: int) -> int {
    if nanos >= 0 {
        nanos / 1_000_000
    } else {
        -((-nanos) / 1_000_000)
    }
}

/// The id of a record made at `unix_nanos` with the random bytes `random`:
/// the time in milliseconds, a hyphen, and the bytes in hexadecimal.
pub open spec fn id_text(unix_nanos: int, random: Seq<u8>) -> Seq<char> {
    signed_decimal(millis_in(unix_nanos)) + "-"@ + hex(random)
}

fn hex_char(n: u8) -> (c: char)
    requires
        n < 16,
    ensures
        c == hex_digit(n as nat),
{
    if n < 10 {
        (48u8 + n) as char
    } else {
        (87u8 + n) as char
    }
}

/// The bytes in lower-case hexadecimal.
pub fn hex_encode(bytes: &[u8]) -> (out: String)
    ensures
        out@ == hex(bytes@),
{
    let mut out = String::new();
    let mut i: usize = 0;
    while i < bytes.len()
        invariant
            i <= bytes.len(),
            out@ == hex(bytes@.take(i as int)),
        decreases bytes.len() - i,
    {
        let b: u8 = bytes[i];
        out.push(hex_char(b / 16));
        out.push(hex_char(b % 16));
        i += 1;
        proof {
            let now = bytes@.take(i as int);
            assert(now.drop_last() == bytes@.take(i - 1));
            assert(now.last() == b);
            assert(out@ =~= hex(now.drop_last()) + seq![
                hex_digit((b / 16) as nat),
                hex_digit((b % 16) as nat),
            ]);
        }
    }
    assert(bytes@.take(bytes.len() as int) == bytes@);
    out
}

/// The id of a record made at `unix_nanos` with the random bytes `random`.
pub fn record_id(unix_nanos: i128, random: &[u8]) -> (id: String)
    ensures
        id@ == id_text(unix_nanos as int, random@),
{
    let millis: i128 = if unix_nanos >= 0 {
        unix_nanos / 1_000_000
    } else if unix_nanos == i128::MIN {
        -170141183460469231731687303715884i128
    } else {
        -((-unix_nanos) / 1_000_000)
    };
    let mut id = String::new();
    push_signed_decimal(&mut id, millis);
    id.append("-");
    id.append(hex_encode(random).as_str());
    assert(id@ =~= id_text(unix_nanos as int, random@));
    id
}

/// A fresh id for a record, from the clock and eight random bytes.
pub fn new_record_id() -> (id: String)
    ensures
        exists|unix_nanos: int, random: Seq<u8>|
            random.len() == 8 && id@ == id_text(unix_nanos, random),
{
    let random = random_bytes();
    let now = now_unix_nanos();
    let id = record_id(now, random.as_slice());
    assert(random@.len() == 8 && id@ == id_text(now as int, random@));
    id
}

/// The length `elapsed` in whole milliseconds, as far as an `i64` holds them.
pub open spec fn millis_of(elapsed: Duration) -> int {
    if elapsed@ / 1_000_000 <= i64::MAX {
        (elapsed@ / 1_000_000) as int
    } else {
        i64::MAX as int
    }
}

fn whole_millis(elapsed: Duration) -> (ms: i64)
    ensures
        ms == millis_of(elapsed),
{
    let ms: u128 = elapsed.as_millis();
    if ms <= 9_223_372_036_854_775_807u128 {
        ms as i64
    } else {
        i64::MAX
    }
}

/// What is asked of the runner for the task `resolved`.
pub fn request_of(resolved: &ResolvedTask, stream_output: bool) -> (req: Request)
    ensures
        req.name == resolved.name,
        req.command_preview == resolved.command_preview,
        req.use_shell == resolved.use_shell,
        req.argv@ == resolved.argv@,
        req.shell == resolved.shell,
        req.dir == resolved.dir,
        req.env@ == resolved.env@,
        req.env.keys() == resolved.env.keys(),
        req.env.values() == resolved.env.values(),
        req.timeout == resolved.timeout,
        req.retries == resolved.retries,
        req.retry_backoff == resolved.retry_backoff,
        req.stream_output == stream_output,
{
    Request {
        name: resolved.name.clone(),
        command_preview: resolved.command_preview.clone(),
        use_shell: resolved.use_shell,
        argv: clone_strings(&resolved.argv),
        shell: resolved.shell.clone(),
        dir: resolved.dir.clone(),
        env: resolved.env.duplicate(),
        timeout: resolved.timeout,
        retries: resolved.retries,
        retry_backoff: resolved.retry_backoff,
        stream_output,
    }
}

/// The record of the run of a command: what the task is, and what the run
/// came to.
pub fn leaf_record(id: String, resolved: &ResolvedTask, result: &RunResult) -> (record: RunRecord)
    ensures
        record.id == id,
        record.name == resolved.name,
        record.source == resolved.source,
        record.command_preview == resolved.command_preview,
        record.started_at == result.started_at,
        record.duration_ms == millis_of(result.duration),
        record.exit_code == result.exit_code,
        record.status == result.status,
        record.stderr_tail == result.stderr_tail,
{
    RunRecord {
        id,
        name: resolved.name.clone(),
        source: resolved.source,
        command_preview: resolved.command_preview.clone(),
        started_at: result.started_at,
        duration_ms: whole_millis(result.duration),
        exit_code: result.exit_code,
        status: result.status,
        stderr_tail: result.stderr_tail.clone(),
    }
}

/// The record of the run of a group: under the group's own name, with the
/// group's own outcome, which is 0 or 1 and none of a member's exit codes.
pub fn group_record(
    id: String,
    resolved: &ResolvedTask,
    started_at: i128,
    elapsed: Duration,
    summary: &GroupSummary,
) -> (record: RunRecord)
    ensures
        record.id == id,
        record.name == resolved.name,
        record.source == RunSource::Task,
        record.command_preview == resolved.command_preview,
        record.started_at == started_at,
        record.duration_ms == millis_of(elapsed),
        record.exit_code == summary.exit_code,
        record.status == summary.status,
        record.stderr_tail == summary.stderr_tail,
{
    RunRecord {
        id,
        name: resolved.name.clone(),
        source: RunSource::Task,
        command_preview: resolved.command_preview.clone(),
        started_at,
        duration_ms: whole_millis(elapsed),
        exit_code: summary.exit_code,
        status: summary.status,
        stderr_tail: summary.stderr_tail.clone(),
    }
}

/// The announcement of the run that `record` is of, which took `duration`.
pub fn event_of(record: &RunRecord, duration: Duration) -> (event: Event)
    ensures
        event.name == record.name,
        event.source@ == source_word(record.source),
        event.status@ == status_word(record.status),
        event.exit_code == record.exit_code,
        event.duration == duration,
        event.started_at == record.started_at,
        event.command_preview == record.command_preview,
        event.stderr_tail == record.stderr_tail,
{
    Event {
        name: record.name.clone(),
        source: source_to_str(record.source).to_string(),
        status: status_to_str(record.status).to_string(),
        exit_code: record.exit_code,
        duration,
        started_at: record.started_at,
        command_preview: record.command_preview.clone(),
        stderr_tail: record.stderr_tail.clone(),
    }
}

/// Whether a finished run is announced: only the run that was asked for
/// itself, never that of a member of a group, and only where the policy of
/// its task asks for it.
pub fn announces(asked_for: bool, policy: &str, status: RunStatus) -> (r: bool)
    ensures
        r == (asked_for && announced(policy@, status)),
{
    asked_for && should_notify(policy, status)
}

/// The length of a group's run as it is announced: the recorded
/// milliseconds.
pub fn recorded_duration(record: &RunRecord) -> (d: Duration)
    ensures
        d@ == (if record.duration_ms >= 0 {
            record.duration_ms as int
        } else {
            0
        }) * 1_000_000,
{
    if record.duration_ms >= 0 {
        Duration::from_millis(record.duration_ms as u64)
    } else {
        Duration::from_millis(0)
    }
}

} // verus!
