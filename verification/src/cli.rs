//! What the commands of the program decide, apart from what they read and
//! print.

use vstd::prelude::*;
use vstd::string::*;
use crate::app_error::{AppError, ExitCode};
use crate::config::{
    command_preview, inline_error, inline_resolves_to, join_command_preview,
    join_task_preview, resolve_inline, resolved_duration, settings_of, task_preview, Config,
    Defaults, DefaultsView, NotificationSettings, ResolvedTask, Task,
};
use crate::duration::Duration;
use crate::envfile::{env_view, parse, parsed};
use crate::output::style::{command, number, styled, success, warning};
use crate::output::tasks::TaskRow;
use crate::output::{format_duration_ms, rendered_millis};
use crate::sorted_map::SortedMap;
use crate::text::{
    chars_of, concat, decimal, find_from, find_str, join_lines, joined, lemma_run_len, line_views,
    occurs_at, push_decimal, run_len, slice, space, starts_with, str_eq, string_of, views,
    without_leading,
};
use crate::outside::whitespace;

verus! {

/// Which kind of run is asked for.
#[derive(Debug, Clone)]
pub enum RunMode {
    /// The command given on the command line.
    Inline,
    /// The task of this name.
    Named(String),
}

/// Why no run can be made of what is asked for, if none can: a task is
/// named beside a command; a flag that only goes with a command is set
/// without one; or nothing is named.
pub open spec fn mode_error(task: Option<&str>, inline_given: bool, inline_flags: bool) -> Option<
    Seq<char>,
> {
    if inline_given {
        if task is Some {
            Some("inline mode requires only command args after --"@)
        } else {
            None
        }
    } else if inline_flags {
        Some(
            "--name, --timeout, --retries, and --notify-on are inline-only flags; use with 'otto run -- <command>'"@,
        )
    } else if task is None {
        Some("named task mode requires exactly one task name"@)
    } else {
        None
    }
}

/// Decides which kind of run is asked for. `task` is the task named, if one
/// is; `inline_given` says whether a command follows `--`; `inline_flags`
/// whether any of the flags that only go with such a command is set.
pub fn run_mode(task: Option<&str>, inline_given: bool, inline_flags: bool) -> (r: Result<
    RunMode,
    AppError,
>)
    ensures
        match mode_error(task, inline_given, inline_flags) {
            Some(message) => r is Err && r->Err_0.kind() == ExitCode::Usage && r->Err_0.text()
                == message,
            None => r is Ok && match r->Ok_0 {
                RunMode::Inline => inline_given,
                RunMode::Named(name) => !inline_given && task is Some && name@ == task->0@,
            },
        },
{
    if inline_given {
        if task.is_some() {
            return Err(
                AppError::usage("inline mode requires only command args after --".to_string()),
            );
        }
        return Ok(RunMode::Inline);
    }
    if inline_flags {
        return Err(
            AppError::usage(
                "--name, --timeout, --retries, and --notify-on are inline-only flags; use with 'otto run -- <command>'".to_string(),
            ),
        );
    }
    match task {
        Some(name) => Ok(RunMode::Named(name.to_string())),
        None => Err(AppError::usage("named task mode requires exactly one task name".to_string())),
    }
}

/// What came of reading a file.
#[derive(Debug, Clone)]
pub enum FileRead {
    /// Its text.
    Text(String),
    /// Nothing: there is no such file.
    Missing,
    /// Nothing, for another reason, which is given.
    Failed(String),
}

/// Why the dotenv file cannot be used, if it cannot: it was asked for by
/// name and is missing, it could not be read, or it is not well formed.
pub open spec fn dotenv_error(
    read: FileRead,
    disabled: bool,
    explicit: bool,
    shown: Seq<char>,
) -> Option<Seq<char>> {
    if disabled {
        None
    } else {
        match read {
            FileRead::Text(text) => match parsed(text@) {
                Ok(_) => None,
                Err(e) => Some("load dotenv file "@ + shown + ": "@ + e),
            },
            FileRead::Missing => if explicit {
                Some("dotenv file "@ + shown + " not found"@)
            } else {
                None
            },
            FileRead::Failed(e) => Some("load dotenv file "@ + shown + ": "@ + e@),
        }
    }
}

/// What the dotenv file binds: nothing where it is turned off or missing.
pub open spec fn dotenv_bindings(read: FileRead, disabled: bool) -> Map<Seq<char>, Seq<char>> {
    match read {
        FileRead::Text(text) if !disabled => match parsed(text@) {
            Ok(m) => m,
            Err(_) => Map::empty(),
        },
        _ => Map::empty(),
    }
}

/// The variables of the dotenv file, given what came of reading it. `path`
/// is the file's name as it is shown.
pub fn load_dotenv(read: FileRead, disabled: bool, explicit: bool, path: &str, colors: bool) -> (r:
    Result<SortedMap<String>, AppError>)
    ensures
        match dotenv_error(read, disabled, explicit, styled("96"@, path@, colors)) {
            Some(message) => r is Err && r->Err_0.kind() == ExitCode::Usage && r->Err_0.text()
                == message,
            None => r is Ok && env_view(r->Ok_0) == dotenv_bindings(read, disabled),
        },
{
    if disabled {
        let none: SortedMap<String> = SortedMap::new();
        assert(env_view(none) =~= Map::<Seq<char>, Seq<char>>::empty());
        return Ok(none);
    }
    let shown = command(path, colors);
    match read {
        FileRead::Text(text) => match parse(text.as_str()) {
            Ok(vars) => Ok(vars),
            Err(e) => {
                let mut message = concat("load dotenv file ", shown.as_str());
                message.append(": ");
                message.append(e.as_str());
                Err(AppError::usage(message))
            },
        },
        FileRead::Missing => {
            if explicit {
                let mut message = concat("dotenv file ", shown.as_str());
                message.append(" not found");
                Err(AppError::usage(message))
            } else {
                let none: SortedMap<String> = SortedMap::new();
                assert(env_view(none) =~= Map::<Seq<char>, Seq<char>>::empty());
                Ok(none)
            }
        },
        FileRead::Failed(e) => {
            let mut message = concat("load dotenv file ", shown.as_str());
            message.append(": ");
            message.append(e.as_str());
            Err(AppError::usage(message))
        },
    }
}

/// Whether a failure to load the task file lies with the system rather than
/// with the user: the file is there and could not be read.
pub open spec fn system_fault(message: Seq<char>) -> bool {
    occurs_at(message, "read config:"@, 0) && find_from(message, "No such file"@, 0) is None
}

/// The failure to load the task file, by whose fault it is.
pub fn load_config_classified(message: String) -> (e: AppError)
    ensures
        e.text() == message@,
        e.kind() == if system_fault(message@) {
            ExitCode::Internal
        } else {
            ExitCode::Usage
        },
{
    let chars = chars_of(message.as_str());
    if starts_with(&chars, "read config:") && find_str(&chars, "No such file").is_none() {
        AppError::internal(message)
    } else {
        AppError::usage(message)
    }
}

/// What a missing task file means for a command given on the command line:
/// a failure where the file was asked for by name, else nothing.
pub fn maybe_load_config_for_inline(explicit: bool, path: &str, colors: bool) -> (r: Result<
    (),
    AppError,
>)
    ensures
        match r {
            Ok(_) => !explicit,
            Err(e) => explicit && e.kind() == ExitCode::Usage && e.text() == "config file "@
                + styled("96"@, path@, colors) + " not found"@,
        },
{
    if explicit {
        let mut message = concat("config file ", command(path, colors).as_str());
        message.append(" not found");
        Err(AppError::usage(message))
    } else {
        Ok(())
    }
}

/// The defaults that a command given on the command line runs under: those
/// of the task file, or none where there is no file.
pub open spec fn inline_defaults(cfg: Option<&Config>) -> DefaultsView {
    match cfg {
        Some(c) => c.defaults@,
        None => DefaultsView::none(),
    }
}

/// Why the notification settings cannot be had, if they cannot.
pub open spec fn settings_error(cfg: Option<&Config>) -> Option<Seq<char>> {
    match cfg {
        Some(c) => if resolved_duration(
            c.notifications.webhook_timeout@,
            Seq::empty(),
            Duration::of_secs(5),
        ) is None {
            Some("notifications.webhook_timeout: "@ + "must be a valid duration"@)
        } else {
            None
        },
        None => None,
    }
}

/// Whether `settings` are the notification settings to run under: those of
/// the task file, or the built-in ones where there is no file.
pub open spec fn inline_settings(cfg: Option<&Config>, settings: NotificationSettings) -> bool {
    match cfg {
        Some(c) => settings_of(*c, settings),
        None => settings.desktop_enabled && settings.webhook_url@.len() == 0
            && settings.webhook_timeout == Duration::of_secs(5),
    }
}

/// The text of an option that may be missing: empty where it is.
pub open spec fn or_empty(text: Option<&str>) -> Seq<char> {
    match text {
        Some(t) => t@,
        None => Seq::empty(),
    }
}

fn text_or_empty<'a>(text: Option<&'a str>) -> (r: &'a str)
    ensures
        r@ == or_empty(text),
{
    match text {
        Some(t) => t,
        None => {
            proof {
                reveal_strlit("");
            }
            assert(""@ =~= Seq::<char>::empty());
            ""
        },
    }
}

/// Resolves the command given on the command line, under the defaults and
/// the notification settings of the task file, if there is one. A failure to
/// have the settings comes before one to resolve the command.
pub fn resolve_inline_run(
    inline: &Vec<String>,
    cfg: Option<&Config>,
    name: Option<&str>,
    timeout: Option<&str>,
    retries: Option<i32>,
    notify_on: Option<&str>,
) -> (r: Result<(ResolvedTask, NotificationSettings), AppError>)
    ensures
        match r {
            Ok((resolved, settings)) => {
                &&& settings_error(cfg) is None
                &&& inline_error(inline@, or_empty(timeout), retries, inline_defaults(cfg))
                    is None
                &&& inline_settings(cfg, settings)
                &&& inline_resolves_to(
                    inline@,
                    or_empty(name),
                    or_empty(timeout),
                    retries,
                    or_empty(notify_on),
                    inline_defaults(cfg),
                    resolved,
                )
            },
            Err(e) => e.kind() == ExitCode::Usage && Some(e.text()) == (if settings_error(cfg)
                is Some {
                settings_error(cfg)
            } else {
                inline_error(inline@, or_empty(timeout), retries, inline_defaults(cfg))
            }),
        },
{
    let none = Defaults {
        timeout: String::new(),
        retries: None,
        retry_backoff: String::new(),
        notify_on: String::new(),
    };
    let (defaults, settings) = match cfg {
        Some(c) => {
            let settings = match c.resolve_notification_settings() {
                Ok(s) => s,
                Err(e) => {
                    return Err(AppError::usage(e));
                },
            };
            (&c.defaults, settings)
        },
        None => (
            &none,
            NotificationSettings {
                desktop_enabled: true,
                webhook_url: String::new(),
                webhook_timeout: Duration::from_secs(5),
            },
        ),
    };
    assert(defaults@ == inline_defaults(cfg));
    match resolve_inline(
        inline,
        text_or_empty(name),
        text_or_empty(timeout),
        retries,
        text_or_empty(notify_on),
        defaults,
    ) {
        Ok(resolved) => Ok((resolved, settings)),
        Err(e) => Err(AppError::usage(e)),
    }
}

/// Whether a status is asked for that no record has.
pub open spec fn bad_status(status: Option<&str>) -> bool {
    match status {
        Some(s) => !(s@ == "success"@ || s@ == "failed"@),
        None => false,
    }
}

/// Whether a source is asked for that no record has.
pub open spec fn bad_source(source: Option<&str>) -> bool {
    match source {
        Some(s) => !(s@ == "task"@ || s@ == "inline"@),
        None => false,
    }
}

/// Checks the filters of the history command.
pub fn check_history_flags(status: Option<&str>, source: Option<&str>) -> (r: Result<(), AppError>)
    ensures
        match r {
            Ok(_) => !bad_status(status) && !bad_source(source),
            Err(e) => (bad_status(status) || bad_source(source)) && e.kind() == ExitCode::Usage
                && e.text() == (if bad_status(status) {
                "--status must be success or failed"@
            } else {
                "--source must be task or inline"@
            }),
        },
{
    if let Some(s) = status {
        if !str_eq(s, "success") && !str_eq(s, "failed") {
            return Err(AppError::usage("--status must be success or failed".to_string()));
        }
    }
    if let Some(s) = source {
        if !str_eq(s, "task") && !str_eq(s, "inline") {
            return Err(AppError::usage("--source must be task or inline".to_string()));
        }
    }
    Ok(())
}

/// The class of characters that are no whitespace.
pub open spec fn ink() -> spec_fn(char) -> bool {
    |c: char| !whitespace(c)
}

/// The words of `s`: its longest stretches without whitespace.
pub open spec fn words_of(s: Seq<char>) -> Seq<Seq<char>>
    decreases s.len(),
{
    let t = without_leading(s, space());
    let n = run_len(t, ink()) as int;
    if 0 < n <= t.len() && t.len() <= s.len() {
        seq![t.take(n)] + words_of(t.skip(n))
    } else {
        Seq::empty()
    }
}

/// `command` on one line, its words a space apart; and where `max_chars` is
/// not 0 and that is longer, cut to `max_chars` characters, the last three
/// of them dots, but never to fewer than four.
pub open spec fn compacted(command: Seq<char>, max_chars: nat) -> Seq<char> {
    let compact = joined(words_of(command), " "@);
    if max_chars == 0 || compact.len() <= max_chars {
        compact
    } else if max_chars >= 4 {
        compact.take(max_chars - 3) + "..."@
    } else {
        compact.take(1) + "..."@
    }
}

/// The words of `v`.
fn words(v: &Vec<char>) -> (out: Vec<Vec<char>>)
    ensures
        line_views(out@) == words_of(v@),
{
    let n: usize = v.len();
    let mut out: Vec<Vec<char>> = Vec::new();
    let mut i: usize = 0;
    assert(v@.skip(0) == v@);
    assert(line_views(out@) + words_of(v@) =~= words_of(v@));
    while i < n
        invariant
            i <= n == v.len(),
            words_of(v@) == line_views(out@) + words_of(v@.skip(i as int)),
        decreases n - i,
    {
        let ghost rest = v@.skip(i as int);
        let ghost before = line_views(out@);
        let mut a: usize = i;
        while a < n && v[a].is_whitespace()
            invariant
                i <= a <= n == v.len(),
                forall|k: int| i <= k < a ==> whitespace(#[trigger] v@[k]),
            decreases n - a,
        {
            a += 1;
        }
        let mut b: usize = a;
        while b < n && !v[b].is_whitespace()
            invariant
                a <= b <= n == v.len(),
                forall|k: int| a <= k < b ==> !whitespace(#[trigger] v@[k]),
            decreases n - b,
        {
            b += 1;
        }
        proof {
            assert forall|k: int| 0 <= k < a - i implies space()(#[trigger] rest[k]) by {
                assert(rest[k] == v@[k + i]);
            }
            if a < n {
                assert(rest[a - i] == v@[a as int]);
            }
            lemma_run_len(rest, space(), a - i);
            let t = without_leading(rest, space());
            assert(t == v@.skip(a as int));
            assert forall|k: int| 0 <= k < b - a implies ink()(#[trigger] t[k]) by {
                assert(t[k] == v@[k + a]);
            }
            if b < n {
                assert(t[b - a] == v@[b as int]);
            }
            lemma_run_len(t, ink(), b - a);
            assert(t.take(b - a) == v@.subrange(a as int, b as int));
            assert(t.skip(b - a) == v@.skip(b as int));
        }
        if b > a {
            let word = slice(v, a, b);
            out.push(word);
            assert(line_views(out@) =~= before + seq![word@]);
            assert(before + (seq![word@] + words_of(v@.skip(b as int))) =~= line_views(out@)
                + words_of(v@.skip(b as int)));
        } else {
            assert(v@.skip(n as int).len() == 0);
            assert(words_of(v@.skip(n as int)) =~= Seq::<Seq<char>>::empty());
        }
        i = b;
    }
    assert(v@.skip(n as int).len() == 0);
    assert(line_views(out@) + words_of(v@.skip(n as int)) =~= line_views(out@));
    out
}

/// `command` on one line and, where `max_chars` is not 0, within that width.
pub fn compact_command(command: &str, max_chars: usize) -> (r: String)
    ensures
        r@ == compacted(command@, max_chars as nat),
{
    let chars = chars_of(command);
    let parts = words(&chars);
    let compact = join_lines(&parts, 0, " ");
    assert(line_views(parts@).skip(0) == line_views(parts@));
    if max_chars == 0 || compact.len() <= max_chars {
        let r = string_of(&compact, 0, compact.len());
        assert(r@ == compact@);
        return r;
    }
    let limit: usize = if max_chars >= 4 {
        max_chars - 3
    } else {
        1
    };
    let mut r = string_of(&compact, 0, limit);
    r.append("...");
    r
}

/// What a task runs, as it is listed: its command, or its group, or its
/// shell text.
pub open spec fn listed_command(task: Task) -> Seq<char> {
    if task.argv@.len() > 0 {
        command_preview(views(task.argv@))
    } else if task.tasks@.len() > 0 {
        task_preview(views(task.tasks@), task.parallel)
    } else {
        task.run@
    }
}

/// What a task runs, as it is listed.
pub fn task_command(task: &Task) -> (r: String)
    ensures
        r@ == listed_command(*task),
{
    if task.argv.len() > 0 {
        join_command_preview(&task.argv)
    } else if task.tasks.len() > 0 {
        join_task_preview(&task.tasks, task.parallel)
    } else {
        task.run.clone()
    }
}

/// The tasks of the table as they are listed: in the order of their names,
/// each with its description and what it runs.
pub fn task_items(tasks: &SortedMap<Task>) -> (items: Vec<TaskRow>)
    ensures
        items@.len() == tasks.keys().len(),
        forall|i: int|
            0 <= i < items@.len() ==> (#[trigger] items@[i]).name@ == tasks.keys()[i]
                && items@[i].description@ == tasks.values()[i].description@ && items@[i].command@
                == listed_command(tasks.values()[i]),
{
    let n = tasks.len();
    let mut items: Vec<TaskRow> = Vec::new();
    let mut i: usize = 0;
    while i < n
        invariant
            i <= n == tasks.keys().len(),
            items@.len() == i,
            forall|j: int|
                0 <= j < i ==> (#[trigger] items@[j]).name@ == tasks.keys()[j]
                    && items@[j].description@ == tasks.values()[j].description@
                    && items@[j].command@ == listed_command(tasks.values()[j]),
        decreases n - i,
    {
        let task = tasks.value_at(i);
        items.push(
            TaskRow {
                name: tasks.key_at(i).clone(),
                description: task.description.clone(),
                command: task_command(task),
            },
        );
        i += 1;
    }
    items
}

/// How wide a command is shown in the list of tasks.
pub const LISTED_WIDTH: usize = 100;

/// The rows shown for the listed tasks: each command on one line and cut to
/// the width of the list.
pub fn task_rows(items: &Vec<TaskRow>) -> (rows: Vec<TaskRow>)
    ensures
        rows@.len() == items@.len(),
        forall|i: int|
            0 <= i < rows@.len() ==> (#[trigger] rows@[i]).name == items@[i].name
                && rows@[i].description == items@[i].description && rows@[i].command@
                == compacted(items@[i].command@, LISTED_WIDTH as nat),
{
    let mut rows: Vec<TaskRow> = Vec::new();
    let mut i: usize = 0;
    while i < items.len()
        invariant
            i <= items.len(),
            rows@.len() == i,
            forall|j: int|
                0 <= j < i ==> (#[trigger] rows@[j]).name == items@[j].name
                    && rows@[j].description == items@[j].description && rows@[j].command@
                    == compacted(items@[j].command@, LISTED_WIDTH as nat),
        decreases items.len() - i,
    {
        let item = &items[i];
        rows.push(
            TaskRow {
                name: item.name.clone(),
                description: item.description.clone(),
                command: compact_command(item.command.as_str(), LISTED_WIDTH),
            },
        );
        i += 1;
    }
    rows
}

/// The line that reports a run that went well.
pub open spec fn finished_text(name: Seq<char>, duration_ms: int, colors: bool) -> Seq<char> {
    styled("32"@, "ok"@, colors) + " run \""@ + name + "\" finished in "@ + styled(
        "96"@,
        rendered_millis(duration_ms),
        colors,
    )
}

/// The line that reports the run of a command that went well.
pub fn finished_line(name: &str, duration_ms: i64, colors: bool) -> (line: String)
    ensures
        line@ == finished_text(name@, duration_ms as int, colors),
{
    let mut line = success("ok", colors);
    line.append(" run \"");
    line.append(name);
    line.append("\" finished in ");
    line.append(number(format_duration_ms(duration_ms).as_str(), colors).as_str());
    line
}

/// The line that reports the run of a group that went well.
pub fn group_finished_line(
    name: &str,
    duration_ms: i64,
    members: usize,
    parallel: bool,
    colors: bool,
) -> (line: String)
    ensures
        line@ == finished_text(name@, duration_ms as int, colors) + " ("@ + decimal(members as nat)
            + " sub-tasks "@ + (if parallel {
            "in parallel"@
        } else {
            "sequentially"@
        }) + ")"@,
{
    let mut line = finished_line(name, duration_ms, colors);
    line.append(" (");
    push_decimal(&mut line, members as u128);
    line.append(" sub-tasks ");
    line.append(if parallel { "in parallel" } else { "sequentially" });
    line.append(")");
    line
}

/// The line that warns of an announcement that could not be sent.
pub fn notify_warning(error: &str, colors: bool) -> (line: String)
    ensures
        line@ == styled("33"@, "warn"@, colors) + " failed to send notification: "@ + error@,
{
    let mut line = warning("warn", colors);
    line.append(" failed to send notification: ");
    line.append(error);
    line
}

/// Whether a task file may be written at `path`: not over a file that is
/// there, unless that is asked for. `present` says whether one is there.
pub fn check_init(present: bool, force: bool, path: &str) -> (r: Result<(), AppError>)
    ensures
        match r {
            Ok(_) => !present || force,
            Err(e) => present && !force && e.kind() == ExitCode::Usage && e.text() == path@
                + " already exists (use --force to overwrite)"@,
        },
{
    if present && !force {
        Err(AppError::usage(concat(path, " already exists (use --force to overwrite)")))
    } else {
        Ok(())
    }
}

/// The line that reports that the task file was written.
pub fn created_line(path: &str, colors: bool) -> (line: String)
    ensures
        line@ == "created "@ + styled("96"@, path@, colors),
{
    concat("created ", command(path, colors).as_str())
}

/// The line that reports that the task file is valid.
pub fn valid_line(path: &str, colors: bool) -> (line: String)
    ensures
        line@ == "valid "@ + styled("96"@, path@, colors),
{
    concat("valid ", command(path, colors).as_str())
}

} // verus!
