//! The task file's model, its validation, and the resolution of a task into
//! what is run.

use vstd::prelude::*;
use vstd::string::*;
use crate::duration::Duration;
use crate::model::RunSource;
use crate::outside::{
    humantime_duration, parse_duration_parts, quote, quoted, regex_is_match, regex_match,
    duration_text_safe, url_accepted, url_parses, MAX_DURATION_CHARS, MAX_DURATION_DIGITS,
    MAX_NUMBER_DIGITS,
};
use crate::sorted_map::SortedMap;
use crate::text::{
    blank, chars_of, clone_strings, concat, count_digits, decimal, is_blank, join, joined,
    measure_longest_number, push_decimal, str_eq, views,
};

verus! {

/// The version of the task file's format.
pub const CURRENT_VERSION: i32 = 1;

/// The whole task file.
#[derive(Debug, Clone, Default)]
pub struct Config {
    pub version: i32,
    pub defaults: Defaults,
    pub notifications: Notifications,
    pub tasks: Option<SortedMap<Task>>,
}

/// Settings for tasks that do not set their own.
#[derive(Debug, Clone, Default)]
pub struct Defaults {
    pub timeout: String,
    pub retries: Option<i32>,
    pub retry_backoff: String,
    pub notify_on: String,
}

/// The defaults as contracts speak of them.
pub ghost struct DefaultsView {
    pub timeout: Seq<char>,
    pub retries: Option<i32>,
    pub retry_backoff: Seq<char>,
    pub notify_on: Seq<char>,
}

impl DefaultsView {
    /// The defaults that set nothing.
    pub open spec fn none() -> DefaultsView {
        DefaultsView {
            timeout: Seq::empty(),
            retries: None,
            retry_backoff: Seq::empty(),
            notify_on: Seq::empty(),
        }
    }
}

impl View for Defaults {
    type V = DefaultsView;

    open spec fn view(&self) -> DefaultsView {
        DefaultsView {
            timeout: self.timeout@,
            retries: self.retries,
            retry_backoff: self.retry_backoff@,
            notify_on: self.notify_on@,
        }
    }
}

/// How results are announced.
#[derive(Debug, Clone, Default)]
pub struct Notifications {
    pub desktop: Option<bool>,
    pub webhook_url: String,
    pub webhook_timeout: String,
}

/// One task as the file defines it.
#[derive(Debug, Clone, Default)]
pub struct Task {
    pub description: String,
    pub argv: Vec<String>,
    pub run: String,
    pub tasks: Vec<String>,
    pub parallel: bool,
    pub dir: String,
    pub env: SortedMap<String>,
    pub timeout: String,
    pub retries: Option<i32>,
    pub retry_backoff: String,
    pub notify_on: String,
}

/// A task with every setting decided: the unit that is run.
#[derive(Debug, Clone)]
pub struct ResolvedTask {
    pub name: String,
    pub source: RunSource,
    pub command_preview: String,
    pub sub_tasks: Vec<String>,
    pub parallel: bool,
    pub use_shell: bool,
    pub argv: Vec<String>,
    pub shell: String,
    pub dir: String,
    pub env: SortedMap<String>,
    pub timeout: Duration,
    pub retries: i32,
    pub retry_backoff: Duration,
    pub notify_on: String,
}

/// The notification settings with every default applied.
#[derive(Debug, Clone)]
pub struct NotificationSettings {
    pub desktop_enabled: bool,
    pub webhook_url: String,
    pub webhook_timeout: Duration,
}

/// One thing wrong with a task file: the field and what is wrong with it.
#[derive(Debug, Clone, PartialEq, Eq)]
pub struct ValidationError {
    pub field: String,
    pub message: String,
}

impl View for ValidationError {
    type V = (Seq<char>, Seq<char>);

    open spec fn view(&self) -> (Seq<char>, Seq<char>) {
        (self.field@, self.message@)
    }
}

/// All that is wrong with a task file, in the order it was found.
#[derive(Debug, Clone, Default)]
pub struct ValidationErrors {
    pub issues: Vec<ValidationError>,
}

impl View for ValidationErrors {
    type V = Seq<(Seq<char>, Seq<char>)>;

    open spec fn view(&self) -> Seq<(Seq<char>, Seq<char>)> {
        self.issues@.map_values(|e: ValidationError| e@)
    }
}

/// The one-line summary of a list of issues: the first of them, if any.
pub open spec fn summary(issues: Seq<(Seq<char>, Seq<char>)>) -> Seq<char> {
    if issues.len() > 0 {
        "configuration validation failed: "@ + issues[0].0 + ": "@ + issues[0].1
    } else {
        "configuration validation failed"@
    }
}

impl ValidationErrors {
    /// No issues.
    pub fn new() -> (errors: Self)
        ensures
            errors@ == Seq::<(Seq<char>, Seq<char>)>::empty(),
    {
        let errors = ValidationErrors { issues: Vec::new() };
        assert(errors@ =~= Seq::<(Seq<char>, Seq<char>)>::empty());
        errors
    }

    /// Adds an issue at the end.
    pub fn add(&mut self, field: String, message: String)
        ensures
            final(self)@ == old(self)@.push((field@, message@)),
    {
        self.issues.push(ValidationError { field, message });
        assert(self@ =~= old(self)@.push((field@, message@)));
    }

    /// Whether any issue was added.
    pub fn has_issues(&self) -> (r: bool)
        ensures
            r == (self@.len() > 0),
    {
        self.issues.len() > 0
    }

    /// The one-line summary.
    pub fn to_string(&self) -> (s: String)
        ensures
            s@ == summary(self@),
    {
        if self.issues.len() > 0 {
            let first = &self.issues[0];
            assert(self@[0] == first@);
            let mut s = "configuration validation failed: ".to_string();
            s.append(first.field.as_str());
            s.append(": ");
            s.append(first.message.as_str());
            s
        } else {
            "configuration validation failed".to_string()
        }
    }
}

/// The duration that `text` stands for, if it is one. A text with more than
/// 15 digits is none, unless it has 1000 characters at the most and no
/// number of more than 9 digits.
pub open spec fn duration_of(text: Seq<char>) -> Option<Duration> {
    if !duration_text_safe(text) {
        None
    } else {
        match humantime_duration(text) {
            Some(parts) => Some(Duration::of_parts(parts.0, parts.1)),
            None => None,
        }
    }
}

/// The first of `primary` and `fallback` that is not empty, read as a
/// duration; `default_value` where both are empty; nothing where the text
/// that was read is no duration.
pub open spec fn resolved_duration(
    primary: Seq<char>,
    fallback: Seq<char>,
    default_value: Duration,
) -> Option<Duration> {
    if primary.len() > 0 {
        duration_of(primary)
    } else if fallback.len() > 0 {
        duration_of(fallback)
    } else {
        Some(default_value)
    }
}

/// The first of `primary`, `fallback` and `default_value` that is set.
pub open spec fn resolved_retries(
    primary: Option<i32>,
    fallback: Option<i32>,
    default_value: i32,
) -> i32 {
    match primary {
        Some(n) => n,
        None => match fallback {
            Some(n) => n,
            None => default_value,
        },
    }
}

/// The first of `primary`, `fallback` and `default_value` that is not empty.
pub open spec fn resolved_notify_on(
    primary: Seq<char>,
    fallback: Seq<char>,
    default_value: Seq<char>,
) -> Seq<char> {
    if primary.len() > 0 {
        primary
    } else if fallback.len() > 0 {
        fallback
    } else {
        default_value
    }
}

/// The preview of a command: its tokens with single spaces between.
pub open spec fn command_preview(args: Seq<Seq<char>>) -> Seq<char> {
    joined(args, " "@)
}

/// The preview of a group: its mode and the names of its members.
pub open spec fn task_preview(tasks: Seq<Seq<char>>, parallel: bool) -> Seq<char> {
    "tasks ("@ + (if parallel {
        "parallel"@
    } else {
        "sequential"@
    }) + "): "@ + joined(tasks, ", "@)
}

/// Reads `text` as a duration.
pub fn parse_duration(text: &str) -> (r: Option<Duration>)
    ensures
        r == duration_of(text@),
{
    let short = count_digits(text) <= MAX_DURATION_DIGITS;
    if !short {
        let small = chars_of(text).len() <= MAX_DURATION_CHARS && measure_longest_number(text)
            <= MAX_NUMBER_DIGITS;
        if !small {
            return None;
        }
    }
    match parse_duration_parts(text) {
        Some(parts) => Some(Duration::from_parts(parts.0, parts.1)),
        None => None,
    }
}

/// The duration to use: the one from `primary`, from `fallback`, or
/// `default_value`, in this order of preference.
pub fn resolve_duration(primary: &str, fallback: &str, default_value: Duration) -> (r: Result<
    Duration,
    String,
>)
    ensures
        match resolved_duration(primary@, fallback@, default_value) {
            Some(d) => r == Ok::<Duration, String>(d),
            None => r is Err && r->Err_0@ == "must be a valid duration"@,
        },
{
    let value = if !primary.is_empty() {
        primary
    } else if !fallback.is_empty() {
        fallback
    } else {
        return Ok(default_value);
    };
    match parse_duration(value) {
        Some(d) => Ok(d),
        None => Err("must be a valid duration".to_string()),
    }
}

/// The number of retries to use.
pub fn resolve_retries(primary: Option<i32>, fallback: Option<i32>, default_value: i32) -> (r: i32)
    ensures
        r == resolved_retries(primary, fallback, default_value),
{
    match primary {
        Some(n) => n,
        None => match fallback {
            Some(n) => n,
            None => default_value,
        },
    }
}

/// The notification policy to use.
pub fn resolve_notify_on(primary: &str, fallback: &str, default_value: &str) -> (r: String)
    ensures
        r@ == resolved_notify_on(primary@, fallback@, default_value@),
{
    if !primary.is_empty() {
        primary.to_string()
    } else if !fallback.is_empty() {
        fallback.to_string()
    } else {
        default_value.to_string()
    }
}

/// The preview of a command.
pub fn join_command_preview(args: &Vec<String>) -> (r: String)
    ensures
        r@ == command_preview(views(args@)),
{
    join(args, " ")
}

/// The preview of a group.
pub fn join_task_preview(tasks: &Vec<String>, parallel: bool) -> (r: String)
    ensures
        r@ == task_preview(views(tasks@), parallel),
{
    let mut r = "tasks (".to_string();
    r.append(if parallel { "parallel" } else { "sequential" });
    r.append("): ");
    let names = join(tasks, ", ");
    r.append(names.as_str());
    r
}

/// One issue: the field and what is wrong with it.
pub type Issue = (Seq<char>, Seq<char>);

/// The pattern that a task's name must match.
pub const TASK_NAME_PATTERN: &'static str = "^[a-z0-9][a-z0-9_-]{0,62}$";

/// The issue, if `cond` holds; else nothing.
pub open spec fn when(cond: bool, field: Seq<char>, message: Seq<char>) -> Seq<Issue> {
    if cond {
        seq![(field, message)]
    } else {
        Seq::empty()
    }
}

/// The issues `f(0)`, ..., `f(n - 1)`, one after the other.
pub open spec fn collect(n: nat, f: spec_fn(int) -> Seq<Issue>) -> Seq<Issue>
    decreases n,
{
    if n == 0 {
        Seq::empty()
    } else {
        collect((n - 1) as nat, f) + f(n - 1)
    }
}

/// Whether `text` is set and is no duration.
pub open spec fn bad_duration(text: Seq<char>) -> bool {
    text.len() > 0 && duration_of(text) is None
}

/// Whether a retry count, if set, is outside 0 to 10.
pub open spec fn bad_retries(retries: Option<i32>) -> bool {
    match retries {
        Some(n) => !(0 <= n <= 10),
        None => false,
    }
}

/// Whether `text` names a notification policy.
pub open spec fn notify_policy(text: Seq<char>) -> bool {
    text == "never"@ || text == "failure"@ || text == "always"@
}

/// Whether `text` is set and names no notification policy.
pub open spec fn bad_notify_on(text: Seq<char>) -> bool {
    text.len() > 0 && !notify_policy(text)
}

/// Whether `name` is a subcommand of the program, which no task may be called.
pub open spec fn reserved_name(name: Seq<char>) -> bool {
    name == "init"@ || name == "run"@ || name == "history"@ || name == "tasks"@ || name
        == "validate"@ || name == "version"@ || name == "completion"@
}

/// `field`, a part and an index: `field` + `part` + `[` + `index` + `]`.
pub open spec fn indexed(field: Seq<char>, part: Seq<char>, index: int) -> Seq<char> {
    field + part + "["@ + decimal(index as nat) + "]"@
}

/// What is wrong with the four settings that the defaults and each task have,
/// reported under `field`.
pub open spec fn setting_issues(
    field: Seq<char>,
    timeout: Seq<char>,
    retries: Option<i32>,
    retry_backoff: Seq<char>,
    notify_on: Seq<char>,
) -> Seq<Issue> {
    when(bad_duration(timeout), field + ".timeout"@, "must be a valid duration"@) + when(
        bad_retries(retries),
        field + ".retries"@,
        "must be between 0 and 10"@,
    ) + when(bad_duration(retry_backoff), field + ".retry_backoff"@, "must be a valid duration"@)
        + when(
        bad_notify_on(notify_on),
        field + ".notify_on"@,
        "must be one of never, failure, always"@,
    )
}

/// What is wrong with the defaults.
pub open spec fn defaults_issues(d: Defaults) -> Seq<Issue> {
    setting_issues("defaults"@, d.timeout@, d.retries, d.retry_backoff@, d.notify_on@)
}

/// What is wrong with the notification settings.
pub open spec fn notifications_issues(n: Notifications) -> Seq<Issue> {
    when(
        n.webhook_url@.len() > 0 && !url_accepted(n.webhook_url@),
        "notifications.webhook_url"@,
        "must be a valid URL"@,
    ) + when(
        bad_duration(n.webhook_timeout@),
        "notifications.webhook_timeout"@,
        "must be a valid duration"@,
    )
}

/// What is wrong with a task's name.
pub open spec fn name_issues(name: Seq<char>) -> Seq<Issue> {
    when(
        regex_match(TASK_NAME_PATTERN@, name) != Some(true),
        "tasks."@ + name,
        "name must match ^[a-z0-9][a-z0-9_-]{0,62}$"@,
    ) + when(reserved_name(name), "tasks."@ + name, "name is reserved"@)
}

/// How many of the three ways to say what a task runs it uses.
pub open spec fn mode_count(task: Task) -> int {
    (if task.argv@.len() > 0 {
        1int
    } else {
        0int
    }) + (if task.run@.len() > 0 {
        1int
    } else {
        0int
    }) + (if task.tasks@.len() > 0 {
        1int
    } else {
        0int
    })
}

/// The issue of the command token at an index: that it is empty.
pub open spec fn token_issue(field: Seq<char>, argv: Seq<String>) -> spec_fn(int) -> Seq<Issue> {
    |i: int| when(argv[i]@.len() == 0, indexed(field, ".exec"@, i), "must not be empty"@)
}

/// The issue of the member at an index: that its name is blank.
pub open spec fn member_issue(field: Seq<char>, tasks: Seq<String>) -> spec_fn(int) -> Seq<Issue> {
    |i: int| when(blank(tasks[i]@), indexed(field, ".tasks"@, i), "must not be empty"@)
}

/// What is wrong with a group that sets what only a command can have.
pub open spec fn composition_issues(field: Seq<char>, task: Task) -> Seq<Issue> {
    let message = "is not supported when using task composition"@;
    when(task.dir@.len() > 0, field + ".dir"@, message) + when(
        task.env.keys().len() > 0,
        field + ".env"@,
        message,
    ) + when(task.timeout@.len() > 0, field + ".timeout"@, message) + when(
        task.retries is Some,
        field + ".retries"@,
        message,
    ) + when(task.retry_backoff@.len() > 0, field + ".retry_backoff"@, message) + collect(
        task.tasks@.len(),
        member_issue(field, task.tasks@),
    )
}

/// What is wrong with the task called `name`, taken alone.
pub open spec fn task_issues(name: Seq<char>, task: Task) -> Seq<Issue> {
    let field = "tasks."@ + name;
    when(mode_count(task) != 1, field, "must define exactly one of exec, run, or tasks"@)
        + collect(task.argv@.len(), token_issue(field, task.argv@)) + setting_issues(
        field,
        task.timeout@,
        task.retries,
        task.retry_backoff@,
        task.notify_on@,
    ) + (if task.tasks@.len() > 0 {
        composition_issues(field, task)
    } else {
        Seq::empty()
    })
}

/// The issue of the member at an index of the group `name`: that it is the
/// group itself, or that no task has its name.
pub open spec fn reference_issue(
    name: Seq<char>,
    members: Seq<String>,
    known: Set<Seq<char>>,
) -> spec_fn(int) -> Seq<Issue> {
    |i: int|
        {
            let field = indexed("tasks."@ + name, ".tasks"@, i);
            if members[i]@ == name {
                seq![(field, "must not reference itself directly"@)]
            } else if !known.contains(members[i]@) {
                seq![(field, "references unknown task "@ + quoted(members[i]@))]
            } else {
                Seq::empty()
            }
        }
}

/// The issues of the entry at an index: of its name, then of its task.
pub open spec fn entry_issue(tasks: SortedMap<Task>) -> spec_fn(int) -> Seq<Issue> {
    |i: int| name_issues(tasks.keys()[i]) + task_issues(tasks.keys()[i], tasks.values()[i])
}

/// The issues of the references that the entry at an index makes.
pub open spec fn entry_reference_issue(tasks: SortedMap<Task>) -> spec_fn(int) -> Seq<Issue> {
    |i: int|
        collect(
            tasks.values()[i].tasks@.len(),
            reference_issue(tasks.keys()[i], tasks.values()[i].tasks@, tasks@.dom()),
        )
}

/// What is wrong with the references between tasks.
pub open spec fn dependency_issues(tasks: SortedMap<Task>) -> Seq<Issue> {
    collect(tasks.keys().len(), entry_reference_issue(tasks))
}

/// What is wrong with the task table: entry by entry in the order of the
/// names, then the references.
pub open spec fn table_issues(tasks: Option<SortedMap<Task>>) -> Seq<Issue> {
    match tasks {
        None => seq![("tasks"@, "is required"@)],
        Some(tasks) => when(tasks.keys().len() == 0, "tasks"@, "is required"@) + collect(
            tasks.keys().len(),
            entry_issue(tasks),
        ) + dependency_issues(tasks),
    }
}

/// All that is wrong with a task file, in the order in which it is reported.
pub open spec fn config_issues(cfg: Config) -> Seq<Issue> {
    when(cfg.version != CURRENT_VERSION, "version"@, "must be 1"@) + defaults_issues(cfg.defaults)
        + notifications_issues(cfg.notifications) + table_issues(cfg.tasks)
}

/// The name of the element at `index` of the list `part` of `field`.
pub fn indexed_field(field: &str, part: &str, index: usize) -> (r: String)
    ensures
        r@ == indexed(field@, part@, index as int),
{
    let mut r = concat(field, part);
    r.append("[");
    push_decimal(&mut r, index as u128);
    r.append("]");
    r
}

/// Adds the issue if `cond` holds.
fn add_when(issues: &mut ValidationErrors, cond: bool, field: String, message: &str)
    ensures
        final(issues)@ == old(issues)@ + when(cond, field@, message@),
{
    if cond {
        issues.add(field, message.to_string());
    }
    assert(issues@ =~= old(issues)@ + when(cond, field@, message@));
}

fn is_bad_duration(text: &str) -> (r: bool)
    ensures
        r == bad_duration(text@),
{
    !text.is_empty() && parse_duration(text).is_none()
}

fn is_bad_retries(retries: Option<i32>) -> (r: bool)
    ensures
        r == bad_retries(retries),
{
    match retries {
        Some(n) => !(0 <= n && n <= 10),
        None => false,
    }
}

fn is_bad_notify_on(text: &str) -> (r: bool)
    ensures
        r == bad_notify_on(text@),
{
    !text.is_empty() && !(str_eq(text, "never") || str_eq(text, "failure") || str_eq(
        text,
        "always",
    ))
}

fn is_reserved_name(name: &str) -> (r: bool)
    ensures
        r == reserved_name(name@),
{
    str_eq(name, "init") || str_eq(name, "run") || str_eq(name, "history") || str_eq(name, "tasks")
        || str_eq(name, "validate") || str_eq(name, "version") || str_eq(name, "completion")
}

fn validate_settings(
    issues: &mut ValidationErrors,
    field: &str,
    timeout: &str,
    retries: Option<i32>,
    retry_backoff: &str,
    notify_on: &str,
)
    ensures
        final(issues)@ == old(issues)@ + setting_issues(
            field@,
            timeout@,
            retries,
            retry_backoff@,
            notify_on@,
        ),
{
    add_when(
        issues,
        is_bad_duration(timeout),
        concat(field, ".timeout"),
        "must be a valid duration",
    );
    add_when(issues, is_bad_retries(retries), concat(field, ".retries"), "must be between 0 and 10");
    add_when(
        issues,
        is_bad_duration(retry_backoff),
        concat(field, ".retry_backoff"),
        "must be a valid duration",
    );
    add_when(
        issues,
        is_bad_notify_on(notify_on),
        concat(field, ".notify_on"),
        "must be one of never, failure, always",
    );
    assert(issues@ =~= old(issues)@ + setting_issues(
        field@,
        timeout@,
        retries,
        retry_backoff@,
        notify_on@,
    ));
}

/// Adds what is wrong with the defaults.
pub fn validate_defaults(issues: &mut ValidationErrors, d: &Defaults)
    ensures
        final(issues)@ == old(issues)@ + defaults_issues(*d),
{
    validate_settings(
        issues,
        "defaults",
        d.timeout.as_str(),
        d.retries,
        d.retry_backoff.as_str(),
        d.notify_on.as_str(),
    );
}

/// Adds what is wrong with the notification settings.
pub fn validate_notifications(issues: &mut ValidationErrors, n: &Notifications)
    ensures
        final(issues)@ == old(issues)@ + notifications_issues(*n),
{
    let bad_url = !n.webhook_url.as_str().is_empty() && !url_parses(n.webhook_url.as_str());
    add_when(issues, bad_url, "notifications.webhook_url".to_string(), "must be a valid URL");
    add_when(
        issues,
        is_bad_duration(n.webhook_timeout.as_str()),
        "notifications.webhook_timeout".to_string(),
        "must be a valid duration",
    );
    assert(issues@ =~= old(issues)@ + notifications_issues(*n));
}

/// Adds what is wrong with a task's name.
pub fn validate_task_name(issues: &mut ValidationErrors, name: &str)
    ensures
        final(issues)@ == old(issues)@ + name_issues(name@),
{
    let matched = match regex_is_match(TASK_NAME_PATTERN, name) {
        Some(true) => true,
        _ => false,
    };
    add_when(
        issues,
        !matched,
        concat("tasks.", name),
        "name must match ^[a-z0-9][a-z0-9_-]{0,62}$",
    );
    add_when(issues, is_reserved_name(name), concat("tasks.", name), "name is reserved");
    assert(issues@ =~= old(issues)@ + name_issues(name@));
}

fn validate_tokens(issues: &mut ValidationErrors, field: &str, argv: &Vec<String>)
    ensures
        final(issues)@ == old(issues)@ + collect(argv@.len(), token_issue(field@, argv@)),
{
    let ghost f = token_issue(field@, argv@);
    let mut i: usize = 0;
    assert(issues@ =~= old(issues)@ + collect(0, f));
    while i < argv.len()
        invariant
            i <= argv.len(),
            f == token_issue(field@, argv@),
            issues@ == old(issues)@ + collect(i as nat, f),
        decreases argv.len() - i,
    {
        add_when(
            issues,
            argv[i].as_str().is_empty(),
            indexed_field(field, ".exec", i),
            "must not be empty",
        );
        i += 1;
        assert(issues@ =~= old(issues)@ + collect(i as nat, f));
    }
}

fn validate_members(issues: &mut ValidationErrors, field: &str, tasks: &Vec<String>)
    ensures
        final(issues)@ == old(issues)@ + collect(tasks@.len(), member_issue(field@, tasks@)),
{
    let ghost f = member_issue(field@, tasks@);
    let mut i: usize = 0;
    assert(issues@ =~= old(issues)@ + collect(0, f));
    while i < tasks.len()
        invariant
            i <= tasks.len(),
            f == member_issue(field@, tasks@),
            issues@ == old(issues)@ + collect(i as nat, f),
        decreases tasks.len() - i,
    {
        add_when(
            issues,
            is_blank(tasks[i].as_str()),
            indexed_field(field, ".tasks", i),
            "must not be empty",
        );
        i += 1;
        assert(issues@ =~= old(issues)@ + collect(i as nat, f));
    }
}

fn validate_composition(issues: &mut ValidationErrors, field: &str, task: &Task)
    ensures
        final(issues)@ == old(issues)@ + composition_issues(field@, *task),
{
    let message = "is not supported when using task composition";
    add_when(issues, !task.dir.as_str().is_empty(), concat(field, ".dir"), message);
    add_when(issues, task.env.len() > 0, concat(field, ".env"), message);
    add_when(issues, !task.timeout.as_str().is_empty(), concat(field, ".timeout"), message);
    add_when(issues, task.retries.is_some(), concat(field, ".retries"), message);
    add_when(
        issues,
        !task.retry_backoff.as_str().is_empty(),
        concat(field, ".retry_backoff"),
        message,
    );
    validate_members(issues, field, &task.tasks);
    assert(issues@ =~= old(issues)@ + composition_issues(field@, *task));
}

fn has_one_mode(task: &Task) -> (r: bool)
    ensures
        r == (mode_count(*task) == 1),
{
    let has_exec = task.argv.len() > 0;
    let has_run = !task.run.as_str().is_empty();
    let has_tasks = task.tasks.len() > 0;
    if has_exec {
        !has_run && !has_tasks
    } else if has_run {
        !has_tasks
    } else {
        has_tasks
    }
}

/// Appending four sequences one by one appends their concatenation.
proof fn lemma_append_four<A>(s: Seq<A>, a: Seq<A>, b: Seq<A>, c: Seq<A>, d: Seq<A>)
    ensures
        s + a + b + c + d == s + (a + b + c + d),
{
    assert(s + a + b + c + d =~= s + (a + b + c + d));
}

/// Adds what is wrong with the task called `name`, taken alone.
pub fn validate_task(issues: &mut ValidationErrors, name: &str, task: &Task)
    ensures
        final(issues)@ == old(issues)@ + task_issues(name@, *task),
{
    let field = concat("tasks.", name);
    add_when(
        issues,
        !has_one_mode(task),
        field.clone(),
        "must define exactly one of exec, run, or tasks",
    );
    let ghost s1 = issues@;
    validate_tokens(issues, field.as_str(), &task.argv);
    let ghost s2 = issues@;
    validate_settings(
        issues,
        field.as_str(),
        task.timeout.as_str(),
        task.retries,
        task.retry_backoff.as_str(),
        task.notify_on.as_str(),
    );
    let ghost s3 = issues@;
    if task.tasks.len() > 0 {
        validate_composition(issues, field.as_str(), task);
    } else {
        assert(issues@ =~= s3 + Seq::<Issue>::empty());
    }
    proof {
        let f = field@;
        let a = when(
            mode_count(*task) != 1,
            f,
            "must define exactly one of exec, run, or tasks"@,
        );
        let b = collect(task.argv@.len(), token_issue(f, task.argv@));
        let c = setting_issues(
            f,
            task.timeout@,
            task.retries,
            task.retry_backoff@,
            task.notify_on@,
        );
        let d = if task.tasks@.len() > 0 {
            composition_issues(f, *task)
        } else {
            Seq::<Issue>::empty()
        };
        assert(s1 == old(issues)@ + a);
        assert(s2 == s1 + b);
        assert(s3 == s2 + c);
        assert(issues@ == s3 + d);
        lemma_append_four(old(issues)@, a, b, c, d);
    }
}

fn validate_references(
    issues: &mut ValidationErrors,
    name: &str,
    members: &Vec<String>,
    tasks: &SortedMap<Task>,
)
    ensures
        final(issues)@ == old(issues)@ + collect(
            members@.len(),
            reference_issue(name@, members@, tasks@.dom()),
        ),
{
    let ghost f = reference_issue(name@, members@, tasks@.dom());
    let field = concat("tasks.", name);
    let mut i: usize = 0;
    assert(issues@ =~= old(issues)@ + collect(0, f));
    while i < members.len()
        invariant
            i <= members.len(),
            field@ == "tasks."@ + name@,
            f == reference_issue(name@, members@, tasks@.dom()),
            issues@ == old(issues)@ + collect(i as nat, f),
        decreases members.len() - i,
    {
        let member = members[i].as_str();
        let ghost before = issues@;
        if str_eq(member, name) {
            issues.add(
                indexed_field(field.as_str(), ".tasks", i),
                "must not reference itself directly".to_string(),
            );
        } else if !tasks.contains_key(member) {
            issues.add(
                indexed_field(field.as_str(), ".tasks", i),
                concat("references unknown task ", quote(member).as_str()),
            );
        }
        assert(issues@ =~= before + f(i as int));
        i += 1;
        assert(issues@ =~= old(issues)@ + collect(i as nat, f));
    }
}

/// Adds what is wrong with the references between tasks.
pub fn validate_task_dependencies(issues: &mut ValidationErrors, tasks: &SortedMap<Task>)
    ensures
        final(issues)@ == old(issues)@ + dependency_issues(*tasks),
{
    let ghost f = entry_reference_issue(*tasks);
    let n = tasks.len();
    let mut i: usize = 0;
    assert(issues@ =~= old(issues)@ + collect(0, f));
    while i < n
        invariant
            i <= n == tasks.keys().len(),
            f == entry_reference_issue(*tasks),
            issues@ == old(issues)@ + collect(i as nat, f),
        decreases n - i,
    {
        let name = tasks.key_at(i);
        let task = tasks.value_at(i);
        validate_references(issues, name.as_str(), &task.tasks, tasks);
        i += 1;
        assert(issues@ =~= old(issues)@ + collect(i as nat, f));
    }
}

fn validate_entries(issues: &mut ValidationErrors, tasks: &SortedMap<Task>)
    ensures
        final(issues)@ == old(issues)@ + collect(tasks.keys().len(), entry_issue(*tasks)),
{
    let ghost f = entry_issue(*tasks);
    let n = tasks.len();
    let mut i: usize = 0;
    assert(issues@ =~= old(issues)@ + collect(0, f));
    while i < n
        invariant
            i <= n == tasks.keys().len(),
            f == entry_issue(*tasks),
            issues@ == old(issues)@ + collect(i as nat, f),
        decreases n - i,
    {
        let name = tasks.key_at(i);
        let task = tasks.value_at(i);
        let ghost before = issues@;
        validate_task_name(issues, name.as_str());
        validate_task(issues, name.as_str(), task);
        assert(issues@ =~= before + f(i as int));
        i += 1;
        assert(issues@ =~= old(issues)@ + collect(i as nat, f));
    }
}

/// Checks a task file. It passes where nothing is wrong with it; else all
/// that is wrong comes back, in order.
pub fn validate(cfg: &Config) -> (r: Result<(), ValidationErrors>)
    ensures
        match r {
            Ok(_) => config_issues(*cfg).len() == 0,
            Err(errors) => errors@ == config_issues(*cfg) && errors@.len() > 0,
        },
{
    let mut issues = ValidationErrors::new();
    add_when(&mut issues, cfg.version != CURRENT_VERSION, "version".to_string(), "must be 1");
    validate_defaults(&mut issues, &cfg.defaults);
    validate_notifications(&mut issues, &cfg.notifications);
    let ghost before = issues@;
    match &cfg.tasks {
        None => {
            issues.add("tasks".to_string(), "is required".to_string());
        },
        Some(tasks) => {
            add_when(&mut issues, tasks.is_empty(), "tasks".to_string(), "is required");
            validate_entries(&mut issues, tasks);
            validate_task_dependencies(&mut issues, tasks);
        },
    }
    assert(issues@ =~= before + table_issues(cfg.tasks));
    assert(issues@ =~= config_issues(*cfg));
    if issues.has_issues() {
        Err(issues)
    } else {
        Ok(())
    }
}

/// Accepts a task file that passes validation; else reports the first issue.
pub fn load(cfg: Config) -> (r: Result<Config, String>)
    ensures
        match r {
            Ok(accepted) => accepted == cfg && config_issues(cfg).len() == 0,
            Err(message) => config_issues(cfg).len() > 0 && message@ == summary(
                config_issues(cfg),
            ),
        },
{
    match validate(&cfg) {
        Ok(_) => Ok(cfg),
        Err(errors) => Err(errors.to_string()),
    }
}

/// How many of a resolved task's three ways to run hold something.
pub open spec fn populated(r: ResolvedTask) -> int {
    (if r.argv@.len() > 0 {
        1int
    } else {
        0int
    }) + (if r.shell@.len() > 0 {
        1int
    } else {
        0int
    }) + (if r.sub_tasks@.len() > 0 {
        1int
    } else {
        0int
    })
}

/// Whether `r` runs the command `argv` directly, and nothing else.
pub open spec fn runs_command(r: ResolvedTask, argv: Seq<String>) -> bool {
    &&& !r.use_shell
    &&& r.argv@ == argv
    &&& r.sub_tasks@.len() == 0
    &&& r.shell@.len() == 0
    &&& r.command_preview@ == command_preview(views(argv))
}

/// Whether `r` is the group of `members`, and nothing else.
pub open spec fn runs_group(r: ResolvedTask, members: Seq<String>, parallel: bool) -> bool {
    &&& !r.use_shell
    &&& r.argv@.len() == 0
    &&& r.sub_tasks@ == members
    &&& r.shell@.len() == 0
    &&& r.command_preview@ == task_preview(views(members), parallel)
}

/// Whether `r` hands `text` to the shell, and nothing else.
pub open spec fn runs_shell(r: ResolvedTask, text: Seq<char>) -> bool {
    &&& r.use_shell
    &&& r.argv@.len() == 0
    &&& r.sub_tasks@.len() == 0
    &&& r.shell@ == text
    &&& r.command_preview@ == text
}

/// Whether `r` is what the task `task`, called `name`, resolves to under
/// `defaults`: each setting the task's own where it is set, else the
/// default's, else the built-in one; and one way to run, a command before a
/// group before shell text.
pub open spec fn resolves_to(task: Task, defaults: Defaults, name: Seq<char>, r: ResolvedTask) -> bool {
    &&& r.name@ == name
    &&& r.source == RunSource::Task
    &&& r.parallel == task.parallel
    &&& r.dir@ == task.dir@
    &&& r.env@ == task.env@
    &&& r.env.keys() == task.env.keys()
    &&& r.env.values() == task.env.values()
    &&& Some(r.timeout) == resolved_duration(
        task.timeout@,
        defaults.timeout@,
        Duration::of_secs(0),
    )
    &&& r.retries == resolved_retries(task.retries, defaults.retries, 0)
    &&& Some(r.retry_backoff) == resolved_duration(
        task.retry_backoff@,
        defaults.retry_backoff@,
        Duration::of_secs(1),
    )
    &&& r.notify_on@ == resolved_notify_on(task.notify_on@, defaults.notify_on@, "failure"@)
    &&& if task.argv@.len() > 0 {
        runs_command(r, task.argv@)
    } else if task.tasks@.len() > 0 {
        runs_group(r, task.tasks@, task.parallel)
    } else {
        runs_shell(r, task.run@)
    }
}

/// Why the task `name` cannot be resolved, if it cannot.
pub open spec fn resolve_error(cfg: Config, name: Seq<char>) -> Option<Seq<char>> {
    match cfg.tasks {
        None => Some("tasks: is required"@),
        Some(tasks) => if !tasks@.contains_key(name) {
            Some("task "@ + quoted(name) + " not found"@)
        } else {
            let task = tasks@[name];
            if resolved_duration(task.timeout@, cfg.defaults.timeout@, Duration::of_secs(0))
                is None {
                Some("task "@ + quoted(name) + " timeout: "@ + "must be a valid duration"@)
            } else if resolved_duration(
                task.retry_backoff@,
                cfg.defaults.retry_backoff@,
                Duration::of_secs(1),
            ) is None {
                Some("task "@ + quoted(name) + " retry_backoff: "@ + "must be a valid duration"@)
            } else {
                None
            }
        },
    }
}

/// Whether `r` is what `cfg` makes of its notification settings.
pub open spec fn settings_of(cfg: Config, r: NotificationSettings) -> bool {
    &&& r.desktop_enabled == match cfg.notifications.desktop {
        Some(b) => b,
        None => true,
    }
    &&& r.webhook_url@ == cfg.notifications.webhook_url@
    &&& Some(r.webhook_timeout) == resolved_duration(
        cfg.notifications.webhook_timeout@,
        Seq::empty(),
        Duration::of_secs(5),
    )
}

/// Why a command given on the command line cannot be resolved, if it cannot.
pub open spec fn inline_error(
    args: Seq<String>,
    timeout_flag: Seq<char>,
    retries_flag: Option<i32>,
    defaults: DefaultsView,
) -> Option<Seq<char>> {
    if args.len() == 0 {
        Some("inline command is required after --"@)
    } else if resolved_duration(timeout_flag, defaults.timeout, Duration::of_secs(0)) is None {
        Some("inline timeout: "@ + "must be a valid duration"@)
    } else if !(0 <= resolved_retries(retries_flag, defaults.retries, 0) <= 10) {
        Some("inline retries must be between 0 and 10"@)
    } else if resolved_duration(Seq::empty(), defaults.retry_backoff, Duration::of_secs(1))
        is None {
        Some("inline retry_backoff: "@ + "must be a valid duration"@)
    } else {
        None
    }
}

/// Whether `r` is what a command given on the command line resolves to.
pub open spec fn inline_resolves_to(
    args: Seq<String>,
    name: Seq<char>,
    timeout_flag: Seq<char>,
    retries_flag: Option<i32>,
    notify_on_flag: Seq<char>,
    defaults: DefaultsView,
    r: ResolvedTask,
) -> bool {
    &&& r.name@ == if blank(name) {
        "inline"@
    } else {
        name
    }
    &&& r.source == RunSource::Inline
    &&& !r.parallel
    &&& r.dir@.len() == 0
    &&& r.env.keys().len() == 0
    &&& Some(r.timeout) == resolved_duration(timeout_flag, defaults.timeout, Duration::of_secs(0))
    &&& r.retries == resolved_retries(retries_flag, defaults.retries, 0)
    &&& 0 <= r.retries <= 10
    &&& Some(r.retry_backoff) == resolved_duration(
        Seq::empty(),
        defaults.retry_backoff,
        Duration::of_secs(1),
    )
    &&& r.notify_on@ == resolved_notify_on(notify_on_flag, defaults.notify_on, "failure"@)
    &&& runs_command(r, args)
}

/// A resolved task has at most one way to run, and one exactly where the
/// task says in any of the three ways what it runs.
pub proof fn lemma_one_mode(task: Task, defaults: Defaults, name: Seq<char>, r: ResolvedTask)
    requires
        resolves_to(task, defaults, name, r),
    ensures
        populated(r) <= 1,
        populated(r) == 1 <==> mode_count(task) >= 1,
{
}

/// A command given on the command line resolves to exactly one way to run.
pub proof fn lemma_inline_one_mode(
    args: Seq<String>,
    name: Seq<char>,
    timeout_flag: Seq<char>,
    retries_flag: Option<i32>,
    notify_on_flag: Seq<char>,
    defaults: DefaultsView,
    r: ResolvedTask,
)
    requires
        inline_error(args, timeout_flag, retries_flag, defaults) is None,
        inline_resolves_to(args, name, timeout_flag, retries_flag, notify_on_flag, defaults, r),
    ensures
        populated(r) == 1,
        0 <= r.retries <= 10,
{
}

impl Config {
    /// Resolves the task called `name`.
    pub fn resolve_task(&self, name: &str) -> (r: Result<ResolvedTask, String>)
        ensures
            match resolve_error(*self, name@) {
                Some(message) => r is Err && r->Err_0@ == message,
                None => r is Ok && resolves_to(
                    self.tasks->0@[name@],
                    self.defaults,
                    name@,
                    r->Ok_0,
                ),
            },
    {
        let tasks = match &self.tasks {
            Some(tasks) => tasks,
            None => { return Err("tasks: is required".to_string()); },
        };
        let task = match tasks.get(name) {
            Some(task) => task,
            None => {
                let mut message = concat("task ", quote(name).as_str());
                message.append(" not found");
                return Err(message);
            },
        };
        let timeout = match resolve_duration(
            task.timeout.as_str(),
            self.defaults.timeout.as_str(),
            Duration::from_secs(0),
        ) {
            Ok(d) => d,
            Err(e) => {
                let mut message = concat("task ", quote(name).as_str());
                message.append(" timeout: ");
                message.append(e.as_str());
                return Err(message);
            },
        };
        let retries = resolve_retries(task.retries, self.defaults.retries, 0);
        let retry_backoff = match resolve_duration(
            task.retry_backoff.as_str(),
            self.defaults.retry_backoff.as_str(),
            Duration::from_secs(1),
        ) {
            Ok(d) => d,
            Err(e) => {
                let mut message = concat("task ", quote(name).as_str());
                message.append(" retry_backoff: ");
                message.append(e.as_str());
                return Err(message);
            },
        };
        let notify_on = resolve_notify_on(
            task.notify_on.as_str(),
            self.defaults.notify_on.as_str(),
            "failure",
        );
        let mut resolved = ResolvedTask {
            name: name.to_string(),
            source: RunSource::Task,
            command_preview: String::new(),
            sub_tasks: Vec::new(),
            parallel: task.parallel,
            use_shell: false,
            argv: Vec::new(),
            shell: String::new(),
            dir: task.dir.clone(),
            env: task.env.duplicate(),
            timeout,
            retries,
            retry_backoff,
            notify_on,
        };
        if task.argv.len() > 0 {
            resolved.argv = clone_strings(&task.argv);
            resolved.command_preview = join_command_preview(&task.argv);
        } else if task.tasks.len() > 0 {
            resolved.sub_tasks = clone_strings(&task.tasks);
            resolved.command_preview = join_task_preview(&task.tasks, task.parallel);
        } else {
            resolved.use_shell = true;
            resolved.shell = task.run.clone();
            resolved.command_preview = task.run.clone();
        }
        Ok(resolved)
    }

    /// The notification settings with every default applied.
    pub fn resolve_notification_settings(&self) -> (r: Result<NotificationSettings, String>)
        ensures
            match resolved_duration(
                self.notifications.webhook_timeout@,
                Seq::empty(),
                Duration::of_secs(5),
            ) {
                Some(_) => r is Ok && settings_of(*self, r->Ok_0),
                None => r is Err && r->Err_0@ == "notifications.webhook_timeout: "@
                    + "must be a valid duration"@,
            },
    {
        proof {
            reveal_strlit("");
            assert(""@ =~= Seq::<char>::empty());
        }
        let desktop_enabled = match self.notifications.desktop {
            Some(b) => b,
            None => true,
        };
        let webhook_timeout = match resolve_duration(
            self.notifications.webhook_timeout.as_str(),
            "",
            Duration::from_secs(5),
        ) {
            Ok(d) => d,
            Err(e) => {
                return Err(concat("notifications.webhook_timeout: ", e.as_str()));
            },
        };
        Ok(
            NotificationSettings {
                desktop_enabled,
                webhook_url: self.notifications.webhook_url.clone(),
                webhook_timeout,
            },
        )
    }
}

/// Resolves a command given on the command line.
pub fn resolve_inline(
    args: &Vec<String>,
    name: &str,
    timeout_flag: &str,
    retries_flag: Option<i32>,
    notify_on_flag: &str,
    defaults: &Defaults,
) -> (r: Result<ResolvedTask, String>)
    ensures
        match inline_error(args@, timeout_flag@, retries_flag, defaults@) {
            Some(message) => r is Err && r->Err_0@ == message,
            None => r is Ok && inline_resolves_to(
                args@,
                name@,
                timeout_flag@,
                retries_flag,
                notify_on_flag@,
                defaults@,
                r->Ok_0,
            ),
        },
{
    proof {
        reveal_strlit("");
        assert(""@ =~= Seq::<char>::empty());
    }
    if args.len() == 0 {
        return Err("inline command is required after --".to_string());
    }
    let timeout = match resolve_duration(
        timeout_flag,
        defaults.timeout.as_str(),
        Duration::from_secs(0),
    ) {
        Ok(d) => d,
        Err(e) => {
            return Err(concat("inline timeout: ", e.as_str()));
        },
    };
    let retries = resolve_retries(retries_flag, defaults.retries, 0);
    if !(0 <= retries && retries <= 10) {
        return Err("inline retries must be between 0 and 10".to_string());
    }
    let retry_backoff = match resolve_duration(
        "",
        defaults.retry_backoff.as_str(),
        Duration::from_secs(1),
    ) {
        Ok(d) => d,
        Err(e) => {
            return Err(concat("inline retry_backoff: ", e.as_str()));
        },
    };
    let notify_on = resolve_notify_on(notify_on_flag, defaults.notify_on.as_str(), "failure");
    let task_name = if is_blank(name) {
        "inline".to_string()
    } else {
        name.to_string()
    };
    Ok(
        ResolvedTask {
            name: task_name,
            source: RunSource::Inline,
            command_preview: join_command_preview(args),
            sub_tasks: Vec::new(),
            parallel: false,
            use_shell: false,
            argv: clone_strings(args),
            shell: String::new(),
            dir: String::new(),
            env: SortedMap::new(),
            timeout,
            retries,
            retry_backoff,
            notify_on,
        },
    )
}

/// Where nothing is collected, nothing was found at any index.
pub proof fn lemma_collect_empty(n: nat, f: spec_fn(int) -> Seq<Issue>, i: int)
    requires
        collect(n, f).len() == 0,
        0 <= i < n,
    ensures
        f(i).len() == 0,
    decreases n,
{
    if i < n - 1 {
        lemma_collect_empty((n - 1) as nat, f, i);
    }
}

/// In a task file that passes validation, every task resolves to exactly one
/// way to run, and to a number of retries from 0 to 10.
pub proof fn lemma_valid_task_resolves_well(cfg: Config, name: Seq<char>, r: ResolvedTask)
    requires
        config_issues(cfg).len() == 0,
        cfg.tasks is Some,
        cfg.tasks->0.sound(),
        cfg.tasks->0@.contains_key(name),
        resolves_to(cfg.tasks->0@[name], cfg.defaults, name, r),
    ensures
        populated(r) == 1,
        0 <= r.retries <= 10,
{
    let tasks = cfg.tasks->0;
    let keys = tasks.keys();
    assert(keys.contains(name));
    let i = choose|i: int| 0 <= i < keys.len() && keys[i] == name;
    assert(tasks@[keys[i]] == tasks.values()[i]);
    let task = tasks.values()[i];
    assert(table_issues(cfg.tasks).len() == 0);
    assert(collect(keys.len(), entry_issue(tasks)).len() == 0);
    lemma_collect_empty(keys.len(), entry_issue(tasks), i);
    assert(task_issues(name, task).len() == 0);
    assert(mode_count(task) == 1);
    assert(defaults_issues(cfg.defaults).len() == 0);
    assert(!bad_retries(task.retries));
    assert(!bad_retries(cfg.defaults.retries));
    lemma_one_mode(task, cfg.defaults, name, r);
}

} // verus!
