use otto_cli::cli::compact_command;
use otto_cli::config::{validate, Config, Defaults, Notifications, Task};
use otto_cli::duration::{format_duration, Duration};
use otto_cli::expand::expand_variables;
use otto_cli::orchestrator::hex_encode;
use otto_cli::output::format_duration_ms;
use otto_cli::runner::tail;
use otto_cli::sorted_map::SortedMap;
use std::collections::HashMap;

struct Dice(u64);

impl Dice {
    fn roll(&mut self, sides: usize) -> usize {
        self.0 = self
            .0
            .wrapping_mul(6364136223846793005)
            .wrapping_add(1442695040888963407);
        ((self.0 >> 33) as usize) % sides
    }

    fn text(&mut self, alphabet: &[&str], longest: usize) -> String {
        let n = self.roll(longest + 1);
        (0..n).map(|_| alphabet[self.roll(alphabet.len())]).collect()
    }
}

fn tail_with_std(input: &str, line_limit: usize, char_limit: usize) -> Option<String> {
    if input.is_empty() {
        return None;
    }
    let trimmed = input.trim_end_matches('\n');
    if trimmed.is_empty() {
        return None;
    }
    let mut lines: Vec<&str> = trimmed.lines().collect();
    if lines.len() > line_limit {
        lines = lines.split_off(lines.len() - line_limit);
    }
    let mut out = lines.join("\n");
    if out.chars().count() > char_limit {
        let start = out.chars().count().saturating_sub(char_limit);
        out = out.chars().skip(start).collect();
    }
    Some(out)
}

fn expand_with_std(value: &str, lookup: &HashMap<String, String>) -> String {
    let mut out = String::with_capacity(value.len());
    let bytes = value.as_bytes();
    let mut i = 0;

    while i < bytes.len() {
        if bytes[i] != b'$' {
            let width = value[i..].chars().next().map_or(1, char::len_utf8);
            out.push_str(&value[i..i + width]);
            i += width;
            continue;
        }
        if i + 1 >= bytes.len() {
            out.push('$');
            break;
        }
        if bytes[i + 1] == b'{' {
            if let Some(end_rel) = value[i + 2..].find('}') {
                let end = i + 2 + end_rel;
                let key = &value[i + 2..end];
                if let Some(found) = lookup.get(key) {
                    out.push_str(found);
                } else {
                    out.push_str(&format!("${{{key}}}"));
                }
                i = end + 1;
                continue;
            }
            out.push('$');
            i += 1;
            continue;
        }
        let mut j = i + 1;
        while j < bytes.len() {
            let ch = bytes[j] as char;
            if j == i + 1 {
                if !(ch.is_ascii_alphabetic() || ch == '_') {
                    break;
                }
            } else if !(ch.is_ascii_alphanumeric() || ch == '_') {
                break;
            }
            j += 1;
        }
        if j == i + 1 {
            out.push('$');
            i += 1;
            continue;
        }
        let key = &value[i + 1..j];
        if let Some(found) = lookup.get(key) {
            out.push_str(found);
        } else {
            out.push_str(&format!("${{{key}}}"));
        }
        i = j;
    }
    out
}

fn compact_with_std(command: &str, max_chars: usize) -> String {
    let compact = command.split_whitespace().collect::<Vec<_>>().join(" ");
    if max_chars == 0 || compact.chars().count() <= max_chars {
        return compact;
    }
    let limit = max_chars.max(4) - 3;
    format!("{}...", compact.chars().take(limit).collect::<String>())
}

fn millis_with_floats(ms: i64) -> String {
    if ms < 1000 {
        return format!("{ms}ms");
    }
    if ms.rem_euclid(1000) == 0 {
        return format!("{}s", ms / 1000);
    }
    format!("{:.3}s", ms as f64 / 1000.0)
}

fn duration_with_floats(duration: std::time::Duration) -> String {
    let ms = duration.as_millis();
    if ms < 1_000 {
        return format!("{ms}ms");
    }
    if ms % 1_000 == 0 {
        return format!("{}s", ms / 1_000);
    }
    format!("{:.3}s", duration.as_secs_f64())
}

#[test]
fn tail_agrees_with_std() {
    let mut dice = Dice(1);
    let alphabet = ["a", "b", "\n", "\n", "\r", "\r\n", "é", " ", "😀"];
    for _ in 0..3000 {
        let input = dice.text(&alphabet, 14);
        let line_limit = dice.roll(5);
        let char_limit = dice.roll(9);
        assert_eq!(
            tail(&input, line_limit, char_limit),
            tail_with_std(&input, line_limit, char_limit),
            "{input:?} {line_limit} {char_limit}"
        );
    }
}

#[test]
fn expansion_agrees_with_a_walk_over_the_text() {
    let mut dice = Dice(2);
    let alphabet = ["$", "$", "{", "}", "A", "b", "_", "1", " ", "é", "-", "${", "$A", "😀"];
    let mut std_lookup = HashMap::new();
    let mut lookup = SortedMap::new();
    for (k, v) in [
        ("A", "alpha"),
        ("b", ""),
        ("Ab", "$A"),
        ("_", "under_score"),
        ("é", "e-acute"),
        ("A b", "spaced"),
        ("", "empty"),
        ("A1", "é😀"),
    ] {
        std_lookup.insert(k.to_string(), v.to_string());
        lookup.insert(k.to_string(), v.to_string());
    }
    for _ in 0..5000 {
        let input = dice.text(&alphabet, 10);
        assert_eq!(
            expand_variables(&input, &lookup),
            expand_with_std(&input, &std_lookup),
            "{input:?}"
        );
    }
}

#[test]
fn compacting_agrees_with_std() {
    let mut dice = Dice(3);
    let alphabet = ["a", "bc", " ", "  ", "\n", "\t", "\u{a0}", "\u{2003}", "é", "\u{85}", "\u{200b}"];
    for _ in 0..3000 {
        let input = dice.text(&alphabet, 12);
        let max_chars = dice.roll(12);
        assert_eq!(
            compact_command(&input, max_chars),
            compact_with_std(&input, max_chars),
            "{input:?} {max_chars}"
        );
    }
}

#[test]
fn milliseconds_agree_with_floats() {
    let mut dice = Dice(4);
    for ms in -2000..20_000 {
        assert_eq!(format_duration_ms(ms), millis_with_floats(ms), "{ms}");
    }
    for _ in 0..3000 {
        let ms = (dice.roll(1 << 20) as i64) * (dice.roll(1 << 20) as i64) + dice.roll(1000) as i64;
        assert_eq!(format_duration_ms(ms), millis_with_floats(ms), "{ms}");
    }
}

#[test]
fn durations_agree_with_floats_off_the_half_milliseconds() {
    let mut dice = Dice(5);
    for _ in 0..5000 {
        let secs = dice.roll(100_000) as u64;
        let nanos = dice.roll(1_000_000_000) as u32;
        if nanos % 1_000_000 == 500_000 {
            continue;
        }
        assert_eq!(
            format_duration(Duration::from_parts(secs, nanos)),
            duration_with_floats(std::time::Duration::new(secs, nanos)),
            "{secs} {nanos}"
        );
    }
    for ms in 0..5000u64 {
        assert_eq!(
            format_duration(Duration::from_millis(ms)),
            duration_with_floats(std::time::Duration::from_millis(ms)),
            "{ms}"
        );
    }
}

#[test]
fn hexadecimal_agrees_with_std() {
    let all: Vec<u8> = (0..=255).collect();
    let expected: String = all.iter().map(|b| format!("{b:02x}")).collect();
    assert_eq!(hex_encode(&all), expected);
}

fn value_with_std(value: &str) -> Result<String, String> {
    if value.is_empty() {
        return Ok(String::new());
    }
    if value.starts_with('"') {
        if !value.ends_with('"') || value.len() == 1 {
            return Err("unterminated double-quoted value".to_string());
        }
        let quoted = serde_json::from_str::<String>(value)
            .map_err(|_| "invalid double-quoted value".to_string())?;
        return Ok(quoted);
    }
    if value.starts_with('\'') {
        if !value.ends_with('\'') || value.len() == 1 {
            return Err("unterminated single-quoted value".to_string());
        }
        return Ok(value[1..value.len() - 1].to_string());
    }
    let trimmed = if let Some(idx) = value.find(" #") {
        value[..idx].trim().to_string()
    } else {
        value.to_string()
    };
    Ok(trimmed)
}

fn envfile_with_std(text: &str) -> Result<HashMap<String, String>, String> {
    let key_re = regex::Regex::new(r"^[A-Za-z_][A-Za-z0-9_]*$").expect("valid regex");
    let mut out = HashMap::new();
    for (index, raw) in text.lines().enumerate() {
        let mut line = raw.trim_end_matches('\r').trim().to_string();
        if line.is_empty() || line.starts_with('#') {
            continue;
        }
        if let Some(stripped) = line.strip_prefix("export ") {
            line = stripped.trim().to_string();
        }
        let Some(cut) = line.find('=') else {
            return Err(format!("line {}: expected KEY=VALUE", index + 1));
        };
        if cut == 0 {
            return Err(format!("line {}: expected KEY=VALUE", index + 1));
        }
        let key = line[..cut].trim();
        if !key_re.is_match(key) {
            return Err(format!("line {}: invalid key {key:?}", index + 1));
        }
        let value = value_with_std(line[cut + 1..].trim())
            .map_err(|err| format!("line {}: {err}", index + 1))?;
        out.insert(key.to_string(), value);
    }
    Ok(out)
}

#[test]
fn dotenv_reading_agrees_with_std() {
    let mut dice = Dice(6);
    let alphabet = [
        "A", "b", "_", "1", "=", "=", " ", "\n", "\n", "\r\n", "#", " #", "\"", "\"", "'", "\\",
        "\\n", "export ", "é", "\t", "x", "-",
    ];
    let mut good = 0;
    for _ in 0..6000 {
        let input = dice.text(&alphabet, 12);
        let expected = envfile_with_std(&input);
        match (otto_cli::envfile::parse(&input), expected) {
            (Ok(found), Ok(expected)) => {
                good += 1;
                assert_eq!(found.len(), expected.len(), "{input:?}");
                for (key, value) in &expected {
                    assert_eq!(found.get(key), Some(value), "{input:?}");
                }
            }
            (Err(found), Err(expected)) => assert_eq!(found, expected, "{input:?}"),
            (found, expected) => panic!("{input:?}: {found:?} and {expected:?}"),
        }
    }
    assert!(good > 100);
}

struct PlainTask {
    argv: Vec<String>,
    run: String,
    tasks: Vec<String>,
    dir: String,
    env: HashMap<String, String>,
    timeout: String,
    retries: Option<i32>,
    retry_backoff: String,
    notify_on: String,
}

fn is_duration(text: &str) -> bool {
    humantime::parse_duration(text).is_ok()
}

fn task_issues_with_std(
    issues: &mut Vec<(String, String)>,
    name: &str,
    task: &PlainTask,
    known: &HashMap<String, PlainTask>,
) {
    let name_re = regex::Regex::new(r"^[a-z0-9][a-z0-9_-]{0,62}$").expect("valid regex");
    let reserved = [
        "init",
        "run",
        "history",
        "tasks",
        "validate",
        "version",
        "completion",
    ];
    let policies = ["never", "failure", "always"];
    let mut add = |field: String, message: &str| issues.push((field, message.to_string()));

    if !name_re.is_match(name) {
        add(
            format!("tasks.{name}"),
            "name must match ^[a-z0-9][a-z0-9_-]{0,62}$",
        );
    }
    if reserved.contains(&name) {
        add(format!("tasks.{name}"), "name is reserved");
    }

    let field = format!("tasks.{name}");
    let has_exec = !task.argv.is_empty();
    let has_run = !task.run.is_empty();
    let has_tasks = !task.tasks.is_empty();
    let mode_count = [has_exec, has_run, has_tasks]
        .into_iter()
        .filter(|mode| *mode)
        .count();
    if mode_count != 1 {
        add(
            field.clone(),
            "must define exactly one of exec, run, or tasks",
        );
    }
    for (idx, tok) in task.argv.iter().enumerate() {
        if tok.is_empty() {
            add(format!("{field}.exec[{idx}]"), "must not be empty");
        }
    }
    if !task.timeout.is_empty() && !is_duration(&task.timeout) {
        add(format!("{field}.timeout"), "must be a valid duration");
    }
    if let Some(retries) = task.retries {
        if !(0..=10).contains(&retries) {
            add(format!("{field}.retries"), "must be between 0 and 10");
        }
    }
    if !task.retry_backoff.is_empty() && !is_duration(&task.retry_backoff) {
        add(format!("{field}.retry_backoff"), "must be a valid duration");
    }
    if !task.notify_on.is_empty() && !policies.contains(&task.notify_on.as_str()) {
        add(
            format!("{field}.notify_on"),
            "must be one of never, failure, always",
        );
    }
    if has_tasks {
        let unsupported = "is not supported when using task composition";
        if !task.dir.is_empty() {
            add(format!("{field}.dir"), unsupported);
        }
        if !task.env.is_empty() {
            add(format!("{field}.env"), unsupported);
        }
        if !task.timeout.is_empty() {
            add(format!("{field}.timeout"), unsupported);
        }
        if task.retries.is_some() {
            add(format!("{field}.retries"), unsupported);
        }
        if !task.retry_backoff.is_empty() {
            add(format!("{field}.retry_backoff"), unsupported);
        }
        for (idx, dep) in task.tasks.iter().enumerate() {
            if dep.trim().is_empty() {
                add(format!("{field}.tasks[{idx}]"), "must not be empty");
            }
        }
    }
    for (idx, dep) in task.tasks.iter().enumerate() {
        if dep == name {
            add(
                format!("{field}.tasks[{idx}]"),
                "must not reference itself directly",
            );
            continue;
        }
        if !known.contains_key(dep) {
            add(
                format!("{field}.tasks[{idx}]"),
                &format!("references unknown task {dep:?}"),
            );
        }
    }
}

#[test]
fn validation_agrees_with_std() {
    let mut dice = Dice(7);
    let names = ["a", "b", "ci", "run", "Bad", "x-1", "", "_y", "tasks"];
    let durations = ["", "", "1s", "2m", "soon", "1.5h", "10", "500ms"];
    let policies = ["", "", "never", "failure", "always", "often"];
    let tokens = ["echo", "", "x y", " "];
    let urls = ["", "", "https://example.com/hook", "not a url", "mailto:a@b.c"];
    let mut faulty = 0;
    for _ in 0..1500 {
        let mut plain: HashMap<String, PlainTask> = HashMap::new();
        let mut tasks = SortedMap::new();
        for _ in 0..dice.roll(4) {
            let name = names[dice.roll(names.len())].to_string();
            let argv: Vec<String> = (0..dice.roll(3))
                .map(|_| tokens[dice.roll(tokens.len())].to_string())
                .collect();
            let members: Vec<String> = (0..dice.roll(3))
                .map(|_| names[dice.roll(names.len())].to_string())
                .collect();
            let members = if dice.roll(2) == 0 { Vec::new() } else { members };
            let run = ["", "", "make"][dice.roll(3)].to_string();
            let dir = ["", "", "sub"][dice.roll(3)].to_string();
            let with_env = dice.roll(4) == 0;
            let timeout = durations[dice.roll(durations.len())].to_string();
            let retries = [None, None, Some(0), Some(10), Some(11), Some(-1)][dice.roll(6)];
            let retry_backoff = durations[dice.roll(durations.len())].to_string();
            let notify_on = policies[dice.roll(policies.len())].to_string();
            let mut env = SortedMap::new();
            let mut plain_env = HashMap::new();
            if with_env {
                env.insert("K".to_string(), "v".to_string());
                plain_env.insert("K".to_string(), "v".to_string());
            }
            plain.insert(
                name.clone(),
                PlainTask {
                    argv: argv.clone(),
                    run: run.clone(),
                    tasks: members.clone(),
                    dir: dir.clone(),
                    env: plain_env,
                    timeout: timeout.clone(),
                    retries,
                    retry_backoff: retry_backoff.clone(),
                    notify_on: notify_on.clone(),
                },
            );
            tasks.insert(
                name,
                Task {
                    description: String::new(),
                    argv,
                    run,
                    tasks: members,
                    parallel: false,
                    dir,
                    env,
                    timeout,
                    retries,
                    retry_backoff,
                    notify_on,
                },
            );
        }
        let version = [1, 1, 1, 2][dice.roll(4)];
        let defaults = Defaults {
            timeout: durations[dice.roll(durations.len())].to_string(),
            retries: [None, Some(3), Some(11)][dice.roll(3)],
            retry_backoff: durations[dice.roll(durations.len())].to_string(),
            notify_on: policies[dice.roll(policies.len())].to_string(),
        };
        let notifications = Notifications {
            desktop: None,
            webhook_url: urls[dice.roll(urls.len())].to_string(),
            webhook_timeout: durations[dice.roll(durations.len())].to_string(),
        };
        let without_table = dice.roll(10) == 0;

        let mut expected: Vec<(String, String)> = Vec::new();
        if version != 1 {
            expected.push(("version".to_string(), "must be 1".to_string()));
        }
        if !defaults.timeout.is_empty() && !is_duration(&defaults.timeout) {
            expected.push((
                "defaults.timeout".to_string(),
                "must be a valid duration".to_string(),
            ));
        }
        if let Some(retries) = defaults.retries {
            if !(0..=10).contains(&retries) {
                expected.push((
                    "defaults.retries".to_string(),
                    "must be between 0 and 10".to_string(),
                ));
            }
        }
        if !defaults.retry_backoff.is_empty() && !is_duration(&defaults.retry_backoff) {
            expected.push((
                "defaults.retry_backoff".to_string(),
                "must be a valid duration".to_string(),
            ));
        }
        if !defaults.notify_on.is_empty()
            && !["never", "failure", "always"].contains(&defaults.notify_on.as_str())
        {
            expected.push((
                "defaults.notify_on".to_string(),
                "must be one of never, failure, always".to_string(),
            ));
        }
        if !notifications.webhook_url.is_empty()
            && reqwest::Url::parse(&notifications.webhook_url).is_err()
        {
            expected.push((
                "notifications.webhook_url".to_string(),
                "must be a valid URL".to_string(),
            ));
        }
        if !notifications.webhook_timeout.is_empty() && !is_duration(&notifications.webhook_timeout)
        {
            expected.push((
                "notifications.webhook_timeout".to_string(),
                "must be a valid duration".to_string(),
            ));
        }
        if without_table || plain.is_empty() {
            expected.push(("tasks".to_string(), "is required".to_string()));
        }
        if !without_table {
            for (name, task) in &plain {
                task_issues_with_std(&mut expected, name, task, &plain);
            }
        }

        let cfg = Config {
            version,
            defaults,
            notifications,
            tasks: if without_table { None } else { Some(tasks) },
        };
        let mut found: Vec<(String, String)> = match validate(&cfg) {
            Ok(()) => Vec::new(),
            Err(errors) => errors
                .issues
                .iter()
                .map(|e| (e.field.clone(), e.message.clone()))
                .collect(),
        };
        if !found.is_empty() {
            faulty += 1;
        }
        found.sort();
        expected.sort();
        assert_eq!(found, expected);
    }
    assert!(faulty > 100);
}

fn has_white_space(c: char) -> bool {
    matches!(
        c,
        '\u{9}'..='\u{d}'
            | '\u{20}'
            | '\u{85}'
            | '\u{a0}'
            | '\u{1680}'
            | '\u{2000}'..='\u{200a}'
            | '\u{2028}'
            | '\u{2029}'
            | '\u{202f}'
            | '\u{205f}'
            | '\u{3000}'
    )
}

#[test]
fn blankness_agrees_with_the_list_of_white_space() {
    let mut listed = 0;
    for c in '\0'..=char::MAX {
        let blank = otto_cli::text::is_blank(&c.to_string());
        assert_eq!(blank, has_white_space(c), "{c:?}");
        assert_eq!(blank, c.is_whitespace(), "{c:?}");
        if blank {
            listed += 1;
        }
    }
    assert_eq!(listed, 25);
}
