use otto_cli::app_error::AppError;
use otto_cli::duration::Duration;
use otto_cli::history::{matches_filter, record_line, select, Filter, Store, DEFAULT_PATH};
use otto_cli::model::{source_to_str, status_to_str, RunRecord, RunSource, RunStatus};
use otto_cli::notify::{
    desktop_body, desktop_command, desktop_title, should_notify, webhook_status, Desktop, Event,
    Manager,
};
use otto_cli::sorted_map::{comes_before, SortedMap};
use otto_cli::text;

fn record(id: &str, source: RunSource, status: RunStatus) -> RunRecord {
    RunRecord {
        id: id.to_string(),
        name: id.to_string(),
        source,
        command_preview: "echo ok".to_string(),
        started_at: 0,
        duration_ms: 10,
        exit_code: if status == RunStatus::Success { 0 } else { 1 },
        status,
        stderr_tail: None,
    }
}

fn ids(records: &[RunRecord]) -> Vec<&str> {
    records.iter().map(|r| r.id.as_str()).collect()
}

fn test_event() -> Event {
    Event {
        name: "inline".to_string(),
        source: "inline".to_string(),
        status: "success".to_string(),
        exit_code: 0,
        duration: Duration::from_millis(500),
        started_at: 0,
        command_preview: "echo ok".to_string(),
        stderr_tail: None,
    }
}

#[test]
fn errors_carry_their_exit_codes() {
    assert_eq!(AppError::runtime("r".to_string()).code(), 1);
    assert_eq!(AppError::usage("u".to_string()).code(), 2);
    assert_eq!(AppError::internal("i".to_string()).code(), 3);
    assert_eq!(AppError::internal("i".to_string()).to_string(), "i");
}

#[test]
fn sources_and_statuses_have_their_words() {
    assert_eq!(source_to_str(RunSource::Task), "task");
    assert_eq!(source_to_str(RunSource::Inline), "inline");
    assert_eq!(status_to_str(RunStatus::Success), "success");
    assert_eq!(status_to_str(RunStatus::Failed), "failed");
}

#[test]
fn the_store_knows_its_path() {
    assert_eq!(Store::new("x/history.jsonl".to_string()).path(), "x/history.jsonl");
    assert_eq!(DEFAULT_PATH, ".otto/history.jsonl");
}

#[test]
fn the_history_is_listed_newest_first() {
    let records = vec![
        record("1", RunSource::Task, RunStatus::Success),
        record("2", RunSource::Inline, RunStatus::Failed),
        record("3", RunSource::Task, RunStatus::Failed),
        record("4", RunSource::Inline, RunStatus::Success),
    ];
    let all = select(
        records.clone(),
        &Filter {
            limit: Some(10),
            ..Filter::default()
        },
    );
    assert_eq!(ids(&all), vec!["4", "3", "2", "1"]);
    let failed = select(
        records.clone(),
        &Filter {
            status: Some("failed".to_string()),
            ..Filter::default()
        },
    );
    assert_eq!(ids(&failed), vec!["3", "2"]);
    let inline_two = select(
        records.clone(),
        &Filter {
            limit: Some(1),
            source: Some("inline".to_string()),
            status: None,
        },
    );
    assert_eq!(ids(&inline_two), vec!["4"]);
    let task_failed = select(
        records.clone(),
        &Filter {
            limit: None,
            source: Some("task".to_string()),
            status: Some("failed".to_string()),
        },
    );
    assert_eq!(ids(&task_failed), vec!["3"]);
    let none = select(
        records.clone(),
        &Filter {
            limit: Some(0),
            ..Filter::default()
        },
    );
    assert!(none.is_empty());
    let unknown = select(
        records,
        &Filter {
            status: Some("Failed".to_string()),
            ..Filter::default()
        },
    );
    assert!(unknown.is_empty());
    assert!(select(Vec::new(), &Filter::default()).is_empty());
}

#[test]
fn filters_match_by_word() {
    let r = record("1", RunSource::Inline, RunStatus::Failed);
    assert!(matches_filter(&r, &Filter::default()));
    assert!(matches_filter(
        &r,
        &Filter {
            limit: None,
            status: Some("failed".to_string()),
            source: Some("inline".to_string()),
        }
    ));
    assert!(!matches_filter(
        &r,
        &Filter {
            limit: None,
            status: Some("failed".to_string()),
            source: Some("task".to_string()),
        }
    ));
}

#[test]
fn runs_are_announced_by_policy() {
    assert!(!should_notify("never", RunStatus::Failed));
    assert!(!should_notify("never", RunStatus::Success));
    assert!(should_notify("always", RunStatus::Success));
    assert!(should_notify("always", RunStatus::Failed));
    assert!(should_notify("failure", RunStatus::Failed));
    assert!(!should_notify("failure", RunStatus::Success));
    assert!(should_notify("", RunStatus::Failed));
    assert!(!should_notify("anything", RunStatus::Success));
}

#[test]
fn channels_and_their_failures() {
    let manager = Manager {
        desktop_enabled: false,
        webhook_url: "http://127.0.0.1:1/webhook".to_string(),
        webhook_timeout: Duration::from_secs(1),
    };
    assert!(!manager.uses_desktop());
    assert!(manager.uses_webhook());
    assert_eq!(manager.request_timeout(), Duration::from_secs(1));
    let quiet = Manager {
        desktop_enabled: true,
        webhook_url: String::new(),
        webhook_timeout: Duration::from_secs(0),
    };
    assert!(quiet.uses_desktop());
    assert!(!quiet.uses_webhook());
    assert_eq!(quiet.request_timeout(), Duration::from_secs(5));

    assert!(Manager::report(None, None).is_ok());
    let err = Manager::report(None, Some("send request: refused".to_string()))
        .expect_err("expected failure");
    assert!(err.contains("webhook:"));
    assert_eq!(err, "webhook: send request: refused");
    assert_eq!(
        Manager::report(Some("no display".to_string()), Some("down".to_string()))
            .expect_err("both"),
        "desktop: no display; webhook: down"
    );
    assert_eq!(
        Manager::report(Some("no display".to_string()), None).expect_err("desktop"),
        "desktop: no display"
    );
}

#[test]
fn the_words_of_a_desktop_notification() {
    let mut event = test_event();
    assert_eq!(desktop_title(&event), "inline success");
    assert_eq!(desktop_body(&event), "exit 0, duration 500ms");
    event.exit_code = -2;
    event.duration = Duration::from_millis(2500);
    assert_eq!(desktop_body(&event), "exit -2, duration 2.500s");
}

#[test]
fn the_answer_of_a_webhook() {
    assert!(webhook_status(200).is_ok());
    assert!(webhook_status(204).is_ok());
    assert!(webhook_status(299).is_ok());
    assert_eq!(webhook_status(199).expect_err("low"), "unexpected status 199");
    assert_eq!(webhook_status(300).expect_err("high"), "unexpected status 300");
    assert_eq!(webhook_status(500).expect_err("error"), "unexpected status 500");
}

#[test]
fn maps_keep_their_keys_in_order() {
    let mut m = SortedMap::new();
    assert!(m.is_empty());
    for key in ["b", "a", "ab", "", "B", "é", "a"] {
        m.insert(key.to_string(), key.to_uppercase());
    }
    assert_eq!(m.len(), 6);
    let keys: Vec<&str> = (0..m.len()).map(|i| m.key_at(i).as_str()).collect();
    assert_eq!(keys, vec!["", "B", "a", "ab", "b", "é"]);
    let mut sorted = keys.clone();
    sorted.sort();
    assert_eq!(keys, sorted);
    assert_eq!(m.value_at(2), "A");
    assert_eq!(m.get("ab"), Some(&"AB".to_string()));
    assert_eq!(m.get("c"), None);
    assert!(m.contains_key(""));
    assert!(!m.contains_key("A"));
    assert_eq!(m.position("b"), Some(4));
    m.insert("a".to_string(), "again".to_string());
    assert_eq!(m.len(), 6);
    assert_eq!(m.get("a"), Some(&"again".to_string()));
    let copy = m.clone();
    assert_eq!(copy.len(), 6);
    assert_eq!(copy.get("é"), Some(&"É".to_string()));
    assert_eq!(m.duplicate().get("B"), Some(&"B".to_string()));
}

#[test]
fn names_are_ordered_as_strings_are() {
    let samples = ["", "a", "A", "ab", "b", "é", "z", "😀", "a\u{0}", "aa"];
    for x in samples {
        for y in samples {
            assert_eq!(comes_before(x, y), x < y, "{x:?} before {y:?}");
        }
    }
}

#[test]
fn text_is_joined_and_split() {
    let parts = vec!["a".to_string(), String::new(), "c".to_string()];
    assert_eq!(text::join(&parts, ", "), "a, , c");
    assert_eq!(text::join(&Vec::new(), ", "), "");
    assert_eq!(text::join(&vec!["x".to_string()], ", "), "x");
    let lines = |s: &str| -> Vec<String> {
        text::lines(&s.chars().collect())
            .into_iter()
            .map(|l| l.into_iter().collect())
            .collect()
    };
    for sample in ["", "a", "a\n", "a\nb", "\n", "\n\n", "a\r\nb\r", "a\r\n\r\n", "\r", "a\n\rb\n"] {
        let expected: Vec<String> = sample.lines().map(|l| l.to_string()).collect();
        assert_eq!(lines(sample), expected, "{sample:?}");
    }
}

#[test]
fn text_is_trimmed_and_searched() {
    let chars = |s: &str| -> Vec<char> { s.chars().collect() };
    let trimmed = |s: &str| -> String { text::trim(&chars(s)).into_iter().collect() };
    for sample in ["", " ", "a", " a ", "\t a b \n", "\u{a0}x\u{2003}", "  "] {
        assert_eq!(trimmed(sample), sample.trim(), "{sample:?}");
        assert_eq!(text::is_blank(sample), sample.trim().is_empty(), "{sample:?}");
    }
    assert_eq!(text::find_str(&chars("abcabc"), "ca"), Some(2));
    assert_eq!(text::find_str(&chars("abcabc"), "cb"), None);
    assert_eq!(text::find_str(&chars("abc"), ""), Some(0));
    assert_eq!(text::find_str(&chars("ab"), "abc"), None);
    assert_eq!(text::find_char(&chars("a=b=c"), 2, '='), Some(3));
    assert_eq!(text::find_char(&chars("a=b=c"), 4, '='), None);
    assert!(text::starts_with(&chars("export X"), "export "));
    assert!(!text::starts_with(&chars("expor"), "export "));
    assert!(text::ends_with(&chars("a.rs"), ".rs"));
    assert!(!text::ends_with(&chars("rs"), ".rs"));
    assert!(text::str_eq("é", "é"));
    assert!(!text::str_eq("e", "é"));
}

#[test]
fn numbers_are_written_in_decimal() {
    let shown = |n: i128| -> String {
        let mut s = String::from(">");
        text::push_signed_decimal(&mut s, n);
        s
    };
    assert_eq!(shown(0), ">0");
    assert_eq!(shown(7), ">7");
    assert_eq!(shown(10), ">10");
    assert_eq!(shown(-1), ">-1");
    assert_eq!(shown(1234567890), ">1234567890");
    assert_eq!(shown(i128::MAX), format!(">{}", i128::MAX));
    assert_eq!(shown(i128::MIN), format!(">{}", i128::MIN));
    let mut s = String::new();
    text::push_decimal(&mut s, u128::MAX);
    assert_eq!(s, u128::MAX.to_string());
    let mut s = String::new();
    text::push_three_digits(&mut s, 7);
    text::push_three_digits(&mut s, 120);
    assert_eq!(s, "007120");
}

#[test]
fn notify_webhook_failure_request() {
    let manager = Manager {
        desktop_enabled: false,
        webhook_url: "http://127.0.0.1:1/webhook".to_string(),
        webhook_timeout: Duration::from_secs(1),
    };
    assert!(!manager.uses_desktop());
    assert!(manager.uses_webhook());

    let err = Manager::report(None, Some("send request: connection refused".to_string()))
        .expect_err("expected failure");
    assert!(err.contains("webhook:"));
}

#[test]
fn notify_no_providers() {
    let manager = Manager {
        desktop_enabled: false,
        webhook_url: String::new(),
        webhook_timeout: Duration::from_secs(1),
    };
    assert!(!manager.uses_desktop());
    assert!(!manager.uses_webhook());

    Manager::report(None, None).expect("no-provider notify");
}

#[test]
fn append_and_list() {
    let records = vec![
        record("1", RunSource::Task, RunStatus::Success),
        record("2", RunSource::Inline, RunStatus::Failed),
    ];

    let rows = select(
        records.clone(),
        &Filter {
            limit: Some(10),
            ..Filter::default()
        },
    );
    assert_eq!(rows.len(), 2);
    assert_eq!(rows[0].id, "2");

    let filtered = select(
        records,
        &Filter {
            status: Some("failed".to_string()),
            ..Filter::default()
        },
    );
    assert_eq!(filtered.len(), 1);
    assert_eq!(filtered[0].id, "2");
}

#[test]
fn the_lines_of_the_history_file() {
    assert_eq!(record_line("  {\"id\":1} \r"), Some("{\"id\":1}".to_string()));
    assert_eq!(record_line("{{bad"), Some("{{bad".to_string()));
    assert_eq!(record_line(""), None);
    assert_eq!(record_line(" \t "), None);
}

#[test]
fn the_command_that_notifies_the_desktop() {
    let mut event = test_event();
    event.name = "say \"hi\"".to_string();
    let line = desktop_command(&event, Desktop::Linux).expect("linux");
    assert_eq!(line.program, "notify-send");
    assert_eq!(
        line.args,
        vec![
            "say \"hi\" success".to_string(),
            "exit 0, duration 500ms".to_string()
        ]
    );
    let line = desktop_command(&event, Desktop::MacOs).expect("macos");
    assert_eq!(line.program, "osascript");
    assert_eq!(
        line.args,
        vec![
            "-e".to_string(),
            "display notification \"exit 0, duration 500ms\" with title \"say \\\"hi\\\" success\""
                .to_string()
        ]
    );
    assert!(desktop_command(&event, Desktop::Other).is_none());
}

#[test]
fn numbers_are_measured_between_letters() {
    assert_eq!(text::count_digits("1h 30m 45s"), 5);
    assert_eq!(text::count_digits("no digits · ٣"), 0);
    assert_eq!(text::measure_longest_number(""), 0);
    assert_eq!(text::measure_longest_number("1h 30m 450s"), 3);
    assert_eq!(text::measure_longest_number("12 34.56s7"), 6);
    assert_eq!(text::measure_longest_number("1µ2 s"), 2);
    assert_eq!(text::measure_longest_number("abc"), 0);
}
