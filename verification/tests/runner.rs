use otto_cli::runner::tail;

#[test]
fn tail_limits_output() {
    let input = "a\nb\nc\nd\ne\nf";
    let out = tail(input, 3, 10).expect("tail");
    assert_eq!(out, "d\ne\nf");
}

#[test]
fn tail_of_nothing_is_nothing() {
    assert_eq!(tail("", 10, 1400), None);
    assert_eq!(tail("\n\n\n", 10, 1400), None);
}

#[test]
fn tail_drops_the_line_feeds_at_the_end() {
    assert_eq!(tail("a\nb\n\n", 10, 1400), Some("a\nb".to_string()));
    assert_eq!(tail("a\r\nb\r\n", 10, 1400), Some("a\nb\r".to_string()));
    assert_eq!(tail("\n\na", 10, 1400), Some("\n\na".to_string()));
}

#[test]
fn tail_keeps_the_last_characters() {
    assert_eq!(tail("abcdef", 10, 4), Some("cdef".to_string()));
    assert_eq!(tail("ab\ncd\nef", 2, 4), Some("d\nef".to_string()));
    assert_eq!(tail("héllo wörld", 1, 5), Some("wörld".to_string()));
    assert_eq!(tail("abc", 0, 10), Some(String::new()));
    assert_eq!(tail("abc", 10, 0), Some(String::new()));
}

use otto_cli::duration::{format_duration, Duration};
use otto_cli::model::RunStatus;
use otto_cli::runner::{
    backoff_delay, build_command, conclude, judge, rejected, wait_limit, Attempt, Next, Outcome,
    Platform, Request, Retry,
};
use otto_cli::sorted_map::SortedMap;

fn base_request() -> Request {
    Request {
        name: "inline".to_string(),
        command_preview: "echo ok".to_string(),
        use_shell: false,
        argv: vec![
            "/bin/sh".to_string(),
            "-c".to_string(),
            "echo ok".to_string(),
        ],
        shell: String::new(),
        dir: String::new(),
        env: SortedMap::new(),
        timeout: Duration::from_secs(0),
        retries: 0,
        retry_backoff: Duration::from_millis(10),
        stream_output: false,
    }
}

fn failed(code: i32, error: &str) -> Attempt {
    Attempt::Failed {
        exit_code: code,
        stderr_tail: Some(format!("tail {code}")),
        error: error.to_string(),
    }
}

#[test]
fn validate_request_retries() {
    let mut req = base_request();
    req.retries = -1;
    assert!(Retry::start(&req).is_err());
}

#[test]
fn start_rejects_what_cannot_run() {
    let mut req = base_request();
    req.retries = -1;
    req.argv.clear();
    assert_eq!(Retry::start(&req).expect_err("retries"), "retries must be >= 0");

    let mut req = base_request();
    req.use_shell = true;
    req.shell = " \t\n".to_string();
    assert_eq!(
        Retry::start(&req).expect_err("shell"),
        "shell command is required"
    );

    let mut req = base_request();
    req.argv.clear();
    assert_eq!(
        Retry::start(&req).expect_err("exec"),
        "exec command is required"
    );
}

#[test]
fn start_allows_one_attempt_more_than_retries() {
    for retries in 0..=10 {
        let mut req = base_request();
        req.retries = retries;
        let state = Retry::start(&req).expect("start");
        assert_eq!(state.attempts, (retries + 1) as u32);
        assert_eq!(state.made, 0);
        assert_eq!(state.base, Duration::from_millis(10));
    }
}

#[test]
fn start_takes_a_second_where_no_backoff_is_given() {
    let mut req = base_request();
    req.retry_backoff = Duration::from_secs(0);
    assert_eq!(
        Retry::start(&req).expect("start").base,
        Duration::from_secs(1)
    );
}

#[test]
fn rejected_reports_code_127() {
    let failure = rejected("retries must be >= 0".to_string(), 42);
    assert_eq!(failure.message, "retries must be >= 0");
    assert_eq!(failure.result.exit_code, 127);
    assert_eq!(failure.result.status, RunStatus::Failed);
    assert_eq!(failure.result.duration, Duration::from_secs(0));
    assert_eq!(failure.result.started_at, 42);
    assert_eq!(failure.result.stderr_tail, None);
}

#[test]
fn backoff_doubles_up_to_a_minute() {
    let second = Duration::from_secs(1);
    assert_eq!(backoff_delay(second, 0), Duration::from_secs(1));
    assert_eq!(backoff_delay(second, 1), Duration::from_secs(2));
    assert_eq!(backoff_delay(second, 2), Duration::from_secs(4));
    assert_eq!(backoff_delay(second, 5), Duration::from_secs(32));
    assert_eq!(backoff_delay(second, 6), Duration::from_secs(60));
    assert_eq!(backoff_delay(second, 10), Duration::from_secs(60));
    assert_eq!(backoff_delay(second, u32::MAX), Duration::from_secs(60));
    assert_eq!(
        backoff_delay(Duration::from_millis(10), 3),
        Duration::from_millis(80)
    );
    assert_eq!(
        backoff_delay(Duration::from_secs(90), 0),
        Duration::from_secs(60)
    );
    assert_eq!(
        backoff_delay(Duration::from_secs(0), 7),
        Duration::from_secs(0)
    );
}

#[test]
fn a_success_ends_the_run_at_once() {
    let mut req = base_request();
    req.retries = 3;
    let state = Retry::start(&req).expect("start");
    match state.record(Attempt::Succeeded {
        exit_code: 0,
        stderr_tail: Some("warn".to_string()),
    }) {
        Next::Finished(outcome) => {
            assert_eq!(outcome.status, RunStatus::Success);
            assert_eq!(outcome.exit_code, 0);
            assert_eq!(outcome.stderr_tail, Some("warn".to_string()));
            assert_eq!(outcome.error, None);
        }
        Next::Again { .. } => panic!("a success is not tried again"),
    }
}

#[test]
fn failures_are_retried_with_growing_waits_and_the_last_is_reported() {
    let mut req = base_request();
    req.retries = 2;
    req.retry_backoff = Duration::from_millis(100);
    let state = Retry::start(&req).expect("start");

    let state = match state.record(failed(9, "first")) {
        Next::Again { wait, state } => {
            assert_eq!(wait, Duration::from_millis(100));
            assert_eq!(state.made, 1);
            state
        }
        Next::Finished(_) => panic!("two attempts are left"),
    };
    let state = match state.record(Attempt::NotRun {
        error: "run command: no such file".to_string(),
    }) {
        Next::Again { wait, state } => {
            assert_eq!(wait, Duration::from_millis(200));
            assert_eq!(state.made, 2);
            state
        }
        Next::Finished(_) => panic!("one attempt is left"),
    };
    match state.record(failed(7, "command failed with exit code 7")) {
        Next::Finished(outcome) => {
            assert_eq!(outcome.status, RunStatus::Failed);
            assert_eq!(outcome.exit_code, 7);
            assert_eq!(outcome.stderr_tail, Some("tail 7".to_string()));
            assert_eq!(
                outcome.error,
                Some("command failed with exit code 7".to_string())
            );
        }
        Next::Again { .. } => panic!("no wait follows the last attempt"),
    }
}

#[test]
fn a_command_that_cannot_run_reports_code_127() {
    let state = Retry::start(&base_request()).expect("start");
    match state.record(Attempt::NotRun {
        error: "run command: denied".to_string(),
    }) {
        Next::Finished(outcome) => {
            assert_eq!(outcome.exit_code, 127);
            assert_eq!(outcome.status, RunStatus::Failed);
            assert_eq!(outcome.stderr_tail, None);
            assert_eq!(outcome.error, Some("run command: denied".to_string()));
        }
        Next::Again { .. } => panic!("no retries were asked for"),
    }
}

#[test]
fn retry_then_success_reports_success() {
    let mut req = base_request();
    req.retries = 1;
    let state = Retry::start(&req).expect("start");
    let state = match state.record(failed(9, "command failed with exit code 9")) {
        Next::Again { state, .. } => state,
        Next::Finished(_) => panic!("one attempt is left"),
    };
    match state.record(Attempt::Succeeded {
        exit_code: 0,
        stderr_tail: None,
    }) {
        Next::Finished(outcome) => {
            let result = conclude(outcome, 5, Duration::from_millis(30)).expect("success");
            assert_eq!(result.exit_code, 0);
            assert_eq!(result.status, RunStatus::Success);
            assert_eq!(result.started_at, 5);
            assert_eq!(result.duration, Duration::from_millis(30));
        }
        Next::Again { .. } => panic!("a success is not tried again"),
    }
}

#[test]
fn a_command_that_exits_with_7_fails_with_7() {
    let req = base_request();
    let state = Retry::start(&req).expect("start");
    let attempt = judge(false, false, Some(7), "err\n", req.timeout);
    let outcome = match state.record(attempt) {
        Next::Finished(outcome) => outcome,
        Next::Again { .. } => panic!("no retries were asked for"),
    };
    let failure = conclude(outcome, 1, Duration::from_millis(3)).expect_err("failure");
    assert_eq!(failure.result.exit_code, 7);
    assert_eq!(failure.result.status, RunStatus::Failed);
    assert_eq!(failure.result.stderr_tail, Some("err".to_string()));
    assert_eq!(failure.message, "command failed with exit code 7");
}

#[test]
fn judge_puts_the_timeout_first() {
    match judge(true, true, Some(0), "", Duration::from_millis(50)) {
        Attempt::Failed {
            exit_code,
            stderr_tail,
            error,
        } => {
            assert_eq!(exit_code, 124);
            assert_eq!(stderr_tail, None);
            assert_eq!(error, "command timed out after 50ms");
        }
        other => panic!("unexpected {other:?}"),
    }
    match judge(true, false, None, "late\n", Duration::from_secs(120)) {
        Attempt::Failed {
            exit_code, error, ..
        } => {
            assert_eq!(exit_code, 124);
            assert_eq!(error, "command timed out after 120s");
        }
        other => panic!("unexpected {other:?}"),
    }
}

#[test]
fn judge_goes_by_the_exit() {
    match judge(false, true, Some(0), "note\n", Duration::from_secs(0)) {
        Attempt::Succeeded {
            exit_code,
            stderr_tail,
        } => {
            assert_eq!(exit_code, 0);
            assert_eq!(stderr_tail, Some("note".to_string()));
        }
        other => panic!("unexpected {other:?}"),
    }
    match judge(false, false, None, "", Duration::from_secs(0)) {
        Attempt::Failed {
            exit_code, error, ..
        } => {
            assert_eq!(exit_code, 1);
            assert_eq!(error, "command failed with exit code 1");
        }
        other => panic!("unexpected {other:?}"),
    }
    match judge(false, false, Some(-3), "", Duration::from_secs(0)) {
        Attempt::Failed {
            exit_code, error, ..
        } => {
            assert_eq!(exit_code, -3);
            assert_eq!(error, "command failed with exit code -3");
        }
        other => panic!("unexpected {other:?}"),
    }
}

#[test]
fn judge_keeps_ten_lines_and_1400_characters() {
    let many: String = (1..=12).map(|i| format!("line {i}\n")).collect();
    match judge(false, true, Some(0), &many, Duration::from_secs(0)) {
        Attempt::Succeeded { stderr_tail, .. } => {
            let kept = stderr_tail.expect("tail");
            assert_eq!(kept.lines().count(), 10);
            assert!(kept.starts_with("line 3\n"));
            assert!(kept.ends_with("line 12"));
        }
        other => panic!("unexpected {other:?}"),
    }
    let long = "x".repeat(2000);
    match judge(false, true, Some(0), &long, Duration::from_secs(0)) {
        Attempt::Succeeded { stderr_tail, .. } => {
            assert_eq!(stderr_tail.expect("tail").chars().count(), 1400);
        }
        other => panic!("unexpected {other:?}"),
    }
}

#[test]
fn no_timeout_means_no_limit() {
    assert_eq!(wait_limit(Duration::from_secs(0)), None);
    assert_eq!(
        wait_limit(Duration::from_millis(50)),
        Some(Duration::from_millis(50))
    );
}

#[test]
fn conclude_reports_a_failure_without_a_message() {
    let outcome = Outcome {
        exit_code: 3,
        status: RunStatus::Failed,
        stderr_tail: None,
        error: None,
    };
    let failure = conclude(outcome, 0, Duration::from_secs(1)).expect_err("failure");
    assert_eq!(failure.message, "");
    assert_eq!(failure.result.exit_code, 3);
}

#[test]
fn command_lines() {
    let req = base_request();
    let line = build_command(&req, Platform::Unix).expect("command");
    assert_eq!(line.program, "/bin/sh");
    assert_eq!(line.args, vec!["-c".to_string(), "echo ok".to_string()]);

    let mut one = base_request();
    one.argv = vec!["true".to_string()];
    let line = build_command(&one, Platform::Windows).expect("command");
    assert_eq!(line.program, "true");
    assert!(line.args.is_empty());

    let mut shell = base_request();
    shell.use_shell = true;
    shell.shell = "echo $HOME".to_string();
    let line = build_command(&shell, Platform::Unix).expect("command");
    assert_eq!(line.program, "/bin/sh");
    assert_eq!(line.args, vec!["-c".to_string(), "echo $HOME".to_string()]);
    let line = build_command(&shell, Platform::Windows).expect("command");
    assert_eq!(line.program, "cmd");
    assert_eq!(line.args, vec!["/C".to_string(), "echo $HOME".to_string()]);

    let mut none = base_request();
    none.argv.clear();
    assert_eq!(
        build_command(&none, Platform::Unix).expect_err("empty"),
        "exec command is required"
    );
}

#[test]
fn durations_are_shown_by_size() {
    assert_eq!(format_duration(Duration::from_secs(0)), "0ms");
    assert_eq!(format_duration(Duration::from_millis(50)), "50ms");
    assert_eq!(format_duration(Duration::from_nanos(999_999_999)), "999ms");
    assert_eq!(format_duration(Duration::from_secs(1)), "1s");
    assert_eq!(format_duration(Duration::from_secs(120)), "120s");
    assert_eq!(format_duration(Duration::from_millis(1500)), "1.500s");
    assert_eq!(format_duration(Duration::from_millis(61_001)), "61.001s");
    assert_eq!(
        format_duration(Duration::from_nanos(1_234_600_000)),
        "1.235s"
    );
    assert_eq!(
        format_duration(Duration::from_nanos(1_234_400_000)),
        "1.234s"
    );
    assert_eq!(
        format_duration(Duration::from_nanos(1_999_600_000)),
        "2.000s"
    );
    assert_eq!(format_duration(Duration::from_nanos(2_000_400_000)), "2s");
}

#[test]
fn durations_convert() {
    let d = Duration::from_parts(3, 250_000_000);
    assert_eq!(d.as_nanos(), 3_250_000_000);
    assert_eq!(d.as_millis(), 3250);
    assert_eq!(d.as_secs(), 3);
    assert_eq!(d.subsec_nanos(), 250_000_000);
    assert!(!d.is_zero());
    assert!(Duration::from_nanos(0).is_zero());
    assert_eq!(Duration::from_parts(u64::MAX, 999_999_999).as_secs(), u64::MAX as u128);
}
