use otk::command::{run_command, run_proxy, Action, FilteredRun, ProxyRun, UsageError};
use otk::routing::Filter;

fn a(parts: &[&str]) -> Vec<String> {
    parts.iter().map(|s| s.to_string()).collect()
}

fn filtered(parts: &[&str], verbose: u8) -> FilteredRun {
    match run_command(&a(parts), verbose) {
        Ok(Action::Filtered(run)) => run,
        other => panic!("{:?}", other),
    }
}

fn proxied(parts: &[&str], verbose: u8) -> ProxyRun {
    match run_command(&a(parts), verbose) {
        Ok(Action::Proxy(run)) => run,
        other => panic!("{:?}", other),
    }
}

#[test]
fn only_a_missing_command_is_refused() {
    assert_eq!(run_command(&[], 0), Err(UsageError::NoCommand));
    assert_eq!(run_command(&a(&["proxy"]), 0), Err(UsageError::NoProxyCommand));
    assert_eq!(run_command(&a(&["err"]), 0), Err(UsageError::NoErrCommand));
    assert_eq!(run_proxy(&[], 1), Err(UsageError::NoProxyCommand));
    assert!(run_command(&a(&[""]), 0).is_ok());
    assert!(run_command(&a(&["proxy", "err"]), 0).is_ok());
}

#[test]
fn usage_messages() {
    assert_eq!(UsageError::NoCommand.message(), "No command provided");
    assert_eq!(UsageError::NoProxyCommand.message(), "No command provided to 'proxy'");
    assert_eq!(UsageError::NoErrCommand.message(), "No command provided to 'err'");
}

#[test]
fn commands_get_their_classified_filter() {
    assert_eq!(
        filtered(&["docker", "logs", "my web"], 0),
        FilteredRun {
            command: "docker logs 'my web'".to_string(),
            label: "docker_logs".to_string(),
            filter: Filter::Log,
            filter_on_failure: false,
            notice: None,
        }
    );
    assert_eq!(
        filtered(&["grep", "-E", "a|b", "f"], 1),
        FilteredRun {
            command: "grep -E 'a|b' f".to_string(),
            label: "grep".to_string(),
            filter: Filter::Grep,
            filter_on_failure: true,
            notice: Some("[otk] Running: grep -E 'a|b' f".to_string()),
        }
    );
}

#[test]
fn err_keeps_error_lines_of_any_command() {
    assert_eq!(
        filtered(&["err", "make", "all it"], 2),
        FilteredRun {
            command: "make 'all it'".to_string(),
            label: "err".to_string(),
            filter: Filter::Error,
            filter_on_failure: true,
            notice: Some("[otk] Running: make 'all it'".to_string()),
        }
    );
}

#[test]
fn proxy_runs_without_filter() {
    assert_eq!(
        proxied(&["proxy", "docker logs web | tail -5"], 1),
        ProxyRun {
            command: "docker logs web | tail -5".to_string(),
            recorded_as: "otk proxy docker logs web | tail -5".to_string(),
            notice: Some("[otk] Proxy: docker logs web | tail -5".to_string()),
        }
    );
    assert_eq!(proxied(&["proxy", "echo", "a b"], 0).command, "echo 'a b'");
    assert_eq!(run_proxy(&a(&["echo", "a b"]), 0).unwrap().recorded_as, "otk proxy echo 'a b'");
}

#[test]
fn single_word_runs_untouched() {
    assert_eq!(filtered(&["ls | wc"], 0).command, "ls | wc");
    assert_eq!(filtered(&["err", "ls | wc"], 0).command, "ls | wc");
    assert_eq!(proxied(&["proxy", "ls | wc"], 0).command, "ls | wc");
}

#[test]
fn leave_to_see_failures_follows_filter() {
    for (parts, leave) in [
        (vec!["pytest", "x"], true),
        (vec!["find", "."], true),
        (vec!["rg", "x"], true),
        (vec!["err", "x"], true),
        (vec!["git", "status"], false),
        (vec!["pip", "list"], false),
        (vec!["echo", "x"], false),
    ] {
        assert_eq!(filtered(&parts, 0).filter_on_failure, leave);
    }
}

#[test]
fn verbosity_changes_the_notice_only() {
    let quiet = filtered(&["git", "diff"], 0);
    let loud = filtered(&["git", "diff"], 3);
    assert_eq!(quiet.notice, None);
    assert_eq!(loud.notice.as_deref(), Some("[otk] Running: git diff"));
    assert_eq!(FilteredRun { notice: None, ..loud }, quiet);
}
