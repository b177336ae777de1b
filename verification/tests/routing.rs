use otk::routing::{benign_nonzero, classify, filter_for, tee_name, Filter};

fn a(parts: &[&str]) -> Vec<String> {
    parts.iter().map(|s| s.to_string()).collect()
}

#[test]
fn classify_docker_logs_is_log_filter() {
    assert_eq!(classify(&a(&["docker", "logs", "web"])), "log");
    assert_eq!(classify(&a(&["docker", "compose", "logs", "web"])), "log");
}

#[test]
fn classify_docker_other_is_docker_filter() {
    assert_eq!(classify(&a(&["docker", "ps"])), "docker");
    assert_eq!(classify(&a(&["docker", "images"])), "docker");
}

#[test]
fn classify_git_subcommands() {
    assert_eq!(classify(&a(&["git", "status"])), "git_status");
    assert_eq!(classify(&a(&["git", "diff"])), "git_diff");
    assert_eq!(classify(&a(&["git", "log"])), "git_log");
    assert_eq!(classify(&a(&["git", "commit", "-m", "x"])), "ok");
    assert_eq!(classify(&a(&["git", "show"])), "passthrough");
}

#[test]
fn classify_test_runners() {
    assert_eq!(classify(&a(&["invoke", "test", "sale"])), "test");
    assert_eq!(classify(&a(&["pytest", "tests/"])), "test");
    assert_eq!(classify(&a(&["invoke", "build"])), "passthrough");
}

#[test]
fn classify_search_listing_pkg_sql() {
    assert_eq!(classify(&a(&["grep", "-n", "foo", "x.py"])), "grep");
    assert_eq!(classify(&a(&["rg", "foo"])), "grep");
    assert_eq!(classify(&a(&["ls", "-la"])), "ls");
    assert_eq!(classify(&a(&["find", "/etc", "-name", "hosts"])), "ls");
    assert_eq!(classify(&a(&["tree", "."])), "ls");
    assert_eq!(classify(&a(&["pip", "list"])), "pip");
    assert_eq!(classify(&a(&["psql", "-c", "select 1"])), "sql");
}

#[test]
fn classify_unknown_is_passthrough() {
    assert_eq!(classify(&a(&["echo", "hi"])), "passthrough");
    assert_eq!(classify(&a(&["npm", "test"])), "passthrough");
}

#[test]
fn tee_name_is_filesystem_safe() {
    assert_eq!(tee_name(&a(&["git", "status"])), "git_status");
    assert_eq!(tee_name(&a(&["docker", "logs", "web"])), "docker_logs");
    assert_eq!(tee_name(&a(&["ls", "-la"])), "ls");
}

#[test]
fn benign_nonzero_only_for_test_grep_ls() {
    assert!(benign_nonzero("test"));
    assert!(benign_nonzero("grep"));
    assert!(benign_nonzero("ls"));
    assert!(!benign_nonzero("git_status"));
    assert!(!benign_nonzero("git_diff"));
    assert!(!benign_nonzero("ok"));
    assert!(!benign_nonzero("docker"));
    assert!(!benign_nonzero("log"));
    assert!(!benign_nonzero("passthrough"));
}

const KEYS: [(&str, Filter); 12] = [
    ("test", Filter::Test),
    ("log", Filter::Log),
    ("git_status", Filter::GitStatus),
    ("git_diff", Filter::GitDiff),
    ("git_log", Filter::GitLog),
    ("ok", Filter::Quiet),
    ("grep", Filter::Grep),
    ("ls", Filter::Ls),
    ("docker", Filter::Docker),
    ("pip", Filter::Pip),
    ("sql", Filter::Sql),
    ("passthrough", Filter::Passthrough),
];

#[test]
fn filter_for_resolves_every_key() {
    for (key, filter) in KEYS {
        assert_eq!(filter_for(key), filter);
    }
    assert_eq!(filter_for(""), Filter::Passthrough);
    assert_eq!(filter_for("Test"), Filter::Passthrough);
    assert_eq!(filter_for("err"), Filter::Passthrough);
    assert_eq!(filter_for("tests"), Filter::Passthrough);
}

#[test]
fn different_keys_have_different_filters() {
    for (i, (_, x)) in KEYS.iter().enumerate() {
        for (j, (_, y)) in KEYS.iter().enumerate() {
            assert_eq!(x == y, i == j);
        }
    }
}

#[test]
fn benign_keys_are_those_of_three_filters() {
    for (key, filter) in KEYS {
        let expected = matches!(filter, Filter::Test | Filter::Grep | Filter::Ls);
        assert_eq!(benign_nonzero(key), expected);
    }
    assert!(!benign_nonzero(""));
}

#[test]
fn classify_covers_the_whole_table() {
    for quiet in [
        "add", "commit", "push", "pull", "fetch", "checkout", "stash", "merge", "rebase", "tag",
        "reset",
    ] {
        assert_eq!(classify(&a(&["git", quiet])), "ok");
    }
    assert_eq!(classify(&a(&["git"])), "passthrough");
    for tool in ["docker", "docker-compose", "podman"] {
        assert_eq!(classify(&a(&[tool])), "docker");
        assert_eq!(classify(&a(&[tool, "logs"])), "log");
        assert_eq!(classify(&a(&[tool, "compose"])), "docker");
        assert_eq!(classify(&a(&[tool, "compose", "logs"])), "log");
        assert_eq!(classify(&a(&[tool, "ps", "logs"])), "docker");
    }
    for tool in ["pytest", "py.test"] {
        assert_eq!(classify(&a(&[tool])), "test");
    }
    for tool in ["grep", "rg", "egrep", "fgrep", "ag"] {
        assert_eq!(classify(&a(&[tool])), "grep");
    }
    for tool in ["ls", "tree", "find", "fd"] {
        assert_eq!(classify(&a(&[tool])), "ls");
    }
    for tool in ["pip", "pip3", "uv"] {
        assert_eq!(classify(&a(&[tool])), "pip");
    }
    for tool in ["psql", "mysql"] {
        assert_eq!(classify(&a(&[tool])), "sql");
    }
    assert_eq!(classify(&a(&["invoke"])), "passthrough");
    assert_eq!(classify(&[]), "passthrough");
    assert_eq!(classify(&a(&[""])), "passthrough");
    assert_eq!(classify(&a(&["Git", "status"])), "passthrough");
}

#[test]
fn three_words_decide_the_key() {
    assert_eq!(
        classify(&a(&["docker", "compose", "logs", "web", "-f"])),
        classify(&a(&["docker", "compose", "logs"]))
    );
    assert_eq!(
        classify(&a(&["git", "status", "x", "diff"])),
        classify(&a(&["git", "status", "x"]))
    );
}

#[test]
fn only_passthrough_goes_unfiltered() {
    assert_eq!(filter_for(classify(&a(&["make", "all"]))), Filter::Passthrough);
    assert_eq!(filter_for(classify(&a(&["git", "push"]))), Filter::Quiet);
}

#[test]
fn tee_name_takes_the_subcommand_of_some_tools() {
    assert_eq!(tee_name(&[]), "");
    assert_eq!(tee_name(&a(&["git"])), "git");
    assert_eq!(tee_name(&a(&["docker-compose", "up", "-d"])), "docker_compose_up");
    assert_eq!(tee_name(&a(&["invoke", "test", "sale"])), "invoke_test");
    assert_eq!(tee_name(&a(&["pip", "list"])), "pip_list");
    assert_eq!(tee_name(&a(&["podman", "logs"])), "podman");
    assert_eq!(tee_name(&a(&["", "logs"])), "");
}

#[test]
fn tee_name_replaces_unsafe_characters() {
    assert_eq!(tee_name(&a(&["./run me.sh"])), "__run_me_sh");
    assert_eq!(tee_name(&a(&["git", "../x"])), "git____x");
    assert_eq!(tee_name(&a(&["caf\u{e9}\u{2014}\u{4e2d}"])), "caf\u{e9}_\u{4e2d}");
}

#[test]
fn tee_name_keeps_only_letters_and_digits_of_ascii() {
    for code in 0u8..128 {
        let c = code as char;
        let expected = if c.is_ascii_alphanumeric() { c } else { '_' };
        assert_eq!(tee_name(&[c.to_string()]), expected.to_string());
    }
}
