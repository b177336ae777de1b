use otk::shell::{shell_join, shell_quote};

fn a(parts: &[&str]) -> Vec<String> {
    parts.iter().map(|s| s.to_string()).collect()
}

// Argv arrives already parsed by the caller's shell; re-serializing it for
// `sh -c` must re-quote, or patterns like `O4\|O6` lose their backslash and
// `-E "O4|O6"` becomes a real shell pipe (`sh: O6: not found`).

#[test]
fn shell_join_preserves_bre_alternation_backslash() {
    assert_eq!(
        shell_join(&a(&["grep", "-n", r"O4\|O6", "/p/f.md"])),
        r"grep -n 'O4\|O6' /p/f.md"
    );
}

#[test]
fn shell_join_quotes_shell_metacharacters() {
    assert_eq!(
        shell_join(&a(&["grep", "-nE", "O4|O6", "f.md"])),
        "grep -nE 'O4|O6' f.md"
    );
    assert_eq!(
        shell_join(&a(&["find", ".", "-name", "*.py"])),
        "find . -name '*.py'"
    );
    assert_eq!(
        shell_join(&a(&["psql", "-c", "select * from res_users"])),
        "psql -c 'select * from res_users'"
    );
}

#[test]
fn shell_join_escapes_embedded_single_quotes() {
    assert_eq!(
        shell_join(&a(&["grep", "it's", "f.md"])),
        r"grep 'it'\''s' f.md"
    );
}

#[test]
fn shell_join_leaves_simple_args_unquoted() {
    assert_eq!(
        shell_join(&a(&["git", "log", "--oneline", "-5"])),
        "git log --oneline -5"
    );
}

#[test]
fn shell_join_single_arg_is_raw_command_string() {
    // `otk proxy "docker logs web | tail -5"` — one arg = whole shell command
    assert_eq!(
        shell_join(&a(&["docker logs web | tail -5"])),
        "docker logs web | tail -5"
    );
}

/// Splits a line of literal words as a shell does.
fn split(line: &str) -> Vec<String> {
    let mut words = Vec::new();
    let mut word: Option<String> = None;
    let mut chars = line.chars();
    while let Some(c) = chars.next() {
        match c {
            ' ' | '\t' => words.extend(word.take()),
            '\'' => {
                let text = word.get_or_insert_with(String::new);
                loop {
                    match chars.next() {
                        Some('\'') => break,
                        Some(inner) => text.push(inner),
                        None => panic!("open quote"),
                    }
                }
            }
            '\\' => {
                let next = chars.next();
                assert!(next.is_some());
                word.get_or_insert_with(String::new).extend(next);
            }
            _ => {
                assert!(!"|&;<>()$`\"\n*?[]#~{}!^".contains(c));
                word.get_or_insert_with(String::new).push(c);
            }
        }
    }
    words.extend(word.take());
    words
}

#[test]
fn line_reads_back_as_arguments() {
    let lists: Vec<Vec<String>> = vec![
        vec![],
        a(&["", ""]),
        a(&["grep", "a b", "", "it's"]),
        a(&["'", "''", "\\", "$HOME", "`id`", "a\nb"]),
        a(&["x|y", "*", "\"q\"", "#c", "~", "caf\u{e9}"]),
        a(&["env", "A=b", "--x=%1", "u@h:p/q,r+s_t.u-v"]),
    ];
    for args in &lists {
        assert_eq!(&split(&shell_join(args)), args);
    }
}

#[test]
fn quoted_argument_is_one_word() {
    for arg in ["", "plain", "a b", "'", "don't", "\\'", "a\tb"] {
        assert_eq!(split(&shell_quote(arg)), vec![arg.to_string()]);
    }
}

#[test]
fn lines_tell_arguments_apart() {
    assert_ne!(shell_join(&a(&["a", "b c"])), shell_join(&a(&["a b", "c"])));
    assert_ne!(shell_join(&a(&["a", "b", ""])), shell_join(&a(&["a", "b"])));
}

#[test]
fn shell_quote_exact_forms() {
    assert_eq!(shell_quote(""), "''");
    assert_eq!(shell_quote("aZ09_-./:=@%+,"), "aZ09_-./:=@%+,");
    assert_eq!(shell_quote("a b"), "'a b'");
    assert_eq!(shell_quote("'"), r"''\'''");
    assert_eq!(shell_quote("\u{e9}"), "'\u{e9}'");
    assert_eq!(shell_quote("~"), "'~'");
}

#[test]
fn shell_join_of_nothing_is_empty() {
    assert_eq!(shell_join(&[]), "");
    assert_eq!(shell_join(&a(&[""])), "");
}
