//! Choosing the output filter for a command.
use vstd::prelude::*;

use crate::std_calls::{is_ascii_letter_or_digit, is_unicode_alphanumeric};
use crate::text::{chars_of, join, joined, same_text, texts};

verus! {

/// The output filters that a command can be given.
#[derive(Clone, Copy, Debug, PartialEq, Eq, Structural)]
pub enum Filter {
    Test,
    Log,
    GitStatus,
    GitDiff,
    GitLog,
    /// Reduces a successful run to one short line.
    Quiet,
    Grep,
    Ls,
    Docker,
    Pip,
    Sql,
    /// Keeps error and warning lines only.
    Error,
    Passthrough,
}

/// The word at `index`, or no text where the list is shorter.
pub open spec fn word_at(args: Seq<Seq<char>>, index: int) -> Seq<char> {
    if 0 <= index < args.len() {
        args[index]
    } else {
        Seq::empty()
    }
}

/// The git subcommands of which only the success is worth showing.
pub open spec fn is_quiet_git_subcommand(word: Seq<char>) -> bool {
    ||| word == "add"@ || word == "commit"@ || word == "push"@ || word == "pull"@
    ||| word == "fetch"@ || word == "checkout"@ || word == "stash"@ || word == "merge"@
    ||| word == "rebase"@ || word == "tag"@ || word == "reset"@
}

/// The filter key of a git command with this subcommand.
pub open spec fn git_key(subcommand: Seq<char>) -> Seq<char> {
    if subcommand == "status"@ {
        "git_status"@
    } else if subcommand == "diff"@ {
        "git_diff"@
    } else if subcommand == "log"@ {
        "git_log"@
    } else if is_quiet_git_subcommand(subcommand) {
        "ok"@
    } else {
        "passthrough"@
    }
}

pub open spec fn is_container_tool(word: Seq<char>) -> bool {
    word == "docker"@ || word == "docker-compose"@ || word == "podman"@
}

pub open spec fn is_search_tool(word: Seq<char>) -> bool {
    word == "grep"@ || word == "rg"@ || word == "egrep"@ || word == "fgrep"@ || word == "ag"@
}

pub open spec fn is_listing_tool(word: Seq<char>) -> bool {
    word == "ls"@ || word == "tree"@ || word == "find"@ || word == "fd"@
}

/// The filter key of a command.
pub open spec fn command_key(args: Seq<Seq<char>>) -> Seq<char> {
    let tool = word_at(args, 0);
    let first = word_at(args, 1);
    let second = word_at(args, 2);
    if tool == "git"@ {
        git_key(first)
    } else if is_container_tool(tool) {
        if first == "logs"@ || (first == "compose"@ && second == "logs"@) {
            "log"@
        } else {
            "docker"@
        }
    } else if tool == "invoke"@ {
        if first == "test"@ {
            "test"@
        } else {
            "passthrough"@
        }
    } else if tool == "pytest"@ || tool == "py.test"@ {
        "test"@
    } else if is_search_tool(tool) {
        "grep"@
    } else if is_listing_tool(tool) {
        "ls"@
    } else if tool == "pip"@ || tool == "pip3"@ || tool == "uv"@ {
        "pip"@
    } else if tool == "psql"@ || tool == "mysql"@ {
        "sql"@
    } else {
        "passthrough"@
    }
}

/// The filter that a key stands for. An unknown key stands for no filtering.
pub open spec fn keyed_filter(key: Seq<char>) -> Filter {
    if key == "test"@ {
        Filter::Test
    } else if key == "log"@ {
        Filter::Log
    } else if key == "git_status"@ {
        Filter::GitStatus
    } else if key == "git_diff"@ {
        Filter::GitDiff
    } else if key == "git_log"@ {
        Filter::GitLog
    } else if key == "ok"@ {
        Filter::Quiet
    } else if key == "grep"@ {
        Filter::Grep
    } else if key == "ls"@ {
        Filter::Ls
    } else if key == "docker"@ {
        Filter::Docker
    } else if key == "pip"@ {
        Filter::Pip
    } else if key == "sql"@ {
        Filter::Sql
    } else {
        Filter::Passthrough
    }
}

/// The keys of commands whose non-zero exit code is no failure.
pub open spec fn is_benign_key(key: Seq<char>) -> bool {
    key == "test"@ || key == "grep"@ || key == "ls"@
}

/// The tools that are labelled together with their subcommand.
pub open spec fn has_subcommand(tool: Seq<char>) -> bool {
    tool == "git"@ || tool == "docker"@ || tool == "docker-compose"@ || tool == "invoke"@ || tool
        == "pip"@
}

/// How many leading words of a command its label is made of.
pub open spec fn label_words(args: Seq<Seq<char>>) -> int {
    let wanted: int = if args.len() > 0 && has_subcommand(args[0]) {
        2
    } else {
        1
    };
    if wanted < args.len() {
        wanted
    } else {
        args.len() as int
    }
}

/// A character as it may stand in a label.
pub open spec fn label_char(c: char) -> char {
    if is_unicode_alphanumeric(c) || c == '_' {
        c
    } else {
        '_'
    }
}

/// A character that is safe in a file name: of the ASCII characters only
/// letters, digits and `_` are, so that there is no separator, dot or blank.
pub open spec fn is_file_name_char(c: char) -> bool {
    c == '_' || is_ascii_letter_or_digit(c) || c > '\u{7f}'
}

/// The leading words of a command that its label is made of, with `_` between
/// them.
pub open spec fn leading_words(args: Seq<Seq<char>>) -> Seq<char> {
    joined(args.take(label_words(args)), seq!['_'])
}

/// The label of a command: its leading words, with `_` between them and in
/// place of every character that is neither alphanumeric nor `_`.
pub open spec fn command_label(args: Seq<Seq<char>>) -> Seq<char> {
    leading_words(args).map_values(|c: char| label_char(c))
}

/// The word at `index`, or the empty string where the list is shorter.
fn word(args: &[String], index: usize) -> (text: &str)
    ensures
        text@ == word_at(texts(args@), index as int),
{
    if index < args.len() {
        args[index].as_str()
    } else {
        proof {
            reveal_strlit("");
            assert(""@ == Seq::<char>::empty());
        }
        ""
    }
}

fn quiet_git_subcommand(text: &str) -> (answer: bool)
    ensures
        answer == is_quiet_git_subcommand(text@),
{
    same_text(text, "add") || same_text(text, "commit") || same_text(text, "push") || same_text(
        text,
        "pull",
    ) || same_text(text, "fetch") || same_text(text, "checkout") || same_text(text, "stash")
        || same_text(text, "merge") || same_text(text, "rebase") || same_text(text, "tag")
        || same_text(text, "reset")
}

/// Maps a command, split into words with the program first, to a stable filter
/// key. `filter_for` turns the key into a filter.
pub fn classify(args: &[String]) -> (key: &'static str)
    ensures
        key@ == command_key(texts(args@)),
        key@ == "ok"@ <==> args@.len() >= 2 && args@[0]@ == "git"@ && ({
                ||| args@[1]@ == "add"@
                ||| args@[1]@ == "commit"@
                ||| args@[1]@ == "push"@
                ||| args@[1]@ == "pull"@
                ||| args@[1]@ == "fetch"@
                ||| args@[1]@ == "checkout"@
                ||| args@[1]@ == "stash"@
                ||| args@[1]@ == "merge"@
                ||| args@[1]@ == "rebase"@
                ||| args@[1]@ == "tag"@
                ||| args@[1]@ == "reset"@
            }),
        args@.len() >= 2 && args@[0]@ == "git"@ && !({
            ||| args@[1]@ == "status"@
            ||| args@[1]@ == "diff"@
            ||| args@[1]@ == "log"@
            ||| args@[1]@ == "add"@
            ||| args@[1]@ == "commit"@
            ||| args@[1]@ == "push"@
            ||| args@[1]@ == "pull"@
            ||| args@[1]@ == "fetch"@
            ||| args@[1]@ == "checkout"@
            ||| args@[1]@ == "stash"@
            ||| args@[1]@ == "merge"@
            ||| args@[1]@ == "rebase"@
            ||| args@[1]@ == "tag"@
            ||| args@[1]@ == "reset"@
        }) ==> key@ == "passthrough"@,
{
    proof {
        law_git_is_classified_by_subcommand(texts(args@));
    }
    let tool = word(args, 0);
    let first = word(args, 1);
    let second = word(args, 2);
    if same_text(tool, "git") {
        if same_text(first, "status") {
            "git_status"
        } else if same_text(first, "diff") {
            "git_diff"
        } else if same_text(first, "log") {
            "git_log"
        } else if quiet_git_subcommand(first) {
            "ok"
        } else {
            "passthrough"
        }
    } else if same_text(tool, "docker") || same_text(tool, "docker-compose") || same_text(
        tool,
        "podman",
    ) {
        // Both `docker logs ...` and `docker compose logs ...` print a log.
        if same_text(first, "logs") || (same_text(first, "compose") && same_text(second, "logs")) {
            "log"
        } else {
            "docker"
        }
    } else if same_text(tool, "invoke") {
        if same_text(first, "test") {
            "test"
        } else {
            "passthrough"
        }
    } else if same_text(tool, "pytest") || same_text(tool, "py.test") {
        "test"
    } else if same_text(tool, "grep") || same_text(tool, "rg") || same_text(tool, "egrep")
        || same_text(tool, "fgrep") || same_text(tool, "ag") {
        "grep"
    } else if same_text(tool, "ls") || same_text(tool, "tree") || same_text(tool, "find")
        || same_text(tool, "fd") {
        "ls"
    } else if same_text(tool, "pip") || same_text(tool, "pip3") || same_text(tool, "uv") {
        "pip"
    } else if same_text(tool, "psql") || same_text(tool, "mysql") {
        "sql"
    } else {
        "passthrough"
    }
}

/// Resolves a filter key to its filter.
pub fn filter_for(key: &str) -> (filter: Filter)
    ensures
        filter == keyed_filter(key@),
        filter == Filter::Test <==> key@ == "test"@,
        filter == Filter::Log <==> key@ == "log"@,
        filter == Filter::GitStatus <==> key@ == "git_status"@,
        filter == Filter::GitDiff <==> key@ == "git_diff"@,
        filter == Filter::GitLog <==> key@ == "git_log"@,
        filter == Filter::Quiet <==> key@ == "ok"@,
        filter == Filter::Grep <==> key@ == "grep"@,
        filter == Filter::Ls <==> key@ == "ls"@,
        filter == Filter::Docker <==> key@ == "docker"@,
        filter == Filter::Pip <==> key@ == "pip"@,
        filter == Filter::Sql <==> key@ == "sql"@,
{
    proof {
        law_each_filter_has_one_key(key@);
    }
    if same_text(key, "test") {
        Filter::Test
    } else if same_text(key, "log") {
        Filter::Log
    } else if same_text(key, "git_status") {
        Filter::GitStatus
    } else if same_text(key, "git_diff") {
        Filter::GitDiff
    } else if same_text(key, "git_log") {
        Filter::GitLog
    } else if same_text(key, "ok") {
        Filter::Quiet
    } else if same_text(key, "grep") {
        Filter::Grep
    } else if same_text(key, "ls") {
        Filter::Ls
    } else if same_text(key, "docker") {
        Filter::Docker
    } else if same_text(key, "pip") {
        Filter::Pip
    } else if same_text(key, "sql") {
        Filter::Sql
    } else {
        Filter::Passthrough
    }
}

/// Whether a non-zero exit code is expected of commands with this key, so that
/// the filter still runs:
/// - `test`: a failing suite exits non-zero, and its failures are what to show
/// - `grep`: exit code 1 means that nothing matched
/// - `ls`: exit code 1 often means that some paths were inaccessible
pub fn benign_nonzero(key: &str) -> (benign: bool)
    ensures
        benign == is_benign_key(key@),
        benign <==> key@ == "test"@ || key@ == "grep"@ || key@ == "ls"@,
{
    same_text(key, "test") || same_text(key, "grep") || same_text(key, "ls")
}

/// A short label for a command that can stand in a file name, such as
/// `git_status`, `docker_logs` or `ls`. ASCII letters and digits stay as they are.
pub fn tee_name(args: &[String]) -> (label: String)
    ensures
        label@ == command_label(texts(args@)),
        forall|i: int| 0 <= i < label@.len() ==> is_file_name_char(#[trigger] label@[i]),
        forall|i: int|
            0 <= i < leading_words(texts(args@)).len() && is_ascii_letter_or_digit(
                #[trigger] leading_words(texts(args@))[i],
            ) ==> label@[i] == leading_words(texts(args@))[i],
{
    let tool = word(args, 0);
    let with_subcommand = same_text(tool, "git") || same_text(tool, "docker") || same_text(
        tool,
        "docker-compose",
    ) || same_text(tool, "invoke") || same_text(tool, "pip");
    let wanted: usize = if args.len() > 0 && with_subcommand {
        2
    } else {
        1
    };
    let take: usize = if wanted < args.len() {
        wanted
    } else {
        args.len()
    };
    let mut words: Vec<String> = Vec::new();
    for i in 0..take
        invariant
            take <= args@.len(),
            words@ == args@.take(i as int),
    {
        words.push(args[i].clone());
        assert(args@.take(i + 1) == args@.take(i as int).push(args@[i as int]));
    }
    proof {
        reveal_strlit("_");
        assert("_"@ == seq!['_']);
        assert(texts(words@) == texts(args@).take(take as int));
    }
    let raw = chars_of(join(&words, "_").as_str());
    let mut label = String::new();
    for i in 0..raw.len()
        invariant
            label@ == raw@.take(i as int).map_values(|c: char| label_char(c)),
            label@.len() == i,
            forall|j: int| 0 <= j < label@.len() ==> is_file_name_char(#[trigger] label@[j]),
            forall|j: int|
                0 <= j < i && is_ascii_letter_or_digit(#[trigger] raw@[j]) ==> label@[j] == raw@[j],
    {
        let c = raw[i];
        if c.is_alphanumeric() || c == '_' {
            label.push(c);
        } else {
            label.push('_');
        }
        assert(raw@.take(i + 1) == raw@.take(i as int).push(c));
        assert(raw@.take(i + 1).map_values(|c: char| label_char(c)) == raw@.take(
            i as int,
        ).map_values(|c: char| label_char(c)).push(label_char(c)));
    }
    assert(raw@.take(raw@.len() as int) == raw@);
    label
}

/// The keys that commands are classified under.
pub open spec fn is_filter_key(key: Seq<char>) -> bool {
    ||| key == "test"@ || key == "log"@ || key == "git_status"@ || key == "git_diff"@
    ||| key == "git_log"@ || key == "ok"@ || key == "grep"@ || key == "ls"@
    ||| key == "docker"@ || key == "pip"@ || key == "sql"@ || key == "passthrough"@
}

/// Every known key stands for its own filter: no two keys are the same text.
proof fn lemma_filters_of_keys()
    ensures
        keyed_filter("test"@) == Filter::Test,
        keyed_filter("log"@) == Filter::Log,
        keyed_filter("git_status"@) == Filter::GitStatus,
        keyed_filter("git_diff"@) == Filter::GitDiff,
        keyed_filter("git_log"@) == Filter::GitLog,
        keyed_filter("ok"@) == Filter::Quiet,
        keyed_filter("grep"@) == Filter::Grep,
        keyed_filter("ls"@) == Filter::Ls,
        keyed_filter("docker"@) == Filter::Docker,
        keyed_filter("pip"@) == Filter::Pip,
        keyed_filter("sql"@) == Filter::Sql,
        keyed_filter("passthrough"@) == Filter::Passthrough,
{
    reveal_strlit("test");
    reveal_strlit("log");
    reveal_strlit("git_status");
    reveal_strlit("git_diff");
    reveal_strlit("git_log");
    reveal_strlit("ok");
    reveal_strlit("grep");
    reveal_strlit("ls");
    reveal_strlit("docker");
    reveal_strlit("pip");
    reveal_strlit("sql");
    reveal_strlit("passthrough");
    assert("test"@.len() == 4);
    assert("log"@.len() == 3);
    assert("git_status"@.len() == 10);
    assert("git_diff"@.len() == 8);
    assert("git_log"@.len() == 7);
    assert("ok"@.len() == 2);
    assert("grep"@.len() == 4);
    assert("ls"@.len() == 2);
    assert("docker"@.len() == 6);
    assert("pip"@.len() == 3);
    assert("sql"@.len() == 3);
    assert("passthrough"@.len() == 11);
    assert("grep"@[0] == 'g' && "test"@[0] == 't');
    assert("ls"@[0] == 'l' && "ok"@[0] == 'o');
    assert("log"@[0] == 'l' && "pip"@[0] == 'p' && "sql"@[0] == 's');
}

/// The key depends on the first three words alone.
pub proof fn law_three_words_decide_the_key(a: Seq<Seq<char>>, b: Seq<Seq<char>>)
    requires
        word_at(a, 0) == word_at(b, 0),
        word_at(a, 1) == word_at(b, 1),
        word_at(a, 2) == word_at(b, 2),
    ensures
        command_key(a) == command_key(b),
{
}

/// Every command is classified under one of the known keys.
pub proof fn law_commands_have_known_keys(args: Seq<Seq<char>>)
    ensures
        is_filter_key(command_key(args)),
{
}

/// Different known keys stand for different filters.
pub proof fn law_known_keys_have_their_own_filters(a: Seq<char>, b: Seq<char>)
    requires
        is_filter_key(a),
        is_filter_key(b),
        keyed_filter(a) == keyed_filter(b),
    ensures
        a == b,
{
}

/// A command goes unfiltered just when its key says so.
pub proof fn law_only_passthrough_goes_unfiltered(args: Seq<Seq<char>>)
    ensures
        keyed_filter(command_key(args)) == Filter::Passthrough <==> command_key(args)
            == "passthrough"@,
{
    law_commands_have_known_keys(args);
    lemma_filters_of_keys();
}

/// A non-zero exit code is benign just for the keys of the filters for tests,
/// searches and listings.
pub proof fn law_benign_keys_are_those_of_three_filters(key: Seq<char>)
    ensures
        is_benign_key(key) <==> keyed_filter(key) is Test || keyed_filter(key) is Grep
            || keyed_filter(key) is Ls,
{
    lemma_filters_of_keys();
}

/// No key stands for the filter of the `err` modifier.
pub proof fn law_error_filter_has_no_key(key: Seq<char>)
    ensures
        keyed_filter(key) != Filter::Error,
{
}

/// A git command is classified by its subcommand alone. It comes under `ok` just
/// with one of eleven subcommands, and with any that is not known it passes
/// through; no other program comes under `ok` or under a key of git.
pub proof fn law_git_is_classified_by_subcommand(args: Seq<Seq<char>>)
    ensures
        command_key(args) == "git_status"@ <==> args.len() >= 2 && args[0] == "git"@ && args[1]
            == "status"@,
        command_key(args) == "git_diff"@ <==> args.len() >= 2 && args[0] == "git"@ && args[1]
            == "diff"@,
        command_key(args) == "git_log"@ <==> args.len() >= 2 && args[0] == "git"@ && args[1]
            == "log"@,
        command_key(args) == "ok"@ <==> args.len() >= 2 && args[0] == "git"@ && ({
                ||| args[1] == "add"@
                ||| args[1] == "commit"@
                ||| args[1] == "push"@
                ||| args[1] == "pull"@
                ||| args[1] == "fetch"@
                ||| args[1] == "checkout"@
                ||| args[1] == "stash"@
                ||| args[1] == "merge"@
                ||| args[1] == "rebase"@
                ||| args[1] == "tag"@
                ||| args[1] == "reset"@
            }),
        args.len() >= 1 && args[0] == "git"@ ==> (command_key(args) == "passthrough"@ <==> (
        args.len() >= 2 ==> !({
                ||| args[1] == "status"@
                ||| args[1] == "diff"@
                ||| args[1] == "log"@
                ||| args[1] == "add"@
                ||| args[1] == "commit"@
                ||| args[1] == "push"@
                ||| args[1] == "pull"@
                ||| args[1] == "fetch"@
                ||| args[1] == "checkout"@
                ||| args[1] == "stash"@
                ||| args[1] == "merge"@
                ||| args[1] == "rebase"@
                ||| args[1] == "tag"@
                ||| args[1] == "reset"@
            }))),
{
    lemma_filters_of_keys();
    reveal_strlit("status");
    reveal_strlit("diff");
    reveal_strlit("log");
    reveal_strlit("add");
    reveal_strlit("commit");
    reveal_strlit("push");
    reveal_strlit("pull");
    reveal_strlit("fetch");
    reveal_strlit("checkout");
    reveal_strlit("stash");
    reveal_strlit("merge");
    reveal_strlit("rebase");
    reveal_strlit("tag");
    reveal_strlit("reset");
    assert("status"@.len() == 6);
    assert("diff"@.len() == 4);
    assert("log"@.len() == 3);
    assert("add"@.len() == 3);
    assert("commit"@.len() == 6);
    assert("push"@.len() == 4);
    assert("pull"@.len() == 4);
    assert("fetch"@.len() == 5);
    assert("checkout"@.len() == 8);
    assert("stash"@.len() == 5);
    assert("merge"@.len() == 5);
    assert("rebase"@.len() == 6);
    assert("tag"@.len() == 3);
    assert("reset"@.len() == 5);
    assert("log"@[0] == 'l');
    assert("add"@[0] == 'a');
    assert("tag"@[0] == 't');
    assert("diff"@[0] == 'd');
    assert("push"@[0] == 'p' && "push"@[2] == 's');
    assert("pull"@[0] == 'p' && "pull"@[2] == 'l');
    assert("fetch"@[0] == 'f');
    assert("stash"@[0] == 's');
    assert("merge"@[0] == 'm');
    assert("reset"@[0] == 'r');
    assert("status"@[0] == 's');
    assert("commit"@[0] == 'c');
    assert("rebase"@[0] == 'r');
}

/// The lengths of the words that programs are told apart by, and the characters
/// by which those of one length differ.
proof fn lemma_tool_names()
    ensures
        "git"@.len() == 3,
        "docker"@.len() == 6,
        "docker-compose"@.len() == 14,
        "podman"@.len() == 6,
        "invoke"@.len() == 6,
        "pytest"@.len() == 6,
        "py.test"@.len() == 7,
        "grep"@.len() == 4,
        "rg"@.len() == 2,
        "egrep"@.len() == 5,
        "fgrep"@.len() == 5,
        "ag"@.len() == 2,
        "ls"@.len() == 2,
        "tree"@.len() == 4,
        "find"@.len() == 4,
        "fd"@.len() == 2,
        "pip"@.len() == 3,
        "pip3"@.len() == 4,
        "uv"@.len() == 2,
        "psql"@.len() == 4,
        "mysql"@.len() == 5,
        "logs"@.len() == 4,
        "compose"@.len() == 7,
        "rg"@[0] == 'r',
        "ag"@[0] == 'a',
        "ls"@[0] == 'l',
        "fd"@[0] == 'f',
        "uv"@[0] == 'u',
        "git"@[0] == 'g',
        "pip"@[0] == 'p',
        "grep"@[0] == 'g',
        "tree"@[0] == 't',
        "find"@[0] == 'f',
        "pip3"@[0] == 'p' && "pip3"@[1] == 'i',
        "psql"@[0] == 'p' && "psql"@[1] == 's',
        "logs"@[0] == 'l',
        "egrep"@[0] == 'e',
        "fgrep"@[0] == 'f',
        "mysql"@[0] == 'm',
        "docker"@[0] == 'd',
        "podman"@[0] == 'p' && "podman"@[1] == 'o',
        "invoke"@[0] == 'i',
        "pytest"@[0] == 'p' && "pytest"@[1] == 'y',
        "py.test"@[0] == 'p',
        "compose"@[0] == 'c',
        "test"@.len() == 4,
{
    reveal_strlit("git");
    reveal_strlit("docker");
    reveal_strlit("docker-compose");
    reveal_strlit("podman");
    reveal_strlit("invoke");
    reveal_strlit("pytest");
    reveal_strlit("py.test");
    reveal_strlit("grep");
    reveal_strlit("rg");
    reveal_strlit("egrep");
    reveal_strlit("fgrep");
    reveal_strlit("ag");
    reveal_strlit("ls");
    reveal_strlit("tree");
    reveal_strlit("find");
    reveal_strlit("fd");
    reveal_strlit("pip");
    reveal_strlit("pip3");
    reveal_strlit("uv");
    reveal_strlit("psql");
    reveal_strlit("mysql");
    reveal_strlit("logs");
    reveal_strlit("compose");
    reveal_strlit("test");
}

/// A container tool shows a log just with `logs` or `compose logs`, and comes
/// under `docker` with all else; no other program comes under either key.
pub proof fn law_container_tools_show_logs_or_else(args: Seq<Seq<char>>)
    ensures
        command_key(args) == "log"@ || command_key(args) == "docker"@ <==> args.len() >= 1 && (
        args[0] == "docker"@ || args[0] == "docker-compose"@ || args[0] == "podman"@),
        args.len() >= 1 && (args[0] == "docker"@ || args[0] == "docker-compose"@ || args[0]
            == "podman"@) ==> (command_key(args) == "log"@ <==> (args.len() >= 2 && args[1]
            == "logs"@) || (args.len() >= 3 && args[1] == "compose"@ && args[2] == "logs"@)),
{
    lemma_filters_of_keys();
    lemma_tool_names();
}

/// The programs that run tests, search, list, handle packages or query
/// databases, each with its key, and no others with these keys. `invoke` runs
/// tests just with `test`, and passes through with all else.
pub proof fn law_other_tools_are_classified_by_name(args: Seq<Seq<char>>)
    ensures
        command_key(args) == "test"@ <==> args.len() >= 1 && (args[0] == "pytest"@ || args[0]
            == "py.test"@ || (args[0] == "invoke"@ && args.len() >= 2 && args[1] == "test"@)),
        args.len() >= 1 && args[0] == "invoke"@ && !(args.len() >= 2 && args[1] == "test"@)
            ==> command_key(args) == "passthrough"@,
        command_key(args) == "grep"@ <==> args.len() >= 1 && (args[0] == "grep"@ || args[0]
            == "rg"@ || args[0] == "egrep"@ || args[0] == "fgrep"@ || args[0] == "ag"@),
        command_key(args) == "ls"@ <==> args.len() >= 1 && (args[0] == "ls"@ || args[0]
            == "tree"@ || args[0] == "find"@ || args[0] == "fd"@),
        command_key(args) == "pip"@ <==> args.len() >= 1 && (args[0] == "pip"@ || args[0]
            == "pip3"@ || args[0] == "uv"@),
        command_key(args) == "sql"@ <==> args.len() >= 1 && (args[0] == "psql"@ || args[0]
            == "mysql"@),
{
    lemma_filters_of_keys();
    lemma_tool_names();
}

/// A command of no words, or of a program that has no key of its own, passes
/// through.
pub proof fn law_unknown_programs_pass_through(args: Seq<Seq<char>>)
    requires
        args.len() >= 1 ==> !({
            ||| args[0] == "git"@
            ||| args[0] == "docker"@
            ||| args[0] == "docker-compose"@
            ||| args[0] == "podman"@
            ||| args[0] == "invoke"@
            ||| args[0] == "pytest"@
            ||| args[0] == "py.test"@
            ||| args[0] == "grep"@
            ||| args[0] == "rg"@
            ||| args[0] == "egrep"@
            ||| args[0] == "fgrep"@
            ||| args[0] == "ag"@
            ||| args[0] == "ls"@
            ||| args[0] == "tree"@
            ||| args[0] == "find"@
            ||| args[0] == "fd"@
            ||| args[0] == "pip"@
            ||| args[0] == "pip3"@
            ||| args[0] == "uv"@
            ||| args[0] == "psql"@
            ||| args[0] == "mysql"@
        }),
    ensures
        command_key(args) == "passthrough"@,
{
    lemma_tool_names();
}

/// Each filter has one key, and every text that is no such key stands for no
/// filtering.
pub proof fn law_each_filter_has_one_key(key: Seq<char>)
    ensures
        keyed_filter(key) == Filter::Test <==> key == "test"@,
        keyed_filter(key) == Filter::Log <==> key == "log"@,
        keyed_filter(key) == Filter::GitStatus <==> key == "git_status"@,
        keyed_filter(key) == Filter::GitDiff <==> key == "git_diff"@,
        keyed_filter(key) == Filter::GitLog <==> key == "git_log"@,
        keyed_filter(key) == Filter::Quiet <==> key == "ok"@,
        keyed_filter(key) == Filter::Grep <==> key == "grep"@,
        keyed_filter(key) == Filter::Ls <==> key == "ls"@,
        keyed_filter(key) == Filter::Docker <==> key == "docker"@,
        keyed_filter(key) == Filter::Pip <==> key == "pip"@,
        keyed_filter(key) == Filter::Sql <==> key == "sql"@,
        keyed_filter(key) == Filter::Passthrough <==> !({
            ||| key == "test"@
            ||| key == "log"@
            ||| key == "git_status"@
            ||| key == "git_diff"@
            ||| key == "git_log"@
            ||| key == "ok"@
            ||| key == "grep"@
            ||| key == "ls"@
            ||| key == "docker"@
            ||| key == "pip"@
            ||| key == "sql"@
        }),
{
    lemma_filters_of_keys();
}

/// A non-zero exit code is benign just for the keys `test`, `grep` and `ls`.
pub proof fn law_three_keys_are_benign(key: Seq<char>)
    ensures
        is_benign_key(key) <==> key == "test"@ || key == "grep"@ || key == "ls"@,
{
}

/// A label is made of the first word, or of the first two with `_` between for
/// the five tools that are labelled with their subcommand.
pub proof fn law_label_is_made_of_one_word_or_two(args: Seq<Seq<char>>)
    ensures
        args.len() == 0 ==> leading_words(args) == Seq::<char>::empty(),
        args.len() == 1 ==> leading_words(args) == args[0],
        args.len() >= 2 ==> leading_words(args) == (if args[0] == "git"@ || args[0] == "docker"@
            || args[0] == "docker-compose"@ || args[0] == "invoke"@ || args[0] == "pip"@ {
            args[0] + seq!['_'] + args[1]
        } else {
            args[0]
        }),
{
    if args.len() >= 2 {
        assert(args.take(2).drop_last() == seq![args[0]]);
        assert(joined(seq![args[0]], seq!['_']) == args[0]);
        assert(args.take(2).last() == args[1]);
    }
}

/// A label keeps the length of its words, keeps each alphanumeric character and
/// each `_` in place, and has `_` everywhere else.
pub proof fn law_label_replaces_in_place(args: Seq<Seq<char>>)
    ensures
        command_label(args).len() == leading_words(args).len(),
        forall|i: int|
            0 <= i < leading_words(args).len() ==> #[trigger] command_label(args)[i] == (
            if is_unicode_alphanumeric(leading_words(args)[i]) {
                leading_words(args)[i]
            } else {
                '_'
            }),
{
}

}
