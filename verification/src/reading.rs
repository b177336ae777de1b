//! Showing a file with a filter for its language.
use vstd::prelude::*;

use crate::text::{chars_of, ends_with, optional_text, prefixed, same_text};

verus! {

/// The filters for the text of a file.
#[derive(Clone, Copy, Debug, PartialEq, Eq, Structural)]
pub enum FileFilter {
    Xml,
    Python,
    PythonAggressive,
}

/// How a file is to be read and shown.
#[derive(Debug, PartialEq, Eq)]
pub struct FileRead {
    /// The filter for the text; without one the text is shown as it is.
    pub filter: Option<FileFilter>,
    /// The label of the full text.
    pub label: String,
    /// The command that the read stands in for.
    pub original: String,
    /// The name that the read is recorded under.
    pub recorded_as: String,
    /// What to tell the user beforehand.
    pub notice: Option<String>,
}

/// The filter for a file, by the ending of its path and the level asked for.
pub open spec fn path_filter(path: Seq<char>, level: Seq<char>) -> Option<FileFilter> {
    if ".xml"@.is_suffix_of(path) || ".html"@.is_suffix_of(path) {
        Some(FileFilter::Xml)
    } else if ".py"@.is_suffix_of(path) {
        if level == "aggressive"@ {
            Some(FileFilter::PythonAggressive)
        } else if level == "none"@ {
            None
        } else {
            Some(FileFilter::Python)
        }
    } else {
        None
    }
}

/// What stands behind the last slash of a path; all of it where it has none.
pub open spec fn file_name(path: Seq<char>) -> Seq<char>
    decreases path.len(),
{
    if path.len() == 0 || path.last() == '/' {
        Seq::empty()
    } else {
        file_name(path.drop_last()).push(path.last())
    }
}

/// What a user who asked for more output is told before a file is read.
pub open spec fn read_notice(path: Seq<char>, level: Seq<char>, verbose: u8) -> Option<Seq<char>> {
    if verbose > 0 {
        Some("[otk] Reading: "@ + path + " (level: "@ + level + ")"@)
    } else {
        None
    }
}

/// The filter for a file. Markup has one filter whatever the level; Python has
/// one for each level but `none`; all else is shown as it is.
pub fn file_filter(path: &str, level: &str) -> (filter: Option<FileFilter>)
    ensures
        filter == path_filter(path@, level@),
        filter == Some(FileFilter::Xml) <==> ".xml"@.is_suffix_of(path@)
            || ".html"@.is_suffix_of(path@),
        filter is Some ==> ".xml"@.is_suffix_of(path@) || ".html"@.is_suffix_of(path@)
            || ".py"@.is_suffix_of(path@),
{
    if ends_with(path, ".xml") || ends_with(path, ".html") {
        Some(FileFilter::Xml)
    } else if ends_with(path, ".py") {
        if same_text(level, "aggressive") {
            Some(FileFilter::PythonAggressive)
        } else if same_text(level, "none") {
            None
        } else {
            Some(FileFilter::Python)
        }
    } else {
        None
    }
}

/// Where no slash stands from `from` on, and one just before it, the file name
/// begins at `from`.
proof fn lemma_file_name_begins(path: Seq<char>, from: int)
    requires
        0 <= from <= path.len(),
        forall|i: int| from <= i < path.len() ==> path[i] != '/',
        from > 0 ==> path[from - 1] == '/',
    ensures
        file_name(path) == path.skip(from),
    decreases path.len(),
{
    if from < path.len() {
        let front = path.drop_last();
        lemma_file_name_begins(front, from);
        assert(front.skip(from).push(path.last()) == path.skip(from));
    } else {
        assert(path.skip(from) == Seq::<char>::empty());
    }
}

/// What stands behind the last slash of a path.
pub fn base_name(path: &str) -> (name: String)
    ensures
        name@ == file_name(path@),
{
    let chars = chars_of(path);
    let mut from: usize = chars.len();
    while from > 0 && chars[from - 1] != '/'
        invariant
            chars@ == path@,
            from <= chars@.len(),
            forall|i: int| from <= i < chars@.len() ==> path@[i] != '/',
        decreases from,
    {
        from = from - 1;
    }
    proof {
        lemma_file_name_begins(path@, from as int);
    }
    let mut name = String::new();
    for i in from..chars.len()
        invariant
            chars@ == path@,
            from <= chars@.len(),
            name@ == path@.subrange(from as int, i as int),
    {
        name.push(chars[i]);
        assert(path@.subrange(from as int, i + 1) == path@.subrange(from as int, i as int).push(
            path@[i as int],
        ));
    }
    assert(path@.subrange(from as int, path@.len() as int) == path@.skip(from as int));
    name
}

/// Plans how the file at `path` is read and shown.
pub fn run_read(path: &str, level: &str, verbose: u8) -> (read: FileRead)
    ensures
        read.filter == path_filter(path@, level@),
        read.filter == Some(FileFilter::Xml) <==> ".xml"@.is_suffix_of(path@)
            || ".html"@.is_suffix_of(path@),
        read.filter is Some ==> ".xml"@.is_suffix_of(path@) || ".html"@.is_suffix_of(path@)
            || ".py"@.is_suffix_of(path@),
        read.label@ == "read_"@ + file_name(path@),
        read.original@ == "cat "@ + path@,
        read.recorded_as@ == "otk read "@ + path@,
        optional_text(read.notice) == read_notice(path@, level@, verbose),
{
    let notice = if verbose > 0 {
        let mut text = prefixed("[otk] Reading: ", path);
        text.append(" (level: ");
        text.append(level);
        text.append(")");
        Some(text)
    } else {
        None
    };
    FileRead {
        filter: file_filter(path, level),
        label: prefixed("read_", base_name(path).as_str()),
        original: prefixed("cat ", path),
        recorded_as: prefixed("otk read ", path),
        notice,
    }
}

/// What is shown of a file: the text as it is, or what `apply` makes of it with
/// the filter chosen. Without a filter `apply` is never called.
pub fn shown_text<F: Fn(FileFilter, &str) -> String>(
    filter: Option<FileFilter>,
    raw: &str,
    apply: F,
) -> (text: String)
    requires
        filter matches Some(chosen) ==> apply.requires((chosen, raw)),
    ensures
        match filter {
            Some(chosen) => apply.ensures((chosen, raw), text),
            None => text@ == raw@,
        },
{
    match filter {
        Some(chosen) => apply(chosen, raw),
        None => raw.to_owned(),
    }
}

/// The message for a file that could not be read, and why.
pub fn read_error(path: &str, reason: &str) -> (message: String)
    ensures
        message@ == "Failed to read '"@ + path@ + "': "@ + reason@,
{
    let mut message = "Failed to read '".to_owned();
    message.append(path);
    message.append("': ");
    message.append(reason);
    message
}

/// A file name is the end of its path, holds no slash, and is all of the path or
/// stands behind a slash.
pub proof fn law_file_name_follows_the_last_slash(path: Seq<char>)
    ensures
        file_name(path).is_suffix_of(path),
        !file_name(path).contains('/'),
        file_name(path).len() < path.len() ==> path[path.len() - file_name(path).len() - 1] == '/',
    decreases path.len(),
{
    if path.len() > 0 && path.last() != '/' {
        let front = path.drop_last();
        law_file_name_follows_the_last_slash(front);
        let name = file_name(front);
        assert(file_name(path) == name.push(path.last()));
        assert(file_name(path) =~= path.subrange(
            path.len() - file_name(path).len(),
            path.len() as int,
        ));
        assert(!file_name(path).contains('/')) by {
            if file_name(path).contains('/') {
                let i = choose|i: int|
                    0 <= i < file_name(path).len() && file_name(path)[i] == '/';
                assert(name[i] == '/');
                assert(name.contains('/'));
            }
        }
    }
}

/// The level matters to Python files alone.
pub proof fn law_level_matters_to_python_only(
    path: Seq<char>,
    level: Seq<char>,
    other: Seq<char>,
)
    requires
        !".py"@.is_suffix_of(path),
    ensures
        path_filter(path, level) == path_filter(path, other),
{
}

/// Two endings of the same path end with the same character.
proof fn lemma_endings_agree(path: Seq<char>, a: Seq<char>, b: Seq<char>)
    requires
        a.is_suffix_of(path),
        b.is_suffix_of(path),
        a.len() > 0,
        b.len() > 0,
    ensures
        a.last() == b.last(),
{
    assert(a.last() == path.last());
    assert(b.last() == path.last());
}

/// A file has the filter for markup just when its path ends with `.xml` or
/// `.html`, and one of those for Python just when it ends with `.py` and the
/// level is not `none`. A path with any other ending has no filter, at any level.
pub proof fn law_ending_and_level_choose_the_filter(path: Seq<char>, level: Seq<char>)
    ensures
        path_filter(path, level) == Some(FileFilter::Xml) <==> ".xml"@.is_suffix_of(path)
            || ".html"@.is_suffix_of(path),
        path_filter(path, level) == Some(FileFilter::PythonAggressive) <==> ".py"@.is_suffix_of(
            path,
        ) && level == "aggressive"@,
        path_filter(path, level) == Some(FileFilter::Python) <==> ".py"@.is_suffix_of(path) && level
            != "aggressive"@ && level != "none"@,
{
    reveal_strlit(".xml");
    reveal_strlit(".html");
    reveal_strlit(".py");
    assert(".xml"@.last() == 'l' && ".html"@.last() == 'l' && ".py"@.last() == 'y');
    if ".py"@.is_suffix_of(path) {
        if ".xml"@.is_suffix_of(path) {
            lemma_endings_agree(path, ".py"@, ".xml"@);
        }
        if ".html"@.is_suffix_of(path) {
            lemma_endings_agree(path, ".py"@, ".html"@);
        }
    }
}

/// The notice names the path and the level, and is given just where more output
/// was asked for.
pub proof fn law_notice_names_path_and_level(path: Seq<char>, level: Seq<char>, verbose: u8)
    ensures
        verbose == 0 ==> read_notice(path, level, verbose) is None,
        verbose > 0 ==> read_notice(path, level, verbose) == Some(
            "[otk] Reading: "@ + path + " (level: "@ + level + ")"@,
        ),
{
}

}
