//! Turning an argument vector back into one line for `sh -c`.
use vstd::prelude::*;

use crate::std_calls::is_ascii_letter_or_digit;
use crate::text::{chars_of, join, joined, texts};

verus! {

/// The characters that an argument may hold and still go to the shell unquoted.
pub open spec fn is_plain_char(c: char) -> bool {
    ||| is_ascii_letter_or_digit(c)
    ||| c == '_' || c == '-' || c == '.' || c == '/' || c == ':'
    ||| c == '=' || c == '@' || c == '%' || c == '+' || c == ','
}

/// An argument that needs no quotes: it is not empty and all its characters are plain.
pub open spec fn is_plain(arg: Seq<char>) -> bool {
    &&& arg.len() > 0
    &&& forall|i: int| 0 <= i < arg.len() ==> is_plain_char(#[trigger] arg[i])
}

/// One character as it stands inside single quotes: a single quote closes the
/// quotes, stands escaped, and opens them again.
pub open spec fn escaped_char(c: char) -> Seq<char> {
    if c == '\'' {
        seq!['\'', '\\', '\'', '\'']
    } else {
        seq![c]
    }
}

/// A text as it stands inside single quotes.
pub open spec fn escaped(text: Seq<char>) -> Seq<char>
    decreases text.len(),
{
    if text.len() == 0 {
        Seq::empty()
    } else {
        escaped(text.drop_last()) + escaped_char(text.last())
    }
}

/// One argument as it is written on the line.
pub open spec fn quoted(arg: Seq<char>) -> Seq<char> {
    if is_plain(arg) {
        arg
    } else {
        seq!['\''] + escaped(arg) + seq!['\'']
    }
}

/// The line for a list of arguments. A single argument is a whole command
/// string already and stands as it is.
pub open spec fn command_line(args: Seq<Seq<char>>) -> Seq<char> {
    if args.len() == 1 {
        args[0]
    } else {
        joined(args.map_values(|arg: Seq<char>| quoted(arg)), seq![' '])
    }
}

fn plain_char(c: char) -> (plain: bool)
    ensures
        plain == is_plain_char(c),
{
    ('a' <= c && c <= 'z') || ('A' <= c && c <= 'Z') || ('0' <= c && c <= '9') || c == '_' || c
        == '-' || c == '.' || c == '/' || c == ':' || c == '=' || c == '@' || c == '%' || c == '+'
        || c == ','
}

/// Quotes one argument for `sh -c`. Plain arguments pass through; any other is
/// put in single quotes, with each embedded `'` written as `'\''`.
pub fn shell_quote(arg: &str) -> (word: String)
    ensures
        word@ == quoted(arg@),
        (arg@.len() > 0 && forall|i: int|
            0 <= i < arg@.len() ==> ({
                ||| 'a' <= #[trigger] arg@[i] && arg@[i] <= 'z'
                ||| 'A' <= arg@[i] && arg@[i] <= 'Z'
                ||| '0' <= arg@[i] && arg@[i] <= '9'
                ||| "_-./:=@%+,"@.contains(arg@[i])
            })) <==> word@ == arg@,
{
    proof {
        law_plain_arguments_stay_unchanged(arg@);
    }
    let chars = chars_of(arg);
    let mut plain = chars.len() > 0;
    let mut body = String::new();
    for i in 0..chars.len()
        invariant
            chars@ == arg@,
            plain == (arg@.len() > 0 && forall|j: int|
                0 <= j < i ==> is_plain_char(#[trigger] arg@[j])),
            body@ == escaped(arg@.take(i as int)),
    {
        let c = chars[i];
        plain = plain && plain_char(c);
        proof {
            assert(arg@.take(i + 1).drop_last() == arg@.take(i as int));
            assert(arg@.take(i + 1).last() == c);
        }
        if c == '\'' {
            body.push('\'');
            body.push('\\');
            body.push('\'');
            body.push('\'');
        } else {
            body.push(c);
        }
        assert(body@ == escaped(arg@.take(i as int)) + escaped_char(c));
    }
    assert(arg@.take(arg@.len() as int) == arg@);
    if plain {
        return arg.to_owned();
    }
    let mut word = String::new();
    word.push('\'');
    word.append(body.as_str());
    word.push('\'');
    assert(word@ == seq!['\''] + escaped(arg@) + seq!['\'']);
    word
}

/// Writes an argument vector as one line for `sh -c`. Each argument is quoted
/// again, since the caller's shell took one layer of quotes away. A single
/// argument is taken as a whole command string and passed through untouched.
pub fn shell_join(args: &[String]) -> (line: String)
    ensures
        line@ == command_line(texts(args@)),
        args@.len() == 1 ==> line@ == args@[0]@,
{
    if args.len() == 1 {
        return args[0].clone();
    }
    let mut words: Vec<String> = Vec::new();
    for i in 0..args.len()
        invariant
            words@.len() == i,
            forall|j: int| 0 <= j < i ==> (#[trigger] words@[j])@ == quoted(args@[j]@),
    {
        words.push(shell_quote(args[i].as_str()));
    }
    proof {
        reveal_strlit(" ");
        assert(" "@ == seq![' ']);
        assert(texts(words@) == texts(args@).map_values(|arg: Seq<char>| quoted(arg)));
    }
    join(&words, " ")
}

/// Where a shell stands while it splits a line into words.
pub enum Lexer {
    /// Outside quotes, with the word begun so far, if one is.
    Bare(Option<Seq<char>>),
    /// Inside single quotes.
    Quoted(Seq<char>),
    /// Just behind an unquoted backslash.
    Escaped(Option<Seq<char>>),
}

/// The characters that mean something to a shell where they stand unquoted,
/// apart from blanks, single quotes and backslashes.
pub open spec fn is_shell_special(c: char) -> bool {
    ||| c == '|' || c == '&' || c == ';' || c == '<' || c == '>' || c == '(' || c == ')'
    ||| c == '$' || c == '`' || c == '"' || c == '\n' || c == '*' || c == '?' || c == '['
    ||| c == ']' || c == '#' || c == '~' || c == '{' || c == '}' || c == '!' || c == '^'
}

/// A begun word, or a new one, with one character more.
pub open spec fn extended(word: Option<Seq<char>>, c: char) -> Seq<char> {
    match word {
        Some(begun) => begun.push(c),
        None => seq![c],
    }
}

/// How a shell goes on splitting `line`, from the state `at` and with the words
/// in `done` finished. `None` where the line holds an unquoted special
/// character, or ends inside quotes or behind a backslash: such a line is more
/// than a list of literal words.
pub open spec fn lex(line: Seq<char>, at: Lexer, done: Seq<Seq<char>>) -> Option<Seq<Seq<char>>>
    decreases line.len(),
{
    if line.len() == 0 {
        match at {
            Lexer::Bare(Some(begun)) => Some(done.push(begun)),
            Lexer::Bare(None) => Some(done),
            _ => None,
        }
    } else {
        let c = line[0];
        let rest = line.drop_first();
        match at {
            Lexer::Quoted(word) => if c == '\'' {
                lex(rest, Lexer::Bare(Some(word)), done)
            } else {
                lex(rest, Lexer::Quoted(word.push(c)), done)
            },
            Lexer::Escaped(word) => if c == '\n' {
                lex(rest, Lexer::Bare(word), done)
            } else {
                lex(rest, Lexer::Bare(Some(extended(word, c))), done)
            },
            Lexer::Bare(word) => if c == '\'' {
                lex(rest, Lexer::Quoted(word.unwrap_or(Seq::empty())), done)
            } else if c == '\\' {
                lex(rest, Lexer::Escaped(word), done)
            } else if c == ' ' || c == '\t' {
                match word {
                    Some(begun) => lex(rest, Lexer::Bare(None), done.push(begun)),
                    None => lex(rest, Lexer::Bare(None), done),
                }
            } else if is_shell_special(c) {
                None
            } else {
                lex(rest, Lexer::Bare(Some(extended(word, c))), done)
            },
        }
    }
}

/// The words that a shell reads from a line which is no more than a list of
/// literal words; `None` for any other line. What a shell makes of the words
/// afterwards, as where it takes a leading `NAME=value` for an assignment, is
/// not part of this.
pub open spec fn shell_words(line: Seq<char>) -> Option<Seq<Seq<char>>> {
    lex(line, Lexer::Bare(None), Seq::empty())
}

/// A run of plain characters extends the word by just these characters.
proof fn lemma_lex_plain(text: Seq<char>, rest: Seq<char>, word: Seq<char>, done: Seq<Seq<char>>)
    requires
        forall|i: int| 0 <= i < text.len() ==> is_plain_char(#[trigger] text[i]),
    ensures
        lex(text + rest, Lexer::Bare(Some(word)), done) == lex(
            rest,
            Lexer::Bare(Some(word + text)),
            done,
        ),
    decreases text.len(),
{
    if text.len() == 0 {
        assert(text + rest == rest);
        assert(word + text == word);
    } else {
        let tail = text.drop_first();
        assert(is_plain_char(text[0]));
        assert((text + rest).drop_first() == tail + rest);
        assert forall|i: int| 0 <= i < tail.len() implies is_plain_char(#[trigger] tail[i]) by {
            assert(is_plain_char(text[i + 1]));
        }
        lemma_lex_plain(tail, rest, word.push(text[0]), done);
        assert(word.push(text[0]) + tail == word + text);
    }
}

/// An escaped text, read inside quotes, extends the word by the text.
#[verifier::spinoff_prover]
proof fn lemma_lex_escaped(text: Seq<char>, rest: Seq<char>, word: Seq<char>, done: Seq<Seq<char>>)
    ensures
        lex(escaped(text) + rest, Lexer::Quoted(word), done) == lex(
            rest,
            Lexer::Quoted(word + text),
            done,
        ),
    decreases text.len(),
{
    if text.len() == 0 {
        assert(escaped(text) + rest == rest);
        assert(word + text == word);
    } else {
        let front = text.drop_last();
        let c = text.last();
        let piece = escaped_char(c) + rest;
        assert(escaped(text) + rest == escaped(front) + piece);
        lemma_lex_escaped(front, piece, word, done);
        let read = word + front;
        assert(read.push(c) == word + text);
        if c == '\'' {
            let p1 = piece.drop_first();
            let p2 = p1.drop_first();
            let p3 = p2.drop_first();
            assert(p1[0] == '\\' && p2[0] == '\'' && p3[0] == '\'');
            assert(p3.drop_first() == rest);
            assert(lex(piece, Lexer::Quoted(read), done) == lex(
                p1,
                Lexer::Bare(Some(read)),
                done,
            ));
            assert(lex(p1, Lexer::Bare(Some(read)), done) == lex(
                p2,
                Lexer::Escaped(Some(read)),
                done,
            ));
            assert(lex(p2, Lexer::Escaped(Some(read)), done) == lex(
                p3,
                Lexer::Bare(Some(read.push(c))),
                done,
            ));
            assert(lex(p3, Lexer::Bare(Some(read.push(c))), done) == lex(
                rest,
                Lexer::Quoted(read.push(c)),
                done,
            ));
        } else {
            assert(piece.drop_first() == rest);
        }
    }
}

/// A quoted argument is read as one word, the argument itself.
#[verifier::spinoff_prover]
proof fn lemma_lex_quoted(arg: Seq<char>, rest: Seq<char>, done: Seq<Seq<char>>)
    ensures
        lex(quoted(arg) + rest, Lexer::Bare(None), done) == lex(
            rest,
            Lexer::Bare(Some(arg)),
            done,
        ),
{
    let line = quoted(arg) + rest;
    if is_plain(arg) {
        let tail = arg.drop_first();
        assert(is_plain_char(arg[0]));
        assert(line.drop_first() == tail + rest);
        assert forall|i: int| 0 <= i < tail.len() implies is_plain_char(#[trigger] tail[i]) by {
            assert(is_plain_char(arg[i + 1]));
        }
        assert(line[0] == arg[0]);
        assert(lex(line, Lexer::Bare(None), done) == lex(
            tail + rest,
            Lexer::Bare(Some(seq![arg[0]])),
            done,
        ));
        lemma_lex_plain(tail, rest, seq![arg[0]], done);
        assert(seq![arg[0]] + tail == arg);
    } else {
        let close = seq!['\''] + rest;
        let body = escaped(arg) + close;
        assert(line[0] == '\'');
        assert(line.drop_first() == body);
        assert(lex(line, Lexer::Bare(None), done) == lex(
            body,
            Lexer::Quoted(Seq::empty()),
            done,
        ));
        lemma_lex_escaped(arg, close, Seq::empty(), done);
        assert(Seq::<char>::empty() + arg == arg);
        assert(close.drop_first() == rest);
        assert(lex(close, Lexer::Quoted(arg), done) == lex(
            rest,
            Lexer::Bare(Some(arg)),
            done,
        ));
    }
}

/// A joined list of quoted arguments is read back as the arguments.
#[verifier::spinoff_prover]
proof fn lemma_lex_joined(args: Seq<Seq<char>>, rest: Seq<char>)
    requires
        args.len() > 0,
    ensures
        lex(
            joined(args.map_values(|arg: Seq<char>| quoted(arg)), seq![' ']) + rest,
            Lexer::Bare(None),
            Seq::empty(),
        ) == lex(rest, Lexer::Bare(Some(args.last())), args.drop_last()),
    decreases args.len(),
{
    let words = args.map_values(|arg: Seq<char>| quoted(arg));
    if args.len() == 1 {
        lemma_lex_quoted(args[0], rest, Seq::empty());
        assert(args.drop_last() == Seq::<Seq<char>>::empty());
    } else {
        let front = args.drop_last();
        assert(words.drop_last() == front.map_values(|arg: Seq<char>| quoted(arg)));
        let tail = quoted(args.last()) + rest;
        let more = seq![' '] + tail;
        assert(joined(words, seq![' ']) + rest == joined(words.drop_last(), seq![' ']) + more);
        lemma_lex_joined(front, more);
        assert(more.drop_first() == tail);
        assert(front.drop_last().push(front.last()) == front);
        assert(lex(more, Lexer::Bare(Some(front.last())), front.drop_last()) == lex(
            tail,
            Lexer::Bare(None),
            front,
        ));
        lemma_lex_quoted(args.last(), rest, front);
    }
}

/// The shell reads a quoted argument as one word, which is the argument.
pub proof fn law_quoted_argument_is_one_word(arg: Seq<char>)
    ensures
        shell_words(quoted(arg)) == Some(seq![arg]),
{
    lemma_lex_quoted(arg, Seq::empty(), Seq::empty());
    assert(quoted(arg) + Seq::<char>::empty() == quoted(arg));
    assert(Seq::<Seq<char>>::empty().push(arg) == seq![arg]);
}

/// The shell reads the line for any list of arguments, other than a single one,
/// as exactly these arguments: no character of an argument acts as an operator,
/// a pattern or an expansion, and none is lost.
pub proof fn law_line_reads_back_as_arguments(args: Seq<Seq<char>>)
    requires
        args.len() != 1,
    ensures
        shell_words(command_line(args)) == Some(args),
{
    if args.len() == 0 {
        assert(args == Seq::<Seq<char>>::empty());
    } else {
        let line = command_line(args);
        lemma_lex_joined(args, Seq::empty());
        assert(line + Seq::<char>::empty() == line);
        assert(args.drop_last().push(args.last()) == args);
    }
}

/// Two different lists of arguments, neither of them a single one, never share
/// a line.
pub proof fn law_lines_tell_arguments_apart(a: Seq<Seq<char>>, b: Seq<Seq<char>>)
    requires
        a.len() != 1,
        b.len() != 1,
        command_line(a) == command_line(b),
    ensures
        a == b,
{
    law_line_reads_back_as_arguments(a);
    law_line_reads_back_as_arguments(b);
}

/// The characters besides letters and digits that are plain.
proof fn lemma_plain_punctuation(c: char)
    ensures
        "_-./:=@%+,"@.contains(c) <==> c == '_' || c == '-' || c == '.' || c == '/' || c == ':' || c
            == '=' || c == '@' || c == '%' || c == '+' || c == ',',
{
    reveal_strlit("_-./:=@%+,");
    let all = "_-./:=@%+,"@;
    assert(all.len() == 10);
    assert(all[0] == '_' && all[1] == '-' && all[2] == '.' && all[3] == '/' && all[4] == ':');
    assert(all[5] == '=' && all[6] == '@' && all[7] == '%' && all[8] == '+' && all[9] == ',');
}

/// Escaping never shortens a text.
proof fn lemma_escaped_is_no_shorter(text: Seq<char>)
    ensures
        escaped(text).len() >= text.len(),
    decreases text.len(),
{
    if text.len() > 0 {
        lemma_escaped_is_no_shorter(text.drop_last());
    }
}

/// An argument stands on the line unchanged just when it is not empty and holds
/// only ASCII letters, ASCII digits and the characters `_-./:=@%+,`. So does a
/// leading `NAME=value`, which the shell then takes for an assignment.
pub proof fn law_plain_arguments_stay_unchanged(arg: Seq<char>)
    ensures
        (arg.len() > 0 && forall|i: int|
            0 <= i < arg.len() ==> ({
                ||| 'a' <= #[trigger] arg[i] && arg[i] <= 'z'
                ||| 'A' <= arg[i] && arg[i] <= 'Z'
                ||| '0' <= arg[i] && arg[i] <= '9'
                ||| "_-./:=@%+,"@.contains(arg[i])
            })) <==> quoted(arg) == arg,
{
    assert forall|i: int| 0 <= i < arg.len() implies is_plain_char(#[trigger] arg[i]) == ({
        ||| 'a' <= arg[i] && arg[i] <= 'z'
        ||| 'A' <= arg[i] && arg[i] <= 'Z'
        ||| '0' <= arg[i] && arg[i] <= '9'
        ||| "_-./:=@%+,"@.contains(arg[i])
    }) by {
        lemma_plain_punctuation(arg[i]);
    }
    lemma_escaped_is_no_shorter(arg);
}

/// Any other argument stands between single quotes, escaped.
pub proof fn law_other_arguments_stand_in_quotes(arg: Seq<char>)
    requires
        quoted(arg) != arg,
    ensures
        quoted(arg) == seq!['\''] + escaped(arg) + seq!['\''],
{
}

/// Escaping goes character by character: it leaves every character alone but a
/// single quote, which becomes `'\''`.
pub proof fn law_escaping_touches_single_quotes_only(a: Seq<char>, b: Seq<char>, c: char)
    ensures
        escaped(Seq::<char>::empty()) == Seq::<char>::empty(),
        escaped(seq!['\'']) == seq!['\'', '\\', '\'', '\''],
        c != '\'' ==> escaped(seq![c]) == seq![c],
        escaped(a + b) == escaped(a) + escaped(b),
    decreases b.len(),
{
    let nothing = Seq::<char>::empty();
    assert(seq!['\''].drop_last() == nothing);
    assert(seq![c].drop_last() == nothing);
    assert(escaped(nothing) == nothing);
    assert(escaped(seq!['\'']) == nothing + escaped_char('\''));
    assert(escaped(seq![c]) == nothing + escaped_char(c));
    if b.len() == 0 {
        assert(a + b == a);
        assert(escaped(a) + escaped(b) == escaped(a));
    } else {
        law_escaping_touches_single_quotes_only(a, b.drop_last(), c);
        assert((a + b).drop_last() == a + b.drop_last());
        assert((a + b).last() == b.last());
        assert(escaped(a) + (escaped(b.drop_last()) + escaped_char(b.last())) == escaped(a)
            + escaped(b.drop_last()) + escaped_char(b.last()));
    }
}

/// The line for no argument is empty, that for one argument is the argument as
/// it is, and that for two is both of them, quoted, with one space between. Each
/// further argument follows quoted behind one more space.
pub proof fn law_line_grows_by_a_space_and_a_word(
    args: Seq<Seq<char>>,
    a: Seq<char>,
    b: Seq<char>,
)
    ensures
        command_line(Seq::<Seq<char>>::empty()) == Seq::<char>::empty(),
        command_line(seq![a]) == a,
        command_line(seq![a, b]) == quoted(a) + seq![' '] + quoted(b),
        args.len() >= 2 ==> command_line(args.push(a)) == command_line(args) + seq![' '] + quoted(
            a,
        ),
{
    let pair = seq![a, b].map_values(|arg: Seq<char>| quoted(arg));
    assert(pair.drop_last() == seq![quoted(a)]);
    assert(pair.last() == quoted(b));
    assert(joined(pair.drop_last(), seq![' ']) == quoted(a));
    let words = args.push(a).map_values(|arg: Seq<char>| quoted(arg));
    assert(words.drop_last() == args.map_values(|arg: Seq<char>| quoted(arg)));
    assert(words.last() == quoted(a));
}

}
