//! Reading, comparing and building text.
use vstd::prelude::*;

use crate::std_calls::is_white_space;

verus! {

/// The characters of `s`, in order.
pub fn chars_of(s: &str) -> (chars: Vec<char>)
    ensures
        chars@ == s@,
{
    let mut chars: Vec<char> = Vec::new();
    for c in it: s.chars()
        invariant
            it.seq() == s@,
            chars@ == s@.take(it.index() as int),
    {
        chars.push(c);
    }
    chars
}

/// Whether `a` and `b` hold the same characters.
pub fn same_text(a: &str, b: &str) -> (same: bool)
    ensures
        same == (a@ == b@),
{
    let mut left = a.chars();
    let mut right = b.chars();
    let ghost mut i: int = 0;
    loop
        invariant
            0 <= i <= a@.len(),
            i <= b@.len(),
            vstd::std_specs::iter::IteratorSpec::remaining(&left) == a@.skip(i),
            vstd::std_specs::iter::IteratorSpec::remaining(&right) == b@.skip(i),
            a@.take(i) == b@.take(i),
        decreases a@.len() - i,
    {
        match (left.next(), right.next()) {
            (None, None) => {
                assert(a@.take(i) == a@ && b@.take(i) == b@);
                return true;
            },
            (Some(x), Some(y)) => {
                assert(a@.skip(i)[0] == a@[i] && b@.skip(i)[0] == b@[i]);
                if x != y {
                    return false;
                }
                proof {
                    assert(a@.skip(i).drop_first() == a@.skip(i + 1));
                    assert(b@.skip(i).drop_first() == b@.skip(i + 1));
                    assert(a@.take(i + 1) == a@.take(i).push(a@[i]));
                    assert(b@.take(i + 1) == b@.take(i).push(b@[i]));
                    i = i + 1;
                }
            },
            _ => {
                assert(a@.skip(i).len() != b@.skip(i).len());
                return false;
            },
        }
    }
}

/// The texts that a list of strings holds.
pub open spec fn texts(strings: Seq<String>) -> Seq<Seq<char>> {
    strings.map_values(|string: String| string@)
}

/// The parts in order, with `separator` between each two neighbours.
pub open spec fn joined(parts: Seq<Seq<char>>, separator: Seq<char>) -> Seq<char>
    decreases parts.len(),
{
    if parts.len() == 0 {
        Seq::empty()
    } else if parts.len() == 1 {
        parts[0]
    } else {
        joined(parts.drop_last(), separator) + separator + parts.last()
    }
}

/// Joins `parts` with `separator` between each two neighbours.
pub fn join(parts: &Vec<String>, separator: &str) -> (line: String)
    ensures
        line@ == joined(texts(parts@), separator@),
{
    let mut line = String::new();
    let ghost all = texts(parts@);
    for i in 0..parts.len()
        invariant
            all == texts(parts@),
            line@ == joined(all.take(i as int), separator@),
    {
        if i > 0 {
            line.append(separator);
        }
        line.append(parts[i].as_str());
        assert(all.take(i + 1).drop_last() == all.take(i as int));
        assert(all.take(i + 1).last() == parts@[i as int]@);
    }
    assert(all.take(parts@.len() as int) == all);
    line
}

/// A text of white space only, or of nothing at all.
pub open spec fn is_blank(text: Seq<char>) -> bool {
    forall|i: int| 0 <= i < text.len() ==> is_white_space(#[trigger] text[i])
}

/// Whether nothing is left of `text` once the white space around it is trimmed.
pub fn blank(text: &str) -> (answer: bool)
    ensures
        answer == is_blank(text@),
{
    let chars = chars_of(text);
    for i in 0..chars.len()
        invariant
            chars@ == text@,
            forall|j: int| 0 <= j < i ==> is_white_space(#[trigger] text@[j]),
    {
        if !chars[i].is_whitespace() {
            assert(!is_white_space(text@[i as int]));
            return false;
        }
    }
    true
}

/// Where the first line feed stands; the length of `text` where it holds none.
pub open spec fn line_feed_at(text: Seq<char>) -> int
    decreases text.len(),
{
    if text.len() == 0 || text[0] == '\n' {
        0
    } else {
        1 + line_feed_at(text.drop_first())
    }
}

/// A line without the carriage return at its end, if it has one.
pub open spec fn without_return(line: Seq<char>) -> Seq<char> {
    if line.len() > 0 && line.last() == '\r' {
        line.drop_last()
    } else {
        line
    }
}

/// The lines of `text`. A line ends with a line feed, or a carriage return and
/// a line feed, which are not part of it; the last line may go without.
pub open spec fn lines(text: Seq<char>) -> Seq<Seq<char>>
    decreases text.len(),
{
    let end = line_feed_at(text);
    if text.len() == 0 {
        Seq::empty()
    } else if end < 0 || end >= text.len() {
        seq![text]
    } else {
        seq![without_return(text.take(end))] + lines(text.skip(end + 1))
    }
}

/// The first line feed is where no other stands before it.
proof fn lemma_line_feed_at(text: Seq<char>, end: int)
    requires
        0 <= end <= text.len(),
        forall|i: int| 0 <= i < end ==> text[i] != '\n',
        end < text.len() ==> text[end] == '\n',
    ensures
        line_feed_at(text) == end,
    decreases text.len(),
{
    if end > 0 {
        let rest = text.drop_first();
        assert forall|i: int| 0 <= i < end - 1 implies rest[i] != '\n' by {
            assert(rest[i] == text[i + 1]);
        }
        lemma_line_feed_at(rest, end - 1);
    }
}

/// The first line feed, where there is one, and no other before it.
proof fn lemma_line_feed_found(text: Seq<char>)
    ensures
        0 <= line_feed_at(text) <= text.len(),
        line_feed_at(text) < text.len() ==> text[line_feed_at(text)] == '\n',
        forall|i: int| 0 <= i < line_feed_at(text) ==> text[i] != '\n',
    decreases text.len(),
{
    if text.len() > 0 && text[0] != '\n' {
        let rest = text.drop_first();
        lemma_line_feed_found(rest);
        assert forall|i: int| 0 <= i < line_feed_at(text) implies text[i] != '\n' by {
            if i > 0 {
                assert(rest[i - 1] == text[i]);
            }
        }
    }
}

/// No line holds a line feed.
pub proof fn lemma_lines_hold_no_line_feed(text: Seq<char>)
    ensures
        forall|k: int| 0 <= k < lines(text).len() ==> !(#[trigger] lines(text)[k]).contains('\n'),
    decreases text.len(),
{
    let end = line_feed_at(text);
    lemma_line_feed_found(text);
    if text.len() > 0 && end < text.len() {
        let rest = text.skip(end + 1);
        lemma_lines_hold_no_line_feed(rest);
        assert forall|k: int| 0 <= k < lines(text).len() implies !(#[trigger] lines(
            text,
        )[k]).contains('\n') by {
            if k > 0 {
                assert(lines(text)[k] == lines(rest)[k - 1]);
            }
        }
    }
}

/// Lines that hold no line feed, joined by line feeds, are read back as no more
/// lines than they were.
pub proof fn lemma_joined_line_count(parts: Seq<Seq<char>>)
    requires
        forall|k: int| 0 <= k < parts.len() ==> !(#[trigger] parts[k]).contains('\n'),
    ensures
        lines(joined(parts, seq!['\n'])).len() <= parts.len(),
    decreases parts.len(),
{
    let whole = joined(parts, seq!['\n']);
    if parts.len() == 0 {
    } else if parts.len() == 1 {
        assert forall|i: int| 0 <= i < whole.len() implies whole[i] != '\n' by {
            assert(parts[0].contains(whole[i]));
        }
        lemma_line_feed_at(whole, whole.len() as int);
    } else {
        let first = parts[0];
        let others = parts.drop_first();
        lemma_joined_from_front(parts, seq!['\n']);
        assert forall|k: int| 0 <= k < others.len() implies !(#[trigger] others[k]).contains(
            '\n',
        ) by {
            assert(others[k] == parts[k + 1]);
        }
        assert forall|i: int| 0 <= i < first.len() implies whole[i] != '\n' by {
            assert(first.contains(first[i]));
        }
        lemma_line_feed_at(whole, first.len() as int);
        assert(whole.skip(first.len() as int + 1) == joined(others, seq!['\n']));
        lemma_joined_line_count(others);
    }
}

/// The first of several joined parts stands before the others.
proof fn lemma_joined_from_front(parts: Seq<Seq<char>>, separator: Seq<char>)
    requires
        parts.len() > 1,
    ensures
        joined(parts, separator) == parts[0] + separator + joined(parts.drop_first(), separator),
    decreases parts.len(),
{
    let others = parts.drop_first();
    if parts.len() == 2 {
        assert(joined(parts.drop_last(), separator) == parts[0]);
        assert(joined(others, separator) == parts[1]);
    } else {
        let front = parts.drop_last();
        lemma_joined_from_front(front, separator);
        assert(front.drop_first() == others.drop_last());
        assert(joined(parts, separator) == parts[0] + separator + (joined(
            others.drop_last(),
            separator,
        ) + separator + parts.last()));
    }
}

/// The lines of a text, joined by line feeds, are the text again, where no
/// carriage return stands before a line feed and no line feed at the end.
pub proof fn lemma_lines_join_back(text: Seq<char>)
    requires
        forall|i: int| 0 <= i < text.len() - 1 && text[i] == '\r' ==> #[trigger] text[i + 1] != '\n',
        text.len() > 0 ==> text.last() != '\n',
    ensures
        joined(lines(text), seq!['\n']) == text,
    decreases text.len(),
{
    let end = line_feed_at(text);
    lemma_line_feed_found(text);
    if text.len() > 0 && end < text.len() {
        let rest = text.skip(end + 1);
        assert forall|i: int| 0 <= i < rest.len() - 1 && rest[i] == '\r' implies #[trigger] rest[i
            + 1] != '\n' by {
            assert(rest[i + 1] == text[(end + 1 + i) + 1]);
        }
        lemma_lines_join_back(rest);
        assert(rest.len() > 0);
        assert(lines(rest).len() > 0);
        if end > 0 {
            assert(text[(end - 1) + 1] == '\n');
        }
        assert(without_return(text.take(end)) == text.take(end));
        let all = lines(text);
        lemma_joined_from_front(all, seq!['\n']);
        assert(all.drop_first() == lines(rest));
        assert(text.take(end) + seq!['\n'] + rest == text);
    }
}

/// The characters from `from` up to `to`, as a string.
fn slice_text(chars: &Vec<char>, from: usize, to: usize) -> (text: String)
    requires
        from <= to <= chars@.len(),
    ensures
        text@ == chars@.subrange(from as int, to as int),
{
    let mut text = String::new();
    for i in from..to
        invariant
            from <= to <= chars@.len(),
            text@ == chars@.subrange(from as int, i as int),
    {
        text.push(chars[i]);
        assert(chars@.subrange(from as int, i + 1) == chars@.subrange(from as int, i as int).push(
            chars@[i as int],
        ));
    }
    text
}

/// Splits `text` into its lines.
pub fn lines_of(text: &str) -> (found: Vec<String>)
    ensures
        texts(found@) == lines(text@),
{
    let chars = chars_of(text);
    let mut found: Vec<String> = Vec::new();
    let mut start: usize = 0;
    assert(text@.skip(0) == text@);
    for i in 0..chars.len()
        invariant
            chars@ == text@,
            start <= i,
            i <= chars@.len(),
            forall|j: int| start <= j < i ==> text@[j] != '\n',
            lines(text@) == texts(found@) + lines(text@.skip(start as int)),
    {
        if chars[i] == '\n' {
            let end: usize = if i > start && chars[i - 1] == '\r' {
                i - 1
            } else {
                i
            };
            let line = slice_text(&chars, start, end);
            let ghost before = found@;
            let ghost open = text@.skip(start as int);
            proof {
                lemma_line_feed_at(open, i - start);
                assert(open.take(i - start) == text@.subrange(start as int, i as int));
                assert(line@ == without_return(open.take(i - start)));
                assert(open.skip(i - start + 1) == text@.skip(i + 1));
            }
            found.push(line);
            proof {
                assert(texts(found@) == texts(before).push(line@));
                assert(texts(found@) + lines(text@.skip(i + 1)) == texts(before) + (seq![line@]
                    + lines(text@.skip(i + 1))));
            }
            start = i + 1;
        }
    }
    let ghost open = text@.skip(start as int);
    if start < chars.len() {
        let line = slice_text(&chars, start, chars.len());
        let ghost before = found@;
        proof {
            lemma_line_feed_at(open, open.len() as int);
            assert(line@ == open);
        }
        found.push(line);
        assert(texts(found@) == texts(before) + seq![line@]);
    } else {
        assert(open == Seq::<char>::empty());
        assert(texts(found@) + lines(open) == texts(found@));
    }
    found
}

/// Whether `text` ends with `suffix`.
pub fn ends_with(text: &str, suffix: &str) -> (answer: bool)
    ensures
        answer == suffix@.is_suffix_of(text@),
{
    let whole = chars_of(text);
    let end = chars_of(suffix);
    if end.len() > whole.len() {
        return false;
    }
    let offset: usize = whole.len() - end.len();
    for i in 0..end.len()
        invariant
            whole@ == text@,
            end@ == suffix@,
            offset == whole.len() - end.len(),
            forall|j: int| 0 <= j < i ==> whole@[offset + j] == end@[j],
    {
        if whole[offset + i] != end[i] {
            assert(text@.subrange(offset as int, text@.len() as int)[i as int] != suffix@[i as int]);
            return false;
        }
    }
    assert(suffix@ == text@.subrange(offset as int, text@.len() as int));
    true
}

/// The decimal digit for `value`.
pub open spec fn digit(value: int) -> char {
    (48 + value) as char
}

/// The decimal digits of `n`, the most significant first.
pub open spec fn digits(n: nat) -> Seq<char>
    decreases n,
{
    if n < 10 {
        seq![digit(n as int)]
    } else {
        digits(n / 10).push(digit((n % 10) as int))
    }
}

/// `n` in decimal, with a minus sign where it is negative.
pub open spec fn decimal(n: int) -> Seq<char> {
    if n < 0 {
        seq!['-'] + digits((-n) as nat)
    } else {
        digits(n as nat)
    }
}

/// Appends the decimal digits of `n` to `text`.
fn push_digits(text: &mut String, n: u64)
    ensures
        final(text)@ == old(text)@ + digits(n as nat),
    decreases n,
{
    if n >= 10 {
        push_digits(text, n / 10);
    }
    let value: u8 = (n % 10) as u8;
    text.push((48 + value) as char);
}

/// Appends `n` in decimal to `text`.
pub fn push_decimal(text: &mut String, n: i32)
    ensures
        final(text)@ == old(text)@ + decimal(n as int),
{
    if n < 0 {
        text.push('-');
        push_digits(text, (-(n as i64)) as u64);
    } else {
        push_digits(text, n as u64);
    }
}

/// The text of an optional string.
pub open spec fn optional_text(string: Option<String>) -> Option<Seq<char>> {
    match string {
        Some(held) => Some(held@),
        None => None,
    }
}

/// A notice, which is given only to a user who asked for more output.
pub open spec fn notice_text(verbose: u8, lead: Seq<char>, subject: Seq<char>) -> Option<Seq<char>> {
    if verbose > 0 {
        Some(lead + subject)
    } else {
        None
    }
}

/// The lead and the subject in one string.
pub fn prefixed(lead: &str, subject: &str) -> (text: String)
    ensures
        text@ == lead@ + subject@,
{
    let mut text = String::new();
    text.append(lead);
    text.append(subject);
    text
}

/// A notice, which is given only to a user who asked for more output.
pub fn notice(verbose: u8, lead: &str, subject: &str) -> (text: Option<String>)
    ensures
        optional_text(text) == notice_text(verbose, lead@, subject@),
{
    if verbose > 0 {
        Some(prefixed(lead, subject))
    } else {
        None
    }
}

/// A list of strings and the list of its texts agree place by place.
pub proof fn law_texts_agree_place_by_place(strings: Seq<String>)
    ensures
        texts(strings).len() == strings.len(),
        forall|i: int| 0 <= i < strings.len() ==> texts(strings)[i] == (#[trigger] strings[i])@,
{
}

/// Nothing joined is nothing, one part joined is the part, and a further part
/// stands behind the others and one separator.
pub proof fn law_joining_adds_one_separator_a_part(
    parts: Seq<Seq<char>>,
    part: Seq<char>,
    separator: Seq<char>,
)
    ensures
        joined(Seq::<Seq<char>>::empty(), separator) == Seq::<char>::empty(),
        joined(seq![part], separator) == part,
        parts.len() > 0 ==> joined(parts.push(part), separator) == joined(parts, separator)
            + separator + part,
{
    assert(parts.push(part).drop_last() == parts);
}

/// A text in two pieces is blank just when both are; nothing is blank, and one
/// character is just when it is white space.
pub proof fn law_blank_is_white_space_throughout(a: Seq<char>, b: Seq<char>, c: char)
    ensures
        is_blank(Seq::<char>::empty()),
        is_blank(seq![c]) <==> is_white_space(c),
        is_blank(a + b) <==> is_blank(a) && is_blank(b),
{
    assert(seq![c][0] == c);
    if is_blank(a + b) {
        assert forall|i: int| 0 <= i < a.len() implies is_white_space(#[trigger] a[i]) by {
            assert((a + b)[i] == a[i]);
        }
        assert forall|i: int| 0 <= i < b.len() implies is_white_space(#[trigger] b[i]) by {
            assert((a + b)[a.len() + i] == b[i]);
        }
    }
}

/// A text without line feeds is one line, unless it is empty. With a line feed
/// behind it, it is the first line of whatever follows, without the carriage
/// return that it may end with.
pub proof fn law_line_feed_ends_a_line(line: Seq<char>, rest: Seq<char>)
    requires
        !line.contains('\n'),
    ensures
        lines(Seq::<char>::empty()) == Seq::<Seq<char>>::empty(),
        line.len() > 0 ==> lines(line) == seq![line],
        line.len() > 0 && line.last() == '\r' ==> lines(line + seq!['\n'] + rest)
            == seq![line.take(line.len() - 1)] + lines(rest),
        line.len() == 0 || line.last() != '\r' ==> lines(line + seq!['\n'] + rest) == seq![line]
            + lines(rest),
{
    let text = line + seq!['\n'] + rest;
    assert forall|i: int| 0 <= i < line.len() implies line[i] != '\n' by {
        assert(line.contains(line[i]));
    }
    lemma_line_feed_at(line, line.len() as int);
    assert(forall|i: int| 0 <= i < line.len() ==> text[i] == line[i]);
    assert(text[line.len() as int] == '\n');
    lemma_line_feed_at(text, line.len() as int);
    assert(text.take(line.len() as int) == line);
    assert(text.skip(line.len() as int + 1) == rest);
}

/// A number below ten is one digit, a greater one its tenth with the last digit
/// behind it, and a negative one a minus sign and the number without its sign.
pub proof fn law_decimal_is_positional(n: int)
    ensures
        0 <= n < 10 ==> decimal(n) == seq!["0123456789"@[n]],
        n >= 10 ==> decimal(n) == decimal(n / 10).push("0123456789"@[n % 10]),
        n < 0 ==> decimal(n) == seq!['-'] + decimal(-n),
{
    reveal_strlit("0123456789");
    let last = if n >= 0 {
        n % 10
    } else {
        0
    };
    let all = "0123456789"@;
    assert(all[0] == '0' && all[1] == '1' && all[2] == '2' && all[3] == '3' && all[4] == '4');
    assert(all[5] == '5' && all[6] == '6' && all[7] == '7' && all[8] == '8' && all[9] == '9');
    assert(digit(last) == all[last]);
}

/// The text of an optional string is there just when the string is.
pub proof fn law_optional_text_is_the_text(string: Option<String>)
    ensures
        string is None <==> optional_text(string) is None,
        string matches Some(held) ==> optional_text(string) == Some(held@),
{
}

}
