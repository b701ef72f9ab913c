//! Texts taken apart and put together: lines, words, lists and replacements.
use vstd::prelude::*;

use crate::text::{
    begins, char_is_ascii_whitespace, char_is_whitespace, chars_of, found_at, is_ascii_whitespace,
    is_whitespace, string_of, texts,
};

verus! {

// ---------------------------------------------------------------------------
// Lines.

/// The position of the first occurrence of a character, or the length.
pub open spec fn first_position(s: Seq<char>, c: char) -> int
    decreases s.len(),
{
    if s.len() == 0 || s[0] == c {
        0
    } else {
        1 + first_position(s.drop_first(), c)
    }
}

/// A line that a line feed ended, without the carriage return in front of it.
pub open spec fn without_return(line: Seq<char>) -> Seq<char> {
    if line.len() > 0 && line.last() == '\r' {
        line.drop_last()
    } else {
        line
    }
}

pub proof fn lemma_first_position(s: Seq<char>, c: char)
    ensures
        0 <= first_position(s, c) <= s.len(),
        first_position(s, c) < s.len() ==> s[first_position(s, c)] == c,
        forall|k: int| 0 <= k < first_position(s, c) ==> s[k] != c,
    decreases s.len(),
{
    if s.len() == 0 || s[0] == c {
    } else {
        let t = s.drop_first();
        lemma_first_position(t, c);
        assert forall|k: int| 0 <= k < first_position(s, c) implies s[k] != c by {
            if k > 0 {
                assert(t[k - 1] == s[k]);
            }
        }
    }
}

/// The position is the only one with no earlier occurrence.
proof fn lemma_first_position_is(s: Seq<char>, c: char, i: int)
    requires
        0 <= i <= s.len(),
        forall|k: int| 0 <= k < i ==> s[k] != c,
        i < s.len() ==> s[i] == c,
    ensures
        first_position(s, c) == i,
{
    lemma_first_position(s, c);
}

/// The lines of a text. A line ends with a line feed, or with a carriage return
/// and a line feed; the end of the last line may be missing.
pub open spec fn lines(s: Seq<char>) -> Seq<Seq<char>>
    decreases s.len(),
{
    if s.len() == 0 {
        seq![]
    } else {
        let i = first_position(s, '\n');
        if 0 <= i < s.len() {
            seq![without_return(s.take(i))] + lines(s.skip(i + 1))
        } else {
            seq![s]
        }
    }
}

/// The first position from `from` on where a character stands, or the length.
pub fn position_from(chars: &Vec<char>, c: char, from: usize) -> (r: usize)
    requires
        from <= chars@.len(),
    ensures
        from <= r <= chars@.len(),
        r - from == first_position(chars@.skip(from as int), c),
        r < chars@.len() ==> chars@[r as int] == c,
        forall|k: int| from <= k < r ==> chars@[k] != c,
{
    let mut i: usize = from;
    while i < chars.len() && chars[i] != c
        invariant
            from <= i <= chars@.len(),
            forall|k: int| from <= k < i ==> chars@[k] != c,
        decreases chars@.len() - i,
    {
        i = i + 1;
    }
    proof {
        let rest = chars@.skip(from as int);
        assert forall|k: int| 0 <= k < i - from implies rest[k] != c by {
            assert(rest[k] == chars@[from + k]);
        }
        lemma_first_position_is(rest, c, i - from);
    }
    i
}

proof fn lemma_texts_push(v: Seq<String>, s: String)
    ensures
        texts(v.push(s)) == texts(v).push(s@),
{
    assert(texts(v.push(s)) =~= texts(v).push(s@));
}

/// The lines of a text.
pub fn lines_of(text: &str) -> (r: Vec<String>)
    ensures
        texts(r@) == lines(text@),
{
    let chars = chars_of(text);
    let n: usize = chars.len();
    let mut out: Vec<String> = Vec::new();
    let mut start: usize = 0;
    assert(text@.skip(0) =~= text@);
    assert(texts(out@) =~= seq![]);
    while start < n
        invariant
            chars@ == text@,
            n == chars@.len(),
            start <= n,
            lines(text@) == texts(out@) + lines(text@.skip(start as int)),
        decreases n - start,
    {
        let ghost rest = text@.skip(start as int);
        let ghost before = out@;
        let end = position_from(&chars, '\n', start);
        if end < n {
            let mut to: usize = end;
            if to > start && chars[to - 1] == '\r' {
                to = to - 1;
            }
            let line = string_of(&chars, start, to);
            proof {
                let i = end - start;
                assert(rest.take(i) =~= chars@.subrange(start as int, end as int));
                assert(line@ =~= without_return(rest.take(i)));
                assert(rest.skip(i + 1) =~= text@.skip(end + 1));
                lemma_texts_push(before, line);
                assert(texts(before) + (seq![line@] + lines(text@.skip(end + 1))) =~= texts(
                    before,
                ).push(line@) + lines(text@.skip(end + 1)));
            }
            out.push(line);
            start = end + 1;
        } else {
            let line = string_of(&chars, start, n);
            proof {
                assert(line@ =~= rest);
                lemma_texts_push(before, line);
                assert(text@.skip(n as int) =~= seq![]);
                assert(texts(before) + seq![line@] =~= texts(before).push(line@) + lines(
                    text@.skip(n as int),
                ));
            }
            out.push(line);
            start = n;
        }
    }
    assert(text@.skip(n as int) =~= seq![]);
    assert(texts(out@) + lines(text@.skip(n as int)) =~= texts(out@));
    out
}

// ---------------------------------------------------------------------------
// Words.

/// What stands between words.
#[derive(Clone, Copy, Debug, PartialEq, Eq, Structural)]
pub enum Separator {
    /// Any white space.
    Whitespace,
    /// The white space of ASCII.
    AsciiWhitespace,
    /// A slash.
    Slash,
    /// A slash or a backslash.
    AnySlash,
}

/// Whether a character separates words.
pub open spec fn separates(c: char, by: Separator) -> bool {
    match by {
        Separator::Whitespace => is_whitespace(c),
        Separator::AsciiWhitespace => is_ascii_whitespace(c),
        Separator::Slash => c == '/',
        Separator::AnySlash => c == '/' || c == '\\',
    }
}

/// The number of characters before the first separator.
pub open spec fn word_length(s: Seq<char>, by: Separator) -> nat
    decreases s.len(),
{
    if s.len() == 0 || separates(s[0], by) {
        0
    } else {
        1 + word_length(s.drop_first(), by)
    }
}

pub proof fn lemma_word_length(s: Seq<char>, by: Separator)
    ensures
        word_length(s, by) <= s.len(),
    decreases s.len(),
{
    if s.len() > 0 && !separates(s[0], by) {
        lemma_word_length(s.drop_first(), by);
    }
}

/// The words of a text: its longest pieces without a separator.
pub open spec fn words(s: Seq<char>, by: Separator) -> Seq<Seq<char>>
    decreases s.len(),
{
    if s.len() == 0 {
        seq![]
    } else if separates(s[0], by) {
        words(s.drop_first(), by)
    } else {
        let n = word_length(s, by) as int;
        proof {
            lemma_word_length(s, by);
        }
        seq![s.take(n)] + words(s.skip(n), by)
    }
}

pub fn char_separates(c: char, by: Separator) -> (r: bool)
    ensures
        r == separates(c, by),
{
    match by {
        Separator::Whitespace => char_is_whitespace(c),
        Separator::AsciiWhitespace => char_is_ascii_whitespace(c),
        Separator::Slash => c == '/',
        Separator::AnySlash => c == '/' || c == '\\',
    }
}

/// The words of a text.
pub fn words_of(text: &str, by: Separator) -> (r: Vec<String>)
    ensures
        texts(r@) == words(text@, by),
{
    let chars = chars_of(text);
    let n: usize = chars.len();
    let mut out: Vec<String> = Vec::new();
    let mut start: usize = 0;
    assert(text@.skip(0) =~= text@);
    assert(texts(out@) =~= seq![]);
    while start < n
        invariant
            chars@ == text@,
            n == chars@.len(),
            start <= n,
            words(text@, by) == texts(out@) + words(text@.skip(start as int), by),
        decreases n - start,
    {
        let ghost rest = text@.skip(start as int);
        if char_separates(chars[start], by) {
            assert(rest.drop_first() =~= text@.skip(start + 1));
            start = start + 1;
        } else {
            let ghost before = out@;
            let mut end: usize = start + 1;
            assert(rest.drop_first() =~= text@.skip(end as int));
            while end < n && !char_separates(chars[end], by)
                invariant
                    chars@ == text@,
                    n == chars@.len(),
                    start < end <= n,
                    word_length(rest, by) == (end - start) + word_length(
                        text@.skip(end as int),
                        by,
                    ),
                decreases n - end,
            {
                assert(text@.skip(end as int).drop_first() =~= text@.skip(end + 1));
                end = end + 1;
            }
            let word = string_of(&chars, start, end);
            proof {
                let k = end - start;
                assert(word_length(rest, by) == k);
                assert(word@ =~= rest.take(k));
                assert(rest.skip(k) =~= text@.skip(end as int));
                lemma_texts_push(before, word);
                assert(texts(before) + (seq![word@] + words(text@.skip(end as int), by))
                    =~= texts(before).push(word@) + words(text@.skip(end as int), by));
            }
            out.push(word);
            start = end;
        }
    }
    assert(text@.skip(n as int) =~= seq![]);
    assert(texts(out@) + words(text@.skip(n as int), by) =~= texts(out@));
    out
}

proof fn lemma_word_has_no_separator(s: Seq<char>, by: Separator)
    ensures
        forall|i: int|
            0 <= i < word_length(s, by) ==> !separates(#[trigger] s[i], by),
        word_length(s, by) <= s.len(),
    decreases s.len(),
{
    if s.len() > 0 && !separates(s[0], by) {
        lemma_word_has_no_separator(s.drop_first(), by);
        assert forall|i: int| 0 <= i < word_length(s, by) implies !separates(
            #[trigger] s[i],
            by,
        ) by {
            if i > 0 {
                assert(s[i] == s.drop_first()[i - 1]);
            }
        }
    }
}

/// A word is not empty and holds no separator.
pub proof fn lemma_words_have_no_separators(s: Seq<char>, by: Separator, k: int)
    requires
        0 <= k < words(s, by).len(),
    ensures
        words(s, by)[k].len() > 0,
        forall|i: int| 0 <= i < words(s, by)[k].len() ==> !separates(#[trigger] words(s, by)[k][i], by),
    decreases s.len(),
{
    if separates(s[0], by) {
        lemma_words_have_no_separators(s.drop_first(), by, k);
    } else {
        let n = word_length(s, by) as int;
        lemma_word_has_no_separator(s, by);
        let first = s.take(n);
        assert(words(s, by) =~= seq![first] + words(s.skip(n), by));
        if k > 0 {
            assert(words(s, by)[k] == words(s.skip(n), by)[k - 1]);
            lemma_words_have_no_separators(s.skip(n), by, k - 1);
        } else {
            assert forall|i: int| 0 <= i < first.len() implies !separates(
                #[trigger] first[i],
                by,
            ) by {
                assert(first[i] == s[i]);
            }
        }
    }
}

// ---------------------------------------------------------------------------
// Lists joined by a separator.

/// The texts of a list with a separator between each two.
pub open spec fn joined(parts: Seq<Seq<char>>, separator: Seq<char>) -> Seq<char>
    decreases parts.len(),
{
    if parts.len() == 0 {
        seq![]
    } else if parts.len() == 1 {
        parts[0]
    } else {
        joined(parts.drop_last(), separator) + separator + parts.last()
    }
}

/// The strings of a list, from `from` on, with a separator between each two.
pub fn join_from(parts: &Vec<String>, from: usize, separator: &str) -> (r: String)
    requires
        from <= parts@.len(),
    ensures
        r@ == joined(texts(parts@).skip(from as int), separator@),
{
    let mut out = String::new();
    let mut i: usize = from;
    let ghost all = texts(parts@).skip(from as int);
    assert(all.take(0) =~= seq![]);
    assert(out@ =~= joined(all.take(0), separator@));
    while i < parts.len()
        invariant
            from <= i <= parts@.len(),
            all == texts(parts@).skip(from as int),
            out@ == joined(all.take(i - from), separator@),
        decreases parts@.len() - i,
    {
        let ghost next = all.take(i + 1 - from);
        assert(next.drop_last() =~= all.take(i - from));
        assert(next.last() == parts@[i as int]@);
        if i > from {
            out.push_str(separator);
            out.push_str(parts[i].as_str());
        } else {
            out.push_str(parts[i].as_str());
            assert(out@ =~= parts@[i as int]@);
        }
        i = i + 1;
    }
    assert(all.take(all.len() as int) =~= all);
    out
}

/// The strings of a list with a separator between each two.
pub fn join_all(parts: &Vec<String>, separator: &str) -> (r: String)
    ensures
        r@ == joined(texts(parts@), separator@),
{
    assert(texts(parts@).skip(0) =~= texts(parts@));
    join_from(parts, 0, separator)
}

// ---------------------------------------------------------------------------
// Replacement.

/// A text with every occurrence of `from`, found from left to right, replaced.
pub open spec fn replaced(s: Seq<char>, from: Seq<char>, to: Seq<char>) -> Seq<char>
    decreases s.len(),
{
    if s.len() == 0 || from.len() == 0 {
        s
    } else if begins(s, from) {
        to + replaced(s.skip(from.len() as int), from, to)
    } else {
        seq![s[0]] + replaced(s.drop_first(), from, to)
    }
}

/// A text with every occurrence of `from` replaced by `to`.
pub fn replace(text: &str, from: &str, to: &str) -> (r: String)
    requires
        from@.len() > 0,
    ensures
        r@ == replaced(text@, from@, to@),
{
    let chars = chars_of(text);
    let pattern = chars_of(from);
    let n: usize = chars.len();
    let mut out = String::new();
    let mut i: usize = 0;
    assert(text@.skip(0) =~= text@);
    assert(out@ + replaced(text@, from@, to@) =~= replaced(text@, from@, to@));
    while i < n
        invariant
            chars@ == text@,
            pattern@ == from@,
            from@.len() > 0,
            n == chars@.len(),
            i <= n,
            replaced(text@, from@, to@) == out@ + replaced(text@.skip(i as int), from@, to@),
        decreases n - i,
    {
        let ghost rest = text@.skip(i as int);
        let ghost before = out@;
        let found = found_at(&chars, &pattern, i);
        proof {
            if from@.len() <= rest.len() {
                assert(rest.take(from@.len() as int) =~= chars@.subrange(
                    i as int,
                    i + from@.len(),
                ));
            }
            assert(found == begins(rest, from@));
        }
        if found {
            out.push_str(to);
            proof {
                assert(rest.skip(from@.len() as int) =~= text@.skip(i + from@.len()));
                let tail = replaced(text@.skip(i + from@.len()), from@, to@);
                assert(before + (to@ + tail) =~= (before + to@) + tail);
            }
            i = i + pattern.len();
        } else {
            out.push(chars[i]);
            proof {
                assert(rest.drop_first() =~= text@.skip(i + 1));
                let tail = replaced(text@.skip(i + 1), from@, to@);
                assert(before + (seq![rest[0]] + tail) =~= before.push(rest[0]) + tail);
            }
            i = i + 1;
        }
    }
    assert(text@.skip(n as int) =~= seq![]);
    assert(out@ + replaced(text@.skip(n as int), from@, to@) =~= out@);
    out
}

// ---------------------------------------------------------------------------
// Laws.

/// A line feed ends a line, with or without a carriage return in front of it: what
/// is before it is the first line, and the lines of what is behind it follow.
pub proof fn lines_end_with_line_feeds(line: Seq<char>, rest: Seq<char>)
    requires
        forall|i: int| 0 <= i < line.len() ==> #[trigger] line[i] != '\n',
        line.len() > 0 ==> line.last() != '\r',
    ensures
        lines(line + seq!['\n'] + rest) == seq![line] + lines(rest),
        lines(line + seq!['\r', '\n'] + rest) == seq![line] + lines(rest),
        line.len() > 0 ==> lines(line) == seq![line],
        lines(Seq::<char>::empty()) == Seq::<Seq<char>>::empty(),
{
    let n = line.len() as int;
    let plain = line + seq!['\n'] + rest;
    assert forall|k: int| 0 <= k < n implies plain[k] != '\n' by {
        assert(plain[k] == line[k]);
    }
    assert(plain[n] == '\n');
    lemma_first_position_is(plain, '\n', n);
    assert(plain.take(n) =~= line);
    assert(plain.skip(n + 1) =~= rest);
    let returned = line + seq!['\r', '\n'] + rest;
    assert forall|k: int| 0 <= k < n + 1 implies returned[k] != '\n' by {
        if k < n {
            assert(returned[k] == line[k]);
        } else {
            assert(returned[k] == '\r');
        }
    }
    assert(returned[n + 1] == '\n');
    lemma_first_position_is(returned, '\n', n + 1);
    assert(returned.take(n + 1) =~= line.push('\r'));
    assert(line.push('\r').drop_last() =~= line);
    assert(returned.skip(n + 2) =~= rest);
    if n > 0 {
        lemma_first_position_is(line, '\n', n);
    }
}

proof fn lemma_word_length_before(a: Seq<char>, c: char, b: Seq<char>, by: Separator)
    requires
        separates(c, by),
    ensures
        word_length(a + seq![c] + b, by) == word_length(a, by),
    decreases a.len(),
{
    let s = a + seq![c] + b;
    if a.len() == 0 {
        assert(s[0] == c);
    } else {
        assert(s[0] == a[0]);
        if !separates(a[0], by) {
            assert(s.drop_first() =~= a.drop_first() + seq![c] + b);
            lemma_word_length_before(a.drop_first(), c, b, by);
        }
    }
}

/// A separator divides a text: its words are those in front of it and then those
/// behind it.
pub proof fn separators_divide_words(a: Seq<char>, c: char, b: Seq<char>, by: Separator)
    requires
        separates(c, by),
    ensures
        words(a + seq![c] + b, by) == words(a, by) + words(b, by),
    decreases a.len(),
{
    let s = a + seq![c] + b;
    if a.len() == 0 {
        assert(s[0] == c);
        assert(s.drop_first() =~= b);
        assert(words(a, by) + words(b, by) =~= words(b, by));
    } else if separates(a[0], by) {
        assert(s[0] == a[0]);
        assert(s.drop_first() =~= a.drop_first() + seq![c] + b);
        separators_divide_words(a.drop_first(), c, b, by);
    } else {
        assert(s[0] == a[0]);
        let n = word_length(a, by) as int;
        lemma_word_length_before(a, c, b, by);
        lemma_word_length(a, by);
        assert(n > 0);
        assert(s.take(n) =~= a.take(n));
        assert(s.skip(n) =~= a.skip(n) + seq![c] + b);
        separators_divide_words(a.skip(n), c, b, by);
        assert(words(s, by) =~= words(a, by) + words(b, by));
    }
}

proof fn lemma_whole_word(s: Seq<char>, by: Separator)
    requires
        forall|i: int| 0 <= i < s.len() ==> !separates(#[trigger] s[i], by),
    ensures
        word_length(s, by) == s.len(),
    decreases s.len(),
{
    if s.len() > 0 {
        lemma_whole_word(s.drop_first(), by);
    }
}

/// A text without a separator is one word, unless it is empty.
pub proof fn texts_without_separators_are_words(s: Seq<char>, by: Separator)
    requires
        forall|i: int| 0 <= i < s.len() ==> !separates(#[trigger] s[i], by),
    ensures
        words(s, by) == (if s.len() > 0 {
            seq![s]
        } else {
            seq![]
        }),
{
    if s.len() > 0 {
        lemma_whole_word(s, by);
        assert(s.take(s.len() as int) =~= s);
        assert(s.skip(s.len() as int) =~= seq![]);
        assert(words(s.skip(s.len() as int), by) =~= seq![]);
        assert(words(s, by) =~= seq![s]);
    }
}

/// Words that are joined with a separator between each two are found again, in
/// their order.
pub proof fn joined_words_are_found_again(parts: Seq<Seq<char>>, c: char, by: Separator)
    requires
        separates(c, by),
        forall|k: int| 0 <= k < parts.len() ==> (#[trigger] parts[k]).len() > 0,
        forall|k: int, i: int|
            0 <= k < parts.len() && 0 <= i < parts[k].len() ==> !separates(
                #[trigger] parts[k][i],
                by,
            ),
    ensures
        words(joined(parts, seq![c]), by) == parts,
    decreases parts.len(),
{
    if parts.len() == 1 {
        texts_without_separators_are_words(parts[0], by);
        assert(parts =~= seq![parts[0]]);
    } else if parts.len() > 1 {
        let front = parts.drop_last();
        let last = parts.last();
        assert forall|k: int, i: int|
            0 <= k < front.len() && 0 <= i < front[k].len() implies !separates(
            #[trigger] front[k][i],
            by,
        ) by {
            assert(front[k] == parts[k]);
            assert(!separates(parts[k][i], by));
        }
        joined_words_are_found_again(front, c, by);
        separators_divide_words(joined(front, seq![c]), c, last, by);
        assert forall|i: int| 0 <= i < last.len() implies !separates(#[trigger] last[i], by) by {
            assert(!separates(parts[parts.len() - 1][i], by));
        }
        texts_without_separators_are_words(last, by);
        assert(parts =~= front + seq![last]);
    } else {
        assert(words(joined(parts, seq![c]), by) =~= parts);
    }
}

/// Joining goes part by part: parts that are joined in two steps come to the same
/// text as in one.
pub proof fn parts_are_joined_in_order(
    a: Seq<Seq<char>>,
    b: Seq<Seq<char>>,
    separator: Seq<char>,
)
    requires
        a.len() > 0,
        b.len() > 0,
    ensures
        joined(a + b, separator) == joined(a, separator) + separator + joined(b, separator),
    decreases b.len(),
{
    let all = a + b;
    assert(all.last() == b.last());
    assert(all.drop_last() =~= a + b.drop_last());
    if b.len() == 1 {
        assert(all.drop_last() =~= a);
        assert(joined(b, separator) == b[0]);
    } else {
        parts_are_joined_in_order(a, b.drop_last(), separator);
        assert(joined(all, separator) =~= joined(a, separator) + separator + joined(b, separator));
    }
}

/// A text that is replaced leaves no trace where it stood, and all in front of it
/// that does not hold its first character stays as it is.
pub proof fn occurrences_are_replaced(
    front: Seq<char>,
    from: Seq<char>,
    to: Seq<char>,
    rest: Seq<char>,
)
    requires
        from.len() > 0,
        forall|i: int| 0 <= i < front.len() ==> #[trigger] front[i] != from[0],
    ensures
        replaced(front + from + rest, from, to) == front + to + replaced(rest, from, to),
        replaced(front, from, to) == front,
    decreases front.len(),
{
    let s = front + from + rest;
    if front.len() == 0 {
        assert(s.take(from.len() as int) =~= from);
        assert(s.skip(from.len() as int) =~= rest);
        assert(front + to + replaced(rest, from, to) =~= to + replaced(rest, from, to));
        assert(replaced(front, from, to) =~= front);
    } else {
        assert(s[0] == front[0]);
        if begins(s, from) {
            assert(s.take(from.len() as int)[0] == s[0]);
        }
        if begins(front, from) {
            assert(front.take(from.len() as int)[0] == front[0]);
        }
        occurrences_are_replaced(front.drop_first(), from, to, rest);
        assert(s.drop_first() =~= front.drop_first() + from + rest);
        assert(front =~= seq![front[0]] + front.drop_first());
        assert(front + to + replaced(rest, from, to) =~= seq![front[0]] + (front.drop_first() + to
            + replaced(rest, from, to)));
    }
}

} // verus!
