//! Text as sequences of characters.
//!
//! Contracts speak of the characters of a string (`text@`) and, where a limit
//! is given in bytes, of their UTF-8 encoding.
use vstd::prelude::*;
use vstd::utf8::encode_utf8;

verus! {

// ---------------------------------------------------------------------------
// What std's strings do.

/// `String::push` appends one character.
pub assume_specification[ String::push ](s: &mut String, c: char)
    ensures
        final(s)@ == old(s)@.push(c),
;

/// `String::push_str` appends the characters of a string slice.
pub assume_specification[ String::push_str ](s: &mut String, text: &str)
    ensures
        final(s)@ == old(s)@ + text@,
;

// ---------------------------------------------------------------------------
// Character classes.

/// The characters with the Unicode property `White_Space`.
pub open spec fn is_whitespace(c: char) -> bool {
    ||| '\u{9}' <= c <= '\u{d}'
    ||| c == '\u{20}'
    ||| c == '\u{85}'
    ||| c == '\u{a0}'
    ||| c == '\u{1680}'
    ||| '\u{2000}' <= c <= '\u{200a}'
    ||| c == '\u{2028}'
    ||| c == '\u{2029}'
    ||| c == '\u{202f}'
    ||| c == '\u{205f}'
    ||| c == '\u{3000}'
}

/// The ASCII characters that separate words: space, tab, line feed, form feed
/// and carriage return.
pub open spec fn is_ascii_whitespace(c: char) -> bool {
    c == ' ' || c == '\t' || c == '\n' || c == '\u{c}' || c == '\r'
}

/// The characters of the Unicode category `Cc`.
pub open spec fn is_control(c: char) -> bool {
    c <= '\u{1f}' || '\u{7f}' <= c <= '\u{9f}'
}

/// The letters and digits of ASCII.
pub open spec fn is_ascii_alphanumeric(c: char) -> bool {
    '0' <= c <= '9' || 'a' <= c <= 'z' || 'A' <= c <= 'Z'
}

/// The characters of ASCII.
pub open spec fn is_ascii_char(c: char) -> bool {
    c <= '\u{7f}'
}

pub fn char_is_whitespace(c: char) -> (r: bool)
    ensures
        r == is_whitespace(c),
{
    ('\u{9}' <= c && c <= '\u{d}') || c == '\u{20}' || c == '\u{85}' || c == '\u{a0}' || c
        == '\u{1680}' || ('\u{2000}' <= c && c <= '\u{200a}') || c == '\u{2028}' || c == '\u{2029}'
        || c == '\u{202f}' || c == '\u{205f}' || c == '\u{3000}'
}

pub fn char_is_ascii_whitespace(c: char) -> (r: bool)
    ensures
        r == is_ascii_whitespace(c),
{
    c == ' ' || c == '\t' || c == '\n' || c == '\u{c}' || c == '\r'
}

pub fn char_is_control(c: char) -> (r: bool)
    ensures
        r == is_control(c),
{
    c <= '\u{1f}' || ('\u{7f}' <= c && c <= '\u{9f}')
}

pub fn char_is_ascii_alphanumeric(c: char) -> (r: bool)
    ensures
        r == is_ascii_alphanumeric(c),
{
    ('0' <= c && c <= '9') || ('a' <= c && c <= 'z') || ('A' <= c && c <= 'Z')
}

/// A character with the upper-case ASCII letters turned to lower case.
pub open spec fn lower_char(c: char) -> char {
    if 'A' <= c <= 'Z' {
        (c as u32 + 32) as char
    } else {
        c
    }
}

/// Text with its upper-case ASCII letters turned to lower case.
pub open spec fn lower(s: Seq<char>) -> Seq<char> {
    Seq::new(s.len(), |i: int| lower_char(s[i]))
}

pub fn char_to_lower(c: char) -> (r: char)
    ensures
        r == lower_char(c),
{
    if 'A' <= c && c <= 'Z' {
        ((c as u8) + 32) as char
    } else {
        c
    }
}

// ---------------------------------------------------------------------------
// Between strings and characters.

/// The characters of each string of a list.
pub open spec fn texts(v: Seq<String>) -> Seq<Seq<char>> {
    v.map_values(|s: String| s@)
}

/// The number of bytes of the UTF-8 encoding of a text.
pub open spec fn byte_length(s: Seq<char>) -> nat {
    encode_utf8(s).len()
}

/// The characters of an optional string.
pub open spec fn opt_text(o: Option<String>) -> Option<Seq<char>> {
    match o {
        Some(s) => Some(s@),
        None => None,
    }
}

/// The characters of a string, one by one.
pub fn chars_of(text: &str) -> (r: Vec<char>)
    ensures
        r@ == text@,
{
    let mut out: Vec<char> = Vec::new();
    for c in it: text.chars()
        invariant
            out@ == it.seq().take(it.index()),
            it.seq() == text@,
    {
        out.push(c);
        assert(it.seq().take(it.index() + 1) =~= it.seq().take(it.index()).push(c));
    }
    assert(text@.take(text@.len() as int) =~= text@);
    out
}

/// The string made of the characters from `from` up to `to`.
pub fn string_of(chars: &Vec<char>, from: usize, to: usize) -> (r: String)
    requires
        from <= to <= chars@.len(),
    ensures
        r@ == chars@.subrange(from as int, to as int),
{
    let mut out: String = String::new();
    let mut i: usize = from;
    while i < to
        invariant
            from <= i <= to <= chars@.len(),
            out@ == chars@.subrange(from as int, i as int),
        decreases to - i,
    {
        out.push(chars[i]);
        assert(chars@.subrange(from as int, i + 1) =~= chars@.subrange(from as int, i as int).push(
            chars@[i as int],
        ));
        i = i + 1;
    }
    out
}

/// The number of bytes that a text takes.
pub fn text_bytes(text: &str) -> (r: usize)
    ensures
        r == byte_length(text@),
{
    text.as_bytes().len()
}

proof fn lemma_encoding_injective(a: Seq<char>, b: Seq<char>)
    requires
        encode_utf8(a) == encode_utf8(b),
    ensures
        a == b,
{
    vstd::utf8::encode_utf8_decode_utf8(a);
    vstd::utf8::encode_utf8_decode_utf8(b);
}

/// Whether two texts are the same.
pub fn text_eq(a: &str, b: &str) -> (r: bool)
    ensures
        r == (a@ == b@),
{
    let x = a.as_bytes();
    let y = b.as_bytes();
    if x.len() != y.len() {
        return false;
    }
    let n: usize = x.len();
    let mut i: usize = 0;
    while i < n
        invariant
            x@ == encode_utf8(a@),
            y@ == encode_utf8(b@),
            n == x@.len(),
            n == y@.len(),
            i <= n,
            forall|k: int| 0 <= k < i ==> x@[k] == y@[k],
        decreases n - i,
    {
        if x[i] != y[i] {
            return false;
        }
        i = i + 1;
    }
    proof {
        assert(x@ =~= y@);
        lemma_encoding_injective(a@, b@);
    }
    true
}

/// An owned optional copy of a text.
pub fn clone_opt(o: &Option<String>) -> (r: Option<String>)
    ensures
        opt_text(r) == opt_text(*o),
{
    match o {
        Some(s) => Some(s.clone()),
        None => None,
    }
}

/// The concatenation of two texts.
pub fn join2(a: &str, b: &str) -> (r: String)
    ensures
        r@ == a@ + b@,
{
    let mut out = a.to_owned();
    out.push_str(b);
    out
}

/// The concatenation of three texts.
pub fn join3(a: &str, b: &str, c: &str) -> (r: String)
    ensures
        r@ == a@ + b@ + c@,
{
    let mut out = a.to_owned();
    out.push_str(b);
    out.push_str(c);
    out
}

// ---------------------------------------------------------------------------
// Trimming.

/// Text without the white space in front.
pub open spec fn trim_start(s: Seq<char>) -> Seq<char>
    decreases s.len(),
{
    if s.len() > 0 && is_whitespace(s[0]) {
        trim_start(s.drop_first())
    } else {
        s
    }
}

/// Text without the white space at the end.
pub open spec fn trim_end(s: Seq<char>) -> Seq<char>
    decreases s.len(),
{
    if s.len() > 0 && is_whitespace(s.last()) {
        trim_end(s.drop_last())
    } else {
        s
    }
}

/// Text without the white space around it.
pub open spec fn trim(s: Seq<char>) -> Seq<char> {
    trim_end(trim_start(s))
}

proof fn lemma_trim_start_length(s: Seq<char>)
    ensures
        trim_start(s).len() <= s.len(),
        trim_start(s).len() > 0 ==> !is_whitespace(trim_start(s)[0]),
        trim_start(s).len() > 0 ==> trim_start(s).last() == s.last(),
    decreases s.len(),
{
    if s.len() > 0 && is_whitespace(s[0]) {
        lemma_trim_start_length(s.drop_first());
    }
}

proof fn lemma_trim_end_length(s: Seq<char>)
    ensures
        trim_end(s).len() <= s.len(),
        trim_end(s).len() > 0 ==> !is_whitespace(trim_end(s).last()),
        trim_end(s).len() > 0 ==> trim_end(s)[0] == s[0],
    decreases s.len(),
{
    if s.len() > 0 && is_whitespace(s.last()) {
        lemma_trim_end_length(s.drop_last());
    }
}

/// A trimmed text neither begins nor ends with white space.
pub proof fn lemma_trimmed_ends(s: Seq<char>)
    ensures
        trim(s).len() <= s.len(),
        trim(s).len() > 0 ==> !is_whitespace(trim(s)[0]) && !is_whitespace(trim(s).last()),
{
    lemma_trim_start_length(s);
    lemma_trim_end_length(trim_start(s));
}

/// A text that neither begins nor ends with white space is trimmed.
pub proof fn lemma_trim_fixed(s: Seq<char>)
    requires
        s.len() > 0 ==> !is_whitespace(s[0]) && !is_whitespace(s.last()),
    ensures
        trim(s) == s,
{
}

proof fn lemma_trim_start_parts(s: Seq<char>)
    ensures
        trim_start(s).len() <= s.len(),
        s.skip(s.len() - trim_start(s).len()) == trim_start(s),
        forall|i: int| 0 <= i < s.len() - trim_start(s).len() ==> is_whitespace(#[trigger] s[i]),
        trim_start(s).len() > 0 ==> !is_whitespace(trim_start(s)[0]),
    decreases s.len(),
{
    if s.len() > 0 && is_whitespace(s[0]) {
        let t = s.drop_first();
        lemma_trim_start_parts(t);
        assert(s.skip(s.len() - trim_start(s).len()) =~= t.skip(t.len() - trim_start(t).len()));
        assert forall|i: int| 0 <= i < s.len() - trim_start(s).len() implies is_whitespace(
            #[trigger] s[i],
        ) by {
            if i > 0 {
                assert(s[i] == t[i - 1]);
            }
        }
    } else {
        assert(s.skip(0) =~= s);
    }
}

proof fn lemma_trim_end_parts(s: Seq<char>)
    ensures
        trim_end(s).len() <= s.len(),
        s.take(trim_end(s).len() as int) == trim_end(s),
        forall|i: int| trim_end(s).len() <= i < s.len() ==> is_whitespace(#[trigger] s[i]),
        trim_end(s).len() > 0 ==> !is_whitespace(trim_end(s).last()),
    decreases s.len(),
{
    if s.len() > 0 && is_whitespace(s.last()) {
        let t = s.drop_last();
        lemma_trim_end_parts(t);
        assert(s.take(trim_end(s).len() as int) =~= t.take(trim_end(t).len() as int));
        assert forall|i: int| trim_end(s).len() <= i < s.len() implies is_whitespace(
            #[trigger] s[i],
        ) by {
            if i < t.len() {
                assert(s[i] == t[i]);
            }
        }
    } else {
        assert(s.take(s.len() as int) =~= s);
    }
}

/// What a text has around its trimmed form is white space, and nothing else is
/// taken from it: a blank text is white space throughout.
pub proof fn lemma_trimmed_parts(s: Seq<char>) -> (start: int)
    ensures
        0 <= start <= start + trim(s).len() <= s.len(),
        s.subrange(start, start + trim(s).len()) == trim(s),
        forall|i: int| 0 <= i < start ==> is_whitespace(#[trigger] s[i]),
        forall|i: int| start + trim(s).len() <= i < s.len() ==> is_whitespace(#[trigger] s[i]),
        trim(s).len() > 0 ==> !is_whitespace(trim(s)[0]) && !is_whitespace(trim(s).last()),
{
    let t = trim_start(s);
    let start = s.len() - t.len();
    lemma_trim_start_parts(s);
    lemma_trim_end_parts(t);
    lemma_trimmed_ends(s);
    assert(s.subrange(start, start + trim(s).len()) =~= t.take(trim(s).len() as int));
    assert forall|i: int| start + trim(s).len() <= i < s.len() implies is_whitespace(
        #[trigger] s[i],
    ) by {
        assert(s[i] == t[i - start]);
    }
    start
}

/// A part of a text that has visible ends and nothing but white space around it
/// is the trimmed text.
pub proof fn lemma_trim_is(s: Seq<char>, start: int, length: int)
    requires
        0 <= start <= start + length <= s.len(),
        forall|i: int| 0 <= i < start ==> is_whitespace(#[trigger] s[i]),
        forall|i: int| start + length <= i < s.len() ==> is_whitespace(#[trigger] s[i]),
        length > 0 ==> !is_whitespace(s[start]) && !is_whitespace(s[start + length - 1]),
    ensures
        trim(s) == s.subrange(start, start + length),
{
    let first = lemma_trimmed_parts(s);
    let n = trim(s).len() as int;
    if n > 0 {
        assert(trim(s)[0] == s[first]);
        assert(trim(s).last() == s[first + n - 1]);
    }
    if length > 0 {
        assert(first == start);
        assert(n == length);
    } else {
        assert(n == 0);
        assert(trim(s) =~= s.subrange(start, start + length));
    }
}

proof fn lemma_trim_end_keeps_visible_start(s: Seq<char>)
    requires
        s.len() > 0,
        !is_whitespace(s[0]),
    ensures
        trim_end(s).len() > 0,
    decreases s.len(),
{
    if is_whitespace(s.last()) {
        lemma_trim_end_keeps_visible_start(s.drop_last());
    }
}

/// A text that begins with no white space is not blank.
pub proof fn lemma_visible_start(s: Seq<char>)
    requires
        s.len() > 0,
        !is_whitespace(s[0]),
    ensures
        trim(s).len() > 0,
{
    lemma_trim_end_keeps_visible_start(s);
}

/// A space in front is trimmed away.
pub proof fn lemma_trim_space(s: Seq<char>)
    ensures
        trim(seq![' '] + s) == trim(s),
{
    assert((seq![' '] + s).drop_first() =~= s);
}

/// Text without the white space around it.
pub fn trimmed(text: &str) -> (r: String)
    ensures
        r@ == trim(text@),
{
    let chars = chars_of(text);
    let n: usize = chars.len();
    let mut from: usize = 0;
    assert(text@.skip(0) =~= text@);
    while from < n && char_is_whitespace(chars[from])
        invariant
            chars@ == text@,
            n == chars@.len(),
            from <= n,
            trim_start(text@) == trim_start(text@.skip(from as int)),
        decreases n - from,
    {
        assert(text@.skip(from as int).drop_first() =~= text@.skip(from + 1));
        from = from + 1;
    }
    let ghost rest = text@.skip(from as int);
    let mut to: usize = n;
    assert(rest.take(rest.len() as int) =~= rest);
    while to > from && char_is_whitespace(chars[to - 1])
        invariant
            chars@ == text@,
            n == chars@.len(),
            from <= to <= n,
            rest == text@.skip(from as int),
            trim_end(rest) == trim_end(rest.take(to - from)),
        decreases to - from,
    {
        assert(rest.take(to - from).drop_last() =~= rest.take(to - from - 1));
        to = to - 1;
    }
    assert(chars@.subrange(from as int, to as int) =~= rest.take(to - from));
    string_of(&chars, from, to)
}

/// Whether nothing but white space stands in a text.
pub fn is_blank(text: &str) -> (r: bool)
    ensures
        r == (trim(text@).len() == 0),
{
    trimmed(text).as_str().is_empty()
}

// ---------------------------------------------------------------------------
// Beginnings and ends.

/// Whether a text begins with another.
pub open spec fn begins(s: Seq<char>, p: Seq<char>) -> bool {
    p.len() <= s.len() && s.take(p.len() as int) == p
}

/// Whether a text ends with another.
pub open spec fn ends(s: Seq<char>, p: Seq<char>) -> bool {
    p.len() <= s.len() && s.skip(s.len() - p.len()) == p
}

/// Whether `p` stands in `s` at position `i`.
pub open spec fn stands_at(s: Seq<char>, p: Seq<char>, i: int) -> bool {
    0 <= i && i + p.len() <= s.len() && s.subrange(i, i + p.len()) == p
}

/// Whether `p` stands in the characters at position `i`.
pub fn found_at(chars: &Vec<char>, p: &Vec<char>, i: usize) -> (r: bool)
    requires
        i <= chars@.len(),
    ensures
        r == stands_at(chars@, p@, i as int),
{
    if p.len() > chars.len() - i {
        return false;
    }
    let n: usize = chars.len();
    let mut k: usize = 0;
    while k < p.len()
        invariant
            k <= p@.len(),
            n == chars@.len(),
            i + p@.len() <= n,
            forall|j: int| 0 <= j < k ==> chars@[i + j] == p@[j],
        decreases p@.len() - k,
    {
        if chars[i + k] != p[k] {
            assert(chars@.subrange(i as int, i + p@.len())[k as int] == chars@[i + k]);
            return false;
        }
        k = k + 1;
    }
    assert(chars@.subrange(i as int, i + p@.len()) =~= p@);
    true
}

/// Whether a text begins with another.
pub fn starts_with(text: &str, prefix: &str) -> (r: bool)
    ensures
        r == begins(text@, prefix@),
{
    let chars = chars_of(text);
    let p = chars_of(prefix);
    let r = found_at(&chars, &p, 0);
    assert(p@.len() <= chars@.len() ==> chars@.subrange(0, p@.len() as int) =~= chars@.take(
        p@.len() as int,
    ));
    r
}

/// Whether a text ends with another.
pub fn ends_with(text: &str, suffix: &str) -> (r: bool)
    ensures
        r == ends(text@, suffix@),
{
    let chars = chars_of(text);
    let p = chars_of(suffix);
    if p.len() > chars.len() {
        return false;
    }
    let at: usize = chars.len() - p.len();
    let r = found_at(&chars, &p, at);
    assert(chars@.subrange(at as int, at + p@.len()) =~= chars@.skip(chars@.len() - p@.len()));
    r
}

/// What follows a prefix, where the text begins with it.
pub open spec fn after_prefix(s: Seq<char>, p: Seq<char>) -> Option<Seq<char>> {
    if begins(s, p) {
        Some(s.skip(p.len() as int))
    } else {
        None
    }
}

/// What follows a prefix, where the text begins with it.
pub fn strip_prefix(text: &str, prefix: &str) -> (r: Option<String>)
    ensures
        opt_text(r) == after_prefix(text@, prefix@),
{
    let chars = chars_of(text);
    let p = chars_of(prefix);
    let found = found_at(&chars, &p, 0);
    assert(p@.len() <= chars@.len() ==> chars@.subrange(0, p@.len() as int) =~= chars@.take(
        p@.len() as int,
    ));
    if found {
        let rest = string_of(&chars, p.len(), chars.len());
        assert(chars@.subrange(p@.len() as int, chars@.len() as int) =~= chars@.skip(
            p@.len() as int,
        ));
        Some(rest)
    } else {
        None
    }
}

/// The last position at or before `i` where `p` stands in `s`, or -1.
pub open spec fn last_at(s: Seq<char>, p: Seq<char>, i: int) -> int
    decreases i + 1,
{
    if i < 0 {
        -1
    } else if stands_at(s, p, i) {
        i
    } else {
        last_at(s, p, i - 1)
    }
}

/// The last position where `p` stands in `s`, or -1.
pub open spec fn last_position(s: Seq<char>, p: Seq<char>) -> int {
    last_at(s, p, s.len() as int)
}

proof fn lemma_last_at(s: Seq<char>, p: Seq<char>, i: int)
    requires
        i >= -1,
    ensures
        -1 <= last_at(s, p, i) <= i,
        last_at(s, p, i) >= 0 ==> stands_at(s, p, last_at(s, p, i)),
        forall|j: int| last_at(s, p, i) < j <= i ==> !#[trigger] stands_at(s, p, j),
    decreases i + 1,
{
    if i >= 0 && !stands_at(s, p, i) {
        lemma_last_at(s, p, i - 1);
    }
}

/// The position of the last occurrence is one, and none comes after it. It is
/// negative where there is none.
pub proof fn lemma_last_position(s: Seq<char>, p: Seq<char>)
    ensures
        -1 <= last_position(s, p) <= s.len(),
        last_position(s, p) >= 0 ==> stands_at(s, p, last_position(s, p)),
        forall|j: int| j > last_position(s, p) ==> !#[trigger] stands_at(s, p, j),
{
    lemma_last_at(s, p, s.len() as int);
}

/// The last position where a pattern stands among the characters.
pub fn rfind(chars: &Vec<char>, p: &Vec<char>) -> (r: Option<usize>)
    ensures
        match r {
            Some(i) => i == last_position(chars@, p@) && i + p@.len() <= chars@.len(),
            None => last_position(chars@, p@) == -1,
        },
{
    let mut i: usize = chars.len();
    loop
        invariant
            i <= chars@.len(),
            last_position(chars@, p@) == last_at(chars@, p@, i as int),
        decreases i,
    {
        if found_at(chars, p, i) {
            return Some(i);
        }
        if i == 0 {
            assert(last_at(chars@, p@, -1) == -1);
            return None;
        }
        i = i - 1;
    }
}

/// Whether a character satisfies `is_control` anywhere in a text.
pub open spec fn has_control(s: Seq<char>) -> bool {
    exists|i: int| 0 <= i < s.len() && is_control(#[trigger] s[i])
}

/// Whether white space stands anywhere in a text.
pub open spec fn has_whitespace(s: Seq<char>) -> bool {
    exists|i: int| 0 <= i < s.len() && is_whitespace(#[trigger] s[i])
}

/// Whether a control character stands anywhere in a text.
pub fn contains_control(text: &str) -> (r: bool)
    ensures
        r == has_control(text@),
{
    let chars = chars_of(text);
    let mut i: usize = 0;
    while i < chars.len()
        invariant
            chars@ == text@,
            i <= chars@.len(),
            forall|k: int| 0 <= k < i ==> !is_control(#[trigger] text@[k]),
        decreases chars@.len() - i,
    {
        if char_is_control(chars[i]) {
            assert(is_control(text@[i as int]));
            return true;
        }
        i = i + 1;
    }
    false
}

/// Whether white space stands anywhere in a text.
pub fn contains_whitespace(text: &str) -> (r: bool)
    ensures
        r == has_whitespace(text@),
{
    let chars = chars_of(text);
    let mut i: usize = 0;
    while i < chars.len()
        invariant
            chars@ == text@,
            i <= chars@.len(),
            forall|k: int| 0 <= k < i ==> !is_whitespace(#[trigger] text@[k]),
        decreases chars@.len() - i,
    {
        if char_is_whitespace(chars[i]) {
            assert(is_whitespace(text@[i as int]));
            return true;
        }
        i = i + 1;
    }
    false
}

/// Text with its upper-case ASCII letters turned to lower case.
pub fn to_lower(text: &str) -> (r: String)
    ensures
        r@ == lower(text@),
{
    let chars = chars_of(text);
    let mut out = String::new();
    let mut i: usize = 0;
    while i < chars.len()
        invariant
            chars@ == text@,
            i <= chars@.len(),
            out@ == lower(text@).take(i as int),
        decreases chars@.len() - i,
    {
        out.push(char_to_lower(chars[i]));
        assert(lower(text@).take(i + 1) =~= lower(text@).take(i as int).push(
            lower_char(text@[i as int]),
        ));
        i = i + 1;
    }
    assert(lower(text@).take(text@.len() as int) =~= lower(text@));
    out
}

// ---------------------------------------------------------------------------
// Words and lines.

/// A truth value in words.
pub open spec fn truth(value: bool) -> Seq<char> {
    if value {
        "true"@
    } else {
        "false"@
    }
}

/// A truth value in words.
pub fn truth_text(value: bool) -> (r: &'static str)
    ensures
        r@ == truth(value),
{
    if value {
        "true"
    } else {
        "false"
    }
}

/// Whether a text holds no line break.
pub open spec fn is_one_line(s: Seq<char>) -> bool {
    forall|i: int| 0 <= i < s.len() ==> #[trigger] s[i] != '\n'
}

// ---------------------------------------------------------------------------
// Laws.

/// Of ASCII, the space, the tab and the line breaks are white space, and every
/// character below the space, and the last, is a control character. What is
/// printed is neither, but for the space.
pub proof fn printed_characters_are_visible(c: char)
    ensures
        '!' <= c <= '~' ==> !is_whitespace(c) && !is_control(c),
        is_whitespace(' ') && is_whitespace('\t') && is_whitespace('\n') && is_whitespace('\r'),
        !is_control(' '),
        c < ' ' ==> is_control(c),
        '\u{7f}' <= c < '\u{a0}' ==> is_control(c),
        c >= '\u{a0}' ==> !is_control(c),
        is_ascii_whitespace(c) ==> is_whitespace(c),
        is_ascii_alphanumeric(c) ==> '!' <= c <= '~',
{
}

/// Texts in lower case stay as they are, and only the letters of ASCII are ever
/// changed.
pub proof fn lower_case_is_kept(s: Seq<char>)
    ensures
        lower(s).len() == s.len(),
        lower(lower(s)) == lower(s),
        forall|i: int|
            0 <= i < s.len() ==> !('A' <= #[trigger] lower(s)[i] <= 'Z') && (is_whitespace(
                lower(s)[i],
            ) == is_whitespace(s[i])),
        forall|i: int| 0 <= i < s.len() && !('A' <= s[i] <= 'Z') ==> #[trigger] lower(s)[i] == s[i],
        forall|i: int|
            0 <= i < s.len() && 'A' <= s[i] <= 'Z' ==> #[trigger] lower(s)[i] as int == s[i] as int
                + 32,
{
    assert(lower(lower(s)) =~= lower(s));
}

/// A text begins with another exactly where it is that text with anything behind
/// it, and ends with another exactly where it is that text with anything in front.
/// What is behind a beginning is all the rest.
pub proof fn texts_begin_and_end_with_their_parts(s: Seq<char>, p: Seq<char>, rest: Seq<char>)
    ensures
        begins(p + rest, p),
        ends(rest + p, p),
        after_prefix(p + rest, p) == Some(rest),
        stands_at(rest + p + s, p, rest.len() as int),
        begins(s, p) ==> s == p + s.skip(p.len() as int),
        ends(s, p) ==> s == s.take(s.len() - p.len()) + p,
        s.len() < p.len() ==> !begins(s, p) && !ends(s, p),
        after_prefix(s, p) is Some <==> begins(s, p),
{
    assert((p + rest).take(p.len() as int) =~= p);
    assert((p + rest).skip(p.len() as int) =~= rest);
    assert((rest + p).skip((rest + p).len() - p.len()) =~= p);
    assert((rest + p + s).subrange(rest.len() as int, (rest.len() + p.len()) as int) =~= p);
    if begins(s, p) {
        assert(s =~= p + s.skip(p.len() as int));
    }
    if ends(s, p) {
        assert(s =~= s.take(s.len() - p.len()) + p);
    }
}

/// A text has white space, or a control character, exactly where one of its
/// characters is one.
pub proof fn one_character_is_enough(s: Seq<char>, i: int)
    requires
        0 <= i < s.len(),
    ensures
        is_whitespace(s[i]) ==> has_whitespace(s),
        is_control(s[i]) ==> has_control(s),
        has_whitespace(s) ==> exists|k: int| 0 <= k < s.len() && is_whitespace(#[trigger] s[k]),
        has_control(s) ==> exists|k: int| 0 <= k < s.len() && is_control(#[trigger] s[k]),
        !has_whitespace(Seq::<char>::empty()) && !has_control(Seq::<char>::empty()),
{
}

/// Letters and digits of ASCII are what they are called, and truth is written in
/// words.
pub proof fn letters_and_digits_are_alphanumeric(c: char)
    ensures
        'a' <= c <= 'z' || 'A' <= c <= 'Z' || '0' <= c <= '9' <==> is_ascii_alphanumeric(c),
        is_ascii_char(c) <==> c < '\u{80}',
        truth(true) == "true"@,
        truth(false) == "false"@,
{
}

} // verus!
