//! Which hosts are the computer itself.
use vstd::prelude::*;

use crate::number::{decimal, decimals_stand_for_their_number, digit, digits};
use crate::pieces::{first_position, lemma_first_position, position_from};
use crate::text::{chars_of, lower, text_eq, to_lower};

verus! {

// ---------------------------------------------------------------------------
// Fields.

/// The pieces of a text between the occurrences of a character.
pub open spec fn fields(s: Seq<char>, c: char) -> Seq<Seq<char>>
    decreases s.len(),
{
    let i = first_position(s, c);
    if 0 <= i < s.len() {
        seq![s.take(i)] + fields(s.skip(i + 1), c)
    } else {
        seq![s]
    }
}

/// The characters of each list.
pub open spec fn char_lists(v: Seq<Vec<char>>) -> Seq<Seq<char>> {
    Seq::new(v.len(), |i: int| v[i]@)
}

/// The characters from `from` up to `to`.
fn slice_of(chars: &Vec<char>, from: usize, to: usize) -> (r: Vec<char>)
    requires
        from <= to <= chars@.len(),
    ensures
        r@ == chars@.subrange(from as int, to as int),
{
    let mut out: Vec<char> = Vec::new();
    let mut i: usize = from;
    while i < to
        invariant
            from <= i <= to <= chars@.len(),
            out@ == chars@.subrange(from as int, i as int),
        decreases to - i,
    {
        out.push(chars[i]);
        assert(chars@.subrange(from as int, i + 1) =~= chars@.subrange(from as int, i as int).push(
            chars@[i as int],
        ));
        i = i + 1;
    }
    out
}

/// The pieces of a text between the occurrences of a character.
fn fields_of(chars: &Vec<char>, c: char) -> (r: Vec<Vec<char>>)
    ensures
        char_lists(r@) == fields(chars@, c),
{
    let n: usize = chars.len();
    let mut out: Vec<Vec<char>> = Vec::new();
    let mut start: usize = 0;
    assert(chars@.skip(0) =~= chars@);
    assert(char_lists(out@) + fields(chars@, c) =~= fields(chars@, c));
    loop
        invariant
            n == chars@.len(),
            start <= n,
            fields(chars@, c) == char_lists(out@) + fields(chars@.skip(start as int), c),
        decreases n - start,
    {
        let ghost rest = chars@.skip(start as int);
        let ghost before = out@;
        let end = position_from(chars, c, start);
        let field = slice_of(chars, start, end);
        out.push(field);
        proof {
            assert(char_lists(out@) =~= char_lists(before).push(field@));
            assert(field@ =~= rest.take(end - start));
        }
        if end == n {
            assert(field@ =~= rest);
            assert(char_lists(before) + seq![rest] =~= char_lists(out@));
            return out;
        }
        proof {
            assert(rest.skip(end - start + 1) =~= chars@.skip(end + 1));
            let tail = fields(chars@.skip(end + 1), c);
            assert(char_lists(before) + (seq![field@] + tail) =~= char_lists(out@) + tail);
        }
        start = end + 1;
    }
}

// ---------------------------------------------------------------------------
// Numbers.

/// Whether a character is a decimal digit.
pub open spec fn is_digit(c: char) -> bool {
    '0' <= c <= '9'
}

/// The value of a decimal digit.
pub open spec fn digit_value(c: char) -> int {
    c as int - '0' as int
}

/// The value of a hexadecimal digit.
pub open spec fn hex_value(c: char) -> Option<int> {
    if '0' <= c <= '9' {
        Some(c as int - '0' as int)
    } else if 'a' <= c <= 'f' {
        Some(c as int - 'a' as int + 10)
    } else if 'A' <= c <= 'F' {
        Some(c as int - 'A' as int + 10)
    } else {
        None
    }
}

/// The value of up to three decimal digits.
pub open spec fn short_decimal(s: Seq<char>) -> int {
    if s.len() == 1 {
        digit_value(s[0])
    } else if s.len() == 2 {
        digit_value(s[0]) * 10 + digit_value(s[1])
    } else {
        digit_value(s[0]) * 100 + digit_value(s[1]) * 10 + digit_value(s[2])
    }
}

/// The number from 0 to 255 that a text writes without leading zeros.
pub open spec fn octet(s: Seq<char>) -> Option<int> {
    if 1 <= s.len() <= 3 && (forall|i: int| 0 <= i < s.len() ==> is_digit(#[trigger] s[i])) && (
    s.len() > 1 ==> s[0] != '0') && short_decimal(s) <= 255 {
        Some(short_decimal(s))
    } else {
        None
    }
}

/// The number that a text writes in one to four hexadecimal digits.
pub open spec fn group(s: Seq<char>) -> Option<int>
    decreases s.len(),
{
    if s.len() == 0 || s.len() > 4 {
        None
    } else if s.len() == 1 {
        hex_value(s[0])
    } else {
        match (group(s.drop_last()), hex_value(s.last())) {
            (Some(front), Some(digit)) => Some(front * 16 + digit),
            _ => None,
        }
    }
}

fn digit_of(c: char) -> (r: Option<u16>)
    ensures
        match r {
            Some(d) => is_digit(c) && d == digit_value(c),
            None => !is_digit(c),
        },
        r matches Some(d) ==> d <= 9,
{
    if '0' <= c && c <= '9' {
        Some((c as u32 - '0' as u32) as u16)
    } else {
        None
    }
}

fn hex_of(c: char) -> (r: Option<u16>)
    ensures
        match r {
            Some(d) => hex_value(c) == Some(d as int),
            None => hex_value(c) is None,
        },
        r matches Some(d) ==> d <= 15,
{
    if '0' <= c && c <= '9' {
        Some((c as u32 - '0' as u32) as u16)
    } else if 'a' <= c && c <= 'f' {
        Some((c as u32 - 'a' as u32 + 10) as u16)
    } else if 'A' <= c && c <= 'F' {
        Some((c as u32 - 'A' as u32 + 10) as u16)
    } else {
        None
    }
}

/// The number from 0 to 255 that a text writes without leading zeros.
fn read_octet(s: &Vec<char>) -> (r: Option<u16>)
    ensures
        match r {
            Some(n) => octet(s@) == Some(n as int) && n <= 255,
            None => octet(s@) is None,
        },
{
    let n: usize = s.len();
    if n < 1 || n > 3 || (n > 1 && s[0] == '0') {
        return None;
    }
    let mut value: u16 = 0;
    let mut i: usize = 0;
    while i < n
        invariant
            n == s@.len(),
            1 <= n <= 3,
            i <= n,
            forall|k: int| 0 <= k < i ==> is_digit(#[trigger] s@[k]),
            i == 0 ==> value == 0,
            i > 0 ==> value == short_decimal(s@.take(i as int)),
            i == 1 ==> value <= 9,
            i == 2 ==> value <= 99,
            i == 3 ==> value <= 999,
        decreases n - i,
    {
        match digit_of(s[i]) {
            Some(d) => {
                value = value * 10 + d;
            },
            None => {
                assert(!is_digit(s@[i as int]));
                return None;
            },
        }
        i = i + 1;
    }
    assert(s@.take(n as int) =~= s@);
    if value <= 255 {
        Some(value)
    } else {
        None
    }
}

proof fn lemma_long_groups_fail(s: Seq<char>, i: int)
    requires
        1 <= i <= s.len(),
        group(s.take(i)) is None,
    ensures
        group(s) is None,
    decreases s.len() - i,
{
    if i < s.len() {
        assert(s.take(i + 1).drop_last() =~= s.take(i));
        lemma_long_groups_fail(s, i + 1);
    } else {
        assert(s.take(i) =~= s);
    }
}

/// The number that a text writes in one to four hexadecimal digits.
fn read_group(s: &Vec<char>) -> (r: Option<u16>)
    ensures
        match r {
            Some(n) => group(s@) == Some(n as int),
            None => group(s@) is None,
        },
{
    let n: usize = s.len();
    if n == 0 || n > 4 {
        return None;
    }
    let mut value: u32 = 0;
    let mut i: usize = 0;
    while i < n
        invariant
            n == s@.len(),
            1 <= n <= 4,
            i <= n,
            i == 0 ==> value == 0,
            i > 0 ==> group(s@.take(i as int)) == Some(value as int),
            i == 1 ==> value <= 0xf,
            i == 2 ==> value <= 0xff,
            i == 3 ==> value <= 0xfff,
            i == 4 ==> value <= 0xffff,
        decreases n - i,
    {
        let ghost part = s@.take(i + 1);
        assert(part.drop_last() =~= s@.take(i as int));
        assert(part.last() == s@[i as int]);
        match hex_of(s[i]) {
            Some(d) => {
                value = value * 16 + d as u32;
            },
            None => {
                proof {
                    lemma_long_groups_fail(s@, i + 1);
                }
                return None;
            },
        }
        i = i + 1;
    }
    assert(s@.take(n as int) =~= s@);
    Some(value as u16)
}

// ---------------------------------------------------------------------------
// Addresses.

/// The four numbers of an IPv4 address in dotted notation.
pub open spec fn ipv4(s: Seq<char>) -> Option<Seq<int>> {
    let parts = fields(s, '.');
    if parts.len() == 4 {
        match (octet(parts[0]), octet(parts[1]), octet(parts[2]), octet(parts[3])) {
            (Some(a), Some(b), Some(c), Some(d)) => Some(seq![a, b, c, d]),
            _ => None,
        }
    } else {
        None
    }
}

/// The numbers of groups.
pub open spec fn group_values(parts: Seq<Seq<char>>) -> Option<Seq<int>>
    decreases parts.len(),
{
    if parts.len() == 0 {
        Some(seq![])
    } else {
        match (group_values(parts.drop_last()), group(parts.last())) {
            (Some(front), Some(value)) => Some(front.push(value)),
            _ => None,
        }
    }
}

/// The numbers of groups with colons between them. The last two may be written
/// as an IPv4 address where that is allowed.
pub open spec fn side(s: Seq<char>, dotted: bool) -> Option<Seq<int>> {
    let parts = fields(s, ':');
    if s.len() == 0 {
        Some(seq![])
    } else if group_values(parts) is Some {
        group_values(parts)
    } else if dotted {
        match (group_values(parts.drop_last()), ipv4(parts.last())) {
            (Some(front), Some(v)) => Some(front.push(v[0] * 256 + v[1]).push(v[2] * 256 + v[3])),
            _ => None,
        }
    } else {
        None
    }
}

/// The position of the first two colons in a row, or the length.
pub open spec fn double_colon(s: Seq<char>) -> int
    decreases s.len(),
{
    if s.len() == 0 || (s.len() >= 2 && s[0] == ':' && s[1] == ':') {
        0
    } else {
        1 + double_colon(s.drop_first())
    }
}

/// The eight numbers of an IPv6 address. Two colons in a row stand for at least
/// one zero.
pub open spec fn ipv6(s: Seq<char>) -> Option<Seq<int>> {
    let i = double_colon(s);
    if i >= s.len() {
        match side(s, true) {
            Some(values) => if values.len() == 8 {
                Some(values)
            } else {
                None
            },
            None => None,
        }
    } else {
        match (side(s.take(i), false), side(s.skip(i + 2), true)) {
            (Some(head), Some(tail)) => if head.len() + tail.len() <= 7 {
                Some(head + Seq::new((8 - head.len() - tail.len()) as nat, |k: int| 0int) + tail)
            } else {
                None
            },
            _ => None,
        }
    }
}

/// Whether a text is a loopback address: IPv4 in 127.0.0.0/8, or the IPv6
/// address ::1.
pub open spec fn is_loopback_address(s: Seq<char>) -> bool {
    ||| ipv4(s) matches Some(v) && v[0] == 127
    ||| ipv6(s) == Some(seq![0int, 0, 0, 0, 0, 0, 0, 1])
}

/// Text without the brackets in front.
pub open spec fn without_leading_brackets(s: Seq<char>) -> Seq<char>
    decreases s.len(),
{
    if s.len() > 0 && (s[0] == '[' || s[0] == ']') {
        without_leading_brackets(s.drop_first())
    } else {
        s
    }
}

/// Text without the brackets at the end.
pub open spec fn without_trailing_brackets(s: Seq<char>) -> Seq<char>
    decreases s.len(),
{
    if s.len() > 0 && (s.last() == '[' || s.last() == ']') {
        without_trailing_brackets(s.drop_last())
    } else {
        s
    }
}

/// Text without the brackets around it.
pub open spec fn without_brackets(s: Seq<char>) -> Seq<char> {
    without_trailing_brackets(without_leading_brackets(s))
}

/// Whether a host is the computer itself.
pub open spec fn is_loopback(host: Seq<char>) -> bool {
    lower(host) == "localhost"@ || is_loopback_address(without_brackets(host))
}

/// The numbers of a list.
pub open spec fn values_of(v: Seq<u16>) -> Seq<int> {
    Seq::new(v.len(), |i: int| v[i] as int)
}

/// The four numbers of an IPv4 address in dotted notation.
fn read_ipv4(s: &Vec<char>) -> (r: Option<Vec<u16>>)
    ensures
        match r {
            Some(v) => ipv4(s@) == Some(values_of(v@)) && v@.len() == 4 && v@[0] <= 255 && v@[1]
                <= 255 && v@[2] <= 255 && v@[3] <= 255,
            None => ipv4(s@) is None,
        },
{
    let parts = fields_of(s, '.');
    let ghost given = fields(s@, '.');
    assert(given.len() == parts@.len());
    if parts.len() != 4 {
        return None;
    }
    assert(given[0] == parts@[0]@ && given[1] == parts@[1]@ && given[2] == parts@[2]@ && given[3]
        == parts@[3]@);
    match (
        read_octet(&parts[0]),
        read_octet(&parts[1]),
        read_octet(&parts[2]),
        read_octet(&parts[3]),
    ) {
        (Some(a), Some(b), Some(c), Some(d)) => {
            let mut v: Vec<u16> = Vec::new();
            v.push(a);
            v.push(b);
            v.push(c);
            v.push(d);
            assert(values_of(v@) =~= seq![a as int, b as int, c as int, d as int]);
            Some(v)
        },
        _ => None,
    }
}

proof fn lemma_group_values_fail(parts: Seq<Seq<char>>, i: int)
    requires
        0 <= i <= parts.len(),
        group_values(parts.take(i)) is None,
    ensures
        group_values(parts) is None,
    decreases parts.len() - i,
{
    if i < parts.len() {
        assert(parts.take(i + 1).drop_last() =~= parts.take(i));
        lemma_group_values_fail(parts, i + 1);
    } else {
        assert(parts.take(i) =~= parts);
    }
}

/// The numbers of the first `n` groups.
fn read_groups(parts: &Vec<Vec<char>>, n: usize) -> (r: Option<Vec<u16>>)
    requires
        n <= parts@.len(),
    ensures
        match r {
            Some(v) => group_values(char_lists(parts@).take(n as int)) == Some(values_of(v@)),
            None => group_values(char_lists(parts@).take(n as int)) is None,
        },
{
    let ghost all = char_lists(parts@).take(n as int);
    let mut v: Vec<u16> = Vec::new();
    let mut i: usize = 0;
    assert(values_of(v@) =~= seq![]);
    assert(all.take(0) =~= seq![]);
    while i < n
        invariant
            n <= parts@.len(),
            all == char_lists(parts@).take(n as int),
            i <= n,
            group_values(all.take(i as int)) == Some(values_of(v@)),
        decreases n - i,
    {
        assert(all.take(i + 1).drop_last() =~= all.take(i as int));
        assert(all.take(i + 1).last() == parts@[i as int]@);
        match read_group(&parts[i]) {
            Some(value) => {
                let ghost before = v@;
                v.push(value);
                assert(values_of(v@) =~= values_of(before).push(value as int));
            },
            None => {
                proof {
                    lemma_group_values_fail(all, i + 1);
                }
                return None;
            },
        }
        i = i + 1;
    }
    assert(all.take(n as int) =~= all);
    Some(v)
}

proof fn lemma_fields_are_not_empty(s: Seq<char>, c: char)
    ensures
        fields(s, c).len() > 0,
{
}

/// The numbers of groups with colons between them.
fn read_side(s: &Vec<char>, dotted: bool) -> (r: Option<Vec<u16>>)
    ensures
        match r {
            Some(v) => side(s@, dotted) == Some(values_of(v@)),
            None => side(s@, dotted) is None,
        },
{
    if s.len() == 0 {
        let v: Vec<u16> = Vec::new();
        assert(values_of(v@) =~= seq![]);
        return Some(v);
    }
    let parts = fields_of(s, ':');
    let ghost given = fields(s@, ':');
    proof {
        lemma_fields_are_not_empty(s@, ':');
        assert(given.len() == parts@.len());
        assert(given.take(given.len() as int) =~= given);
        assert(given.take(given.len() - 1) =~= given.drop_last());
        assert(given.last() == parts@[parts@.len() - 1]@);
    }
    let n: usize = parts.len();
    match read_groups(&parts, n) {
        Some(v) => {
            return Some(v);
        },
        None => {},
    }
    if !dotted {
        return None;
    }
    match (read_groups(&parts, n - 1), read_ipv4(&parts[n - 1])) {
        (Some(front), Some(octets)) => {
            let mut v = front;
            let first: u16 = octets[0] * 256 + octets[1];
            let second: u16 = octets[2] * 256 + octets[3];
            v.push(first);
            v.push(second);
            assert(values_of(v@) =~= values_of(front@).push(first as int).push(second as int));
            Some(v)
        },
        _ => None,
    }
}

proof fn lemma_double_colon(s: Seq<char>)
    ensures
        0 <= double_colon(s) <= s.len(),
        double_colon(s) < s.len() ==> double_colon(s) + 2 <= s.len(),
    decreases s.len(),
{
    if s.len() == 0 || (s.len() >= 2 && s[0] == ':' && s[1] == ':') {
    } else {
        lemma_double_colon(s.drop_first());
    }
}

/// The position of the first two colons in a row, or the length.
fn find_double_colon(s: &Vec<char>) -> (r: usize)
    ensures
        r == double_colon(s@),
{
    let n: usize = s.len();
    let mut i: usize = 0;
    assert(s@.skip(0) =~= s@);
    while i < n
        invariant
            n == s@.len(),
            i <= n,
            double_colon(s@) == i + double_colon(s@.skip(i as int)),
        decreases n - i,
    {
        let ghost rest = s@.skip(i as int);
        if n - i >= 2 && s[i] == ':' && s[i + 1] == ':' {
            assert(rest[0] == ':' && rest[1] == ':');
            return i;
        }
        assert(rest.drop_first() =~= s@.skip(i + 1));
        i = i + 1;
    }
    i
}

/// Whether numbers are those of the IPv6 loopback address, once zeros are filled
/// in between the head and the tail.
fn fills_to_loopback(head: &Vec<u16>, tail: &Vec<u16>) -> (r: bool)
    requires
        head@.len() + tail@.len() <= 7,
    ensures
        r == (values_of(head@) + Seq::new(
            (8 - head@.len() - tail@.len()) as nat,
            |k: int| 0int,
        ) + values_of(tail@) == seq![0int, 0, 0, 0, 0, 0, 0, 1]),
{
    let ghost zeros = Seq::new((8 - head@.len() - tail@.len()) as nat, |k: int| 0int);
    let ghost whole = values_of(head@) + zeros + values_of(tail@);
    let ghost wanted = seq![0int, 0, 0, 0, 0, 0, 0, 1];
    let mut i: usize = 0;
    while i < head.len()
        invariant
            i <= head@.len(),
            head@.len() + tail@.len() <= 7,
            zeros == Seq::new((8 - head@.len() - tail@.len()) as nat, |k: int| 0int),
            whole == values_of(head@) + zeros + values_of(tail@),
            wanted == seq![0int, 0, 0, 0, 0, 0, 0, 1],
            forall|k: int| 0 <= k < i ==> head@[k] == 0,
        decreases head@.len() - i,
    {
        if head[i] != 0 {
            assert(whole[i as int] != wanted[i as int]);
            return false;
        }
        i = i + 1;
    }
    let n: usize = tail.len();
    if n == 0 {
        assert(whole[7] == 0);
        assert(wanted[7] == 1);
        return false;
    }
    let mut k: usize = 0;
    let ghost shift = 8 - n;
    while k < n
        invariant
            k <= n,
            n == tail@.len(),
            1 <= n <= 7,
            shift == 8 - n,
            head@.len() + tail@.len() <= 7,
            zeros == Seq::new((8 - head@.len() - tail@.len()) as nat, |k: int| 0int),
            whole == values_of(head@) + zeros + values_of(tail@),
            wanted == seq![0int, 0, 0, 0, 0, 0, 0, 1],
            forall|j: int| 0 <= j < k && j < n - 1 ==> tail@[j] == 0,
            k == n ==> tail@[n - 1] == 1,
        decreases n - k,
    {
        assert(whole[shift + k] == tail@[k as int]);
        if k + 1 < n {
            if tail[k] != 0 {
                assert(wanted[shift + k] == 0);
                return false;
            }
        } else {
            if tail[k] != 1 {
                assert(wanted[7] == 1);
                return false;
            }
        }
        k = k + 1;
    }
    assert(whole =~= wanted);
    true
}

/// Whether a text is the IPv6 loopback address.
fn is_ipv6_loopback(s: &Vec<char>) -> (r: bool)
    ensures
        r == (ipv6(s@) == Some(seq![0int, 0, 0, 0, 0, 0, 0, 1])),
{
    proof {
        lemma_double_colon(s@);
    }
    let i = find_double_colon(s);
    let n: usize = s.len();
    if i >= n {
        match read_side(s, true) {
            Some(values) => {
                if values.len() != 8 {
                    return false;
                }
                let last: u16 = values[7];
                let r = values[0] == 0 && values[1] == 0 && values[2] == 0 && values[3] == 0
                    && values[4] == 0 && values[5] == 0 && values[6] == 0 && last == 1;
                let ghost whole = values_of(values@);
                let ghost wanted = seq![0int, 0, 0, 0, 0, 0, 0, 1];
                proof {
                    if r {
                        assert(whole =~= wanted);
                    } else if whole == wanted {
                        assert(whole[0] == wanted[0] && whole[1] == wanted[1] && whole[2]
                            == wanted[2] && whole[3] == wanted[3] && whole[4] == wanted[4]
                            && whole[5] == wanted[5] && whole[6] == wanted[6] && whole[7]
                            == wanted[7]);
                    }
                }
                r
            },
            None => false,
        }
    } else {
        let front = slice_of(s, 0, i);
        let back = slice_of(s, i + 2, n);
        assert(front@ =~= s@.take(i as int));
        assert(back@ =~= s@.skip(i + 2));
        match (read_side(&front, false), read_side(&back, true)) {
            (Some(head), Some(tail)) => {
                if head.len() > 7 || tail.len() > 7 - head.len() {
                    return false;
                }
                fills_to_loopback(&head, &tail)
            },
            _ => false,
        }
    }
}

/// Text without the brackets around it.
fn strip_brackets(host: &str) -> (r: Vec<char>)
    ensures
        r@ == without_brackets(host@),
{
    let chars = chars_of(host);
    let n: usize = chars.len();
    let mut from: usize = 0;
    assert(host@.skip(0) =~= host@);
    while from < n && (chars[from] == '[' || chars[from] == ']')
        invariant
            chars@ == host@,
            n == chars@.len(),
            from <= n,
            without_leading_brackets(host@) == without_leading_brackets(host@.skip(from as int)),
        decreases n - from,
    {
        assert(host@.skip(from as int).drop_first() =~= host@.skip(from + 1));
        from = from + 1;
    }
    let ghost rest = host@.skip(from as int);
    let mut to: usize = n;
    assert(rest.take(rest.len() as int) =~= rest);
    while to > from && (chars[to - 1] == '[' || chars[to - 1] == ']')
        invariant
            chars@ == host@,
            n == chars@.len(),
            from <= to <= n,
            rest == host@.skip(from as int),
            without_trailing_brackets(rest) == without_trailing_brackets(rest.take(to - from)),
        decreases to - from,
    {
        assert(rest.take(to - from).drop_last() =~= rest.take(to - from - 1));
        to = to - 1;
    }
    assert(chars@.subrange(from as int, to as int) =~= rest.take(to - from));
    slice_of(&chars, from, to)
}

/// Whether a host is the computer itself.
pub fn is_loopback_host(host: &str) -> (r: bool)
    ensures
        r == is_loopback(host@),
{
    if text_eq(to_lower(host).as_str(), "localhost") {
        return true;
    }
    let address = strip_brackets(host);
    match read_ipv4(&address) {
        Some(v) => {
            if v[0] == 127 {
                return true;
            }
        },
        None => {},
    }
    is_ipv6_loopback(&address)
}

// ---------------------------------------------------------------------------
// Laws.

/// Four numbers with dots between them.
pub open spec fn dotted(a: nat, b: nat, c: nat, d: nat) -> Seq<char> {
    decimal(a) + "."@ + decimal(b) + "."@ + decimal(c) + "."@ + decimal(d)
}

proof fn lemma_octet(n: nat)
    requires
        n <= 255,
    ensures
        octet(decimal(n)) == Some(n as int),
        1 <= decimal(n).len() <= 3,
        forall|i: int| 0 <= i < decimal(n).len() ==> is_digit(#[trigger] decimal(n)[i]),
{
    reveal_with_fuel(digits, 3);
    decimals_stand_for_their_number(n);
    let s = decimal(n);
    if n < 10 {
        assert(s =~= seq![digit(n as int)]);
    } else if n < 100 {
        assert(digits(n / 10, 10) =~= seq![digit((n / 10) as int)]);
        assert(s =~= seq![digit((n / 10) as int), digit((n % 10) as int)]);
    } else {
        assert(digits(n / 10 / 10, 10) =~= seq![digit((n / 10 / 10) as int)]);
        assert(s =~= seq![
            digit((n / 10 / 10) as int),
            digit((n / 10 % 10) as int),
            digit((n % 10) as int),
        ]);
    }
    assert forall|i: int| 0 <= i < s.len() implies is_digit(#[trigger] s[i]) by {
        assert('0' <= s[i] <= '9');
    }
}

/// A field is what is in front of its separator.
proof fn lemma_first_field(front: Seq<char>, c: char, rest: Seq<char>)
    requires
        forall|i: int| 0 <= i < front.len() ==> #[trigger] front[i] != c,
    ensures
        fields(front + seq![c] + rest, c) == seq![front] + fields(rest, c),
        fields(front, c) == seq![front],
{
    let s = front + seq![c] + rest;
    lemma_first_position(s, c);
    assert(s[front.len() as int] == c);
    assert forall|k: int| 0 <= k < front.len() implies s[k] != c by {
        assert(s[k] == front[k]);
    }
    assert(first_position(s, c) == front.len());
    assert(s.take(front.len() as int) =~= front);
    assert(s.skip(front.len() as int + 1) =~= rest);
    lemma_first_position(front, c);
}

proof fn lemma_dotted(a: nat, b: nat, c: nat, d: nat)
    requires
        a <= 255,
        b <= 255,
        c <= 255,
        d <= 255,
    ensures
        ipv4(dotted(a, b, c, d)) == Some(seq![a as int, b as int, c as int, d as int]),
        dotted(a, b, c, d).len() > 0,
        forall|i: int|
            0 <= i < dotted(a, b, c, d).len() ==> is_digit(#[trigger] dotted(a, b, c, d)[i])
                || dotted(a, b, c, d)[i] == '.',
        is_digit(dotted(a, b, c, d)[0]),
{
    reveal_strlit(".");
    assert("."@ =~= seq!['.']);
    lemma_octet(a);
    lemma_octet(b);
    lemma_octet(c);
    lemma_octet(d);
    let s = dotted(a, b, c, d);
    let last = decimal(d);
    let third = decimal(c) + seq!['.'] + last;
    let second = decimal(b) + seq!['.'] + third;
    assert(s =~= decimal(a) + seq!['.'] + second);
    lemma_first_field(decimal(a), '.', second);
    lemma_first_field(decimal(b), '.', third);
    lemma_first_field(decimal(c), '.', last);
    lemma_first_field(last, '.', seq![]);
    assert(fields(s, '.') =~= seq![decimal(a), decimal(b), decimal(c), decimal(d)]);
    assert forall|i: int| 0 <= i < s.len() implies is_digit(#[trigger] s[i]) || s[i] == '.' by {
        let la = decimal(a).len() as int;
        let lb = la + 1 + decimal(b).len();
        let lc = lb + 1 + decimal(c).len();
        if i < la {
            assert(s[i] == decimal(a)[i]);
        } else if la < i < lb {
            assert(s[i] == decimal(b)[i - la - 1]);
        } else if lb < i < lc {
            assert(s[i] == decimal(c)[i - lb - 1]);
        } else if i > lc {
            assert(s[i] == decimal(d)[i - lc - 1]);
        }
    }
    assert(s[0] == decimal(a)[0]);
}

proof fn lemma_no_colons(s: Seq<char>)
    requires
        forall|i: int| 0 <= i < s.len() ==> #[trigger] s[i] != ':',
    ensures
        double_colon(s) == s.len(),
        fields(s, ':') == seq![s],
    decreases s.len(),
{
    if s.len() > 0 {
        lemma_no_colons(s.drop_first());
    }
    lemma_first_field(s, ':', seq![]);
}

/// An IPv4 address is the computer itself exactly where its first number is 127,
/// whatever the other three are.
pub proof fn addresses_of_the_first_network_are_loopback(a: nat, b: nat, c: nat, d: nat)
    requires
        a <= 255,
        b <= 255,
        c <= 255,
        d <= 255,
    ensures
        is_loopback(dotted(a, b, c, d)) <==> a == 127,
{
    let s = dotted(a, b, c, d);
    lemma_dotted(a, b, c, d);
    assert(without_brackets(s) == s) by {
        assert(is_digit(s.last()) || s.last() == '.');
    }
    reveal_strlit("localhost");
    assert(lower(s)[0] == crate::text::lower_char(s[0]));
    assert(lower(s) != "localhost"@);
    assert forall|i: int| 0 <= i < s.len() implies #[trigger] s[i] != ':' by {
        assert(is_digit(s[i]) || s[i] == '.');
    }
    lemma_no_colons(s);
    let parts = fields(s, ':');
    assert(parts.drop_last() =~= seq![]);
    assert(group_values(parts.drop_last()) == Some(Seq::<int>::empty()));
    assert(side(s, true) is Some ==> side(s, true)->0.len() <= 2);
}

/// A host that is named is the computer itself exactly where its name is
/// `localhost`, in letters of either case. Any other name, which begins with a
/// letter that no address holds, leads elsewhere.
pub proof fn only_one_name_is_loopback(host: Seq<char>)
    requires
        host.len() > 0,
        'g' <= host[0] <= 'z' || 'G' <= host[0] <= 'Z',
    ensures
        is_loopback(host) <==> lower(host) == "localhost"@,
{
    let s = without_brackets(host);
    assert(without_leading_brackets(host) == host);
    lemma_trailing_brackets(host);
    assert(s.len() > 0 && s[0] == host[0]);
    // It is no IPv4 address.
    lemma_fields_begin(s, '.');
    let first = fields(s, '.')[0];
    assert(!is_digit(first[0]));
    assert(ipv4(s) is None);
    // It is no IPv6 address.
    let i = double_colon(s);
    lemma_double_colon(s);
    lemma_double_colon(s.drop_first());
    assert(i > 0);
    if i >= s.len() {
        lemma_no_side(s);
    } else {
        let head = s.take(i);
        assert(head[0] == s[0]);
        lemma_no_side(head);
    }
    assert(ipv6(s) is None);
}

proof fn lemma_trailing_brackets(s: Seq<char>)
    requires
        s.len() > 0,
        s[0] != '[' && s[0] != ']',
    ensures
        without_trailing_brackets(s).len() > 0,
        without_trailing_brackets(s)[0] == s[0],
    decreases s.len(),
{
    if s.last() == '[' || s.last() == ']' {
        lemma_trailing_brackets(s.drop_last());
    }
}

proof fn lemma_fields_begin(s: Seq<char>, c: char)
    requires
        s.len() > 0,
        s[0] != c,
    ensures
        fields(s, c).len() > 0,
        fields(s, c)[0].len() > 0,
        fields(s, c)[0][0] == s[0],
        fields(s, c).len() == 1 ==> fields(s, c)[0] == s,
{
    lemma_first_position(s, c);
    let i = first_position(s, c);
    if i < s.len() {
        lemma_fields_are_not_empty(s.skip(i + 1), c);
    }
}

/// A text that begins with a letter that no address holds is no part of an IPv6
/// address.
proof fn lemma_no_side(s: Seq<char>)
    requires
        s.len() > 0,
        'g' <= s[0] <= 'z' || 'G' <= s[0] <= 'Z',
    ensures
        side(s, false) is None,
        ipv4(s) is None ==> side(s, true) is None,
{
    let parts = fields(s, ':');
    lemma_fields_begin(s, ':');
    let first = parts[0];
    assert(group(first.take(1)) is None) by {
        assert(first.take(1)[0] == first[0]);
    }
    lemma_long_groups_fail(first, 1);
    let one = parts.take(1);
    assert(one.drop_last() =~= seq![]);
    assert(one.last() == first);
    assert(group_values(one) is None);
    lemma_group_values_fail(parts, 1);
    if parts.len() > 1 {
        let front = parts.drop_last();
        assert(front.take(1) =~= one);
        lemma_group_values_fail(front, 1);
    } else {
        assert(parts.last() == s);
    }
}

/// Brackets around an address play no part.
pub proof fn brackets_play_no_part(address: Seq<char>)
    requires
        address.len() > 0,
        address[0] != '[' && address[0] != ']',
        address.last() != '[' && address.last() != ']',
    ensures
        without_brackets("["@ + address + "]"@) == address,
        without_brackets(address) == address,
{
    reveal_strlit("[");
    reveal_strlit("]");
    let s = "["@ + address + "]"@;
    assert(s[0] == '[');
    assert(s.drop_first() =~= address + "]"@);
    let rest = address + "]"@;
    assert(rest[0] == address[0]);
    assert(without_leading_brackets(rest) == rest);
    assert(without_leading_brackets(s) == rest);
    assert(rest.last() == ']');
    assert(rest.drop_last() =~= address);
    assert(without_trailing_brackets(address) == address);
    assert(without_trailing_brackets(rest) == address);
}

/// The IPv6 address of the computer itself is `::1`, with or without brackets.
pub proof fn the_short_address_is_loopback()
    ensures
        is_loopback("::1"@),
        is_loopback("["@ + "::1"@ + "]"@),
        !is_loopback("::"@),
        !is_loopback("::2"@),
{
    reveal_strlit("::1");
    reveal_strlit("::2");
    reveal_strlit("::");
    reveal_strlit("localhost");
    brackets_play_no_part("::1"@);
    brackets_play_no_part("::2"@);
    brackets_play_no_part("::"@);
    assert("::1"@ =~= seq![':', ':', '1']);
    assert("::2"@ =~= seq![':', ':', '2']);
    lemma_tail_only("::1"@, '1', 1);
    lemma_tail_only("::2"@, '2', 2);
    let one = "::1"@;
    assert(ipv6(one) == Some(seq![0int, 0, 0, 0, 0, 0, 0, 1]));
    let two = ipv6("::2"@);
    assert(two == Some(seq![0int, 0, 0, 0, 0, 0, 0, 2]));
    assert(two->0[7] == 2);
    assert(seq![0int, 0, 0, 0, 0, 0, 0, 1][7] == 1);
    let none = "::"@;
    assert(none.take(0) =~= seq![]);
    assert(none.skip(2) =~= seq![]);
    assert(ipv6(none)->0[7] == 0);
    assert(lower("::2"@)[0] == ':' && lower("::"@)[0] == ':');
    lemma_starts_with_colon("::2"@);
    lemma_starts_with_colon("::"@);
}

/// A text that begins with a colon is no IPv4 address.
proof fn lemma_starts_with_colon(s: Seq<char>)
    requires
        s.len() > 0,
        s[0] == ':',
    ensures
        ipv4(s) is None,
{
    lemma_fields_begin(s, '.');
    assert(!is_digit(fields(s, '.')[0][0]));
}

proof fn lemma_tail_only(s: Seq<char>, c: char, value: int)
    requires
        s == seq![':', ':', c],
        hex_value(c) == Some(value),
        c != ':',
    ensures
        ipv6(s) == Some(seq![0int, 0, 0, 0, 0, 0, 0, value]),
{
    assert(double_colon(s) == 0);
    assert(s.take(0) =~= seq![]);
    let tail = s.skip(2);
    assert(tail =~= seq![c]);
    lemma_first_field(tail, ':', seq![]);
    let parts = fields(tail, ':');
    assert(parts == seq![tail]);
    assert(parts.drop_last() =~= seq![]);
    assert(group_values(parts.drop_last()) == Some(Seq::<int>::empty()));
    assert(group(tail) == Some(value));
    assert(group_values(parts)->0 =~= seq![value]);
    assert(ipv6(s)->0 =~= seq![0int, 0, 0, 0, 0, 0, 0, value]);
}

/// An IPv6 address of a first group, zeros and a one at the end is the computer
/// itself exactly where the first group is zero.
pub proof fn only_the_first_address_is_loopback(first: Seq<char>)
    requires
        group(first) is Some,
    ensures
        ipv6(first + "::1"@) == Some(seq![group(first)->0, 0int, 0, 0, 0, 0, 0, 1]),
        is_loopback(first + "::1"@) <==> group(first) == Some(0int),
{
    reveal_strlit("::1");
    reveal_strlit("localhost");
    let s = first + "::1"@;
    let n = first.len() as int;
    lemma_group_digits(first);
    assert forall|i: int| 0 <= i < n implies #[trigger] first[i] != ':' && first[i] != '[' && first[i]
        != ']' && first[i] != '.' by {
        assert(hex_value(first[i]) is Some);
    }
    lemma_colons_behind(first, seq!['1']);
    assert("::1"@ =~= seq![':', ':'] + seq!['1']);
    assert(s =~= first + (seq![':', ':'] + seq!['1']));
    assert(double_colon(s) == n);
    assert(s.take(n) =~= first);
    let tail = s.skip(n + 2);
    assert(tail =~= seq!['1']);
    lemma_one_group(first);
    lemma_one_group(tail);
    assert(group(tail) == Some(1int));
    assert(side(first, false) == Some(seq![group(first)->0]));
    assert(side(tail, true) == Some(seq![1int]));
    assert(ipv6(s)->0 =~= seq![group(first)->0, 0int, 0, 0, 0, 0, 0, 1]);
    assert(s[0] == first[0] && s.last() == '1');
    assert(without_brackets(s) == s);
    assert(ipv4(s) is None) by {
        assert forall|i: int| 0 <= i < s.len() implies #[trigger] s[i] != '.' by {
            if i < n {
                assert(s[i] == first[i]);
            }
        }
        lemma_first_field(s, '.', seq![]);
    }
    assert(lower(s) != "localhost"@) by {
        assert(lower(s).last() == '1');
        assert("localhost"@.last() == 't');
    }
    if group(first) != Some(0int) {
        assert(ipv6(s)->0[0] != 0);
        assert(seq![0int, 0, 0, 0, 0, 0, 0, 1][0] == 0);
    }
}

proof fn lemma_group_digits(s: Seq<char>)
    requires
        group(s) is Some,
    ensures
        1 <= s.len() <= 4,
        forall|i: int| 0 <= i < s.len() ==> hex_value(#[trigger] s[i]) is Some,
    decreases s.len(),
{
    if s.len() > 1 {
        let front = s.drop_last();
        lemma_group_digits(front);
        assert forall|i: int| 0 <= i < s.len() implies hex_value(#[trigger] s[i]) is Some by {
            if i < front.len() {
                assert(s[i] == front[i]);
            }
        }
    }
}

proof fn lemma_one_group(s: Seq<char>)
    requires
        group(s) is Some,
    ensures
        side(s, false) == Some(seq![group(s)->0]),
        side(s, true) == Some(seq![group(s)->0]),
{
    lemma_group_digits(s);
    assert forall|i: int| 0 <= i < s.len() implies #[trigger] s[i] != ':' by {
        assert(hex_value(s[i]) is Some);
    }
    lemma_first_field(s, ':', seq![]);
    let parts = fields(s, ':');
    assert(parts == seq![s]);
    assert(parts.drop_last() =~= seq![]);
    assert(group_values(parts.drop_last()) == Some(Seq::<int>::empty()));
    assert(group_values(parts)->0 =~= seq![group(s)->0]);
}

proof fn lemma_colons_behind(front: Seq<char>, rest: Seq<char>)
    requires
        forall|i: int| 0 <= i < front.len() ==> #[trigger] front[i] != ':',
    ensures
        double_colon(front + (seq![':', ':'] + rest)) == front.len(),
    decreases front.len(),
{
    let s = front + (seq![':', ':'] + rest);
    if front.len() == 0 {
        assert(s[0] == ':' && s[1] == ':');
    } else {
        assert(s[0] == front[0]);
        assert(s.drop_first() =~= front.drop_first() + (seq![':', ':'] + rest));
        lemma_colons_behind(front.drop_first(), rest);
    }
}

/// A group of an IPv6 address is a number in base sixteen: each digit counts
/// sixteen times what the one behind it counts, in letters of either case.
pub proof fn groups_are_read_in_base_sixteen(front: Seq<char>, c: char)
    requires
        group(front) is Some,
        front.len() < 4,
    ensures
        '0' <= c <= '9' ==> group(front.push(c)) == Some(
            group(front)->0 * 16 + (c as int - '0' as int),
        ),
        'a' <= c <= 'f' ==> group(front.push(c)) == Some(
            group(front)->0 * 16 + 10 + (c as int - 'a' as int),
        ),
        'A' <= c <= 'F' ==> group(front.push(c)) == Some(
            group(front)->0 * 16 + 10 + (c as int - 'A' as int),
        ),
        c == 'g' || c == ':' || c == '.' ==> group(front.push(c)) is None,
{
    lemma_group_digits(front);
    assert(front.push(c).drop_last() =~= front);
}

/// A number of an IPv4 address is written in base ten and in no other way: without
/// zeros in front, and from 0 to 255.
pub proof fn octets_are_plain_numbers(s: Seq<char>, n: nat)
    ensures
        octet(s) == Some(n as int) <==> n <= 255 && s == decimal(n),
{
    if n <= 255 {
        lemma_octet(n);
    }
    if octet(s) == Some(n as int) {
        reveal_with_fuel(digits, 3);
        assert(is_digit(s[0]));
        if s.len() == 1 {
            assert(decimal(n) =~= s);
        } else if s.len() == 2 {
            assert(is_digit(s[1]));
            assert(digits(n / 10, 10) =~= seq![s[0]]);
            assert(decimal(n) =~= s);
        } else {
            assert(is_digit(s[1]) && is_digit(s[2]));
            assert(n / 10 / 10 == digit_value(s[0]));
            assert(digits(n / 10 / 10, 10) =~= seq![s[0]]);
            assert(digits(n / 10, 10) =~= seq![s[0], s[1]]);
            assert(decimal(n) =~= s);
        }
    }
}

/// The last two groups of an IPv6 address may be written as an IPv4 address, each
/// with two of its numbers.
pub proof fn addresses_may_end_with_dots(a: nat, b: nat, c: nat, d: nat)
    requires
        a <= 255,
        b <= 255,
        c <= 255,
        d <= 255,
    ensures
        ipv6("::"@ + dotted(a, b, c, d)) == Some(
            seq![0int, 0, 0, 0, 0, 0, (a * 256 + b) as int, (c * 256 + d) as int],
        ),
{
    reveal_strlit("::");
    let tail = dotted(a, b, c, d);
    lemma_dotted(a, b, c, d);
    let s = "::"@ + tail;
    assert(s[0] == ':' && s[1] == ':');
    assert(double_colon(s) == 0);
    assert(s.take(0) =~= seq![]);
    assert(s.skip(2) =~= tail);
    assert forall|i: int| 0 <= i < tail.len() implies #[trigger] tail[i] != ':' by {
        assert(is_digit(tail[i]) || tail[i] == '.');
    }
    lemma_no_colons(tail);
    let parts = fields(tail, ':');
    assert(parts.drop_last() =~= seq![]);
    assert(group_values(parts.drop_last()) == Some(Seq::<int>::empty()));
    assert(parts.last() == tail);
    assert(group(tail) is None) by {
        if group(tail) is Some {
            lemma_group_digits(tail);
            let n = decimal(a).len() as int;
            reveal_strlit(".");
            assert(tail[n] == '.');
            assert(hex_value(tail[n]) is Some);
        }
    }
    assert(group_values(parts) is None);
    assert(side(tail, true)->0 =~= seq![(a * 256 + b) as int, (c * 256 + d) as int]);
    assert(ipv6(s)->0 =~= seq![0int, 0, 0, 0, 0, 0, (a * 256 + b) as int, (c * 256 + d) as int]);
}

} // verus!
