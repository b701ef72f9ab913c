//! Bytes that may be UTF-8.
use vstd::prelude::*;
use vstd::utf8::{
    decode_utf8, encode_scalar, encode_utf8, has_width_2_encoding, has_width_3_encoding, is_scalar,
    valid_utf8,
};

use crate::error::{text_outcome, Error};
use crate::text::opt_text;

verus! {

/// The text that bytes encode. `None` where they are not UTF-8.
pub open spec fn utf8_text(bytes: Seq<u8>) -> Option<Seq<char>> {
    if valid_utf8(bytes) {
        Some(decode_utf8(bytes))
    } else {
        None
    }
}

/// Decodes bytes with `std::str::from_utf8`, which gives the encoded text where
/// the bytes are valid UTF-8 and fails where they are not.
#[verifier::external_body]
pub(crate) fn decode(bytes: &[u8]) -> (r: Option<String>)
    ensures
        opt_text(r) == utf8_text(bytes@),
{
    std::str::from_utf8(bytes).ok().map(str::to_owned)
}

/// The words in which `String::from_utf8` refuses bytes.
pub uninterp spec fn utf8_complaint(bytes: Seq<u8>) -> Seq<char>;

/// Decodes bytes with `String::from_utf8`, which gives the encoded text where the
/// bytes are valid UTF-8 and an error where they are not. The words of the error
/// depend on the bytes alone.
#[verifier::external_body]
pub(crate) fn decode_or_explain(bytes: Vec<u8>) -> (r: Result<String, String>)
    ensures
        match r {
            Ok(text) => utf8_text(bytes@) == Some(text@),
            Err(reason) => utf8_text(bytes@) is None && reason@ == utf8_complaint(bytes@),
        },
{
    String::from_utf8(bytes).map_err(|error| error.to_string())
}

/// The bytes that encode a text.
pub fn bytes_of(text: &str) -> (r: Vec<u8>)
    ensures
        r@ == encode_utf8(text@),
{
    let bytes = text.as_bytes();
    let mut out: Vec<u8> = Vec::new();
    let mut i: usize = 0;
    while i < bytes.len()
        invariant
            bytes@ == encode_utf8(text@),
            i <= bytes@.len(),
            out@ == bytes@.take(i as int),
        decreases bytes@.len() - i,
    {
        out.push(bytes[i]);
        assert(bytes@.take(i + 1) =~= bytes@.take(i as int).push(bytes@[i as int]));
        i = i + 1;
    }
    assert(bytes@.take(bytes@.len() as int) =~= bytes@);
    out
}

/// Whether bytes begin the encoding of a character without completing it.
pub open spec fn is_cut_off(bytes: Seq<u8>) -> bool {
    ||| bytes.len() == 1 && 0xc2 <= bytes[0] <= 0xf4
    ||| bytes.len() == 2 && is_longer_start(bytes[0], bytes[1])
    ||| bytes.len() == 3 && bytes[0] >= 0xf0 && is_longer_start(bytes[0], bytes[1]) && 0x80
        <= bytes[2] <= 0xbf
}

/// Whether two bytes begin an encoding of three or four bytes.
pub open spec fn is_longer_start(first: u8, second: u8) -> bool {
    ||| first == 0xe0 && 0xa0 <= second <= 0xbf
    ||| 0xe1 <= first <= 0xec && 0x80 <= second <= 0xbf
    ||| first == 0xed && 0x80 <= second <= 0x9f
    ||| 0xee <= first <= 0xef && 0x80 <= second <= 0xbf
    ||| first == 0xf0 && 0x90 <= second <= 0xbf
    ||| 0xf1 <= first <= 0xf3 && 0x80 <= second <= 0xbf
    ||| first == 0xf4 && 0x80 <= second <= 0x8f
}

fn longer_start(first: u8, second: u8) -> (r: bool)
    ensures
        r == is_longer_start(first, second),
{
    (first == 0xe0 && 0xa0 <= second && second <= 0xbf) || (0xe1 <= first && first <= 0xec && 0x80
        <= second && second <= 0xbf) || (first == 0xed && 0x80 <= second && second <= 0x9f) || (0xee
        <= first && first <= 0xef && 0x80 <= second && second <= 0xbf) || (first == 0xf0 && 0x90
        <= second && second <= 0xbf) || (0xf1 <= first && first <= 0xf3 && 0x80 <= second && second
        <= 0xbf) || (first == 0xf4 && 0x80 <= second && second <= 0x8f)
}

/// Whether the last `cut` bytes are the start of a character that the bytes
/// before them, which are UTF-8, do not hold.
pub open spec fn ends_cut_off(bytes: Seq<u8>, cut: int) -> bool {
    &&& 0 <= cut <= bytes.len()
    &&& is_cut_off(bytes.skip(bytes.len() - cut))
    &&& valid_utf8(bytes.take(bytes.len() - cut))
}

/// The text that bytes encode up to a character that their end cuts off, or how
/// other bytes are refused.
pub open spec fn utf8_prefix_text(bytes: Seq<u8>) -> Result<Seq<char>, Seq<char>> {
    if valid_utf8(bytes) {
        Ok(decode_utf8(bytes))
    } else if ends_cut_off(bytes, 1) {
        Ok(decode_utf8(bytes.take(bytes.len() - 1)))
    } else if ends_cut_off(bytes, 2) {
        Ok(decode_utf8(bytes.take(bytes.len() - 2)))
    } else if ends_cut_off(bytes, 3) {
        Ok(decode_utf8(bytes.take(bytes.len() - 3)))
    } else {
        Err("file is not valid UTF-8"@)
    }
}

/// The first `n` bytes.
fn take_bytes(bytes: &Vec<u8>, n: usize) -> (r: Vec<u8>)
    requires
        n <= bytes@.len(),
    ensures
        r@ == bytes@.take(n as int),
{
    let mut out: Vec<u8> = Vec::new();
    let mut i: usize = 0;
    while i < n
        invariant
            i <= n <= bytes@.len(),
            out@ == bytes@.take(i as int),
        decreases n - i,
    {
        out.push(bytes[i]);
        assert(bytes@.take(i + 1) =~= bytes@.take(i as int).push(bytes@[i as int]));
        i = i + 1;
    }
    out
}

/// Whether the last `cut` bytes begin a character without completing it.
fn tail_is_cut_off(bytes: &Vec<u8>, cut: usize) -> (r: bool)
    requires
        1 <= cut <= 3,
    ensures
        r == (cut <= bytes@.len() && is_cut_off(bytes@.skip(bytes@.len() - cut))),
{
    let n: usize = bytes.len();
    if n < cut {
        return false;
    }
    let ghost tail = bytes@.skip(n - cut);
    assert(tail.len() == cut);
    if cut == 1 {
        assert(tail[0] == bytes@[n - 1]);
        0xc2 <= bytes[n - 1] && bytes[n - 1] <= 0xf4
    } else if cut == 2 {
        assert(tail[0] == bytes@[n - 2] && tail[1] == bytes@[n - 1]);
        longer_start(bytes[n - 2], bytes[n - 1])
    } else {
        assert(tail[0] == bytes@[n - 3] && tail[1] == bytes@[n - 2] && tail[2] == bytes@[n - 1]);
        bytes[n - 3] >= 0xf0 && longer_start(bytes[n - 3], bytes[n - 2]) && 0x80 <= bytes[n - 1]
            && bytes[n - 1] <= 0xbf
    }
}

/// The text that bytes encode up to a character that their end cuts off.
pub fn utf8_prefix(bytes: &Vec<u8>) -> (r: Result<String, Error>)
    ensures
        text_outcome(r) == utf8_prefix_text(bytes@),
{
    match decode(bytes.as_slice()) {
        Some(text) => {
            return Ok(text);
        },
        None => {},
    }
    let mut cut: usize = 1;
    while cut <= 3
        invariant
            1 <= cut <= 4,
            !valid_utf8(bytes@),
            cut > 1 ==> !ends_cut_off(bytes@, 1),
            cut > 2 ==> !ends_cut_off(bytes@, 2),
            cut > 3 ==> !ends_cut_off(bytes@, 3),
        decreases 4 - cut,
    {
        if tail_is_cut_off(bytes, cut) {
            let head = take_bytes(bytes, bytes.len() - cut);
            match decode(head.as_slice()) {
                Some(text) => {
                    assert(ends_cut_off(bytes@, cut as int));
                    return Ok(text);
                },
                None => {},
            }
        }
        cut = cut + 1;
    }
    Err(Error::of("file is not valid UTF-8"))
}

/// Reading a part of a UTF-8 text never gives back more bytes than were read,
/// leaves at most three of them for the next part, and gives back exactly the
/// encoded bytes.
pub proof fn prefixes_keep_their_bytes(bytes: Seq<u8>)
    ensures
        utf8_prefix_text(bytes) matches Ok(text) ==> {
            let n = crate::text::byte_length(text) as int;
            &&& n <= bytes.len() <= n + 3
            &&& encode_utf8(text) == bytes.take(n)
        },
{
    if valid_utf8(bytes) {
        vstd::utf8::decode_utf8_encode_utf8(bytes);
        assert(bytes.take(bytes.len() as int) =~= bytes);
    } else if ends_cut_off(bytes, 1) {
        vstd::utf8::decode_utf8_encode_utf8(bytes.take(bytes.len() - 1));
    } else if ends_cut_off(bytes, 2) {
        vstd::utf8::decode_utf8_encode_utf8(bytes.take(bytes.len() - 2));
    } else if ends_cut_off(bytes, 3) {
        vstd::utf8::decode_utf8_encode_utf8(bytes.take(bytes.len() - 3));
    }
}

/// Whether bytes are UTF-8 up to a character that their end cuts off.
pub open spec fn is_text_part(bytes: Seq<u8>) -> bool {
    ||| valid_utf8(bytes)
    ||| ends_cut_off(bytes, 1)
    ||| ends_cut_off(bytes, 2)
    ||| ends_cut_off(bytes, 3)
}

proof fn lemma_scalar_cut_off(scalar: u32, n: int)
    requires
        is_scalar(scalar),
        1 <= n < encode_scalar(scalar).len(),
    ensures
        n <= 3,
        is_cut_off(encode_scalar(scalar).take(n)),
{
    let bytes = encode_scalar(scalar);
    let part = bytes.take(n);
    assert(part[0] == bytes[0]);
    if has_width_2_encoding(scalar) {
        assert(0x80 <= scalar <= 0x7ff ==> 0xc2 <= (0xC0 | ((scalar >> 6) & 0x1F) as u8) <= 0xdf)
            by (bit_vector);
    } else if has_width_3_encoding(scalar) {
        assert(0x800 <= scalar <= 0xffff && !(0xD800 <= scalar <= 0xDFFF) ==> ({
            let a = 0xE0 | ((scalar >> 12) & 0x0F) as u8;
            let b = 0x80 | ((scalar >> 6) & 0x3F) as u8;
            0xe0 <= a <= 0xef && 0x80 <= b <= 0xbf && (a == 0xe0 ==> b >= 0xa0) && (a == 0xed ==> b
                <= 0x9f)
        })) by (bit_vector);
        if n == 2 {
            assert(part[1] == bytes[1]);
        }
    } else {
        assert(0x10000 <= scalar <= 0x10ffff ==> ({
            let a = 0xF0 | ((scalar >> 18) & 0x7) as u8;
            let b = 0x80 | ((scalar >> 12) & 0x3F) as u8;
            let c = 0x80 | ((scalar >> 6) & 0x3F) as u8;
            0xf0 <= a <= 0xf4 && 0x80 <= b <= 0xbf && 0x80 <= c <= 0xbf && (a == 0xf0 ==> b
                >= 0x90) && (a == 0xf4 ==> b <= 0x8f)
        })) by (bit_vector);
        if n >= 2 {
            assert(part[1] == bytes[1]);
        }
        if n == 3 {
            assert(part[2] == bytes[2]);
        }
    }
}

proof fn lemma_part_behind_character(first: Seq<u8>, rest: Seq<u8>)
    requires
        valid_utf8(first),
        is_text_part(rest),
    ensures
        is_text_part(first + rest),
{
    let bytes = first + rest;
    if valid_utf8(rest) {
        vstd::utf8::valid_utf8_concat(first, rest);
    } else {
        let cut: int = if ends_cut_off(rest, 1) {
            1
        } else if ends_cut_off(rest, 2) {
            2
        } else {
            3
        };
        let head = rest.take(rest.len() - cut);
        vstd::utf8::valid_utf8_concat(first, head);
        assert(bytes.take(bytes.len() - cut) =~= first + head);
        assert(bytes.skip(bytes.len() - cut) =~= rest.skip(rest.len() - cut));
        assert(ends_cut_off(bytes, cut));
    }
}

proof fn lemma_text_part(text: Seq<char>, n: int)
    requires
        0 <= n <= encode_utf8(text).len(),
    ensures
        is_text_part(encode_utf8(text).take(n)),
    decreases text.len(),
{
    let bytes = encode_utf8(text);
    let part = bytes.take(n);
    if n > 0 {
        let scalar = text[0] as u32;
        let first = encode_scalar(scalar);
        let others = encode_utf8(text.drop_first());
        vstd::utf8::char_is_scalar(text[0]);
        if n < first.len() {
            lemma_scalar_cut_off(scalar, n);
            assert(part =~= first.take(n));
            assert(part.skip(part.len() - n) =~= part);
            assert(valid_utf8(part.take(part.len() - n)));
            assert(ends_cut_off(part, n));
        } else {
            let rest = others.take(n - first.len());
            lemma_text_part(text.drop_first(), n - first.len());
            assert(part =~= first + rest);
            let single = seq![text[0]];
            assert(single.drop_first() =~= seq![]);
            assert(encode_utf8(single.drop_first()) =~= seq![]);
            assert(encode_utf8(single) =~= first);
            vstd::utf8::encode_utf8_valid_utf8(seq![text[0]]);
            lemma_part_behind_character(first, rest);
        }
    }
}

/// However a text is cut into parts, each part is read: bytes that begin the
/// encoding of a text are never refused.
pub proof fn parts_of_texts_are_read(text: Seq<char>, n: int)
    requires
        0 <= n <= encode_utf8(text).len(),
    ensures
        utf8_prefix_text(encode_utf8(text).take(n)) is Ok,
{
    lemma_text_part(text, n);
}

proof fn lemma_encode_push(text: Seq<char>, c: char)
    ensures
        encode_utf8(text.push(c)) == encode_utf8(text) + encode_scalar(c as u32),
    decreases text.len(),
{
    if text.len() == 0 {
        assert(text.push(c).drop_first() =~= seq![]);
        assert(encode_utf8(text.push(c).drop_first()) =~= seq![]);
        assert(encode_utf8(text) =~= seq![]);
        assert(encode_utf8(text.push(c)) =~= encode_scalar(c as u32));
        assert(encode_utf8(text) + encode_scalar(c as u32) =~= encode_scalar(c as u32));
    } else {
        lemma_encode_push(text.drop_first(), c);
        assert(text.push(c).drop_first() =~= text.drop_first().push(c));
        assert(text.push(c)[0] == text[0]);
        assert(encode_utf8(text.push(c)) =~= encode_utf8(text) + encode_scalar(c as u32));
    }
}

/// One byte that begins a longer encoding begins that of some character.
proof fn lemma_first_of_character(a: u8) -> (scalar: u32)
    requires
        0xc2 <= a <= 0xf4,
    ensures
        is_scalar(scalar),
        encode_scalar(scalar).len() > 1,
        encode_scalar(scalar)[0] == a,
{
    if a <= 0xdf {
        let v = (a as u32 & 0x1f) << 6;
        assert(v == (a as u32 & 0x1f) << 6 && 0xc2 <= a && a <= 0xdf ==> 0x80 <= v && v <= 0x7ff && (
        0xC0 | ((v >> 6) & 0x1F) as u8) == a) by (bit_vector);
        v
    } else if a <= 0xef {
        let v = if a == 0xe0 {
            0x800u32
        } else {
            (a as u32 & 0x0f) << 12
        };
        assert(a == 0xe0 ==> (0xE0 | ((0x800u32 >> 12) & 0x0F) as u8) == a) by (bit_vector);
        let w = (a as u32 & 0x0f) << 12;
        assert(w == (a as u32 & 0x0f) << 12 && 0xe1 <= a && a <= 0xef ==> 0x800 <= w && w <= 0xffff
            && !(0xD800 <= w && w <= 0xDFFF) && (0xE0 | ((w >> 12) & 0x0F) as u8) == a)
            by (bit_vector);
        v
    } else {
        let v = if a == 0xf0 {
            0x10000u32
        } else {
            (a as u32 & 0x07) << 18
        };
        assert(a == 0xf0 ==> (0xF0 | ((0x10000u32 >> 18) & 0x7) as u8) == a) by (bit_vector);
        let w = (a as u32 & 0x07) << 18;
        assert(w == (a as u32 & 0x07) << 18 && 0xf1 <= a && a <= 0xf4 ==> 0x10000 <= w && w
            <= 0x10ffff && (0xF0 | ((w >> 18) & 0x7) as u8) == a) by (bit_vector);
        v
    }
}

/// Two bytes that begin a longer encoding begin that of some character.
proof fn lemma_start_of_character(a: u8, b: u8) -> (scalar: u32)
    requires
        is_longer_start(a, b),
    ensures
        is_scalar(scalar),
        encode_scalar(scalar).len() > 2,
        encode_scalar(scalar)[0] == a,
        encode_scalar(scalar)[1] == b,
{
    if a <= 0xef {
        let v = ((a as u32 & 0x0f) << 12) | ((b as u32 & 0x3f) << 6);
        assert(v == ((a as u32 & 0x0f) << 12) | ((b as u32 & 0x3f) << 6) && 0xe0 <= a && a <= 0xef
            && 0x80 <= b && b <= 0xbf && (a == 0xe0 ==> b >= 0xa0) && (a == 0xed ==> b <= 0x9f)
            ==> 0x800 <= v && v <= 0xffff && !(0xD800 <= v && v <= 0xDFFF) && (0xE0 | ((v >> 12)
            & 0x0F) as u8) == a && (0x80 | ((v >> 6) & 0x3F) as u8) == b) by (bit_vector);
        v
    } else {
        let v = ((a as u32 & 0x07) << 18) | ((b as u32 & 0x3f) << 12);
        assert(v == ((a as u32 & 0x07) << 18) | ((b as u32 & 0x3f) << 12) && 0xf0 <= a && a <= 0xf4
            && 0x80 <= b && b <= 0xbf && (a == 0xf0 ==> b >= 0x90) && (a == 0xf4 ==> b <= 0x8f)
            ==> 0x10000 <= v && v <= 0x10ffff && (0xF0 | ((v >> 18) & 0x7) as u8) == a && (0x80 | ((v
            >> 12) & 0x3F) as u8) == b) by (bit_vector);
        v
    }
}

/// Three bytes that begin an encoding of four begin that of some character.
proof fn lemma_most_of_character(a: u8, b: u8, c: u8) -> (scalar: u32)
    requires
        a >= 0xf0,
        is_longer_start(a, b),
        0x80 <= c <= 0xbf,
    ensures
        is_scalar(scalar),
        encode_scalar(scalar).len() > 3,
        encode_scalar(scalar)[0] == a,
        encode_scalar(scalar)[1] == b,
        encode_scalar(scalar)[2] == c,
{
    let v = ((a as u32 & 0x07) << 18) | ((b as u32 & 0x3f) << 12) | ((c as u32 & 0x3f) << 6);
    assert(v == ((a as u32 & 0x07) << 18) | ((b as u32 & 0x3f) << 12) | ((c as u32 & 0x3f) << 6)
        && 0xf0 <= a && a <= 0xf4 && 0x80 <= b && b <= 0xbf && 0x80 <= c && c <= 0xbf && (a == 0xf0
        ==> b >= 0x90) && (a == 0xf4 ==> b <= 0x8f) ==> 0x10000 <= v && v <= 0x10ffff && (0xF0 | ((v
        >> 18) & 0x7) as u8) == a && (0x80 | ((v >> 12) & 0x3F) as u8) == b && (0x80 | ((v >> 6)
        & 0x3F) as u8) == c) by (bit_vector);
    v
}

proof fn lemma_cut_off_character(tail: Seq<u8>) -> (c: char)
    requires
        is_cut_off(tail),
    ensures
        tail.len() <= encode_scalar(c as u32).len(),
        encode_scalar(c as u32).take(tail.len() as int) == tail,
{
    let scalar = if tail.len() == 1 {
        lemma_first_of_character(tail[0])
    } else if tail.len() == 2 {
        lemma_start_of_character(tail[0], tail[1])
    } else {
        lemma_most_of_character(tail[0], tail[1], tail[2])
    };
    assert(encode_scalar(scalar).take(tail.len() as int) =~= tail);
    let c = scalar as char;
    assert(c as u32 == scalar);
    c
}

/// Whether bytes begin the encoding of some text.
pub open spec fn begin_a_text(bytes: Seq<u8>) -> bool {
    exists|text: Seq<char>|
        bytes.len() <= encode_utf8(text).len() && #[trigger] encode_utf8(text).take(
            bytes.len() as int,
        ) == bytes
}

/// Bytes are read exactly where they begin the encoding of a text. All others are
/// refused as no text.
pub proof fn only_parts_of_texts_are_read(bytes: Seq<u8>)
    ensures
        utf8_prefix_text(bytes) is Ok <==> begin_a_text(bytes),
        utf8_prefix_text(bytes) matches Err(reason) ==> reason == "file is not valid UTF-8"@,
{
    if utf8_prefix_text(bytes) is Ok {
        if valid_utf8(bytes) {
            let text = decode_utf8(bytes);
            vstd::utf8::decode_utf8_encode_utf8(bytes);
            assert(encode_utf8(text).take(bytes.len() as int) =~= bytes);
        } else {
            let cut: int = if ends_cut_off(bytes, 1) {
                1
            } else if ends_cut_off(bytes, 2) {
                2
            } else {
                3
            };
            let head = bytes.take(bytes.len() - cut);
            let tail = bytes.skip(bytes.len() - cut);
            let c = lemma_cut_off_character(tail);
            let text = decode_utf8(head);
            vstd::utf8::decode_utf8_encode_utf8(head);
            lemma_encode_push(text, c);
            let whole = encode_utf8(text.push(c));
            assert(whole.take(bytes.len() as int) =~= head + encode_scalar(c as u32).take(cut));
            assert(head + tail =~= bytes);
        }
    }
    if begin_a_text(bytes) {
        let text = choose|text: Seq<char>|
            bytes.len() <= encode_utf8(text).len() && #[trigger] encode_utf8(text).take(
                bytes.len() as int,
            ) == bytes;
        parts_of_texts_are_read(text, bytes.len() as int);
    }
}

} // verus!
