//! Bytes as text: two hex digits for each byte.

use vstd::prelude::*;
use vstd::string::StringSliceAdditionalSpecFns;
use vstd::utf8::{
    encode_scalar, encode_utf8, encode_utf8_valid_utf8, is_ascii_chars, is_ascii_chars_encode_utf8,
    is_char_boundary, is_char_boundary_iff_not_is_continuation_byte,
    is_char_boundary_start_end_of_seq,
};

use crate::error::{outcome, AuthError, ErrorKind};
use crate::text::{ascii_lower, digit, digit_char, digits_come_in_order, lower, same_ignoring_case};

verus! {

/// The lower-case hex text of bytes: two digits for each, the high half first.
pub open spec fn hex_text(bytes: Seq<u8>) -> Seq<char> {
    Seq::new(
        2 * bytes.len(),
        |i: int|
            if i % 2 == 0 {
                digit_char(bytes[i / 2] as int / 16)
            } else {
                digit_char(bytes[i / 2] as int % 16)
            },
    )
}

/// The value of a hex digit of either case.
pub open spec fn digit_value(b: u8) -> Option<u8> {
    if 0x30 <= b <= 0x39 {
        Some((b - 0x30) as u8)
    } else if 0x61 <= b <= 0x66 {
        Some((b - 0x61 + 10) as u8)
    } else if 0x41 <= b <= 0x46 {
        Some((b - 0x41 + 10) as u8)
    } else {
        None
    }
}

/// The value of a pair of bytes read as a number in base sixteen: two hex digits, or a plus sign
/// and one hex digit.
pub open spec fn pair_value(high: u8, low: u8) -> Option<u8> {
    match (digit_value(high), digit_value(low)) {
        (Some(h), Some(l)) => Some((16 * h + l) as u8),
        (None, Some(l)) => if high == 0x2b {
            Some(l)
        } else {
            None
        },
        _ => None,
    }
}

/// The value of the `k`-th pair of bytes.
pub open spec fn value_at(bytes: Seq<u8>, k: int) -> Option<u8> {
    pair_value(bytes[2 * k], bytes[2 * k + 1])
}

/// Every pair of bytes is a hex number.
pub open spec fn all_pairs_hex(bytes: Seq<u8>) -> bool {
    forall|k: int| 0 <= k < bytes.len() / 2 ==> (#[trigger] value_at(bytes, k)) is Some
}

/// The bytes that a hex text stands for, or why it stands for none.
pub open spec fn decoded(text: Seq<char>) -> Result<Seq<u8>, ErrorKind> {
    let bytes = encode_utf8(text);
    if bytes.len() % 2 != 0 {
        Err(ErrorKind::OddHexLength)
    } else if !all_pairs_hex(bytes) {
        Err(ErrorKind::InvalidHex)
    } else {
        Ok(Seq::new(bytes.len() / 2, |k: int| value_at(bytes, k)->0))
    }
}

/// The text can be read in pairs of bytes without cutting a character in two: it has an odd
/// number of bytes and is not read at all, or reading stops at no pair, or it stops at a pair
/// that ends between two characters.
pub open spec fn readable_in_pairs(text: Seq<char>) -> bool {
    let bytes = encode_utf8(text);
    bytes.len() % 2 != 0 || forall|k: int|
        0 <= k < bytes.len() / 2 && (#[trigger] value_at(bytes, k)) is None && (forall|j: int|
            0 <= j < k ==> (#[trigger] value_at(bytes, j)) is Some) ==> is_char_boundary(
            bytes,
            2 * k + 2,
        )
}

/// Writes bytes in lower-case hex. The text has to fit in memory.
pub fn hex_encode(bytes: &[u8]) -> (text: String)
    requires
        2 * bytes@.len() <= isize::MAX,
    ensures
        text@ == hex_text(bytes@),
{
    let mut text = String::new();
    let mut i: usize = 0;
    while i < bytes.len()
        invariant
            i <= bytes@.len(),
            text@ == hex_text(bytes@.take(i as int)),
        decreases bytes@.len() - i,
    {
        let b: u8 = bytes[i];
        text.append(digit(b / 16));
        text.append(digit(b % 16));
        assert(text@ =~= hex_text(bytes@.take(i + 1)));
        i = i + 1;
    }
    assert(bytes@.take(i as int) == bytes@);
    text
}

/// Reads a hex digit.
fn hex_digit(b: u8) -> (value: Option<u8>)
    ensures
        value == digit_value(b),
{
    if 0x30 <= b && b <= 0x39 {
        Some(b - 0x30)
    } else if 0x61 <= b && b <= 0x66 {
        Some(b - 0x61 + 10)
    } else if 0x41 <= b && b <= 0x46 {
        Some(b - 0x41 + 10)
    } else {
        None
    }
}

/// Reads a pair of bytes as a number in base sixteen.
fn hex_pair(high: u8, low: u8) -> (value: Option<u8>)
    ensures
        value == pair_value(high, low),
{
    match (hex_digit(high), hex_digit(low)) {
        (Some(h), Some(l)) => Some(16 * h + l),
        (None, Some(l)) => if high == 0x2b {
            Some(l)
        } else {
            None
        },
        _ => None,
    }
}

/// Whether a text can be read in pairs of bytes without cutting a character in two.
pub fn reads_in_pairs(text: &str) -> (readable: bool)
    ensures
        readable == readable_in_pairs(text@),
{
    let bytes = text.as_bytes();
    if bytes.len() % 2 != 0 {
        return true;
    }
    let mut k: usize = 0;
    while k < bytes.len() / 2
        invariant
            bytes@ == encode_utf8(text@),
            bytes@.len() % 2 == 0,
            k <= bytes@.len() / 2,
            forall|j: int| 0 <= j < k ==> (#[trigger] value_at(bytes@, j)) is Some,
        decreases bytes@.len() - k,
    {
        if hex_pair(bytes[2 * k], bytes[2 * k + 1]).is_none() {
            assert(value_at(bytes@, k as int) is None);
            return text.is_char_boundary(2 * k + 2);
        }
        assert(value_at(bytes@, k as int) is Some);
        k = k + 1;
    }
    true
}

/// Reads a hex text. A text that cannot be read in pairs without cutting a character in two is
/// left out.
pub fn hex_decode(text: &str) -> (result: Result<Vec<u8>, AuthError>)
    requires
        readable_in_pairs(text@),
    ensures
        outcome(result) == decoded(text@),
{
    let bytes = text.as_bytes();
    if bytes.len() % 2 != 0 {
        return Err(AuthError::OddHexLength);
    }
    let mut out: Vec<u8> = Vec::new();
    let mut k: usize = 0;
    while k < bytes.len() / 2
        invariant
            bytes@ == encode_utf8(text@),
            bytes@.len() % 2 == 0,
            k <= bytes@.len() / 2,
            out@.len() == k,
            forall|j: int| 0 <= j < k ==> (#[trigger] value_at(bytes@, j)) == Some(out@[j]),
        decreases bytes@.len() - k,
    {
        match hex_pair(bytes[2 * k], bytes[2 * k + 1]) {
            Some(b) => {
                assert(value_at(bytes@, k as int) == Some(b));
                out.push(b);
            },
            None => {
                assert(value_at(bytes@, k as int) is None);
                return Err(AuthError::InvalidHex);
            },
        }
        k = k + 1;
    }
    assert(out@ =~= Seq::new(bytes@.len() / 2, |j: int| value_at(bytes@, j)->0)) by {
        assert forall|j: int| 0 <= j < out@.len() implies out@[j] == value_at(bytes@, j)->0 by {
            assert(value_at(bytes@, j) == Some(out@[j]));
        }
    }
    Ok(out)
}

/// Every byte of a hex text is an ASCII digit, and as many bytes make it up as characters.
proof fn lemma_hex_text_bytes(bytes: Seq<u8>)
    ensures
        encode_utf8(hex_text(bytes)).len() == 2 * bytes.len(),
        forall|k: int|
            0 <= k < bytes.len() ==> (#[trigger] value_at(encode_utf8(hex_text(bytes)), k)) == Some(
                bytes[k],
            ),
{
    let text = hex_text(bytes);
    let utf8 = encode_utf8(text);
    assert forall|i: int| 0 <= i < text.len() implies '\0' <= #[trigger] text[i] <= '\u{7f}' by {
        let b = bytes[i / 2] as int;
        assert(0 <= b / 16 < 16 && 0 <= b % 16 < 16);
    }
    is_ascii_chars_encode_utf8(text);
    assert forall|k: int| 0 <= k < bytes.len() implies (#[trigger] value_at(utf8, k)) == Some(
        bytes[k],
    ) by {
        let b = bytes[k] as int;
        assert(text[2 * k] == digit_char(b / 16));
        assert(text[2 * k + 1] == digit_char(b % 16));
        assert(utf8[2 * k] == text[2 * k] as u8);
        assert(utf8[2 * k + 1] == text[2 * k + 1] as u8);
        assert(digit_value(utf8[2 * k]) == Some((b / 16) as u8));
        assert(digit_value(utf8[2 * k + 1]) == Some((b % 16) as u8));
    }
}

/// Reading what was written gives the bytes back, and what was written can always be read.
pub proof fn decoding_undoes_encoding(bytes: Seq<u8>)
    ensures
        readable_in_pairs(hex_text(bytes)),
        decoded(hex_text(bytes)) == Ok::<Seq<u8>, ErrorKind>(bytes),
{
    lemma_hex_text_bytes(bytes);
    let utf8 = encode_utf8(hex_text(bytes));
    assert(Seq::new(utf8.len() / 2, |k: int| value_at(utf8, k)->0) =~= bytes) by {
        assert forall|k: int| 0 <= k < bytes.len() implies value_at(utf8, k)->0 == bytes[k] by {
            assert(value_at(utf8, k) == Some(bytes[k]));
        }
    }
}

/// The lower-case form of the byte of an ASCII letter; every other byte as it is.
spec fn lower_byte(b: u8) -> u8 {
    if 0x41 <= b <= 0x5a {
        (b + 32) as u8
    } else {
        b
    }
}

/// The bytes of a character that is no ASCII character are no ASCII bytes.
proof fn lemma_wide_scalar_bytes(scalar: u32)
    by (bit_vector)
    ensures
        0xC0u8 | ((scalar >> 6) & 0x1F) as u8 >= 0x80,
        0xE0u8 | ((scalar >> 12) & 0x0F) as u8 >= 0x80,
        0xF0u8 | ((scalar >> 18) & 0x7) as u8 >= 0x80,
        0x80u8 | (scalar & 0x3F) as u8 >= 0x80,
        0x80u8 | ((scalar >> 6) & 0x3F) as u8 >= 0x80,
        0x80u8 | ((scalar >> 12) & 0x3F) as u8 >= 0x80,
{
}

/// The byte of an ASCII character is its number.
proof fn lemma_ascii_scalar_byte(scalar: u32)
    by (bit_vector)
    requires
        scalar <= 0x7F,
    ensures
        (scalar & 0x7F) as u8 == scalar,
{
}

/// Lowering a character lowers its bytes.
proof fn lemma_lower_scalar(c: char)
    ensures
        encode_scalar(lower(c) as u32) == encode_scalar(c as u32).map_values(
            |b: u8| lower_byte(b),
        ),
        forall|i: int|
            0 <= i < encode_scalar(c as u32).len() && c as u32 > 0x7F ==> (
            #[trigger] encode_scalar(c as u32)[i]) >= 0x80,
{
    let scalar = c as u32;
    let lowered = lower(c) as u32;
    lemma_wide_scalar_bytes(scalar);
    if scalar <= 0x7F {
        lemma_ascii_scalar_byte(scalar);
        lemma_ascii_scalar_byte(lowered);
    }
    assert(encode_scalar(lowered) =~= encode_scalar(scalar).map_values(|b: u8| lower_byte(b)));
}

/// Lowering a text lowers its bytes.
proof fn lemma_lower_text(text: Seq<char>)
    ensures
        encode_utf8(ascii_lower(text)) == encode_utf8(text).map_values(|b: u8| lower_byte(b)),
    decreases text.len(),
{
    if text.len() > 0 {
        lemma_lower_scalar(text[0]);
        lemma_lower_text(text.drop_first());
        assert(ascii_lower(text).drop_first() =~= ascii_lower(text.drop_first()));
    }
    assert(encode_utf8(ascii_lower(text)) =~= encode_utf8(text).map_values(
        |b: u8| lower_byte(b),
    ));
}

/// Reading does not depend on the case of a text.
pub proof fn decoding_ignores_case(a: Seq<char>, b: Seq<char>)
    requires
        same_ignoring_case(a, b),
    ensures
        decoded(a) == decoded(b),
{
    lemma_decoded_of_lower(a);
    lemma_decoded_of_lower(b);
}

/// Reading a text and reading it in lower case is the same.
proof fn lemma_decoded_of_lower(text: Seq<char>)
    ensures
        decoded(text) == decoded(ascii_lower(text)),
{
    lemma_lower_text(text);
    let bytes = encode_utf8(text);
    let lowered = encode_utf8(ascii_lower(text));
    assert forall|k: int| 0 <= k < bytes.len() / 2 implies (#[trigger] value_at(bytes, k))
        == value_at(lowered, k) by {
        assert(lowered[2 * k] == lower_byte(bytes[2 * k]));
        assert(lowered[2 * k + 1] == lower_byte(bytes[2 * k + 1]));
    }
    lemma_same_values_same_reading(text, ascii_lower(text));
}

/// A text whose bytes are all ASCII bytes is one of ASCII characters.
proof fn lemma_ascii_bytes_ascii_text(text: Seq<char>)
    requires
        forall|i: int|
            0 <= i < encode_utf8(text).len() ==> (#[trigger] encode_utf8(text)[i]) < 0x80,
    ensures
        is_ascii_chars(text),
    decreases text.len(),
{
    if text.len() > 0 {
        let head = encode_scalar(text[0] as u32);
        let tail = encode_utf8(text.drop_first());
        assert(encode_utf8(text) == head + tail);
        lemma_lower_scalar(text[0]);
        assert(encode_utf8(text)[0] == head[0]);
        assert forall|i: int| 0 <= i < tail.len() implies (#[trigger] tail[i]) < 0x80 by {
            assert(encode_utf8(text)[head.len() + i] == tail[i]);
        }
        lemma_ascii_bytes_ascii_text(text.drop_first());
        assert forall|i: int| 0 <= i < text.len() implies '\0' <= #[trigger] text[i]
            <= '\u{7f}' by {
            if i > 0 {
                assert(text.drop_first()[i - 1] == text[i]);
            }
        }
    }
}

/// Writing what was read gives the text back in lower case. A pair may be written with a plus
/// sign for its first digit, and writing does not bring the sign back, so such texts are left
/// out.
pub proof fn encoding_undoes_decoding(text: Seq<char>)
    requires
        decoded(text) is Ok,
        !text.contains('+'),
    ensures
        hex_text(decoded(text)->Ok_0) == ascii_lower(text),
{
    let utf8 = encode_utf8(text);
    let bytes = decoded(text)->Ok_0;
    assert forall|i: int| 0 <= i < utf8.len() implies (#[trigger] utf8[i]) < 0x80 by {
        assert(value_at(utf8, i / 2) is Some);
    }
    lemma_ascii_bytes_ascii_text(text);
    is_ascii_chars_encode_utf8(text);
    assert forall|i: int| 0 <= i < text.len() implies #[trigger] hex_text(bytes)[i]
        == ascii_lower(text)[i] by {
        let k = i / 2;
        assert(value_at(utf8, k) is Some);
        assert(bytes[k] == value_at(utf8, k)->0);
        assert(utf8[2 * k] == text[2 * k] as u8);
        assert(utf8[2 * k + 1] == text[2 * k + 1] as u8);
        assert(text.contains(text[2 * k]));
        assert(digit_value(utf8[2 * k]) is Some);
        let h = digit_value(utf8[2 * k])->0;
        let l = digit_value(utf8[2 * k + 1])->0;
        assert(bytes[k] as int / 16 == h && bytes[k] as int % 16 == l);
    }
    assert(hex_text(bytes) =~= ascii_lower(text));
}

/// A hex text is as long as twice its bytes; each byte is spelled by the digit of its high half,
/// then that of its low half.
pub proof fn each_byte_is_spelled_by_two_digits(bytes: Seq<u8>)
    ensures
        hex_text(bytes).len() == 2 * bytes.len(),
        forall|k: int|
            0 <= k < bytes.len() ==> {
                &&& hex_text(bytes)[2 * k] == "0123456789abcdef"@[(#[trigger] bytes[k]) as int / 16]
                &&& hex_text(bytes)[2 * k + 1] == "0123456789abcdef"@[bytes[k] as int % 16]
            },
{
    assert forall|k: int| 0 <= k < bytes.len() implies {
        &&& hex_text(bytes)[2 * k] == "0123456789abcdef"@[(#[trigger] bytes[k]) as int / 16]
        &&& hex_text(bytes)[2 * k + 1] == "0123456789abcdef"@[bytes[k] as int % 16]
    } by {
        digits_come_in_order(bytes[k] as int / 16);
        digits_come_in_order(bytes[k] as int % 16);
    }
}

/// A text that spells bytes in hex digits, of either case, is read as those bytes.
pub proof fn what_spells_bytes_is_read_as_them(text: Seq<char>, bytes: Seq<u8>)
    requires
        text.len() == 2 * bytes.len(),
        forall|k: int|
            0 <= k < bytes.len() ==> {
                ||| text[2 * k] == "0123456789abcdef"@[(#[trigger] bytes[k]) as int / 16]
                ||| text[2 * k] == "0123456789ABCDEF"@[bytes[k] as int / 16]
            },
        forall|k: int|
            0 <= k < bytes.len() ==> {
                ||| text[2 * k + 1] == "0123456789abcdef"@[(#[trigger] bytes[k]) as int % 16]
                ||| text[2 * k + 1] == "0123456789ABCDEF"@[bytes[k] as int % 16]
            },
    ensures
        readable_in_pairs(text),
        decoded(text) == Ok::<Seq<u8>, ErrorKind>(bytes),
{
    reveal_strlit("0123456789abcdef");
    reveal_strlit("0123456789ABCDEF");
    assert forall|i: int| 0 <= i < text.len() implies #[trigger] ascii_lower(text)[i] == hex_text(
        bytes,
    )[i] by {
        let b = bytes[i / 2];
        assert(0 <= b as int / 16 < 16 && 0 <= b as int % 16 < 16);
        if i % 2 == 0 {
            assert(i == 2 * (i / 2));
        } else {
            assert(i == 2 * (i / 2) + 1);
        }
    }
    assert(ascii_lower(text) =~= hex_text(bytes));
    lemma_decoded_of_lower(text);
    decoding_undoes_encoding(bytes);
    what_is_read_can_be_read(text);
}

/// A text that is read as bytes can be read, and so can every text of ASCII characters and every
/// text of an odd number of bytes.
pub proof fn what_is_read_can_be_read(text: Seq<char>)
    ensures
        decoded(text) is Ok ==> readable_in_pairs(text),
        is_ascii_chars(text) ==> readable_in_pairs(text),
        encode_utf8(text).len() % 2 != 0 ==> readable_in_pairs(text),
{
    let bytes = encode_utf8(text);
    encode_utf8_valid_utf8(text);
    if is_ascii_chars(text) {
        is_ascii_chars_encode_utf8(text);
        assert forall|k: int|
            0 <= k < bytes.len() / 2 && (#[trigger] value_at(bytes, k)) is None && bytes.len() % 2
                == 0 implies is_char_boundary(bytes, 2 * k + 2) by {
            if 2 * k + 2 == bytes.len() {
                is_char_boundary_start_end_of_seq(bytes);
            } else {
                assert(bytes[2 * k + 2] == text[2 * k + 2] as u8);
                is_char_boundary_iff_not_is_continuation_byte(bytes, 2 * k + 2);
            }
        }
    }
}

/// A text that cannot be read has an even number of bytes, and a pair of them ends within a
/// character: the byte after the pair continues one. And a text cannot be read where that is so
/// of the first pair that is not two hex digits.
pub proof fn reading_stops_within_a_character(text: Seq<char>, k: int)
    ensures
        !readable_in_pairs(text) ==> encode_utf8(text).len() % 2 == 0 && exists|j: int|
            #![trigger encode_utf8(text)[2 * j + 2]]
            0 <= j && 2 * j + 2 < encode_utf8(text).len() && 0x80 <= encode_utf8(text)[2 * j + 2]
                <= 0xbf,
        ({
            let bytes = encode_utf8(text);
            &&& bytes.len() % 2 == 0
            &&& 0 <= k
            &&& 2 * k + 2 < bytes.len()
            &&& 0x80 <= bytes[2 * k + 2] <= 0xbf
            &&& bytes[2 * k + 1] >= 0x80
            &&& forall|i: int|
                0 <= i < 2 * k ==> 0x30 <= #[trigger] bytes[i] <= 0x39 || 0x41 <= bytes[i] <= 0x46
                    || 0x61 <= bytes[i] <= 0x66
        }) ==> !readable_in_pairs(text),
{
    let bytes = encode_utf8(text);
    encode_utf8_valid_utf8(text);
    is_char_boundary_start_end_of_seq(bytes);
    if !readable_in_pairs(text) {
        let j = choose|j: int|
            0 <= j < bytes.len() / 2 && (#[trigger] value_at(bytes, j)) is None
                && !is_char_boundary(bytes, 2 * j + 2);
        assert(2 * j + 2 < bytes.len());
        is_char_boundary_iff_not_is_continuation_byte(bytes, 2 * j + 2);
    }
    if bytes.len() % 2 == 0 && 0 <= k && 2 * k + 2 < bytes.len() && 0x80 <= bytes[2 * k + 2]
        <= 0xbf && bytes[2 * k + 1] >= 0x80 && forall|i: int|
        0 <= i < 2 * k ==> 0x30 <= #[trigger] bytes[i] <= 0x39 || 0x41 <= bytes[i] <= 0x46 || 0x61
            <= bytes[i] <= 0x66 {
        is_char_boundary_iff_not_is_continuation_byte(bytes, 2 * k + 2);
        assert(value_at(bytes, k) is None);
        assert forall|j: int| 0 <= j < k implies (#[trigger] value_at(bytes, j)) is Some by {
            assert(0 <= 2 * j < 2 * k && 2 * j + 1 < 2 * k);
            let high = bytes[2 * j];
            let low = bytes[2 * j + 1];
        }
    }
}

/// A text with each plus sign written as a 0.
pub open spec fn plus_as_zero(text: Seq<char>) -> Seq<char> {
    text.map_values(
        |c: char|
            if c == '+' {
                '0'
            } else {
                c
            },
    )
}

/// A plus sign may stand for the first digit of a pair, where it reads as a 0, and nowhere else.
pub proof fn plus_sign_reads_as_zero(text: Seq<char>)
    ensures
        decoded(text) is Ok ==> decoded(plus_as_zero(text)) == decoded(text) && forall|i: int|
            0 <= i < text.len() && i % 2 == 1 ==> (#[trigger] text[i]) != '+',
        decoded(plus_as_zero(text)) is Ok && (forall|i: int|
            0 <= i < text.len() && i % 2 == 1 ==> (#[trigger] text[i]) != '+') ==> decoded(text)
            == decoded(plus_as_zero(text)),
{
    let plain = plus_as_zero(text);
    let utf8 = encode_utf8(text);
    let plain8 = encode_utf8(plain);
    if decoded(text) is Ok {
        assert forall|i: int| 0 <= i < utf8.len() implies (#[trigger] utf8[i]) < 0x80 by {
            assert(value_at(utf8, i / 2) is Some);
        }
        lemma_ascii_bytes_ascii_text(text);
    }
    if decoded(plain) is Ok {
        assert forall|i: int| 0 <= i < plain8.len() implies (#[trigger] plain8[i]) < 0x80 by {
            assert(value_at(plain8, i / 2) is Some);
        }
        lemma_ascii_bytes_ascii_text(plain);
        assert forall|i: int| 0 <= i < text.len() implies '\0' <= #[trigger] text[i] <= '\u{7f}' by {
            assert('\0' <= plain[i] <= '\u{7f}');
        }
    }
    if decoded(text) is Ok || decoded(plain) is Ok {
        assert forall|i: int| 0 <= i < plain.len() implies '\0' <= #[trigger] plain[i]
            <= '\u{7f}' by {
            assert('\0' <= text[i] <= '\u{7f}');
        }
        is_ascii_chars_encode_utf8(text);
        is_ascii_chars_encode_utf8(plain);
    }
    if decoded(text) is Ok {
        assert forall|i: int| 0 <= i < text.len() && i % 2 == 1 implies (#[trigger] text[i])
            != '+' by {
            assert(value_at(utf8, i / 2) is Some);
            assert(utf8[i] == text[i] as u8);
        }
    }
    if (decoded(text) is Ok || decoded(plain) is Ok) && forall|i: int|
        0 <= i < text.len() && i % 2 == 1 ==> (#[trigger] text[i]) != '+' {
        assert forall|k: int| 0 <= k < utf8.len() / 2 implies (#[trigger] value_at(utf8, k))
            == value_at(plain8, k) by {
            assert(utf8[2 * k] == text[2 * k] as u8);
            assert(utf8[2 * k + 1] == text[2 * k + 1] as u8);
            assert(plain8[2 * k] == plain[2 * k] as u8);
            assert(plain8[2 * k + 1] == plain[2 * k + 1] as u8);
            assert(text[2 * k + 1] != '+');
        }
        lemma_same_values_same_reading(text, plain);
    }
}

/// Texts of one length whose pairs have the same values are read alike.
proof fn lemma_same_values_same_reading(a: Seq<char>, b: Seq<char>)
    requires
        encode_utf8(a).len() == encode_utf8(b).len(),
        forall|k: int|
            0 <= k < encode_utf8(a).len() / 2 ==> (#[trigger] value_at(encode_utf8(a), k))
                == value_at(encode_utf8(b), k),
    ensures
        decoded(a) == decoded(b),
{
    let x = encode_utf8(a);
    let y = encode_utf8(b);
    assert(all_pairs_hex(x) == all_pairs_hex(y)) by {
        if all_pairs_hex(x) {
            assert forall|k: int| 0 <= k < y.len() / 2 implies (#[trigger] value_at(y, k))
                is Some by {
                assert(value_at(x, k) is Some);
            }
        }
    }
    assert(Seq::new(x.len() / 2, |k: int| value_at(x, k)->0) =~= Seq::new(
        y.len() / 2,
        |k: int| value_at(y, k)->0,
    )) by {
        assert forall|k: int| 0 <= k < x.len() / 2 implies value_at(x, k)->0 == value_at(
            y,
            k,
        )->0 by {
            assert(value_at(x, k) == value_at(y, k));
        }
    }
}

/// Reading fails for one of two reasons: an odd number of bytes, and then for that one, or an even
/// number with a pair that is no number.
pub proof fn reading_fails_for_its_reason(text: Seq<char>)
    ensures
        decoded(text) == Err::<Seq<u8>, ErrorKind>(ErrorKind::OddHexLength) <==> encode_utf8(
            text,
        ).len() % 2 == 1,
        decoded(text) is Err ==> decoded(text)->Err_0 is OddHexLength || decoded(text)->Err_0
            is InvalidHex,
        decoded(text) matches Ok(bytes) ==> 2 * bytes.len() == encode_utf8(text).len(),
{
}

} // verus!
