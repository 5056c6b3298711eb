//! Bytes as hexadecimal digits, and the fields of a payload.

use vstd::prelude::*;
use vstd::utf8::{encode_utf8, is_continuation_byte};
use crate::text::{after, bare, digit, digit_of, lowercase, lowercased, pad, padded, strip_marks, strip_prefix};

verus! {

/// The value of a hexadecimal digit, given as its ASCII byte.
pub open spec fn nibble(b: u8) -> Option<u8> {
    if 0x30 <= b <= 0x39 {
        Some((b - 0x30) as u8)
    } else if 0x61 <= b <= 0x66 {
        Some((b - 0x57) as u8)
    } else if 0x41 <= b <= 0x46 {
        Some((b - 0x37) as u8)
    } else {
        None
    }
}

/// The byte that a pair of ASCII bytes spells: two hexadecimal digits, or one behind a plus sign.
pub open spec fn pair(first: u8, second: u8) -> Option<u8> {
    match (nibble(first), nibble(second)) {
        (Some(high), Some(low)) => Some((high * 16 + low) as u8),
        (None, Some(low)) => if first == 0x2b {
            Some(low)
        } else {
            None
        },
        _ => None,
    }
}

/// Whether the first `n` pairs of bytes each spell a byte.
pub open spec fn pairs_spell(text: Seq<u8>, n: int) -> bool {
    forall|i: int| 0 <= i < n ==> (#[trigger] pair(text[2 * i], text[2 * i + 1])) is Some
}

/// The bytes that pairs of hexadecimal digits spell, where all of them do.
pub open spec fn spelt_bytes(text: Seq<u8>) -> Option<Seq<u8>> {
    if text.len() % 2 == 0 && pairs_spell(text, text.len() as int / 2) {
        Some(Seq::new((text.len() / 2) as nat, |i: int| pair(text[2 * i], text[2 * i + 1])->0))
    } else {
        None
    }
}

/// The bytes of a text, without the mark `0x` at its start.
pub open spec fn unmarked(hex: Seq<char>) -> Seq<u8> {
    match after(hex, "0x"@) {
        Some(rest) => encode_utf8(rest),
        None => encode_utf8(hex),
    }
}

/// Whether a text can be cut into pairs of bytes as far as the pairs spell bytes: no cut that is
/// reached falls inside a character. A text of an odd number of bytes is not cut at all.
pub open spec fn cuttable(hex: Seq<char>) -> bool {
    let text = unmarked(hex);
    text.len() % 2 == 0 ==> forall|i: int|
        0 <= i && 2 * i + 2 < text.len() && #[trigger] pairs_spell(text, i)
            ==> !is_continuation_byte(text[2 * i + 2])
}

fn nibble_of(b: u8) -> (r: Option<u8>)
    ensures
        r == nibble(b),
{
    if 0x30 <= b && b <= 0x39 {
        Some(b - 0x30)
    } else if 0x61 <= b && b <= 0x66 {
        Some(b - 0x57)
    } else if 0x41 <= b && b <= 0x46 {
        Some(b - 0x37)
    } else {
        None
    }
}

fn pair_of(first: u8, second: u8) -> (r: Option<u8>)
    ensures
        r == pair(first, second),
{
    match nibble_of(second) {
        None => None,
        Some(low) => match nibble_of(first) {
            Some(high) => Some(high * 16 + low),
            None => if first == 0x2b {
                Some(low)
            } else {
                None
            },
        },
    }
}

/// Tells whether `hex_to_bytes` may be given the text.
pub fn is_cuttable(hex: &str) -> (r: bool)
    ensures
        r == cuttable(hex@),
{
    let rest = match strip_prefix(hex, "0x") {
        Some(rest) => rest,
        None => hex.to_owned(),
    };
    let text = rest.as_str().as_bytes();
    assert(text@ == unmarked(hex@));
    if text.len() % 2 != 0 {
        return true;
    }
    let mut at: usize = 0;
    while at < text.len()
        invariant
            at % 2 == 0,
            at <= text@.len(),
            text@.len() % 2 == 0,
            text@ == unmarked(hex@),
            pairs_spell(text@, at as int / 2),
            forall|i: int|
                0 <= i < at as int / 2 && 2 * i + 2 < text@.len() && #[trigger] pairs_spell(text@, i)
                    ==> !is_continuation_byte(text@[2 * i + 2]),
        decreases text@.len() - at,
    {
        let ghost k = at as int / 2;
        if at + 2 < text.len() && 0x80 <= text[at + 2] && text[at + 2] <= 0xbf {
            assert(pairs_spell(text@, k) && is_continuation_byte(text@[2 * k + 2]));
            return false;
        }
        if pair_of(text[at], text[at + 1]).is_none() {
            assert forall|i: int|
                0 <= i && 2 * i + 2 < text@.len() && #[trigger] pairs_spell(
                    text@,
                    i,
                ) implies !is_continuation_byte(text@[2 * i + 2]) by {
                if i > k {
                    assert(pair(text@[2 * k], text@[2 * k + 1]) is Some);
                }
            }
            return true;
        }
        at = at + 2;
    }
    true
}

/// Reads the bytes that a text spells in hexadecimal digits, with or without the mark `0x`.
pub fn hex_to_bytes(hex: &str) -> (r: Option<Vec<u8>>)
    requires
        cuttable(hex@),
    ensures
        r.deep_view() == spelt_bytes(unmarked(hex@)),
{
    let rest = match strip_prefix(hex, "0x") {
        Some(rest) => rest,
        None => hex.to_owned(),
    };
    let text = rest.as_str().as_bytes();
    assert(text@ == unmarked(hex@));
    if text.len() % 2 != 0 {
        return None;
    }
    let mut bytes: Vec<u8> = Vec::new();
    let mut at: usize = 0;
    while at < text.len()
        invariant
            at % 2 == 0,
            at <= text@.len(),
            text@.len() % 2 == 0,
            text@ == unmarked(hex@),
            pairs_spell(text@, at as int / 2),
            bytes@.len() == at as int / 2,
            forall|i: int|
                0 <= i < at as int / 2 ==> #[trigger] bytes@[i] == pair(
                    text@[2 * i],
                    text@[2 * i + 1],
                )->0,
        decreases text@.len() - at,
    {
        let ghost k = at as int / 2;
        assert(2 * k == at);
        match pair_of(text[at], text[at + 1]) {
            Some(byte) => {
                bytes.push(byte);
            },
            None => {
                assert(pair(text@[2 * k], text@[2 * k + 1]) is None);
                return None;
            },
        }
        at = at + 2;
    }
    assert(bytes.deep_view() =~= spelt_bytes(text@)->0);
    Some(bytes)
}

/// The bytes, two small hexadecimal digits for each.
pub open spec fn hex_digits(bytes: Seq<u8>) -> Seq<char>
    decreases bytes.len(),
{
    if bytes.len() == 0 {
        Seq::empty()
    } else {
        hex_digits(bytes.drop_last()).push(digit((bytes.last() / 16) as nat)).push(
            digit((bytes.last() % 16) as nat),
        )
    }
}

/// Two digits stand for each byte, the higher one first.
pub proof fn hex_digits_placed(bytes: Seq<u8>)
    ensures
        hex_digits(bytes).len() == 2 * bytes.len(),
        forall|i: int|
            0 <= i < bytes.len() ==> {
                &&& #[trigger] hex_digits(bytes)[2 * i] == digit((bytes[i] / 16) as nat)
                &&& hex_digits(bytes)[2 * i + 1] == digit((bytes[i] % 16) as nat)
            },
    decreases bytes.len(),
{
    if bytes.len() > 0 {
        let rest = bytes.drop_last();
        hex_digits_placed(rest);
        assert forall|i: int| 0 <= i < bytes.len() implies {
            &&& #[trigger] hex_digits(bytes)[2 * i] == digit((bytes[i] / 16) as nat)
            &&& hex_digits(bytes)[2 * i + 1] == digit((bytes[i] % 16) as nat)
        } by {
            if i < rest.len() {
                assert(hex_digits(rest)[2 * i] == digit((rest[i] / 16) as nat));
            }
        }
    }
}

/// The bytes as marked hexadecimal digits.
pub open spec fn marked_hex(bytes: Seq<u8>) -> Seq<char> {
    "0x"@ + hex_digits(bytes)
}

/// Writes the bytes from one place to another as marked hexadecimal digits.
fn write_hex(bytes: &[u8], from: usize, to: usize) -> (r: String)
    requires
        from <= to <= bytes@.len(),
    ensures
        r@ == marked_hex(bytes@.subrange(from as int, to as int)),
{
    let mut r = "0x".to_owned();
    let mut i: usize = from;
    assert(r@ =~= marked_hex(bytes@.subrange(from as int, from as int)));
    while i < to
        invariant
            from <= i <= to <= bytes@.len(),
            r@ == marked_hex(bytes@.subrange(from as int, i as int)),
        decreases to - i,
    {
        r.push(digit_of(bytes[i] / 16));
        r.push(digit_of(bytes[i] % 16));
        i = i + 1;
        proof {
            let cut = bytes@.subrange(from as int, i as int);
            assert(cut.drop_last() =~= bytes@.subrange(from as int, i - 1));
            assert(r@ =~= marked_hex(cut));
        }
    }
    r
}

/// Reads the address of twenty bytes at an offset.
pub fn extract_address(bytes: &[u8], offset: usize) -> (r: Option<String>)
    requires
        offset + 20 <= usize::MAX,
    ensures
        r.deep_view() == address_at(bytes@, offset as int),
{
    if bytes.len() < offset + 20 {
        return None;
    }
    Some(write_hex(bytes, offset, offset + 20))
}

/// The address of twenty bytes at an offset, where there are as many.
pub open spec fn address_at(bytes: Seq<u8>, offset: int) -> Option<Seq<char>> {
    if bytes.len() < offset + 20 {
        None
    } else {
        Some(marked_hex(bytes.subrange(offset, offset + 20)))
    }
}

/// The number that bytes spell, the most significant one first.
pub open spec fn big_endian(bytes: Seq<u8>) -> nat
    decreases bytes.len(),
{
    if bytes.len() == 0 {
        0
    } else {
        big_endian(bytes.drop_last()) * 256 + bytes.last() as nat
    }
}

/// The low sixteen bytes of the number of thirty-two bytes at an offset, where there are as many.
pub open spec fn low_number_at(bytes: Seq<u8>, offset: int) -> Option<u128> {
    if bytes.len() < offset + 32 {
        None
    } else {
        Some(big_endian(bytes.subrange(offset + 16, offset + 32)) as u128)
    }
}

/// The number that many bytes can spell stays below.
pub open spec fn power_256(n: nat) -> nat
    decreases n,
{
    if n == 0 {
        1
    } else {
        256 * power_256((n - 1) as nat)
    }
}

/// So many bytes spell a number below that power of 256.
pub proof fn big_endian_bounded(bytes: Seq<u8>)
    ensures
        big_endian(bytes) < power_256(bytes.len()),
    decreases bytes.len(),
{
    if bytes.len() > 0 {
        big_endian_bounded(bytes.drop_last());
    }
}

/// Sixteen bytes at the most spell a number that a `u128` can hold.
pub proof fn sixteen_bytes_fit(bytes: Seq<u8>)
    requires
        bytes.len() <= 16,
    ensures
        big_endian(bytes) <= u128::MAX,
{
    big_endian_bounded(bytes);
    assert(power_256(16) == 0x1_0000_0000_0000_0000_0000_0000_0000_0000) by {
        reveal_with_fuel(power_256, 17);
    }
    power_256_grows(bytes.len(), 16);
}

proof fn power_256_grows(a: nat, b: nat)
    requires
        a <= b,
    ensures
        power_256(a) <= power_256(b),
    decreases b,
{
    if a < b {
        power_256_grows(a, (b - 1) as nat);
    }
}

/// Reads the low sixteen bytes of the number of thirty-two bytes at an offset.
pub fn extract_u128(bytes: &[u8], offset: usize) -> (r: Option<u128>)
    requires
        offset + 32 <= usize::MAX,
    ensures
        r == low_number_at(bytes@, offset as int),
{
    if bytes.len() < offset + 32 {
        return None;
    }
    let mut value: u128 = 0;
    let mut i: usize = offset + 16;
    let end: usize = offset + 32;
    while i < end
        invariant
            end == offset + 32,
            offset + 16 <= i <= end <= bytes@.len(),
            value == big_endian(bytes@.subrange(offset + 16, i as int)),
        decreases end - i,
    {
        proof {
            let next = bytes@.subrange(offset + 16, i + 1);
            assert(next.drop_last() =~= bytes@.subrange(offset + 16, i as int));
            sixteen_bytes_fit(next);
        }
        value = value * 256 + bytes[i] as u128;
        i = i + 1;
    }
    Some(value)
}

/// The number of thirty-two bytes at an offset in marked hexadecimal digits, where there are as many.
pub open spec fn number_text_at(bytes: Seq<u8>, offset: int) -> Option<Seq<char>> {
    if bytes.len() < offset + 32 {
        None
    } else {
        Some(marked_hex(bytes.subrange(offset, offset + 32)))
    }
}

/// Reads the number of thirty-two bytes at an offset in hexadecimal digits.
pub fn extract_uint256_hex(bytes: &[u8], offset: usize) -> (r: Option<String>)
    requires
        offset + 32 <= usize::MAX,
    ensures
        r.deep_view() == number_text_at(bytes@, offset as int),
{
    if bytes.len() < offset + 32 {
        return None;
    }
    Some(write_hex(bytes, offset, offset + 32))
}

/// The bytes from a place on in marked hexadecimal digits: the mark alone where there are none.
pub open spec fn rest_text(bytes: Seq<u8>, from: nat) -> Seq<char> {
    if bytes.len() <= from {
        "0x"@
    } else {
        marked_hex(bytes.skip(from as int))
    }
}

/// Reads the bytes from a place on in hexadecimal digits.
pub fn extract_trailing_hex(bytes: &[u8], from: usize) -> (r: String)
    ensures
        r@ == rest_text(bytes@, from as nat),
{
    if bytes.len() <= from {
        return "0x".to_owned();
    }
    assert(bytes@.skip(from as int) =~= bytes@.subrange(from as int, bytes@.len() as int));
    write_hex(bytes, from, bytes.len())
}

/// A text as the marked hexadecimal digits of its bytes.
pub open spec fn payload_of(text: Seq<char>) -> Seq<char> {
    marked_hex(encode_utf8(text))
}

/// Writes a text as the hexadecimal digits of its bytes.
pub fn str_to_hex_payload(s: &str) -> (r: String)
    ensures
        r@ == payload_of(s@),
{
    let bytes = s.as_bytes();
    assert(bytes@.subrange(0, bytes@.len() as int) =~= bytes@);
    write_hex(bytes, 0, bytes.len())
}

/// A number of hexadecimal digits in small letters, at least sixty-four of them.
pub open spec fn sixty_four(hex: Seq<char>) -> Seq<char> {
    padded(lowercased(bare(hex)), 64)
}

/// The one way in which a token id is written: marked, in small letters, at least sixty-four digits.
pub open spec fn normalised(hex: Seq<char>) -> Seq<char> {
    "0x"@ + sixty_four(hex)
}

/// Brings a token id into the one way in which token ids are written.
pub fn normalise_uint256(hex: &str) -> (r: String)
    ensures
        r@ == normalised(hex@),
{
    let mut r = "0x".to_owned();
    r.append(pad(lowercase(strip_marks(hex).as_str()).as_str(), 64).as_str());
    r
}

} // verus!
