//! What texts, digits, numbers and sums are, character by character and entry by entry.

use vstd::arithmetic::power::{lemma_pow0, lemma_pow1, lemma_pow_adds, pow};
use vstd::prelude::*;
use vstd::utf8::{
    encode_utf8, encode_utf8_valid_utf8, is_ascii_chars, is_ascii_chars_encode_utf8,
    is_char_boundary, is_char_boundary_iff_not_is_continuation_byte,
    is_char_boundary_start_end_of_seq, is_continuation_byte,
};
use crate::hex::{
    cuttable, hex_digits, hex_digits_placed, marked_hex, nibble, normalised, pair, pairs_spell,
    spelt_bytes, unmarked,
};
use crate::ledger::{erc1155_sum, erc20_sum, ether_sum, LedgerModel};
use crate::round_trips::digits_are_small;
use crate::state::{place_fixed, place_found, StateModel};
use crate::text::{
    after, all_decimal, amount, bare, decimal, digit, excerpt, is_decimal, is_space,
    lowercased, padded, quotes_marked, spelt, trimmed, unsigned, without_leading_space,
    without_trailing_space,
};

verus! {

// ---- Texts ----

/// Whether a text holds nothing but whitespace.
pub open spec fn is_blank(text: Seq<char>) -> bool {
    forall|i: int| 0 <= i < text.len() ==> is_space(#[trigger] text[i])
}

proof fn leading_space_taken_off(text: Seq<char>) -> (lead: Seq<char>)
    ensures
        is_blank(lead),
        text == lead + without_leading_space(text),
        without_leading_space(text).len() > 0 ==> !is_space(without_leading_space(text)[0]),
    decreases text.len(),
{
    if text.len() > 0 && is_space(text[0]) {
        let rest = leading_space_taken_off(text.drop_first());
        let lead = seq![text[0]] + rest;
        assert(text =~= seq![text[0]] + text.drop_first());
        assert(seq![text[0]] + (rest + without_leading_space(text)) =~= lead
            + without_leading_space(text));
        lead
    } else {
        assert(text =~= Seq::<char>::empty() + text);
        Seq::empty()
    }
}

proof fn trailing_space_taken_off(text: Seq<char>) -> (trail: Seq<char>)
    ensures
        is_blank(trail),
        text == without_trailing_space(text) + trail,
        without_trailing_space(text).len() > 0 ==> !is_space(without_trailing_space(text).last()),
    decreases text.len(),
{
    if text.len() > 0 && is_space(text.last()) {
        let rest = trailing_space_taken_off(text.drop_last());
        let trail = rest.push(text.last());
        assert(text =~= text.drop_last().push(text.last()));
        assert((without_trailing_space(text) + rest).push(text.last()) =~= without_trailing_space(
            text,
        ) + trail);
        trail
    } else {
        assert(text =~= text + Seq::<char>::empty());
        Seq::empty()
    }
}

/// Trimming takes whitespace off both ends, all of it, and nothing else.
pub proof fn trimming_takes_the_ends_off(text: Seq<char>)
    ensures
        exists|lead: Seq<char>, trail: Seq<char>|
            is_blank(lead) && is_blank(trail) && text == #[trigger] (lead + trimmed(text) + trail),
        trimmed(text).len() > 0 ==> !is_space(trimmed(text)[0]) && !is_space(trimmed(text).last()),
{
    let middle = without_leading_space(text);
    let lead = leading_space_taken_off(text);
    let trail = trailing_space_taken_off(middle);
    assert(text =~= lead + trimmed(text) + trail);
    if trimmed(text).len() > 0 {
        assert(middle[0] == trimmed(text)[0]);
    }
}

/// Whitespace around a text that neither starts nor ends with any is taken off.
pub proof fn trimming_finds_the_text(lead: Seq<char>, text: Seq<char>, trail: Seq<char>)
    requires
        is_blank(lead),
        is_blank(trail),
        text.len() > 0 ==> !is_space(text[0]) && !is_space(text.last()),
    ensures
        trimmed(lead + text + trail) == text,
    decreases lead.len() + trail.len(),
{
    let whole = lead + text + trail;
    if lead.len() > 0 {
        assert(whole[0] == lead[0]);
        assert(whole.drop_first() =~= lead.drop_first() + text + trail);
        trimming_finds_the_text(lead.drop_first(), text, trail);
    } else if text.len() == 0 {
        assert(whole =~= trail);
        if trail.len() > 0 {
            assert(whole.drop_first() =~= Seq::<char>::empty() + text + trail.drop_first());
            trimming_finds_the_text(lead, text, trail.drop_first());
        } else {
            assert(whole =~= text);
        }
    } else {
        assert(whole[0] == text[0]);
        assert(without_leading_space(whole) == whole);
        if trail.len() > 0 {
            assert(whole.last() == trail.last());
            assert(whole.drop_last() =~= lead + text + trail.drop_last());
            trimming_finds_the_text(lead, text, trail.drop_last());
            assert(without_leading_space(whole.drop_last()) == whole.drop_last());
        } else {
            assert(whole =~= text);
        }
    }
}

/// A prefix is taken off where the text starts with it, and only there.
pub proof fn prefix_is_taken_off(text: Seq<char>, prefix: Seq<char>)
    ensures
        after(prefix + text, prefix) == Some(text),
        after(text, prefix) matches Some(rest) ==> text == prefix + rest,
        after(text, prefix) is Some <==> prefix.is_prefix_of(text),
{
    assert((prefix + text).take(prefix.len() as int) =~= prefix);
    assert((prefix + text).skip(prefix.len() as int) =~= text);
    if after(text, prefix) is Some {
        assert(text =~= prefix + text.skip(prefix.len() as int));
        assert(prefix.is_prefix_of(text));
    }
    if prefix.is_prefix_of(text) {
        assert(text.take(prefix.len() as int) =~= prefix);
    }
}

/// Every mark at the start of an address is taken off, and nothing else.
pub proof fn marks_are_taken_off(text: Seq<char>)
    ensures
        !"0x"@.is_prefix_of(bare(text)),
        bare("0x"@ + text) == bare(text),
        !"0x"@.is_prefix_of(text) ==> bare(text) == text,
    decreases text.len(),
{
    reveal_strlit("0x");
    let marked = "0x"@ + text;
    assert(marked[0] == '0' && marked[1] == 'x');
    assert(marked.skip(2) =~= text);
    if text.len() >= 2 && text[0] == '0' && text[1] == 'x' {
        marks_are_taken_off(text.skip(2));
        assert("0x"@.is_prefix_of(text));
    } else {
        assert(!"0x"@.is_prefix_of(text)) by {
            if "0x"@.is_prefix_of(text) {
                assert(text.subrange(0, 2) =~= "0x"@);
                assert(text[0] == text.subrange(0, 2)[0]);
                assert(text[1] == text.subrange(0, 2)[1]);
            }
        }
    }
}

/// A short text is filled up with zeros before it, a long one stays.
pub proof fn padding_fills_up(text: Seq<char>, width: nat)
    ensures
        padded(text, width).len() == (if text.len() < width {
            width
        } else {
            text.len()
        }),
        padded(text, width).skip(padded(text, width).len() - text.len()) == text,
        forall|i: int|
            0 <= i < padded(text, width).len() - text.len() ==> #[trigger] padded(text, width)[i]
                == '0',
{
    let p = padded(text, width);
    assert(p.skip(p.len() - text.len()) =~= text);
}

/// A token id is written as the mark, and behind it its own digits in small letters, filled up to
/// sixty-four with zeros.
pub proof fn token_id_is_filled_up(hex: Seq<char>)
    ensures
        "0x"@.is_prefix_of(normalised(hex)),
        normalised(hex).len() == (if lowercased(bare(hex)).len() < 64 {
            66nat
        } else {
            2 + lowercased(bare(hex)).len()
        }),
        normalised(hex).skip(normalised(hex).len() - lowercased(bare(hex)).len()) == lowercased(
            bare(hex),
        ),
        forall|i: int|
            2 <= i < normalised(hex).len() - lowercased(bare(hex)).len() ==> #[trigger] normalised(
                hex,
            )[i] == '0',
{
    reveal_strlit("0x");
    let small = lowercased(bare(hex));
    let n = normalised(hex);
    padding_fills_up(small, 64);
    assert("0x"@.len() == 2);
    assert(n.skip(n.len() - small.len()) =~= small);
    assert forall|i: int| 2 <= i < n.len() - small.len() implies #[trigger] n[i] == '0' by {
        assert(n[i] == padded(small, 64)[i - 2]);
    }
}

/// In ASCII text, a capital becomes the small letter thirty-two places on, and all else stays.
pub proof fn capitals_become_small(text: Seq<char>)
    requires
        is_ascii_chars(text),
    ensures
        lowercased(text).len() == text.len(),
        forall|i: int|
            0 <= i < text.len() ==> #[trigger] lowercased(text)[i] as int == (if 'A' <= text[i]
                <= 'Z' {
                text[i] as int + 32
            } else {
                text[i] as int
            }),
{
}

/// Of a refused text up to 120 characters are repeated, in order, with a backslash before each quotation
/// mark and nothing else added.
pub proof fn excerpt_repeats_the_start(text: Seq<char>, more: Seq<char>, c: char)
    ensures
        text.len() == 120 ==> excerpt(text + more) == excerpt(text),
        text.len() < 120 ==> excerpt(text.push(c)) == excerpt(text) + (if c == '"' {
            seq!['\\', '"']
        } else {
            seq![c]
        }),
        excerpt(Seq::empty()) == Seq::<char>::empty(),
{
    if text.len() == 120 {
        assert((text + more).take(120) =~= text);
        assert(text.take(120) =~= text);
    }
    if text.len() < 120 {
        let all = text.push(c);
        assert(all.take(all.len() as int) =~= all);
        assert(all.drop_last() =~= text);
        assert(text.take(text.len() as int) =~= text);
        assert(quotes_marked(all) =~= quotes_marked(text) + (if c == '"' {
            seq!['\\', '"']
        } else {
            seq![c]
        }));
    }
    assert(Seq::<char>::empty().take(0) =~= Seq::empty());
}

// ---- Hexadecimal digits ----

/// The sixteen digits are those that everybody knows. Small and capital ones are read alike, and
/// nothing else is a digit.
pub proof fn digits_are_the_known_ones(value: nat, b: u8)
    requires
        value < 16,
    ensures
        digit(value) == "0123456789abcdef"@[value as int],
        nibble(b) == Some(value as u8) <==> b == "0123456789abcdef"@[value as int] as u8 || b
            == "0123456789ABCDEF"@[value as int] as u8,
{
    reveal_strlit("0123456789abcdef");
    reveal_strlit("0123456789ABCDEF");
}

/// Bytes are written behind the mark, two digits each, the high one first.
pub proof fn bytes_are_written_in_order(bytes: Seq<u8>, i: int)
    requires
        0 <= i < bytes.len(),
    ensures
        marked_hex(bytes).len() == 2 + 2 * bytes.len(),
        marked_hex(bytes)[0] == '0',
        marked_hex(bytes)[1] == 'x',
        marked_hex(bytes)[2 + 2 * i] == "0123456789abcdef"@[bytes[i] as int / 16],
        marked_hex(bytes)[3 + 2 * i] == "0123456789abcdef"@[bytes[i] as int % 16],
{
    reveal_strlit("0x");
    hex_digits_placed(bytes);
    digits_are_the_known_ones((bytes[i] / 16) as nat, 0);
    digits_are_the_known_ones((bytes[i] % 16) as nat, 0);
    assert(hex_digits(bytes)[2 * i] == digit((bytes[i] / 16) as nat));
    assert(marked_hex(bytes)[2 + 2 * i] == hex_digits(bytes)[2 * i]);
    assert(marked_hex(bytes)[3 + 2 * i] == hex_digits(bytes)[2 * i + 1]);
}

/// Digits are read in either case, with the mark and without.
pub proof fn digits_are_read_in_either_case(text: Seq<char>, bytes: Seq<u8>)
    requires
        is_ascii_chars(text),
        lowercased(text) == hex_digits(bytes),
    ensures
        spelt_bytes(unmarked(text)) == Some(bytes),
        spelt_bytes(unmarked("0x"@ + text)) == Some(bytes),
{
    let digits = hex_digits(bytes);
    hex_digits_placed(bytes);
    digits_are_small(bytes);
    capitals_become_small(text);
    is_ascii_chars_encode_utf8(text);
    reveal_strlit("0x");
    assert(("0x"@ + text).take("0x"@.len() as int) =~= "0x"@);
    assert(("0x"@ + text).skip("0x"@.len() as int) =~= text);
    if after(text, "0x"@) is Some {
        assert(text.take(2)[1] == 'x');
        assert(text[1] == 'x');
        assert(lowercased(text)[1] == 'x');
        assert(digits.contains(digits[1]));
    }
    let b = encode_utf8(text);
    assert forall|i: int| 0 <= i < bytes.len() implies #[trigger] pair(b[2 * i], b[2 * i + 1])
        == Some(bytes[i]) by {
        assert(digits[2 * i] == digit((bytes[i] / 16) as nat));
        assert(digits[2 * i + 1] == digit((bytes[i] % 16) as nat));
        assert(lowercased(text)[2 * i] == digits[2 * i]);
        assert(lowercased(text)[2 * i + 1] == digits[2 * i + 1]);
        assert(b[2 * i] == text[2 * i] as u8);
        assert(b[2 * i + 1] == text[2 * i + 1] as u8);
    }
    assert(spelt_bytes(b)->0 =~= bytes);
}

/// One mark is taken off the start of a payload, and no more.
pub proof fn one_mark_is_taken_off(text: Seq<char>)
    ensures
        unmarked("0x"@ + text) == encode_utf8(text),
        !"0x"@.is_prefix_of(text) ==> unmarked(text) == encode_utf8(text),
{
    prefix_is_taken_off(text, "0x"@);
}

/// Bytes are spelt by pairs of digits alone; a digit may stand behind a plus sign.
pub proof fn only_pairs_of_digits_spell(text: Seq<u8>, i: int)
    ensures
        spelt_bytes(text) matches Some(bytes) ==> text.len() == 2 * bytes.len(),
        spelt_bytes(text) is Some && 0 <= i && 2 * i + 1 < text.len() ==> nibble(text[2 * i + 1])
            is Some && (nibble(text[2 * i]) is Some || text[2 * i] == '+' as u8),
        text.len() % 2 == 1 ==> spelt_bytes(text) is None,
{
    if spelt_bytes(text) is Some && 0 <= i && 2 * i + 1 < text.len() {
        assert(pair(text[2 * i], text[2 * i + 1]) is Some);
    }
}

/// A text is cut into pairs of bytes, one after the other as long as they spell bytes. It can be cut
/// where no such cut falls inside a character; so ASCII text always can.
pub proof fn cuts_fall_between_characters(hex: Seq<char>)
    ensures
        cuttable(hex) <==> (unmarked(hex).len() % 2 == 1 || forall|i: int|
            0 <= i && 2 * i + 2 <= unmarked(hex).len() && (forall|j: int|
                0 <= j < i ==> (#[trigger] pair(
                    unmarked(hex)[2 * j],
                    unmarked(hex)[2 * j + 1],
                )) is Some) ==> #[trigger] is_char_boundary(unmarked(hex), 2 * i + 2)),
        is_ascii_chars(hex) ==> cuttable(hex),
{
    let text = unmarked(hex);
    encode_utf8_valid_utf8(hex);
    if let Some(rest) = after(hex, "0x"@) {
        encode_utf8_valid_utf8(rest);
    }
    is_char_boundary_start_end_of_seq(text);
    assert forall|i: int| 0 <= i < text.len() implies #[trigger] is_char_boundary(text, i)
        == !is_continuation_byte(text[i]) by {
        is_char_boundary_iff_not_is_continuation_byte(text, i);
    }
    if text.len() % 2 == 0 {
        if cuttable(hex) {
            assert forall|i: int|
                0 <= i && 2 * i + 2 <= text.len() && (forall|j: int|
                    0 <= j < i ==> (#[trigger] pair(text[2 * j], text[2 * j + 1]))
                        is Some) implies #[trigger] is_char_boundary(text, 2 * i + 2) by {
                assert(pairs_spell(text, i));
                if 2 * i + 2 < text.len() {
                    assert(!is_continuation_byte(text[2 * i + 2]));
                }
            }
        }
        if forall|i: int|
            0 <= i && 2 * i + 2 <= text.len() && (forall|j: int|
                0 <= j < i ==> (#[trigger] pair(text[2 * j], text[2 * j + 1])) is Some)
                ==> #[trigger] is_char_boundary(text, 2 * i + 2) {
            assert forall|i: int|
                0 <= i && 2 * i + 2 < text.len() && #[trigger] pairs_spell(
                    text,
                    i,
                ) implies !is_continuation_byte(text[2 * i + 2]) by {
                assert(is_char_boundary(text, 2 * i + 2));
            }
        }
    }
    if is_ascii_chars(hex) {
        let rest = match after(hex, "0x"@) {
            Some(rest) => rest,
            None => hex,
        };
        assert(is_ascii_chars(rest)) by {
            assert forall|i: int| 0 <= i < rest.len() implies '\0' <= #[trigger] rest[i] <= '\u{7f}' by {
                if after(hex, "0x"@) is Some {
                    assert(rest[i] == hex[i + "0x"@.len()]);
                }
            }
        }
        is_ascii_chars_encode_utf8(rest);
        assert forall|i: int| 0 <= i < text.len() implies #[trigger] text[i] < 0x80 by {
            assert(text[i] == rest[i] as u8);
        }
    }
}

// ---- Numbers ----

/// The number that decimal digits stand for: each counts as often as its place says.
pub open spec fn place_value(digits: Seq<char>) -> int
    decreases digits.len(),
{
    if digits.len() == 0 {
        0
    } else {
        (digits[0] as int - '0' as int) * pow(10, (digits.len() - 1) as nat) + place_value(
            digits.drop_first(),
        )
    }
}

/// Whether a text holds nothing but decimal digits, and at least one.
pub open spec fn is_number(digits: Seq<char>) -> bool {
    digits.len() > 0 && forall|i: int|
        0 <= i < digits.len() ==> '0' <= #[trigger] digits[i] && digits[i] <= '9'
}

proof fn place_value_grows(digits: Seq<char>)
    requires
        is_number(digits),
    ensures
        place_value(digits) == spelt(digits),
    decreases digits.len(),
{
    let rest = digits.drop_last();
    let last = digits.last();
    if rest.len() == 0 {
        lemma_pow0(10);
        assert(digits.drop_first() =~= Seq::empty());
        assert(rest =~= Seq::empty());
        assert(spelt(rest) == 0 && place_value(digits.drop_first()) == 0);
        assert(place_value(digits) == (digits[0] as int - 48) * pow(10, 0));
    } else {
        assert(is_number(rest)) by {
            assert forall|i: int| 0 <= i < rest.len() implies '0' <= #[trigger] rest[i] && rest[i]
                <= '9' by {
                assert(rest[i] == digits[i]);
            }
        }
        place_value_grows(rest);
        place_value_pushed(rest, last);
        assert(digits =~= rest.push(last));
        assert(is_decimal(last));
    }
}

proof fn place_value_pushed(digits: Seq<char>, c: char)
    ensures
        place_value(digits.push(c)) == place_value(digits) * 10 + (c as int - '0' as int),
    decreases digits.len(),
{
    let all = digits.push(c);
    if digits.len() == 0 {
        lemma_pow0(10);
        assert(all.drop_first() =~= Seq::empty());
        assert(place_value(digits) == 0 && place_value(all.drop_first()) == 0);
        assert(place_value(all) == (c as int - 48) * pow(10, 0));
    } else {
        let rest = digits.drop_first();
        place_value_pushed(rest, c);
        assert(all.drop_first() =~= rest.push(c));
        let d = digits[0] as int - 48;
        let n = (digits.len() - 1) as nat;
        lemma_pow_adds(10, n, 1);
        lemma_pow1(10);
        assert(pow(10, n + 1) == pow(10, n) * 10);
        let p = pow(10, n);
        assert(d * (p * 10) == (d * p) * 10) by (nonlinear_arith);
    }
}

proof fn decimal_is_number(n: nat)
    ensures
        is_number(decimal(n)),
        spelt(decimal(n)) == n,
        n >= 1 ==> decimal(n)[0] != '0',
    decreases n,
{
    reveal_with_fuel(spelt, 2);
    if n < 10 {
        assert(decimal(n).drop_last() =~= Seq::empty());
    } else {
        decimal_is_number(n / 10);
        assert(decimal(n).drop_last() =~= decimal(n / 10));
        assert(decimal(n)[0] == decimal(n / 10)[0]);
    }
}

/// A number is written in decimal digits that stand for it, without leading zeros.
pub proof fn decimal_stands_for_the_number(n: nat)
    ensures
        is_number(decimal(n)),
        place_value(decimal(n)) == n,
        decimal(n).len() > 1 ==> decimal(n)[0] != '0',
{
    decimal_is_number(n);
    place_value_grows(decimal(n));
}

/// An amount is read from decimal digits, with a plus sign before them or without, where a `u128` can
/// hold what they stand for, and from nothing else.
pub proof fn amount_is_what_the_digits_stand_for(digits: Seq<char>, text: Seq<char>)
    ensures
        is_number(digits) && place_value(digits) <= u128::MAX ==> amount(digits) == Some(
            place_value(digits) as u128,
        ) && amount(seq!['+'] + digits) == Some(place_value(digits) as u128),
        is_number(digits) && place_value(digits) > u128::MAX ==> amount(digits) is None && amount(
            seq!['+'] + digits,
        ) is None,
        amount(text) is Some ==> is_number(text) || text.len() > 0 && text[0] == '+' && is_number(
            text.drop_first(),
        ),
{
    if is_number(digits) {
        place_value_grows(digits);
        assert(digits[0] != '+');
        assert((seq!['+'] + digits).drop_first() =~= digits);
        assert(all_decimal(digits));
    }
    if amount(text) is Some {
        let d = unsigned(text);
        assert forall|i: int| 0 <= i < d.len() implies '0' <= #[trigger] d[i] && d[i] <= '9' by {
            assert(is_decimal(d[i]));
        }
    }
}

// ---- Sums and students ----

/// A ledger without entries adds up to nothing.
pub proof fn empty_ledger_adds_up_to_nothing(token: Seq<char>, token_id: Seq<char>)
    ensures
        ether_sum(Seq::empty()) == 0,
        erc20_sum(Seq::empty(), token) == 0,
        erc1155_sum(Seq::empty(), token, token_id) == 0,
        LedgerModel::empty() == (LedgerModel {
            ether: Seq::empty(),
            erc20: Seq::empty(),
            erc721: Seq::empty(),
            erc1155: Seq::empty(),
        }),
{
}

/// Every student is found under the own wallet, and nobody under any other.
pub proof fn every_student_is_found(state: StateModel, wallet: Seq<char>)
    requires
        state.wallets_differ(),
    ensures
        forall|i: int|
            0 <= i < state.students.len() && (#[trigger] state.students[i]).wallet_address == wallet
                ==> state.student(wallet) == Some(state.students[i]),
        (forall|i: int|
            0 <= i < state.students.len() ==> (#[trigger] state.students[i]).wallet_address
                != wallet) ==> state.student(wallet) is None,
{
    let students = state.students;
    place_found(students, wallet);
    assert forall|i: int|
        0 <= i < students.len() && (#[trigger] students[i]).wallet_address
            == wallet implies state.student(wallet) == Some(students[i]) by {
        place_fixed(students, wallet, i);
    }
}

/// A sound state holds no wallet twice, and no student of it took out more than came in, of anything.
pub proof fn sound_states_are_solvent(
    state: StateModel,
    i: int,
    j: int,
    token: Seq<char>,
    token_id: Seq<char>,
)
    requires
        state.sound(),
        0 <= i < j < state.students.len(),
    ensures
        state.students[i].wallet_address != state.students[j].wallet_address,
        ether_sum(state.students[i].withdrawals.ether) <= ether_sum(
            state.students[i].deposits.ether,
        ),
        erc20_sum(state.students[i].withdrawals.erc20, token) <= erc20_sum(
            state.students[i].deposits.erc20,
            token,
        ),
        erc1155_sum(state.students[i].withdrawals.erc1155, token, token_id) <= erc1155_sum(
            state.students[i].deposits.erc1155,
            token,
            token_id,
        ),
        state.students[i].withdrawals.erc721.contains((token, token_id))
            ==> state.students[i].deposits.erc721.contains((token, token_id)),
        state.students[i].withdrawals.erc721.no_duplicates(),
{
    let student = state.students[i];
    assert(student.solvent());
}

} // verus!
