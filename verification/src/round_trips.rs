//! What is written can be read again.

use vstd::prelude::*;
use vstd::utf8::{
    encode_utf8, encode_utf8_decode_utf8, encode_utf8_valid_utf8, is_ascii_chars,
    is_ascii_chars_encode_utf8,
};
use crate::abi::{
    address_word, erc1155_call, erc20_call, erc721_call, ether_call, last_digits, number_word,
    ADDRESS_PADDING, DATA_OFFSET, SEL_ERC1155_SAFE_TRANSFER, SEL_ERC20_TRANSFER,
    SEL_ERC721_SAFE_TRANSFER, SEL_ETHER_WITHDRAW,
};
use crate::decision::{
    deposit_decision, payload_text, DecisionModel, DepositModel, Portal, RefusalModel,
};
use crate::document::{empty_object, member_put_and_found, Json};
use crate::hex::{
    address_at, big_endian, cuttable, hex_digits, hex_digits_placed, low_number_at, marked_hex, nibble,
    normalised, number_text_at, pair, payload_of, power_256, rest_text, sixty_four, spelt_bytes, unmarked,
};
use crate::inspect::{route_in, wallet_of};
use crate::ledger::AssetModel;
use crate::message::EmissionModel;
use crate::text::{
    all_decimal, amount, bare, decimal, digit, is_decimal, lowercased, padded, spelt, trimmed,
    unsigned,
};

verus! {

// ---- Bytes ----

/// A digit has its value back as an ASCII byte, and is a small one.
proof fn digit_reads_back(value: nat)
    requires
        value < 16,
    ensures
        nibble(digit(value) as u8) == Some(value as u8),
        '\0' <= digit(value) <= '\u{7f}',
        !('A' <= digit(value) <= 'Z'),
        digit(value) != 'x',
{
}

/// What is written for bytes are small ASCII digits; the mark `x` is not among them.
pub proof fn digits_are_small(bytes: Seq<u8>)
    ensures
        is_ascii_chars(hex_digits(bytes)),
        lowercased(hex_digits(bytes)) == hex_digits(bytes),
        !hex_digits(bytes).contains('x'),
{
    let digits = hex_digits(bytes);
    hex_digits_placed(bytes);
    assert forall|i: int| 0 <= i < digits.len() implies {
        &&& '\0' <= #[trigger] digits[i] <= '\u{7f}'
        &&& !('A' <= digits[i] <= 'Z')
        &&& digits[i] != 'x'
    } by {
        let k = i / 2;
        assert(digits[2 * k] == digit((bytes[k] / 16) as nat));
        digit_reads_back((bytes[k] / 16) as nat);
        digit_reads_back((bytes[k] % 16) as nat);
    }
    assert(lowercased(digits) =~= digits);
}

/// Bytes that are written as marked hexadecimal digits are read again, and the text can be cut.
pub proof fn bytes_read_back(bytes: Seq<u8>)
    ensures
        cuttable(marked_hex(bytes)),
        spelt_bytes(unmarked(marked_hex(bytes))) == Some(bytes),
{
    let digits = hex_digits(bytes);
    hex_digits_placed(bytes);
    digits_are_small(bytes);
    is_ascii_chars_encode_utf8(digits);
    assert(marked_hex(bytes).take("0x"@.len() as int) =~= "0x"@);
    assert(marked_hex(bytes).skip("0x"@.len() as int) =~= digits);
    let text = encode_utf8(digits);
    assert(text == unmarked(marked_hex(bytes)));
    assert forall|i: int| 0 <= i < bytes.len() implies #[trigger] pair(text[2 * i], text[2 * i + 1])
        == Some(bytes[i]) by {
        assert(digits[2 * i] == digit((bytes[i] / 16) as nat));
        digit_reads_back((bytes[i] / 16) as nat);
        digit_reads_back((bytes[i] % 16) as nat);
        assert(text[2 * i] == digits[2 * i] as u8);
        assert(text[2 * i + 1] == digits[2 * i + 1] as u8);
    }
    assert forall|i: int| 0 <= i < text.len() implies #[trigger] text[i] < 0x80 by {
        assert(text[i] == digits[i] as u8);
    }
    assert(spelt_bytes(text)->0 =~= bytes);
}

/// A text that is written as a payload is read again, as the text of an action and as a route.
pub proof fn text_reads_back(text: Seq<char>)
    ensures
        payload_text(payload_of(text)) == Ok::<Seq<char>, RefusalModel>(text),
        route_in(payload_of(text)) == trimmed(text),
{
    bytes_read_back(encode_utf8(text));
    encode_utf8_valid_utf8(text);
    encode_utf8_decode_utf8(text);
}

/// The text of a notice or of a report can be read from the document in which it is sent.
pub proof fn sent_text_reads_back(emission: EmissionModel)
    ensures
        emission matches EmissionModel::Notice { payload } ==> {
            &&& emission.document().member("payload"@) matches Json::Text(sent)
            &&& payload_text(sent) == Ok::<Seq<char>, RefusalModel>(payload)
        },
        emission matches EmissionModel::Report { payload, .. } ==> {
            &&& emission.document().member("payload"@) matches Json::Text(sent)
            &&& payload_text(sent) == Ok::<Seq<char>, RefusalModel>(payload)
        },
{
    match emission {
        EmissionModel::Notice { payload } => {
            text_reads_back(payload);
            member_put_and_found(
                empty_object(),
                "payload"@,
                Json::Text(payload_of(payload)),
                Seq::empty(),
            );
        },
        EmissionModel::Report { payload, .. } => {
            text_reads_back(payload);
            member_put_and_found(
                empty_object(),
                "payload"@,
                Json::Text(payload_of(payload)),
                Seq::empty(),
            );
        },
        EmissionModel::Voucher { .. } => {},
    }
}

// ---- Amounts ----

proof fn decimal_spells(n: nat)
    ensures
        decimal(n).len() > 0,
        all_decimal(decimal(n)),
        spelt(decimal(n)) == n,
    decreases n,
{
    reveal_with_fuel(spelt, 2);
    if n < 10 {
        assert(decimal(n).drop_last() =~= Seq::empty());
    } else {
        decimal_spells(n / 10);
        assert(decimal(n).drop_last() =~= decimal(n / 10));
        assert(decimal(n).last() == digit(n % 10));
        assert(decimal(n) =~= decimal(n / 10).push(digit(n % 10)));
    }
}

/// An amount that is written in decimal digits is read again.
pub proof fn amount_reads_back(n: u128)
    ensures
        amount(decimal(n as nat)) == Some(n),
{
    decimal_spells(n as nat);
    let digits = decimal(n as nat);
    assert(is_decimal(digits[0]));
    assert(unsigned(digits) == digits);
}

// ---- Numbers and addresses ----

/// The last `n` bytes of a number, the most significant one first.
pub open spec fn last_bytes(value: nat, n: nat) -> Seq<u8>
    decreases n,
{
    if n == 0 {
        Seq::empty()
    } else {
        last_bytes(value / 256, (n - 1) as nat).push((value % 256) as u8)
    }
}

/// A number as a word of thirty-two bytes.
pub open spec fn word(value: u128) -> Seq<u8> {
    last_bytes(value as nat, 32)
}

proof fn digits_of_last_bytes(value: nat, n: nat)
    ensures
        last_bytes(value, n).len() == n,
        last_digits(value, 2 * n) == hex_digits(last_bytes(value, n)),
    decreases n,
{
    if n > 0 {
        let rest = last_bytes(value / 256, (n - 1) as nat);
        let last = (value % 256) as u8;
        digits_of_last_bytes(value / 256, (n - 1) as nat);
        assert(rest.push(last).drop_last() =~= rest);
        reveal_with_fuel(last_digits, 3);
        assert(last_digits(value, 2 * n) == last_digits(value / 16, (2 * n - 1) as nat).push(
            digit(value % 16),
        ));
        assert(last_digits(value / 16, (2 * n - 1) as nat) == last_digits(
            value / 16 / 16,
            (2 * n - 2) as nat,
        ).push(digit((value / 16) % 16)));
        assert(value / 16 / 16 == value / 256);
        assert((last / 16) as nat == (value / 16) % 16);
        assert((last % 16) as nat == value % 16);
        assert(2 * ((n - 1) as nat) == (2 * n - 2) as nat);
    }
}

proof fn last_bytes_spell(value: nat, n: nat)
    requires
        value < power_256(n),
    ensures
        big_endian(last_bytes(value, n)) == value,
    decreases n,
{
    if n > 0 {
        let rest = last_bytes(value / 256, (n - 1) as nat);
        assert(last_bytes(value, n).drop_last() =~= rest);
        assert(value / 256 < power_256((n - 1) as nat));
        last_bytes_spell(value / 256, (n - 1) as nat);
    }
}

proof fn last_of_last_bytes(value: nat, n: nat, k: nat)
    requires
        k <= n,
    ensures
        last_bytes(value, n).len() == n,
        last_bytes(value, n).skip(n - k) == last_bytes(value, k),
    decreases n,
{
    digits_of_last_bytes(value, n);
    if k == 0 {
        assert(last_bytes(value, n).skip(n as int) =~= Seq::empty());
    } else {
        let rest = last_bytes(value / 256, (n - 1) as nat);
        digits_of_last_bytes(value / 256, (n - 1) as nat);
        last_of_last_bytes(value / 256, (n - 1) as nat, (k - 1) as nat);
        assert(rest.push((value % 256) as u8).skip(n - k) =~= rest.skip(n - k).push(
            (value % 256) as u8,
        ));
    }
}

/// The word that is written for a number holds its thirty-two bytes, from which the number is read
/// again, wherever the word stands.
pub proof fn number_reads_back(value: u128, before: Seq<u8>, behind: Seq<u8>)
    ensures
        word(value).len() == 32,
        number_word(value) == hex_digits(word(value)),
        low_number_at(before + word(value) + behind, before.len() as int) == Some(value),
{
    digits_of_last_bytes(value as nat, 32);
    last_of_last_bytes(value as nat, 32, 16);
    assert(value < power_256(16)) by {
        reveal_with_fuel(power_256, 17);
    }
    last_bytes_spell(value as nat, 16);
    let at = before.len() as int;
    assert((before + word(value) + behind).subrange(at + 16, at + 32) =~= word(value).skip(16));
}

/// Of a number of thirty-two bytes the low sixteen count, whatever the high ones hold, wherever the
/// number stands.
pub proof fn low_half_reads_back(high: Seq<u8>, value: u128, before: Seq<u8>, behind: Seq<u8>)
    requires
        high.len() == 16,
    ensures
        last_bytes(value as nat, 16).len() == 16,
        low_number_at(
            before + high + last_bytes(value as nat, 16) + behind,
            before.len() as int,
        ) == Some(value),
{
    let low = last_bytes(value as nat, 16);
    digits_of_last_bytes(value as nat, 16);
    assert(value < power_256(16)) by {
        reveal_with_fuel(power_256, 17);
    }
    last_bytes_spell(value as nat, 16);
    let at = before.len() as int;
    assert((before + high + low + behind).subrange(at + 16, at + 32) =~= low);
}

/// An address, a number and the rest are read from where they stand, and not where too few bytes do.
pub proof fn fields_are_read_where_they_stand(
    before: Seq<u8>,
    address: Seq<u8>,
    number: Seq<u8>,
    behind: Seq<u8>,
)
    requires
        address.len() == 20,
        number.len() == 32,
    ensures
        address_at(before + address + behind, before.len() as int) == Some(marked_hex(address)),
        number_text_at(before + number + behind, before.len() as int) == Some(marked_hex(number)),
        rest_text(before + behind, before.len()) == marked_hex(behind),
        behind.len() < 20 ==> address_at(before + behind, before.len() as int) is None,
        behind.len() < 32 ==> number_text_at(before + behind, before.len() as int) is None,
        behind.len() < 32 ==> low_number_at(before + behind, before.len() as int) is None,
{
    let at = before.len() as int;
    assert((before + address + behind).subrange(at, at + 20) =~= address);
    assert((before + number + behind).subrange(at, at + 32) =~= number);
    assert((before + behind).skip(at) =~= behind);
    rest_is_marked(before + behind, before.len(), behind);
}

proof fn mark_taken_off(bytes: Seq<u8>)
    ensures
        bare(marked_hex(bytes)) == hex_digits(bytes),
        bare(hex_digits(bytes)) == hex_digits(bytes),
{
    let digits = hex_digits(bytes);
    digits_are_small(bytes);
    if digits.len() >= 2 {
        assert(digits[1] != 'x') by {
            assert(digits.contains(digits[1]));
        }
    }
    assert(bare(digits) == digits);
    reveal_strlit("0x");
    assert(marked_hex(bytes)[0] == '0' && marked_hex(bytes)[1] == 'x');
    assert(marked_hex(bytes).skip(2) =~= digits);
}

/// The address that is read from a payload is written in the one way in which wallets are written. It
/// is found with its mark and without.
pub proof fn address_is_a_wallet(bytes: Seq<u8>)
    ensures
        wallet_of(marked_hex(bytes)) == marked_hex(bytes),
        wallet_of(hex_digits(bytes)) == marked_hex(bytes),
{
    mark_taken_off(bytes);
    digits_are_small(bytes);
}

/// The token id that is read from a payload is written in the one way in which token ids are written.
/// So it is where its leading zeros are left out, with the mark and without.
pub proof fn token_id_is_normal(bytes: Seq<u8>, dropped: int)
    requires
        bytes.len() == 32,
        0 <= dropped <= 64,
        forall|i: int| 0 <= i < dropped ==> hex_digits(bytes)[i] == '0',
    ensures
        normalised(marked_hex(bytes)) == marked_hex(bytes),
        sixty_four(marked_hex(bytes)) == hex_digits(bytes),
        normalised(hex_digits(bytes).skip(dropped)) == marked_hex(bytes),
        normalised("0x"@ + hex_digits(bytes).skip(dropped)) == marked_hex(bytes),
{
    let digits = hex_digits(bytes);
    let short = digits.skip(dropped);
    let marked = "0x"@ + short;
    hex_digits_placed(bytes);
    mark_taken_off(bytes);
    digits_are_small(bytes);
    if short.len() >= 2 {
        assert(short[1] != 'x') by {
            assert(digits.contains(digits[dropped + 1]));
        }
    }
    assert(is_ascii_chars(short)) by {
        assert forall|i: int| 0 <= i < short.len() implies '\0' <= #[trigger] short[i] <= '\u{7f}' by {
            assert(short[i] == digits[i + dropped]);
        }
    }
    assert(lowercased(short) =~= short) by {
        assert forall|i: int| 0 <= i < short.len() implies lowercased(short)[i] == short[i] by {
            assert(lowercased(digits)[i + dropped] == digits[i + dropped]);
        }
    }
    assert(padded(short, 64) =~= digits);
    assert(bare(short) == short);
    reveal_strlit("0x");
    assert(marked[0] == '0' && marked[1] == 'x');
    assert(marked.skip(2) =~= short);
}

// ---- Calls ----

proof fn digits_of_two(a: Seq<u8>, b: Seq<u8>)
    ensures
        hex_digits(a + b) == hex_digits(a) + hex_digits(b),
    decreases b.len(),
{
    if b.len() == 0 {
        assert(a + b =~= a);
        assert(hex_digits(a) + hex_digits(b) =~= hex_digits(a));
    } else {
        digits_of_two(a, b.drop_last());
        assert((a + b).drop_last() =~= a + b.drop_last());
        assert(hex_digits(a + b) =~= hex_digits(a) + hex_digits(b));
    }
}

/// The zeros before an address in a word.
pub open spec fn padding() -> Seq<u8> {
    Seq::new(12, |i: int| 0u8)
}

/// An address of twenty bytes as a word of thirty-two.
pub open spec fn address_bytes(address: Seq<u8>) -> Seq<u8> {
    padding() + address
}

proof fn address_word_digits(address: Seq<u8>)
    ensures
        address_word(marked_hex(address)) == hex_digits(address_bytes(address)),
{
    mark_taken_off(address);
    digits_are_small(address);
    digits_of_two(padding(), address);
    hex_digits_placed(padding());
    reveal_strlit("000000000000000000000000");
    let zeros = hex_digits(padding());
    assert forall|i: int| 0 <= i < 24 implies zeros[i] == '0' by {
        assert(zeros[2 * (i / 2)] == digit(0));
    }
    assert(zeros =~= ADDRESS_PADDING@);
}

/// The four bytes that select a call.
pub open spec fn selector(first: u8, second: u8, third: u8, fourth: u8) -> Seq<u8> {
    seq![first, second, third, fourth]
}

proof fn selector_digits(first: u8, second: u8, third: u8, fourth: u8)
    ensures
        hex_digits(selector(first, second, third, fourth)) == seq![
            digit((first / 16) as nat),
            digit((first % 16) as nat),
            digit((second / 16) as nat),
            digit((second % 16) as nat),
            digit((third / 16) as nat),
            digit((third % 16) as nat),
            digit((fourth / 16) as nat),
            digit((fourth % 16) as nat),
        ],
{
    let bytes = selector(first, second, third, fourth);
    let digits = hex_digits(bytes);
    hex_digits_placed(bytes);
    assert(digits[2 * 0int] == digit((bytes[0] / 16) as nat));
    assert(digits[2 * 1int] == digit((bytes[1] / 16) as nat));
    assert(digits[2 * 2int] == digit((bytes[2] / 16) as nat));
    assert(digits[2 * 3int] == digit((bytes[3] / 16) as nat));
}

/// The call of `transfer` is its selector, the address of the receiver and the amount, a word each.
pub proof fn erc20_call_is_encoded(to: Seq<u8>, amount: u128)
    ensures
        erc20_call(marked_hex(to), amount) == marked_hex(
            selector(0xa9, 0x05, 0x9c, 0xbb) + address_bytes(to) + word(amount),
        ),
{
    let head = selector(0xa9, 0x05, 0x9c, 0xbb);
    selector_digits(0xa9, 0x05, 0x9c, 0xbb);
    reveal_strlit("a9059cbb");
    assert(hex_digits(head) =~= SEL_ERC20_TRANSFER@);
    address_word_digits(to);
    number_reads_back(amount, Seq::empty(), Seq::empty());
    digits_of_two(head, address_bytes(to));
    digits_of_two(head + address_bytes(to), word(amount));
    assert(erc20_call(marked_hex(to), amount) =~= marked_hex(
        head + address_bytes(to) + word(amount),
    ));
}

/// The call of `withdrawEther` is its selector, the address of the receiver and the amount, a word each.
pub proof fn ether_call_is_encoded(to: Seq<u8>, amount: u128)
    ensures
        ether_call(marked_hex(to), amount) == marked_hex(
            selector(0x52, 0x2f, 0x68, 0x15) + address_bytes(to) + word(amount),
        ),
{
    let head = selector(0x52, 0x2f, 0x68, 0x15);
    selector_digits(0x52, 0x2f, 0x68, 0x15);
    reveal_strlit("522f6815");
    assert(hex_digits(head) =~= SEL_ETHER_WITHDRAW@);
    address_word_digits(to);
    number_reads_back(amount, Seq::empty(), Seq::empty());
    digits_of_two(head, address_bytes(to));
    digits_of_two(head + address_bytes(to), word(amount));
    assert(ether_call(marked_hex(to), amount) =~= marked_hex(
        head + address_bytes(to) + word(amount),
    ));
}

/// The call of `safeTransferFrom` for one item is its selector, the two addresses and the id, a word
/// each.
pub proof fn erc721_call_is_encoded(from: Seq<u8>, to: Seq<u8>, token_id: Seq<u8>)
    requires
        token_id.len() == 32,
    ensures
        erc721_call(marked_hex(from), marked_hex(to), marked_hex(token_id)) == marked_hex(
            selector(0x42, 0x84, 0x2e, 0x0e) + address_bytes(from) + address_bytes(to) + token_id,
        ),
{
    let head = selector(0x42, 0x84, 0x2e, 0x0e);
    selector_digits(0x42, 0x84, 0x2e, 0x0e);
    reveal_strlit("42842e0e");
    assert(hex_digits(head) =~= SEL_ERC721_SAFE_TRANSFER@);
    address_word_digits(from);
    address_word_digits(to);
    token_id_is_normal(token_id, 0);
    let two = head + address_bytes(from);
    let three = two + address_bytes(to);
    digits_of_two(head, address_bytes(from));
    digits_of_two(two, address_bytes(to));
    digits_of_two(three, token_id);
    assert(erc721_call(marked_hex(from), marked_hex(to), marked_hex(token_id)) =~= marked_hex(
        three + token_id,
    ));
}

/// The call of `safeTransferFrom` for items of one kind is its selector, the two addresses, the id, the
/// amount, where the data stand, and the length of the data, which is zero, a word each.
pub proof fn erc1155_call_is_encoded(from: Seq<u8>, to: Seq<u8>, token_id: Seq<u8>, amount: u128)
    requires
        token_id.len() == 32,
    ensures
        erc1155_call(marked_hex(from), marked_hex(to), marked_hex(token_id), amount) == marked_hex(
            selector(0xf2, 0x42, 0x43, 0x2a) + address_bytes(from) + address_bytes(to) + token_id
                + word(amount) + word(DATA_OFFSET) + word(0),
        ),
{
    let head = selector(0xf2, 0x42, 0x43, 0x2a);
    selector_digits(0xf2, 0x42, 0x43, 0x2a);
    reveal_strlit("f242432a");
    assert(hex_digits(head) =~= SEL_ERC1155_SAFE_TRANSFER@);
    address_word_digits(from);
    address_word_digits(to);
    token_id_is_normal(token_id, 0);
    number_reads_back(amount, Seq::empty(), Seq::empty());
    number_reads_back(DATA_OFFSET, Seq::empty(), Seq::empty());
    number_reads_back(0, Seq::empty(), Seq::empty());
    let two = head + address_bytes(from);
    let three = two + address_bytes(to);
    let four = three + token_id;
    let five = four + word(amount);
    let six = five + word(DATA_OFFSET);
    digits_of_two(head, address_bytes(from));
    digits_of_two(two, address_bytes(to));
    digits_of_two(three, token_id);
    digits_of_two(four, word(amount));
    digits_of_two(five, word(DATA_OFFSET));
    digits_of_two(six, word(0));
    assert(erc1155_call(marked_hex(from), marked_hex(to), marked_hex(token_id), amount)
        =~= marked_hex(six + word(0)));
}

// ---- Deposits ----

/// The data behind the fields of a payload are written whole.
pub proof fn rest_is_marked(bytes: Seq<u8>, from: nat, data: Seq<u8>)
    requires
        from <= bytes.len(),
        bytes.skip(from as int) == data,
    ensures
        rest_text(bytes, from) == marked_hex(data),
{
    if bytes.len() == from {
        assert(data.len() == 0);
        assert(marked_hex(data) =~= "0x"@);
    }
}

/// A deposit that the Ether portal sends is read: the depositor, the amount, and the data.
pub proof fn ether_deposit_reads_back(depositor: Seq<u8>, amount: u128, data: Seq<u8>)
    requires
        depositor.len() == 20,
    ensures
        deposit_decision(Portal::Ether, marked_hex(depositor + word(amount) + data))
            == DecisionModel::Deposit(
            DepositModel {
                depositor: marked_hex(depositor),
                asset: AssetModel::Ether { amount },
                data: marked_hex(data),
            },
        ),
{
    let bytes = depositor + word(amount) + data;
    bytes_read_back(bytes);
    number_reads_back(amount, depositor, data);
    assert(bytes.subrange(0, 20) =~= depositor);
    assert(bytes.skip(52) =~= data);
    rest_is_marked(bytes, 52, data);
}

/// A deposit that the ERC-20 portal sends is read: the token, the depositor, the amount, and the data.
pub proof fn erc20_deposit_reads_back(
    token: Seq<u8>,
    depositor: Seq<u8>,
    amount: u128,
    data: Seq<u8>,
)
    requires
        token.len() == 20,
        depositor.len() == 20,
    ensures
        deposit_decision(Portal::Erc20, marked_hex(token + depositor + word(amount) + data))
            == DecisionModel::Deposit(
            DepositModel {
                depositor: marked_hex(depositor),
                asset: AssetModel::Erc20 { token: marked_hex(token), amount },
                data: marked_hex(data),
            },
        ),
{
    let bytes = token + depositor + word(amount) + data;
    bytes_read_back(bytes);
    number_reads_back(amount, token + depositor, data);
    assert(bytes.subrange(0, 20) =~= token);
    assert(bytes.subrange(20, 40) =~= depositor);
    assert(bytes.skip(72) =~= data);
    rest_is_marked(bytes, 72, data);
}

/// A deposit that the ERC-721 portal sends is read: the token, the depositor, the token id, and the
/// data.
pub proof fn erc721_deposit_reads_back(
    token: Seq<u8>,
    depositor: Seq<u8>,
    token_id: Seq<u8>,
    data: Seq<u8>,
)
    requires
        token.len() == 20,
        depositor.len() == 20,
        token_id.len() == 32,
    ensures
        deposit_decision(Portal::Erc721, marked_hex(token + depositor + token_id + data))
            == DecisionModel::Deposit(
            DepositModel {
                depositor: marked_hex(depositor),
                asset: AssetModel::Erc721 {
                    token: marked_hex(token),
                    token_id: marked_hex(token_id),
                },
                data: marked_hex(data),
            },
        ),
{
    let bytes = token + depositor + token_id + data;
    bytes_read_back(bytes);
    assert(bytes.subrange(0, 20) =~= token);
    assert(bytes.subrange(20, 40) =~= depositor);
    assert(bytes.subrange(40, 72) =~= token_id);
    assert(bytes.skip(72) =~= data);
    rest_is_marked(bytes, 72, data);
}

/// A deposit that the ERC-1155 portal sends is read: the token, the depositor, the token id, the
/// amount, and the data.
pub proof fn erc1155_deposit_reads_back(
    token: Seq<u8>,
    depositor: Seq<u8>,
    token_id: Seq<u8>,
    amount: u128,
    data: Seq<u8>,
)
    requires
        token.len() == 20,
        depositor.len() == 20,
        token_id.len() == 32,
    ensures
        deposit_decision(
            Portal::Erc1155,
            marked_hex(token + depositor + token_id + word(amount) + data),
        ) == DecisionModel::Deposit(
            DepositModel {
                depositor: marked_hex(depositor),
                asset: AssetModel::Erc1155 {
                    token: marked_hex(token),
                    token_id: marked_hex(token_id),
                    amount,
                },
                data: marked_hex(data),
            },
        ),
{
    let bytes = token + depositor + token_id + word(amount) + data;
    bytes_read_back(bytes);
    number_reads_back(amount, token + depositor + token_id, data);
    assert(bytes.subrange(0, 20) =~= token);
    assert(bytes.subrange(20, 40) =~= depositor);
    assert(bytes.subrange(40, 72) =~= token_id);
    assert(bytes.skip(104) =~= data);
    rest_is_marked(bytes, 104, data);
}

} // verus!
