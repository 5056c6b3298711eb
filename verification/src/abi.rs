//! Calls of the contracts that hold the assets, as the ABI encodes them.

use vstd::prelude::*;
use crate::hex::sixty_four;
use crate::text::{bare, digit, digit_of, lowercase, lowercased, pad, strip_marks};

verus! {

/// The selector of `transfer(address,uint256)`.
pub const SEL_ERC20_TRANSFER: &'static str = "a9059cbb";

/// The selector of `safeTransferFrom(address,address,uint256)`.
pub const SEL_ERC721_SAFE_TRANSFER: &'static str = "42842e0e";

/// The selector of `safeTransferFrom(address,address,uint256,uint256,bytes)`.
pub const SEL_ERC1155_SAFE_TRANSFER: &'static str = "f242432a";

/// The selector of `withdrawEther(address,uint256)`, a call of the Ether portal.
pub const SEL_ETHER_WITHDRAW: &'static str = "522f6815";

/// The zeros before an address of twenty bytes in a word of thirty-two.
pub const ADDRESS_PADDING: &'static str = "000000000000000000000000";

/// The last `n` hexadecimal digits of a number.
pub open spec fn last_digits(value: nat, n: nat) -> Seq<char>
    decreases n,
{
    if n == 0 {
        Seq::empty()
    } else {
        last_digits(value / 16, (n - 1) as nat).push(digit(value % 16))
    }
}

fn write_last_digits(value: u128, n: usize) -> (r: String)
    ensures
        r@ == last_digits(value as nat, n as nat),
    decreases n,
{
    if n == 0 {
        return String::new();
    }
    let mut r = write_last_digits(value / 16, n - 1);
    r.push(digit_of((value % 16) as u8));
    r
}

/// An address as a word of thirty-two bytes.
pub open spec fn address_word(addr: Seq<char>) -> Seq<char> {
    ADDRESS_PADDING@ + lowercased(bare(addr))
}

/// A number as a word of thirty-two bytes.
pub open spec fn number_word(value: u128) -> Seq<char> {
    last_digits(value as nat, 64)
}

/// Encodes an address.
pub fn abi_addr(addr: &str) -> (r: String)
    ensures
        r@ == address_word(addr@),
{
    let mut r = ADDRESS_PADDING.to_owned();
    r.append(lowercase(strip_marks(addr).as_str()).as_str());
    r
}

/// Encodes a number.
pub fn abi_u128(val: u128) -> (r: String)
    ensures
        r@ == number_word(val),
{
    write_last_digits(val, 64)
}

/// Encodes a number that is given in hexadecimal digits.
pub fn abi_uint256(hex: &str) -> (r: String)
    ensures
        r@ == sixty_four(hex@),
{
    pad(lowercase(strip_marks(hex).as_str()).as_str(), 64)
}

/// The call `transfer(to, amount)`.
pub open spec fn erc20_call(to: Seq<char>, amount: u128) -> Seq<char> {
    "0x"@ + SEL_ERC20_TRANSFER@ + address_word(to) + number_word(amount)
}

/// Encodes `transfer(to, amount)`.
pub fn calldata_erc20_transfer(to: &str, amount: u128) -> (r: String)
    ensures
        r@ == erc20_call(to@, amount),
{
    let mut r = "0x".to_owned();
    r.append(SEL_ERC20_TRANSFER);
    r.append(abi_addr(to).as_str());
    r.append(abi_u128(amount).as_str());
    r
}

/// The call `safeTransferFrom(from, to, token_id)`.
pub open spec fn erc721_call(from: Seq<char>, to: Seq<char>, token_id: Seq<char>) -> Seq<char> {
    "0x"@ + SEL_ERC721_SAFE_TRANSFER@ + address_word(from) + address_word(to) + sixty_four(token_id)
}

/// Encodes `safeTransferFrom(from, to, token_id)`.
pub fn calldata_erc721_transfer(from: &str, to: &str, token_id: &str) -> (r: String)
    ensures
        r@ == erc721_call(from@, to@, token_id@),
{
    let mut r = "0x".to_owned();
    r.append(SEL_ERC721_SAFE_TRANSFER);
    r.append(abi_addr(from).as_str());
    r.append(abi_addr(to).as_str());
    r.append(abi_uint256(token_id).as_str());
    r
}

/// Where the empty data stand behind the five words of `safeTransferFrom`.
pub const DATA_OFFSET: u128 = 160;

/// The call `safeTransferFrom(from, to, token_id, amount, data)` with empty data.
pub open spec fn erc1155_call(
    from: Seq<char>,
    to: Seq<char>,
    token_id: Seq<char>,
    amount: u128,
) -> Seq<char> {
    "0x"@ + SEL_ERC1155_SAFE_TRANSFER@ + address_word(from) + address_word(to) + sixty_four(token_id)
        + number_word(amount) + number_word(DATA_OFFSET) + number_word(0)
}

/// Encodes `safeTransferFrom(from, to, token_id, amount, data)` with empty data.
pub fn calldata_erc1155_transfer(from: &str, to: &str, token_id: &str, amount: u128) -> (r: String)
    ensures
        r@ == erc1155_call(from@, to@, token_id@, amount),
{
    let mut r = "0x".to_owned();
    r.append(SEL_ERC1155_SAFE_TRANSFER);
    r.append(abi_addr(from).as_str());
    r.append(abi_addr(to).as_str());
    r.append(abi_uint256(token_id).as_str());
    r.append(abi_u128(amount).as_str());
    r.append(abi_u128(DATA_OFFSET).as_str());
    r.append(abi_u128(0).as_str());
    r
}

/// The call `withdrawEther(to, amount)`.
pub open spec fn ether_call(to: Seq<char>, amount: u128) -> Seq<char> {
    "0x"@ + SEL_ETHER_WITHDRAW@ + address_word(to) + number_word(amount)
}

/// Encodes `withdrawEther(to, amount)`.
pub fn calldata_ether_withdraw(to: &str, amount: u128) -> (r: String)
    ensures
        r@ == ether_call(to@, amount),
{
    let mut r = "0x".to_owned();
    r.append(SEL_ETHER_WITHDRAW);
    r.append(abi_addr(to).as_str());
    r.append(abi_u128(amount).as_str());
    r
}

} // verus!
