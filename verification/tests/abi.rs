use student_tracker::abi::{
    abi_addr, abi_u128, abi_uint256, calldata_erc1155_transfer, calldata_erc20_transfer,
    calldata_erc721_transfer, calldata_ether_withdraw,
};
use student_tracker::hex::{extract_address, extract_u128, hex_to_bytes};

const TO: &str = "0xABCDEFabcdef00112233445566778899aabbccdd";
const TO_WORD: &str = "000000000000000000000000abcdefabcdef00112233445566778899aabbccdd";
const FROM: &str = "0x1111111111111111111111111111111111111111";
const FROM_WORD: &str = "0000000000000000000000001111111111111111111111111111111111111111";
const TEN_WORD: &str = "000000000000000000000000000000000000000000000000000000000000000a";
const ID_WORD: &str = "000000000000000000000000000000000000000000000000000000000000002a";

#[test]
fn encodes_words() {
    assert_eq!(abi_addr(TO), TO_WORD);
    assert_eq!(abi_u128(10), TEN_WORD);
    assert_eq!(
        abi_u128(u128::MAX),
        "00000000000000000000000000000000ffffffffffffffffffffffffffffffff"
    );
    assert_eq!(abi_uint256("0x2A"), ID_WORD);
}

#[test]
fn encodes_an_erc20_transfer() {
    assert_eq!(calldata_erc20_transfer(TO, 10), format!("0xa9059cbb{}{}", TO_WORD, TEN_WORD));
}

#[test]
fn encodes_an_ether_withdrawal() {
    assert_eq!(calldata_ether_withdraw(TO, 10), format!("0x522f6815{}{}", TO_WORD, TEN_WORD));
}

#[test]
fn encodes_an_erc721_transfer() {
    assert_eq!(
        calldata_erc721_transfer(FROM, TO, "2a"),
        format!("0x42842e0e{}{}{}", FROM_WORD, TO_WORD, ID_WORD)
    );
}

#[test]
fn encodes_an_erc1155_transfer() {
    let offset = "00000000000000000000000000000000000000000000000000000000000000a0";
    let nothing = "0".repeat(64);
    assert_eq!(
        calldata_erc1155_transfer(FROM, TO, "0x2a", 10),
        format!(
            "0xf242432a{}{}{}{}{}{}",
            FROM_WORD, TO_WORD, ID_WORD, TEN_WORD, offset, nothing
        )
    );
}

#[test]
fn calls_are_read_again() {
    let bytes = hex_to_bytes(&calldata_erc20_transfer(FROM, 77)).unwrap();
    assert_eq!(bytes.len(), 68);
    assert_eq!(bytes[..4], [0xa9, 0x05, 0x9c, 0xbb]);
    assert_eq!(extract_address(&bytes, 16), Some(FROM.to_string()));
    assert_eq!(extract_u128(&bytes, 36), Some(77));
    let bytes = hex_to_bytes(&calldata_erc1155_transfer(FROM, FROM, "1", 5)).unwrap();
    assert_eq!(bytes.len(), 4 + 6 * 32);
}
