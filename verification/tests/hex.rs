use student_tracker::hex::{
    extract_address, extract_trailing_hex, extract_u128, extract_uint256_hex, hex_to_bytes,
    is_cuttable, normalise_uint256, str_to_hex_payload,
};

#[test]
fn reads_marked_and_unmarked_digits() {
    assert_eq!(hex_to_bytes("0x00ff10"), Some(vec![0, 255, 16]));
    assert_eq!(hex_to_bytes("00FF10"), Some(vec![0, 255, 16]));
    assert_eq!(hex_to_bytes(""), Some(vec![]));
    assert_eq!(hex_to_bytes("0x"), Some(vec![]));
}

#[test]
fn refuses_what_is_no_pair_of_digits() {
    assert_eq!(hex_to_bytes("0x123"), None);
    assert_eq!(hex_to_bytes("0x12zz"), None);
    assert_eq!(hex_to_bytes("-1"), None);
    assert_eq!(hex_to_bytes("0x0x"), None);
    assert_eq!(hex_to_bytes("0X12"), None);
    assert_eq!(hex_to_bytes("+"), None);
    assert_eq!(hex_to_bytes("++"), None);
    assert_eq!(hex_to_bytes("1+"), None);
}

#[test]
fn takes_a_digit_behind_a_plus_sign() {
    assert_eq!(hex_to_bytes("+f"), Some(vec![15]));
    assert_eq!(hex_to_bytes("0x01+2"), Some(vec![1, 2]));
}

#[test]
fn tells_where_a_cut_falls_inside_a_character() {
    assert!(is_cuttable("0x1234"));
    assert!(!is_cuttable("zé1"));
    assert!(!is_cuttable("0xaaaé1"));
    assert!(is_cuttable("éa"));
    assert_eq!(hex_to_bytes("éa"), None);
    assert!(is_cuttable("éé"));
    assert_eq!(hex_to_bytes("éé"), None);
    assert!(!is_cuttable("€€"));
}

#[test]
fn reads_an_address_at_an_offset() {
    let mut bytes: Vec<u8> = vec![0xff];
    for i in 0..20u8 {
        bytes.push(i);
    }
    assert_eq!(
        extract_address(&bytes, 1),
        Some("0x000102030405060708090a0b0c0d0e0f10111213".to_string())
    );
    assert_eq!(extract_address(&bytes, 2), None);
}

#[test]
fn reads_the_low_half_of_a_number() {
    let mut bytes: Vec<u8> = vec![0xff; 16];
    bytes.extend(vec![0; 14]);
    bytes.push(0x01);
    bytes.push(0x02);
    assert_eq!(extract_u128(&bytes, 0), Some(258));
    assert_eq!(extract_u128(&bytes, 1), None);
    assert_eq!(extract_u128(&[0xff; 32], 0), Some(u128::MAX));
}

#[test]
fn reads_a_number_as_digits() {
    let mut bytes: Vec<u8> = vec![0; 31];
    bytes.push(0x2a);
    assert_eq!(
        extract_uint256_hex(&bytes, 0),
        Some("0x000000000000000000000000000000000000000000000000000000000000002a".to_string())
    );
    assert_eq!(extract_uint256_hex(&bytes, 1), None);
}

#[test]
fn reads_what_trails() {
    assert_eq!(extract_trailing_hex(&[1, 2, 0xab], 1), "0x02ab");
    assert_eq!(extract_trailing_hex(&[1, 2, 3], 3), "0x");
    assert_eq!(extract_trailing_hex(&[1, 2, 3], 9), "0x");
}

#[test]
fn writes_a_text_as_a_payload() {
    assert_eq!(str_to_hex_payload("ping"), "0x70696e67");
    assert_eq!(str_to_hex_payload("é"), "0xc3a9");
    assert_eq!(str_to_hex_payload(""), "0x");
}

#[test]
fn payload_is_read_again() {
    let text = "{\"action\":\"ping\",\"é\":1}";
    let bytes = hex_to_bytes(&str_to_hex_payload(text)).unwrap();
    assert_eq!(bytes, text.as_bytes());
}

#[test]
fn normalises_token_ids() {
    let forty_two = "0x000000000000000000000000000000000000000000000000000000000000002a";
    assert_eq!(normalise_uint256("2a"), forty_two);
    assert_eq!(normalise_uint256("0x2A"), forty_two);
    assert_eq!(normalise_uint256("0x0x2a"), forty_two);
    assert_eq!(normalise_uint256(forty_two), forty_two);
    let long = format!("0x1{}", "0".repeat(64));
    assert_eq!(normalise_uint256(&long), long);
}

#[test]
fn small_letters_beyond_ascii() {
    assert_eq!(normalise_uint256("É"), format!("0x{}é", "0".repeat(63)));
}
