use student_tracker::advance::{handle_advance, is_advanceable, Outcome};
use student_tracker::hex::str_to_hex_payload;
use student_tracker::input::{Input, RequestError};
use student_tracker::message::Emission;
use student_tracker::state::AppState;

const ETHER_PORTAL: &str = "0xa632c5c05812c6a6149b7af5c56117d1d2603828";
const ERC20_PORTAL: &str = "0xAA00000000000000000000000000000000000020";
const ERC721_PORTAL: &str = "0xaa00000000000000000000000000000000000721";
const ERC1155_PORTAL: &str = "0xaa00000000000000000000000000000000001155";
const APP: &str = "0xDD00000000000000000000000000000000000001";
const APP_SMALL: &str = "0xdd00000000000000000000000000000000000001";
const WALLET: &str = "0x1111111111111111111111111111111111111111";
const WALLET_WORD: &str = "0000000000000000000000001111111111111111111111111111111111111111";
const TOKEN: &str = "0x2222222222222222222222222222222222222222";
const ID: &str = "0x000000000000000000000000000000000000000000000000000000000000002a";

fn new_state() -> AppState {
    AppState::new(None, ERC20_PORTAL, ERC721_PORTAL, ERC1155_PORTAL)
}

fn number(n: u128) -> String {
    format!("{:064x}", n)
}

fn bare(address: &str) -> &str {
    &address[2..]
}

fn request(sender: &str, payload: &str, index: u64, app: &str) -> json::JsonValue {
    json::parse(&format!(
        "{{\"request_type\":\"advance_state\",\"data\":{{\"payload\":\"{}\",\"metadata\":{{\"msg_sender\":\"{}\",\"input_index\":{},\"timestamp\":7,\"app_contract\":\"{}\"}}}}}}",
        payload, sender, index, app
    ))
    .unwrap()
}

fn advance(state: &mut AppState, sender: &str, payload: &str, index: u64) -> Outcome {
    handle_advance(state, &request(sender, payload, index, "")).unwrap()
}

fn act(state: &mut AppState, sender: &str, action: &str, index: u64) -> Outcome {
    advance(state, sender, &str_to_hex_payload(action), index)
}

fn told(outcome: &Outcome) -> Vec<String> {
    outcome
        .emissions
        .iter()
        .map(|emission| match emission {
            Emission::Notice { payload } => format!("notice {}", payload),
            Emission::Report { payload, required } => format!("report {} {}", required, payload),
            Emission::Voucher { destination, calldata } => {
                format!("voucher {} {}", destination, calldata)
            }
        })
        .collect()
}

fn processed(sender: &str, index: u64) -> String {
    format!(
        "report false {{\"event\":\"advance_processed\",\"input_index\":{},\"msg_sender\":\"{}\",\"result\":\"accept\"}}",
        index, sender
    )
}

fn refused(outcome: &Outcome, text: &str) {
    assert!(!outcome.accepted);
    assert_eq!(told(outcome), vec![format!("report true {}", text)]);
}

fn deposit_ether(state: &mut AppState, amount: u128) -> Outcome {
    advance(state, ETHER_PORTAL, &format!("0x{}{}", bare(WALLET), number(amount)), 1)
}

fn deposit_erc20(state: &mut AppState, amount: u128) -> Outcome {
    let payload = format!("0x{}{}{}", bare(TOKEN), bare(WALLET), number(amount));
    advance(state, ERC20_PORTAL, &payload, 1)
}

fn deposit_erc721(state: &mut AppState) -> Outcome {
    let payload = format!("0x{}{}{}", bare(TOKEN), bare(WALLET), bare(ID));
    advance(state, ERC721_PORTAL, &payload, 1)
}

fn deposit_erc1155(state: &mut AppState, amount: u128) -> Outcome {
    let payload = format!("0x{}{}{}{}", bare(TOKEN), bare(WALLET), bare(ID), number(amount));
    advance(state, ERC1155_PORTAL, &payload, 1)
}

#[test]
fn starts_with_portals_in_small_letters() {
    let state = new_state();
    assert_eq!(state.ether_portal, ETHER_PORTAL);
    assert_eq!(state.erc20_portal, "0xaa00000000000000000000000000000000000020");
    assert!(state.students.is_empty());
    assert!(state.app_contract.is_none());
    let other = AppState::new(Some("0xEE"), "", "", "");
    assert_eq!(other.ether_portal, "0xee");
}

#[test]
fn takes_an_ether_deposit() {
    let mut state = new_state();
    let payload = format!("0x{}{}beef", bare(WALLET), number(500));
    let outcome = advance(&mut state, ETHER_PORTAL, &payload, 3);
    assert!(outcome.accepted);
    assert_eq!(
        told(&outcome),
        vec![
            format!(
                "notice {{\"event\":\"ether_deposit\",\"input_index\":3,\"depositor\":\"{}\",\"amount\":\"500\",\"exec_layer_data\":\"0xbeef\"}}",
                WALLET
            ),
            processed(ETHER_PORTAL, 3),
        ]
    );
    assert_eq!(state.students.len(), 1);
    assert_eq!(state.students[0].name, "Unknown(0x11111111)");
    assert_eq!(state.students[0].registration_number, "AUTO-11111111");
    assert_eq!(state.students[0].wallet_address, WALLET);
    assert_eq!(state.students[0].deposits.ether, vec![500]);
    assert_eq!(state.students[0].ether_available(), 500);
    assert_eq!(state.total_inputs, 1);
}

#[test]
fn takes_an_erc20_deposit_from_a_portal_in_any_letters() {
    let mut state = new_state();
    let outcome = deposit_erc20(&mut state, 9);
    assert_eq!(
        told(&outcome)[0],
        format!(
            "notice {{\"event\":\"erc20_deposit\",\"input_index\":1,\"depositor\":\"{}\",\"token\":\"{}\",\"amount\":\"9\",\"exec_layer_data\":\"0x\"}}",
            WALLET, TOKEN
        )
    );
    assert_eq!(told(&outcome)[1], processed("0xaa00000000000000000000000000000000000020", 1));
    assert_eq!(state.students[0].deposits.erc20, vec![(TOKEN.to_string(), 9)]);
    assert_eq!(state.students[0].erc20_available(TOKEN), 9);
    assert_eq!(state.students[0].erc20_available(WALLET), 0);
}

#[test]
fn takes_an_erc721_deposit() {
    let mut state = new_state();
    let outcome = deposit_erc721(&mut state);
    assert_eq!(
        told(&outcome)[0],
        format!(
            "notice {{\"event\":\"erc721_deposit\",\"input_index\":1,\"depositor\":\"{}\",\"token\":\"{}\",\"token_id\":\"{}\",\"extra_data\":\"0x\"}}",
            WALLET, TOKEN, ID
        )
    );
    assert_eq!(state.students[0].erc721_held_ids(TOKEN), vec![ID.to_string()]);
    assert!(state.students[0].erc721_held_ids(WALLET).is_empty());
}

#[test]
fn takes_an_erc1155_deposit() {
    let mut state = new_state();
    let outcome = deposit_erc1155(&mut state, 12);
    assert_eq!(
        told(&outcome)[0],
        format!(
            "notice {{\"event\":\"erc1155_deposit\",\"input_index\":1,\"depositor\":\"{}\",\"token\":\"{}\",\"token_id\":\"{}\",\"amount\":\"12\",\"extra_data\":\"0x\"}}",
            WALLET, TOKEN, ID
        )
    );
    assert_eq!(state.students[0].erc1155_available(TOKEN, ID), 12);
    assert_eq!(state.students[0].erc1155_available(TOKEN, "0x1"), 0);
}

#[test]
fn refuses_short_payloads_of_portals() {
    let mut state = new_state();
    let short = format!("0x{}", "00".repeat(51));
    refused(
        &advance(&mut state, ETHER_PORTAL, &short, 4),
        "{\"error\":\"invalid_ether_payload\",\"input_index\":4}",
    );
    let short = format!("0x{}", "00".repeat(71));
    refused(
        &advance(&mut state, ERC20_PORTAL, &short, 4),
        "{\"error\":\"invalid_erc20_payload\",\"input_index\":4}",
    );
    refused(
        &advance(&mut state, ERC721_PORTAL, "0xzz", 4),
        "{\"error\":\"invalid_erc721_payload\",\"input_index\":4}",
    );
    let short = format!("0x{}", "00".repeat(103));
    refused(
        &advance(&mut state, ERC1155_PORTAL, &short, 4),
        "{\"error\":\"invalid_erc1155_payload\",\"input_index\":4}",
    );
    assert!(state.students.is_empty());
    assert_eq!(state.total_inputs, 4);
}

#[test]
fn deposits_of_one_wallet_add_up() {
    let mut state = new_state();
    deposit_ether(&mut state, 5);
    deposit_ether(&mut state, 6);
    deposit_erc20(&mut state, 7);
    assert_eq!(state.students.len(), 1);
    assert_eq!(state.students[0].ether_available(), 11);
    assert_eq!(state.students[0].erc20_available(TOKEN), 7);
}

#[test]
fn refuses_payloads_that_are_no_action() {
    let mut state = new_state();
    refused(
        &advance(&mut state, WALLET, "0x123", 1),
        "{\"error\":\"invalid_hex_payload\",\"input_index\":1}",
    );
    refused(
        &advance(&mut state, WALLET, "0xff", 2),
        "{\"error\":\"payload_not_utf8\",\"input_index\":2}",
    );
    refused(
        &act(&mut state, WALLET, "say \"hi\"", 3),
        "{\"error\":\"payload_not_json\",\"input_index\":3,\"raw\":\"say \\\"hi\\\"\"}",
    );
    refused(
        &act(&mut state, WALLET, "{\"action\":\"dance\"}", 4),
        "{\"error\":\"unknown_action\",\"input_index\":4,\"action\":\"dance\",\"valid\":[\"ping\",\"register\",\"withdraw\"]}",
    );
    refused(
        &act(&mut state, WALLET, "[1,2]", 5),
        "{\"error\":\"unknown_action\",\"input_index\":5,\"action\":\"\",\"valid\":[\"ping\",\"register\",\"withdraw\"]}",
    );
}

#[test]
fn registers_a_student_once() {
    let mut state = new_state();
    let action = "{\"action\":\"register\",\"name\":\"Ada\",\"reg_number\":\"R1\"}";
    let outcome = act(&mut state, "0x1111111111111111111111111111111111ABCDEF", action, 8);
    let wallet = "0x1111111111111111111111111111111111abcdef";
    assert!(outcome.accepted);
    assert_eq!(
        told(&outcome),
        vec![
            format!(
                "notice {{\"event\":\"student_registered\",\"input_index\":8,\"name\":\"Ada\",\"reg_number\":\"R1\",\"wallet\":\"{}\"}}",
                wallet
            ),
            processed(wallet, 8),
        ]
    );
    assert_eq!(state.students[0].name, "Ada");
    assert_eq!(state.students[0].registration_number, "R1");
    refused(
        &act(&mut state, wallet, action, 9),
        &format!("{{\"error\":\"already_registered\",\"input_index\":9,\"wallet\":\"{}\"}}", wallet),
    );
    assert_eq!(state.students.len(), 1);
}

#[test]
fn depositor_cannot_register_any_more() {
    let mut state = new_state();
    deposit_ether(&mut state, 5);
    let action = "{\"action\":\"register\",\"name\":\"Ada\",\"reg_number\":\"R1\"}";
    assert!(!act(&mut state, WALLET, action, 2).accepted);
    assert_eq!(state.students[0].name, "Unknown(0x11111111)");
}

#[test]
fn registration_needs_a_name_and_a_number() {
    let mut state = new_state();
    let nameless = "{\"error\":\"register_missing_name\",\"input_index\":1}";
    refused(&act(&mut state, WALLET, "{\"action\":\"register\"}", 1), nameless);
    refused(
        &act(&mut state, WALLET, "{\"action\":\"register\",\"name\":\"\",\"reg_number\":\"R\"}", 1),
        nameless,
    );
    refused(&act(&mut state, WALLET, "{\"action\":\"register\",\"name\":5}", 1), nameless);
    refused(
        &act(&mut state, WALLET, "{\"action\":\"register\",\"name\":\"Ada\"}", 1),
        "{\"error\":\"register_missing_reg_number\",\"input_index\":1}",
    );
}

#[test]
fn answers_a_ping() {
    let mut state = new_state();
    let outcome = act(&mut state, WALLET, "{\"action\":\"ping\"}", 6);
    assert!(outcome.accepted);
    assert_eq!(
        told(&outcome),
        vec![
            format!("notice {{\"event\":\"pong\",\"input_index\":6,\"sender\":\"{}\"}}", WALLET),
            processed(WALLET, 6),
        ]
    );
}

#[test]
fn learns_its_own_contract_once() {
    let mut state = new_state();
    let ping = str_to_hex_payload("{\"action\":\"ping\"}");
    handle_advance(&mut state, &request(WALLET, &ping, 1, APP)).unwrap();
    assert_eq!(state.app_contract.as_deref(), Some(APP_SMALL));
    handle_advance(&mut state, &request(WALLET, &ping, 2, TOKEN)).unwrap();
    assert_eq!(state.app_contract.as_deref(), Some(APP_SMALL));
    let outcome = act(&mut state, WALLET, "{\"action\":\"dapp_address\",\"address\":\"0xEe\"}", 3);
    assert_eq!(
        told(&outcome)[0],
        "notice {\"event\":\"dapp_address_relay\",\"input_index\":3,\"address\":\"0xEe\"}"
    );
    assert_eq!(state.app_contract.as_deref(), Some(APP_SMALL));
}

#[test]
fn relays_an_address_as_it_is() {
    let mut state = new_state();
    act(&mut state, WALLET, "{\"action\":\"dapp-address\",\"address\":\"0xEe\"}", 1);
    assert_eq!(state.app_contract.as_deref(), Some("0xEe"));
    let mut state = new_state();
    act(&mut state, WALLET, "{\"action\":\"dapp_address\"}", 1);
    assert_eq!(state.app_contract.as_deref(), Some(WALLET));
}

#[test]
fn pays_ether_out() {
    let mut state = new_state();
    deposit_ether(&mut state, 500);
    let action = "{\"action\":\"withdraw\",\"asset_type\":\"ether\",\"amount\":\"200\"}";
    let outcome = act(&mut state, WALLET, action, 2);
    assert!(outcome.accepted);
    assert_eq!(
        told(&outcome),
        vec![
            format!("voucher {} 0x522f6815{}{}", ETHER_PORTAL, WALLET_WORD, number(200)),
            format!(
                "notice {{\"event\":\"ether_withdrawal\",\"input_index\":2,\"wallet\":\"{}\",\"amount\":\"200\"}}",
                WALLET
            ),
            processed(WALLET, 2),
        ]
    );
    assert_eq!(state.students[0].ether_available(), 300);
    let action = "{\"action\":\"withdraw\",\"asset_type\":\"ether\",\"amount\":\"301\"}";
    refused(
        &act(&mut state, WALLET, action, 3),
        &format!(
            "{{\"error\":\"insufficient_ether_balance\",\"input_index\":3,\"wallet\":\"{}\",\"available\":\"300\",\"requested\":\"301\"}}",
            WALLET
        ),
    );
    assert_eq!(state.students[0].withdrawals.ether, vec![200]);
}

#[test]
fn pays_a_token_out() {
    let mut state = new_state();
    deposit_erc20(&mut state, 9);
    let action = format!(
        "{{\"action\":\"withdraw\",\"asset_type\":\"erc20\",\"token\":\"{}\",\"amount\":\"+9\"}}",
        TOKEN.to_uppercase().replace("0X", "0x")
    );
    let outcome = act(&mut state, WALLET, &action, 2);
    assert_eq!(
        told(&outcome),
        vec![
            format!("voucher {} 0xa9059cbb{}{}", TOKEN, WALLET_WORD, number(9)),
            format!(
                "notice {{\"event\":\"erc20_withdrawal\",\"input_index\":2,\"wallet\":\"{}\",\"token\":\"{}\",\"amount\":\"9\"}}",
                WALLET, TOKEN
            ),
            processed(WALLET, 2),
        ]
    );
    refused(
        &act(&mut state, WALLET, &action, 3),
        &format!(
            "{{\"error\":\"insufficient_erc20_balance\",\"input_index\":3,\"wallet\":\"{}\",\"token\":\"{}\",\"available\":\"0\",\"requested\":\"9\"}}",
            WALLET, TOKEN
        ),
    );
}

#[test]
fn pays_an_item_out_once() {
    let mut state = new_state();
    deposit_erc721(&mut state);
    let action = format!(
        "{{\"action\":\"withdraw\",\"asset_type\":\"erc721\",\"token\":\"{}\",\"token_id\":\"0x2A\"}}",
        TOKEN
    );
    refused(
        &act(&mut state, WALLET, &action, 2),
        "{\"error\":\"app_contract_unknown\",\"input_index\":2}",
    );
    let outcome =
        handle_advance(&mut state, &request(WALLET, &str_to_hex_payload(&action), 3, APP)).unwrap();
    assert_eq!(
        told(&outcome),
        vec![
            format!(
                "voucher {} 0x42842e0e000000000000000000000000{}{}{}",
                TOKEN,
                bare(APP_SMALL),
                WALLET_WORD,
                bare(ID)
            ),
            format!(
                "notice {{\"event\":\"erc721_withdrawal\",\"input_index\":3,\"wallet\":\"{}\",\"token\":\"{}\",\"token_id\":\"{}\"}}",
                WALLET, TOKEN, ID
            ),
            processed(WALLET, 3),
        ]
    );
    let gone = format!(
        "{{\"error\":\"erc721_token_not_held\",\"input_index\":4,\"wallet\":\"{}\",\"token\":\"{}\",\"token_id\":\"{}\"}}",
        WALLET, TOKEN, ID
    );
    refused(&act(&mut state, WALLET, &action, 4), &gone);
    deposit_erc721(&mut state);
    refused(&act(&mut state, WALLET, &action, 4), &gone);
}

#[test]
fn pays_items_of_a_kind_out() {
    let mut state = new_state();
    deposit_erc1155(&mut state, 12);
    let action = format!(
        "{{\"action\":\"withdraw\",\"asset_type\":\"erc1155\",\"token\":\"{}\",\"token_id\":\"2a\",\"amount\":\"5\"}}",
        TOKEN
    );
    refused(
        &act(&mut state, WALLET, &action, 2),
        "{\"error\":\"app_contract_unknown\",\"input_index\":2}",
    );
    let outcome =
        handle_advance(&mut state, &request(WALLET, &str_to_hex_payload(&action), 3, APP)).unwrap();
    assert_eq!(
        told(&outcome),
        vec![
            format!(
                "voucher {} 0xf242432a000000000000000000000000{}{}{}{}{}{}",
                TOKEN,
                bare(APP_SMALL),
                WALLET_WORD,
                bare(ID),
                number(5),
                number(160),
                number(0)
            ),
            format!(
                "notice {{\"event\":\"erc1155_withdrawal\",\"input_index\":3,\"wallet\":\"{}\",\"token\":\"{}\",\"token_id\":\"{}\",\"amount\":\"5\"}}",
                WALLET, TOKEN, ID
            ),
            processed(WALLET, 3),
        ]
    );
    let action = action.replace("\"5\"", "\"8\"");
    refused(
        &act(&mut state, WALLET, &action, 4),
        &format!(
            "{{\"error\":\"insufficient_erc1155_balance\",\"input_index\":4,\"wallet\":\"{}\",\"token\":\"{}\",\"token_id\":\"{}\",\"available\":\"7\",\"requested\":\"8\"}}",
            WALLET, TOKEN, ID
        ),
    );
}

#[test]
fn refuses_withdrawals_that_are_not_well_formed() {
    let mut state = new_state();
    let ether = "{\"action\":\"withdraw\",\"asset_type\":\"ether\",\"amount\":\"1\"}";
    refused(
        &act(&mut state, WALLET, ether, 1),
        &format!("{{\"error\":\"not_registered\",\"input_index\":1,\"wallet\":\"{}\"}}", WALLET),
    );
    deposit_ether(&mut state, 5);
    for (amount, raw) in [("\"0\"", "0"), ("\"-1\"", "-1"), ("7", "0"), ("\"x\"", "x")] {
        let action =
            format!("{{\"action\":\"withdraw\",\"asset_type\":\"ether\",\"amount\":{}}}", amount);
        refused(
            &act(&mut state, WALLET, &action, 2),
            &format!(
                "{{\"error\":\"withdraw_invalid_amount\",\"input_index\":2,\"raw\":\"{}\"}}",
                raw
            ),
        );
    }
    for kind in ["erc20", "erc721", "erc1155"] {
        let action = format!("{{\"action\":\"withdraw\",\"asset_type\":\"{}\",\"token\":\"\"}}", kind);
        refused(
            &act(&mut state, WALLET, &action, 3),
            "{\"error\":\"withdraw_missing_token\",\"input_index\":3}",
        );
    }
    for kind in ["erc721", "erc1155"] {
        let action =
            format!("{{\"action\":\"withdraw\",\"asset_type\":\"{}\",\"token\":\"0x2\"}}", kind);
        refused(
            &act(&mut state, WALLET, &action, 4),
            "{\"error\":\"withdraw_missing_token_id\",\"input_index\":4}",
        );
    }
    refused(
        &act(&mut state, WALLET, "{\"action\":\"withdraw\",\"asset_type\":\"gold\"}", 5),
        "{\"error\":\"unknown_asset_type\",\"input_index\":5,\"asset_type\":\"gold\",\"valid\":[\"ether\",\"erc20\",\"erc721\",\"erc1155\"]}",
    );
    assert_eq!(state.students[0].ether_available(), 5);
}

#[test]
fn request_without_payload_is_not_counted() {
    let mut state = new_state();
    let request = json::parse("{\"data\":{\"metadata\":{}}}").unwrap();
    assert!(matches!(handle_advance(&mut state, &request), Err(RequestError::MissingPayload)));
    assert_eq!(state.total_inputs, 0);
}

#[test]
fn missing_metadata_are_empty() {
    let mut state = new_state();
    let ping = str_to_hex_payload("{\"action\":\"ping\"}");
    let request = json::parse(&format!("{{\"data\":{{\"payload\":\"{}\"}}}}", ping)).unwrap();
    let outcome = handle_advance(&mut state, &request).unwrap();
    assert_eq!(told(&outcome)[0], "notice {\"event\":\"pong\",\"input_index\":0,\"sender\":\"\"}");
    assert!(state.app_contract.is_none());
}

#[test]
fn input_index_must_be_whole() {
    let mut state = new_state();
    let ping = str_to_hex_payload("{\"action\":\"ping\"}");
    for (index, read) in [("12", "12"), ("-1", "0"), ("1.5", "0"), ("\"3\"", "0")] {
        let text = format!(
            "{{\"data\":{{\"payload\":\"{}\",\"metadata\":{{\"input_index\":{}}}}}}}",
            ping, index
        );
        let outcome = handle_advance(&mut state, &json::parse(&text).unwrap()).unwrap();
        assert_eq!(
            told(&outcome)[0],
            format!("notice {{\"event\":\"pong\",\"input_index\":{},\"sender\":\"\"}}", read)
        );
    }
}

#[test]
fn what_is_sent_is_counted_when_it_arrives() {
    let mut state = new_state();
    deposit_ether(&mut state, 500);
    let action = "{\"action\":\"withdraw\",\"asset_type\":\"ether\",\"amount\":\"200\"}";
    let outcome = act(&mut state, WALLET, action, 2);
    for emission in &outcome.emissions {
        assert!(state.can_count(emission));
        assert!(state.settle(emission, true));
    }
    assert_eq!(state.total_vouchers, 1);
    assert_eq!(state.total_notices, 1);
    assert_eq!(state.total_inputs, 2);
}

#[test]
fn only_the_last_report_may_get_lost() {
    let mut state = new_state();
    let outcome = act(&mut state, WALLET, "{\"action\":\"ping\"}", 1);
    assert!(!state.settle(&outcome.emissions[0], false));
    assert!(state.settle(&outcome.emissions[1], false));
    let outcome = act(&mut state, WALLET, "{}", 1);
    assert!(!state.settle(&outcome.emissions[0], false));
    assert_eq!(state.total_notices, 0);
}

#[test]
fn tells_what_cannot_be_taken() {
    let mut state = new_state();
    let input = |payload: &str| Input {
        payload: payload.to_string(),
        msg_sender: WALLET.to_string(),
        input_index: 1,
        app_contract: String::new(),
    };
    assert!(is_advanceable(&state, &input("0x7b7d")));
    assert!(!is_advanceable(&state, &input("zé1")));
    let ether = str_to_hex_payload("{\"action\":\"withdraw\",\"asset_type\":\"ether\",\"amount\":\"1\"}");
    deposit_ether(&mut state, u128::MAX);
    assert!(is_advanceable(&state, &input(&ether)));
    deposit_ether(&mut state, 1);
    assert!(!is_advanceable(&state, &input(&ether)));
    let point = str_to_hex_payload(&format!("0.{}1", "0".repeat(40_000)));
    assert!(!is_advanceable(&state, &input(&point)));
    let malformed = format!("no 0.{}1", "0".repeat(40_000));
    refused(
        &act(&mut state, WALLET, &malformed, 5),
        &format!(
            "{{\"error\":\"payload_not_json\",\"input_index\":5,\"raw\":\"{}\"}}",
            &malformed[..120]
        ),
    );
    let long = format!("{{\"action\":\"ping\",\"n\":0.{}}}", "0".repeat(32_768));
    assert!(act(&mut state, WALLET, &long, 6).accepted);
    state.total_inputs = u64::MAX;
    assert!(!is_advanceable(&state, &input("0x7b7d")));
}
