use student_tracker::advance::{advance, is_advanceable, Outcome};
use student_tracker::hex::str_to_hex_payload;
use student_tracker::input::Input;
use student_tracker::message::Emission;
use student_tracker::state::AppState;
use student_tracker::student::Student;

const ETHER_PORTAL: &str = "0xa632c5c05812c6a6149b7af5c56117d1d2603828";
const ERC20_PORTAL: &str = "0x20";
const ADA: &str = "0x1111111111111111111111111111111111111111";
const BOB: &str = "0x3333333333333333333333333333333333333333";
const TOKEN: &str = "0x2222222222222222222222222222222222222222";

fn new_state() -> AppState {
    AppState::new(None, ERC20_PORTAL, "0x721", "0x1155")
}

fn send(state: &mut AppState, sender: &str, payload: &str) -> Outcome {
    let input = Input {
        payload: payload.to_string(),
        msg_sender: sender.to_string(),
        input_index: 1,
        app_contract: String::new(),
    };
    assert!(is_advanceable(state, &input));
    advance(state, &input)
}

fn ether_for(wallet: &str, amount: u128) -> String {
    format!("{}{:064x}", wallet, amount)
}

fn withdraw(amount: u128) -> String {
    str_to_hex_payload(&format!(
        "{{\"action\":\"withdraw\",\"asset_type\":\"ether\",\"amount\":\"{}\"}}",
        amount
    ))
}

fn counts(outcome: &Outcome) -> (usize, usize, usize) {
    let notices = outcome.emissions.iter().filter(|e| matches!(e, Emission::Notice { .. })).count();
    let reports = outcome.emissions.iter().filter(|e| matches!(e, Emission::Report { .. })).count();
    let vouchers = outcome.emissions.iter().filter(|e| matches!(e, Emission::Voucher { .. })).count();
    (notices, reports, vouchers)
}

fn shape(student: &Student) -> String {
    format!("{:?}", student)
}

#[test]
fn every_input_is_reported_on_once() {
    let mut state = new_state();
    assert_eq!(counts(&send(&mut state, ETHER_PORTAL, &ether_for(ADA, 9))), (1, 1, 0));
    assert_eq!(counts(&send(&mut state, ADA, &withdraw(4))), (1, 1, 1));
    assert_eq!(counts(&send(&mut state, ADA, &withdraw(6))), (0, 1, 0));
    assert_eq!(counts(&send(&mut state, BOB, "0x")), (0, 1, 0));
    assert_eq!(state.total_inputs, 4);
}

#[test]
fn nobody_takes_out_more_than_came_in() {
    let mut state = new_state();
    send(&mut state, ETHER_PORTAL, &ether_for(ADA, 10));
    let mut paid: u128 = 0;
    for amount in [4, 4, 4, 2, 1] {
        if send(&mut state, ADA, &withdraw(amount)).accepted {
            paid += amount;
        }
        assert_eq!(state.students[0].ether_available(), 10 - paid);
    }
    assert_eq!(paid, 10);
}

#[test]
fn inputs_touch_one_account_at_the_most() {
    let mut state = new_state();
    send(&mut state, ETHER_PORTAL, &ether_for(ADA, 10));
    send(&mut state, ETHER_PORTAL, &ether_for(BOB, 20));
    let ada = shape(&state.students[0]);
    send(&mut state, ETHER_PORTAL, &ether_for(BOB, 5));
    send(&mut state, BOB, &withdraw(25));
    assert_eq!(shape(&state.students[0]), ada);
    assert_eq!(state.students[1].deposits.ether, vec![20, 5]);
    assert_eq!(state.students[1].withdrawals.ether, vec![25]);
    assert_eq!(state.find(BOB), Some(1));
    assert_eq!(state.find("0x"), None);
}

#[test]
fn refused_inputs_change_no_student() {
    let mut state = new_state();
    send(&mut state, ETHER_PORTAL, &ether_for(ADA, 10));
    let ada = shape(&state.students[0]);
    for payload in ["0x1", "0xff", "0x7b", "0x7b7d", &withdraw(11)] {
        assert!(!send(&mut state, ADA, payload).accepted);
        assert_eq!(shape(&state.students[0]), ada);
    }
    assert_eq!(state.students.len(), 1);
    assert_eq!(state.total_inputs, 6);
}

#[test]
fn portals_do_nothing_but_bring_assets_in() {
    let mut state = new_state();
    assert!(!send(&mut state, ERC20_PORTAL, &str_to_hex_payload("{\"action\":\"ping\"}")).accepted);
    assert!(!send(&mut state, ADA, &ether_for(ADA, 10)).accepted);
    assert!(state.students.is_empty());
}

#[test]
fn first_portal_counts_where_two_are_the_same() {
    let mut state = AppState::new(Some("0x5"), "0x5", "0x5", "0x5");
    let payload = format!("{}{}{:064x}", TOKEN, &ADA[2..], 1);
    assert!(send(&mut state, "0x5", &payload).accepted);
    assert_eq!(state.students[0].wallet_address, TOKEN);
    assert_eq!(state.students[0].deposits.ether.len(), 1);
    assert!(state.students[0].deposits.erc20.is_empty());
}

#[test]
fn deposit_can_be_taken_out_without_registration() {
    let mut state = new_state();
    let payload = format!("{}{}{:064x}", TOKEN, &ADA[2..], 55);
    send(&mut state, ERC20_PORTAL, &payload);
    let action = format!(
        "{{\"action\":\"withdraw\",\"asset_type\":\"erc20\",\"token\":\"{}\",\"amount\":\"55\"}}",
        TOKEN
    );
    assert!(send(&mut state, ADA, &str_to_hex_payload(&action)).accepted);
    assert_eq!(state.students[0].erc20_available(TOKEN), 0);
    assert_eq!(state.students[0].name, "Unknown(0x11111111)");
}
