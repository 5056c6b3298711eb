use student_tracker::advance::Outcome;
use student_tracker::hex::str_to_hex_payload;
use student_tracker::input::RequestError;
use student_tracker::inspect::{count, handle_inspect, is_inspectable, read_route, report};
use student_tracker::ledger::Asset;
use student_tracker::message::Emission;
use student_tracker::state::AppState;
use student_tracker::student::Student;

const WALLET: &str = "0x1111111111111111111111111111111111abcdef";
const TOKEN: &str = "0x2222222222222222222222222222222222222222";

fn new_state() -> AppState {
    AppState::new(Some("0xE0"), "0x20", "", "0x1155")
}

fn ask(state: &AppState, route: &str) -> Outcome {
    let text = format!("{{\"data\":{{\"payload\":\"{}\"}}}}", str_to_hex_payload(route));
    handle_inspect(state, &json::parse(&text).unwrap()).unwrap()
}

fn answer(state: &AppState, route: &str) -> String {
    let outcome = ask(state, route);
    assert!(outcome.accepted);
    assert_eq!(outcome.emissions.len(), 1);
    match &outcome.emissions[0] {
        Emission::Report { payload, required } => {
            assert!(*required);
            payload.clone()
        }
        _ => panic!("no report"),
    }
}

fn ether(amount: u128) -> Asset {
    Asset::Ether { amount }
}

fn erc20(amount: u128) -> Asset {
    Asset::Erc20 { token: TOKEN.to_string(), amount }
}

fn erc721(id: &str) -> Asset {
    Asset::Erc721 { token: TOKEN.to_string(), token_id: id.to_string() }
}

fn erc1155(id: &str, amount: u128) -> Asset {
    Asset::Erc1155 { token: TOKEN.to_string(), token_id: id.to_string(), amount }
}

fn rich_state() -> AppState {
    let mut state = new_state();
    state.deposit(WALLET, &ether(10));
    state.deposit(WALLET, &erc20(20));
    state.deposit(WALLET, &erc20(5));
    state.deposit(WALLET, &erc721("0x1"));
    state.deposit(WALLET, &erc721("0x2"));
    state.deposit(WALLET, &erc1155("0x7", 30));
    state.withdraw(WALLET, &ether(4));
    state.withdraw(WALLET, &erc20(6));
    state.withdraw(WALLET, &erc721("0x1"));
    state.withdraw(WALLET, &erc1155("0x7", 1));
    state
}

const SHOWN: &str = "{\"name\":\"Unknown(0x11111111)\",\"registration_number\":\"AUTO-11111111\",\"wallet_address\":\"0x1111111111111111111111111111111111abcdef\",\"ether_balance\":{\"total_deposited\":\"10\",\"total_withdrawn\":\"4\",\"available_wei\":\"6\"},\"erc20_balances\":[{\"token_address\":\"0x2222222222222222222222222222222222222222\",\"total_deposited\":\"25\",\"total_withdrawn\":\"6\",\"available\":\"19\"}],\"erc721_holdings\":[{\"token_address\":\"0x2222222222222222222222222222222222222222\",\"deposited_ids\":[\"0x1\",\"0x2\"],\"held_ids\":[\"0x2\"],\"held_count\":1}],\"erc1155_balances\":[{\"token_address\":\"0x2222222222222222222222222222222222222222\",\"token_id\":\"0x7\",\"total_deposited\":\"30\",\"total_withdrawn\":\"1\",\"available\":\"29\"}]}";

#[test]
fn reads_routes() {
    assert_eq!(read_route(&str_to_hex_payload(" summary\n")), "summary");
    assert_eq!(read_route("0x"), "");
    assert_eq!(read_route("0xff"), "all");
    assert_eq!(read_route("no hex"), "");
}

#[test]
fn shows_all_students() {
    let state = new_state();
    assert_eq!(answer(&state, ""), "{\"route\":\"all\",\"total_students\":0,\"students\":[]}");
    let state = rich_state();
    assert_eq!(
        answer(&state, "all"),
        format!("{{\"route\":\"all\",\"total_students\":1,\"students\":[{}]}}", SHOWN)
    );
    assert_eq!(answer(&state, "all"), answer(&state, "  "));
}

#[test]
fn shows_one_student() {
    let state = rich_state();
    let shown = format!("{},\"route\":\"student\"}}", &SHOWN[..SHOWN.len() - 1]);
    assert_eq!(answer(&state, &format!("student/{}", WALLET)), shown);
    assert_eq!(answer(&state, &format!("student/{}", &WALLET[2..])), shown);
    let capitals = format!("student/0x{}", WALLET[2..].to_uppercase());
    assert_eq!(answer(&state, &capitals), shown);
    assert_eq!(
        answer(&state, "student/AB"),
        "{\"error\":\"not_found\",\"route\":\"student\",\"wallet\":\"0xab\"}"
    );
}

#[test]
fn shows_the_history_of_a_student() {
    let state = rich_state();
    let deposits = "{\"type\":\"ether_deposit\",\"amount\":\"10\"},{\"type\":\"erc20_deposit\",\"token\":\"T\",\"amount\":\"20\"},{\"type\":\"erc20_deposit\",\"token\":\"T\",\"amount\":\"5\"},{\"type\":\"erc721_deposit\",\"token\":\"T\",\"token_id\":\"0x1\"},{\"type\":\"erc721_deposit\",\"token\":\"T\",\"token_id\":\"0x2\"},{\"type\":\"erc1155_deposit\",\"token\":\"T\",\"token_id\":\"0x7\",\"amount\":\"30\"}";
    let withdrawals = "{\"type\":\"ether_withdrawal\",\"amount\":\"4\"},{\"type\":\"erc20_withdrawal\",\"token\":\"T\",\"amount\":\"6\"},{\"type\":\"erc721_withdrawal\",\"token\":\"T\",\"token_id\":\"0x1\"},{\"type\":\"erc1155_withdrawal\",\"token\":\"T\",\"token_id\":\"0x7\",\"amount\":\"1\"}";
    let events = format!("{},{}", deposits, withdrawals).replace("\"T\"", &format!("\"{}\"", TOKEN));
    assert_eq!(
        answer(&state, &format!("activity/{}", WALLET)),
        format!("{{\"route\":\"activity\",\"wallet\":\"{}\",\"activity\":[{}]}}", WALLET, events)
    );
    assert_eq!(
        answer(&state, "activity/0x"),
        "{\"error\":\"not_found\",\"route\":\"activity\",\"wallet\":\"0x\"}"
    );
}

#[test]
fn shows_the_portals() {
    let mut state = new_state();
    assert_eq!(
        answer(&state, "portals"),
        "{\"route\":\"portals\",\"ether_portal\":\"0xe0\",\"erc20_portal\":\"0x20\",\"erc721_portal\":\"\",\"erc1155_portal\":\"0x1155\",\"app_contract\":\"\"}"
    );
    state.learn_contract("0xdd");
    assert!(answer(&state, "portals").ends_with("\"app_contract\":\"0xdd\"}"));
}

#[test]
fn shows_the_counts() {
    let mut state = rich_state();
    state.enrol(Student::new("Ada".to_string(), "R1".to_string(), "0xab".to_string()));
    assert_eq!(
        answer(&state, "summary"),
        "{\"route\":\"summary\",\"total_students\":2,\"registered\":1,\"auto_registered\":1,\"ether_deposits\":1,\"erc20_deposits\":2,\"erc721_deposits\":2,\"erc1155_deposits\":1,\"erc20_withdrawals\":1,\"erc721_withdrawals\":1,\"erc1155_withdrawals\":1}"
    );
    assert_eq!(count(&state).unwrap().registered, 1);
}

#[test]
fn shows_its_own_contract() {
    let mut state = new_state();
    assert_eq!(
        answer(&state, "app"),
        "{\"route\":\"app\",\"app_contract\":null,\"discovered\":false,\"hint\":\"no advance input processed yet\"}"
    );
    state.learn_contract("0xdd");
    assert_eq!(
        answer(&state, "app"),
        "{\"route\":\"app\",\"app_contract\":\"0xdd\",\"discovered\":true}"
    );
}

#[test]
fn shows_its_health() {
    let mut state = rich_state();
    state.begin_input("");
    state.total_notices = 8;
    state.total_vouchers = 9;
    let shown = "{\"route\":\"status\",\"status\":\"ok\",\"app_name\":\"student-tracker\",\"version\":\"2.0.0\",\"total_students\":1,\"total_inputs\":1,\"total_notices\":8,\"total_vouchers\":9,\"portals_configured\":{\"ether\":true,\"erc20\":true,\"erc721\":false,\"erc1155\":true}}";
    assert_eq!(answer(&state, "status"), shown);
    assert_eq!(answer(&state, "health"), shown);
}

#[test]
fn names_the_routes_where_one_is_unknown() {
    let state = new_state();
    assert_eq!(
        answer(&state, "students"),
        "{\"error\":\"unknown_route\",\"route\":\"students\",\"valid\":[\"all\",\"student/<addr>\",\"activity/<addr>\",\"portals\",\"app\",\"summary\",\"status\"]}"
    );
    assert_eq!(report(&state, "x"), answer(&state, "x"));
}

#[test]
fn inspection_needs_a_payload() {
    let state = new_state();
    let request = json::parse("{\"data\":{\"payload\":1}}").unwrap();
    assert!(matches!(handle_inspect(&state, &request), Err(RequestError::MissingPayload)));
}

#[test]
fn tells_sums_that_cannot_be_held() {
    let mut state = new_state();
    state.deposit(WALLET, &erc20(u128::MAX));
    assert!(is_inspectable(&state, &str_to_hex_payload("all")));
    state.deposit(WALLET, &erc20(1));
    assert!(!is_inspectable(&state, &str_to_hex_payload("all")));
    assert!(!is_inspectable(&state, &str_to_hex_payload(&format!("student/{}", WALLET))));
    assert!(is_inspectable(&state, &str_to_hex_payload(&format!("activity/{}", WALLET))));
    assert!(is_inspectable(&state, &str_to_hex_payload("summary")));
}

#[test]
fn lists_every_token_once() {
    let mut state = new_state();
    state.deposit(WALLET, &erc721("0x1"));
    state.deposit(WALLET, &erc721("0x1"));
    state.deposit(WALLET, &Asset::Erc721 { token: "0x3".to_string(), token_id: "0x1".to_string() });
    let shown = answer(&state, &format!("student/{}", WALLET));
    assert!(shown.contains(&format!(
        "\"erc721_holdings\":[{{\"token_address\":\"{}\",\"deposited_ids\":[\"0x1\",\"0x1\"],\"held_ids\":[\"0x1\"],\"held_count\":1}},{{\"token_address\":\"0x3\",\"deposited_ids\":[\"0x1\"],\"held_ids\":[\"0x1\"],\"held_count\":1}}]",
        TOKEN
    )));
}
