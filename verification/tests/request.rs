use student_tracker::document::Fault;
use student_tracker::hex::str_to_hex_payload;
use student_tracker::input::RequestError;
use student_tracker::message::{finish_body, status_word, Emission};
use student_tracker::request::{handle_request, handle_text, has_request};
use student_tracker::state::AppState;

fn new_state() -> AppState {
    AppState::new(None, "0x20", "0x721", "0x1155")
}

#[test]
fn answers_requests_by_their_type() {
    let mut state = new_state();
    let text = format!(
        "{{\"request_type\":\"advance_state\",\"data\":{{\"payload\":\"{}\",\"metadata\":{{\"msg_sender\":\"0xAB\"}}}}}}",
        str_to_hex_payload("{\"action\":\"ping\"}")
    );
    let outcome = handle_request(&mut state, text.as_bytes()).unwrap();
    assert!(outcome.accepted);
    assert_eq!(outcome.emissions.len(), 2);
    assert_eq!(state.total_inputs, 1);
    let text = "{\"request_type\":\"inspect_state\",\"data\":{\"payload\":\"0x\"}}";
    let outcome = handle_request(&mut state, text.as_bytes()).unwrap();
    assert!(outcome.accepted);
    assert_eq!(outcome.emissions.len(), 1);
    assert_eq!(state.total_inputs, 1);
    let outcome = handle_text(&mut state, "{\"request_type\":\"dance\"}").unwrap();
    assert!(!outcome.accepted);
    assert!(outcome.emissions.is_empty());
}

#[test]
fn tells_why_a_request_is_not_answered() {
    let mut state = new_state();
    assert!(matches!(handle_request(&mut state, &[0xff]), Err(RequestError::NotUtf8)));
    assert!(matches!(handle_request(&mut state, b"{"), Err(RequestError::NotJson(_))));
    assert!(matches!(handle_request(&mut state, b"{}"), Err(RequestError::MissingRequestType)));
    assert!(matches!(
        handle_text(&mut state, "{\"request_type\":7}"),
        Err(RequestError::MissingRequestType)
    ));
    assert!(matches!(
        handle_text(&mut state, "{\"request_type\":\"advance_state\"}"),
        Err(RequestError::MissingPayload)
    ));
    assert!(matches!(
        handle_text(&mut state, "{\"request_type\":\"inspect_state\",\"data\":{}}"),
        Err(RequestError::MissingPayload)
    ));
    assert!(matches!(
        handle_text(
            &mut state,
            "{\"request_type\":\"inspect_state\",\"data\":{\"payload\":\"zé1\"}}"
        ),
        Err(RequestError::OutOfRange)
    ));
    assert!(matches!(
        handle_text(
            &mut state,
            "{\"request_type\":\"advance_state\",\"data\":{\"payload\":\"zé1\"}}"
        ),
        Err(RequestError::OutOfRange)
    ));
    let point = format!("[0.{}1]", "0".repeat(40_000));
    assert!(matches!(handle_text(&mut state, &point), Err(RequestError::OutOfRange)));
    assert_eq!(state.total_inputs, 0);
    assert!(state.students.is_empty());
}

fn is_read(text: &str) -> bool {
    let missing = handle_text(&mut new_state(), text);
    matches!(missing, Err(RequestError::MissingRequestType))
}

fn is_out_of_range(text: &str) -> bool {
    matches!(handle_text(&mut new_state(), text), Err(RequestError::OutOfRange))
}

fn point_zero(zeros: usize) -> String {
    format!("0.{}", "0".repeat(zeros))
}

#[test]
fn counts_the_digits_of_a_fraction_up_to_the_limit() {
    assert!(is_read(&format!("[{}]", point_zero(32_749))));
    assert!(is_read(&format!("[-{}]", point_zero(32_768))));
    assert!(is_read(&point_zero(32_768)));
    assert!(is_out_of_range(&point_zero(32_769)));
    assert!(is_out_of_range(&format!("{{\"a\":-{}}}", point_zero(32_769))));
    assert!(is_read(&format!("[{}1]", point_zero(32_767))));
    assert!(is_read(&format!("[{}1e9]", point_zero(32_767))));
    assert!(is_out_of_range(&format!("[{}1]", point_zero(32_768))));
    assert!(is_out_of_range(&format!("[{}12]", point_zero(32_767))));
}

#[test]
fn does_not_count_digits_without_room() {
    let full = "18446744073709551615";
    assert!(is_read(&format!("[{}{}]", point_zero(32_748), full)));
    assert!(is_read(&format!("[{}{}999]", point_zero(32_748), full)));
    assert!(is_out_of_range(&format!("[{}{}]", point_zero(32_749), full)));
    assert!(is_read(&format!("[{}1844674407370955161999]", point_zero(32_749))));
    assert!(is_out_of_range(&format!("[{}18446744073709551619995]", point_zero(32_749))));
}

#[test]
fn counts_no_zeros_elsewhere() {
    let zeros = "0".repeat(40_000);
    assert!(is_read(&format!("[\"a\\\"0.{}\",1.{},10.{}]", zeros, zeros, zeros)));
    assert!(is_out_of_range(&format!("[\"a\\\"\",-0.{}]", zeros)));
}

#[test]
fn text_that_is_no_document_stays_one_with_long_fractions() {
    let zeros = "0".repeat(40_000);
    for text in [
        format!("x 0.{}", zeros),
        format!("[1,,0.{}]", zeros),
        format!("{{a:0.{}}}", zeros),
        format!("00.{}", zeros),
        format!("1e0.{}", zeros),
        format!("[] 0.{}", zeros),
    ] {
        let result = handle_text(&mut new_state(), &text);
        assert!(matches!(
            result,
            Err(RequestError::NotJson(Fault::UnexpectedCharacter { .. }))
        ));
    }
    assert!(is_out_of_range(&format!("[0.{},,]", zeros)));
    assert!(is_out_of_range(&format!("[0.{}", zeros)));
}

#[test]
fn tells_what_is_wrong_with_a_document() {
    let mut state = new_state();
    assert!(matches!(
        handle_text(&mut state, "{\n  x"),
        Err(RequestError::NotJson(Fault::UnexpectedCharacter { ch: 'x', line: 2, column: 3 }))
    ));
    assert!(matches!(
        handle_text(&mut state, "[1,"),
        Err(RequestError::NotJson(Fault::UnexpectedEndOfJson))
    ));
    assert!(matches!(
        handle_text(&mut state, &"[".repeat(600)),
        Err(RequestError::NotJson(Fault::ExceededDepthLimit))
    ));
    assert!(matches!(
        handle_text(&mut state, "\"\\ud800\\u0041\""),
        Err(RequestError::NotJson(Fault::FailedUtf8Parsing))
    ));
}

#[test]
fn tells_an_empty_queue() {
    assert!(!has_request(202));
    assert!(has_request(200));
    assert!(has_request(400));
}

#[test]
fn tells_how_a_request_was_answered() {
    assert_eq!(status_word(true), "accept");
    assert_eq!(status_word(false), "reject");
    assert_eq!(finish_body(true), "{\"status\":\"accept\"}");
    assert_eq!(finish_body(false), "{\"status\":\"reject\"}");
}

#[test]
fn writes_what_is_sent() {
    let notice = Emission::Notice { payload: "hi".to_string() };
    assert_eq!(notice.path(), "/notice");
    assert_eq!(notice.body(), "{\"payload\":\"0x6869\"}");
    let report = Emission::Report { payload: "é".to_string(), required: true };
    assert_eq!(report.path(), "/report");
    assert_eq!(report.body(), "{\"payload\":\"0xc3a9\"}");
    let voucher =
        Emission::Voucher { destination: "0x1\"".to_string(), calldata: "0x2".to_string() };
    assert_eq!(voucher.path(), "/voucher");
    assert_eq!(voucher.body(), "{\"destination\":\"0x1\\\"\",\"payload\":\"0x2\"}");
}
