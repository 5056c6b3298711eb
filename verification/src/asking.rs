//! What is asked for, and when it is answered.

use vstd::prelude::*;
use vstd::utf8::{
    decode_utf8, encode_utf8, encode_utf8_decode_utf8, encode_utf8_valid_utf8, valid_utf8,
};
use crate::advance::{advanceable, advanced, answers, verdict, Outcome};
use crate::basics::prefix_is_taken_off;
use crate::document::{
    empty_object, first_beyond, member_put_and_found, number, parsed, place_behind, readable,
    Fault, Json, Place,
};
use crate::hex::{cuttable, marked_hex, normalised, spelt_bytes, unmarked};
use crate::input::{input_in, InputModel, RequestError};
use crate::inspect::{inspectable, looked_at, reportable, route_in, tally};
use crate::laws::route_is_told;
use crate::ledger::{erc1155_sum, erc20_sum, ether_sum};
use crate::request::{document_reaction, reaction, reply_of, ReactionModel, ReplyModel};
use crate::round_trips::bytes_read_back;
use crate::state::{place_found, StateModel};
use crate::student::StudentModel;
use crate::text::{bare, lowercased};
use crate::verdicts::{assets_differ, is_amount, is_filled, is_from_wallet, sends, wants_out};

verus! {

/// The text under a key, or an empty one where there is none.
pub open spec fn text_under(document: Json, key: Seq<char>) -> Seq<char> {
    match document.member(key) {
        Json::Text(text) => text,
        _ => ""@,
    }
}

/// The input that a request to advance the state carries: the payload as it is, the sender and the
/// contract in small letters, and the index, which is zero where it is no whole number.
pub open spec fn carried(request: Json) -> InputModel {
    let data = request.member("data"@);
    let metadata = data.member("metadata"@);
    InputModel {
        payload: text_under(data, "payload"@),
        msg_sender: lowercased(text_under(metadata, "msg_sender"@)),
        input_index: match metadata.member("input_index"@) {
            Json::Number { positive: true, mantissa, exponent } => if exponent == 0 {
                mantissa
            } else {
                0
            },
            _ => 0,
        },
        app_contract: lowercased(text_under(metadata, "app_contract"@)),
    }
}

/// What comes of a request rests on its type, on whether it carries a payload, and on nothing else but
/// the input or the payload in it. An input that is refused is not accepted, any other one is.
pub proof fn requests_are_answered_by_type(state: StateModel, request: Json)
    ensures
        ({
            let kind = request.member("request_type"@);
            let payload = request.member("data"@).member("payload"@);
            let input = carried(request);
            let unchanged = |reply: ReplyModel| ReactionModel { state, reply };
            document_reaction(state, request) == (if !(kind is Text) {
                unchanged(ReplyModel::MissingRequestType)
            } else if kind != Json::Text("advance_state"@) && kind != Json::Text("inspect_state"@) {
                unchanged(ReplyModel::Answer { emissions: Seq::empty(), accepted: false })
            } else if !(payload is Text) {
                unchanged(ReplyModel::MissingPayload)
            } else if kind == Json::Text("inspect_state"@) {
                if inspectable(state, payload->Text_0) {
                    unchanged(
                        ReplyModel::Answer {
                            emissions: looked_at(state, payload->Text_0),
                            accepted: true,
                        },
                    )
                } else {
                    unchanged(ReplyModel::OutOfRange)
                }
            } else if advanceable(state, input) {
                ReactionModel {
                    state: advanced(state, input),
                    reply: ReplyModel::Answer {
                        emissions: answers(state, input),
                        accepted: !(verdict(state, input) is Refuse),
                    },
                }
            } else {
                unchanged(ReplyModel::OutOfRange)
            })
        }),
{
    reveal_strlit("advance_state");
    reveal_strlit("inspect_state");
    assert("advance_state"@[0] == 'a' && "inspect_state"@[0] == 'i');
}

/// The bytes of a request are those of a text, and the text is that of a document, or it is told what is
/// wrong with them.
pub proof fn bytes_are_read_as_a_document(state: StateModel, body: Seq<u8>)
    ensures
        !valid_utf8(body) ==> reaction(state, body) == (ReactionModel {
            state,
            reply: ReplyModel::NotUtf8,
        }),
        valid_utf8(body) && readable(decode_utf8(body)) ==> reaction(state, body) == (match parsed(
            decode_utf8(body),
        ) {
            Ok(request) => document_reaction(state, request),
            Err(fault) => ReactionModel { state, reply: ReplyModel::NotJson(fault) },
        }),
{
}

/// A request that is put together from an input is read as that input.
pub proof fn request_reads_back(input: InputModel)
    ensures
        ({
            let metadata = empty_object().with("msg_sender"@, Json::Text(input.msg_sender)).with(
                "input_index"@,
                number(input.input_index),
            ).with("app_contract"@, Json::Text(input.app_contract));
            let data = empty_object().with("metadata"@, metadata).with(
                "payload"@,
                Json::Text(input.payload),
            );
            let request = empty_object().with("request_type"@, Json::Text("advance_state"@)).with(
                "data"@,
                data,
            );
            input_in(request) == Some(
                InputModel {
                    payload: input.payload,
                    msg_sender: lowercased(input.msg_sender),
                    input_index: input.input_index,
                    app_contract: lowercased(input.app_contract),
                },
            )
        }),
{
    reveal_strlit("msg_sender");
    reveal_strlit("input_index");
    reveal_strlit("app_contract");
    reveal_strlit("metadata");
    reveal_strlit("payload");
    assert("msg_sender"@.len() == 10 && "input_index"@.len() == 11 && "app_contract"@.len() == 12);
    assert("metadata"@.len() == 8 && "payload"@.len() == 7);
    let sender = "msg_sender"@;
    let index = "input_index"@;
    let contract = "app_contract"@;
    let a = empty_object().with(sender, Json::Text(input.msg_sender));
    let b = a.with(index, number(input.input_index));
    let metadata = b.with(contract, Json::Text(input.app_contract));
    member_put_and_found(empty_object(), sender, Json::Text(input.msg_sender), index);
    member_put_and_found(a, index, number(input.input_index), sender);
    member_put_and_found(b, contract, Json::Text(input.app_contract), sender);
    member_put_and_found(b, contract, Json::Text(input.app_contract), index);
    let c = empty_object().with("metadata"@, metadata);
    let data = c.with("payload"@, Json::Text(input.payload));
    member_put_and_found(empty_object(), "metadata"@, metadata, "payload"@);
    member_put_and_found(c, "payload"@, Json::Text(input.payload), "metadata"@);
    let d = empty_object().with("request_type"@, Json::Text("advance_state"@));
    member_put_and_found(empty_object(), "request_type"@, Json::Text("advance_state"@), "data"@);
    member_put_and_found(d, "data"@, data, "data"@);
}

// ---- What can be answered ----

proof fn few_digits_are_counted(text: Seq<char>)
    ensures
        place_behind(text) matches Place::Fraction { counted, .. } ==> counted <= text.len(),
        text.len() <= 32_768 ==> first_beyond(text) is None,
    decreases text.len(),
{
    if text.len() > 0 {
        few_digits_are_counted(text.drop_last());
    }
}

/// Every text of up to 32768 characters can be read, and so can every text without a point.
pub proof fn short_texts_can_be_read(text: Seq<char>)
    ensures
        text.len() <= 32_768 ==> readable(text),
        !text.contains('.') ==> readable(text),
{
    few_digits_are_counted(text);
    if !text.contains('.') {
        no_point_no_fraction(text);
    }
}

proof fn no_point_no_fraction(text: Seq<char>)
    requires
        !text.contains('.'),
    ensures
        !(place_behind(text) is Fraction),
        first_beyond(text) is None,
    decreases text.len(),
{
    if text.len() > 0 {
        let before = text.drop_last();
        assert(text[text.len() - 1] != '.') by {
            assert(text.contains(text[text.len() - 1]));
        }
        assert(!before.contains('.')) by {
            if before.contains('.') {
                let i = choose|i: int| 0 <= i < before.len() && before[i] == '.';
                assert(text[i] == '.');
            }
        }
        no_point_no_fraction(before);
    }
}

/// Whether a `u128` can hold every sum of a student's entries.
pub open spec fn sums_can_be_held(student: StudentModel) -> bool {
    &&& ether_sum(student.deposits.ether) <= u128::MAX
    &&& ether_sum(student.withdrawals.ether) <= u128::MAX
    &&& forall|token: Seq<char>| #[trigger]
        erc20_sum(student.deposits.erc20, token) <= u128::MAX && erc20_sum(
            student.withdrawals.erc20,
            token,
        ) <= u128::MAX
    &&& forall|token: Seq<char>, id: Seq<char>| #[trigger]
        erc1155_sum(student.deposits.erc1155, token, id) <= u128::MAX && erc1155_sum(
            student.withdrawals.erc1155,
            token,
            id,
        ) <= u128::MAX
}

/// Every input whose payload spells bytes is answered, as long as inputs can be counted, the text of a
/// wallet can be read, and the sums of the sender can be held.
pub proof fn inputs_are_answered(state: StateModel, input: InputModel, bytes: Seq<u8>)
    requires
        state.total_inputs < u64::MAX,
        input.payload == marked_hex(bytes),
        valid_utf8(bytes) ==> readable(decode_utf8(bytes)),
        state.student(input.msg_sender) matches Some(student) ==> sums_can_be_held(student),
    ensures
        advanceable(state, input),
{
    bytes_read_back(bytes);
    assert(state.with_input(input.app_contract).students == state.students);
    if let Some(student) = state.student(input.msg_sender) {
        assert forall|token: Seq<char>| student.erc20_fits(token) by {
            assert(erc20_sum(student.deposits.erc20, token) <= u128::MAX);
        }
        assert forall|token: Seq<char>, id: Seq<char>| student.erc1155_fits(token, id) by {
            assert(erc1155_sum(student.deposits.erc1155, token, id) <= u128::MAX);
        }
    }
}

/// Every route is answered, as long as the sums of the students and the counts can be held.
pub proof fn routes_are_answered(state: StateModel, bytes: Seq<u8>)
    requires
        forall|i: int|
            0 <= i < state.students.len() ==> sums_can_be_held(#[trigger] state.students[i]),
        tally(state.students).fits(),
    ensures
        inspectable(state, marked_hex(bytes)),
{
    bytes_read_back(bytes);
    assert forall|i: int| 0 <= i < state.students.len() implies (
    #[trigger] state.students[i]).totals_fit() by {
        let student = state.students[i];
        assert(sums_can_be_held(student));
        assert forall|token: Seq<char>| student.erc20_fits(token) by {
            assert(erc20_sum(student.deposits.erc20, token) <= u128::MAX);
        }
        assert forall|token: Seq<char>, id: Seq<char>| student.erc1155_fits(token, id) by {
            assert(erc1155_sum(student.deposits.erc1155, token, id) <= u128::MAX);
        }
    }
    assert forall|wallet: Seq<char>| #[trigger]
        state.student(wallet) is Some implies state.student(wallet)->0.totals_fit() by {
        place_found(state.students, wallet);
    }
}

/// What a route needs: the sums of the students that it shows, or the counts. No route needs more.
pub proof fn routes_need_what_they_show(state: StateModel, address: Seq<char>, route: Seq<char>)
    ensures
        route.len() == 0 || route == "all"@ ==> reportable(state, route) == (forall|i: int|
            0 <= i < state.students.len() ==> shown_sums_can_be_held(#[trigger] state.students[i])),
        reportable(state, "student/"@ + address) == (match state.student(
            "0x"@ + lowercased(bare(address)),
        ) {
            Some(student) => shown_sums_can_be_held(student),
            None => true,
        }),
        reportable(state, "activity/"@ + address),
        route == "summary"@ ==> reportable(state, route) == counts_can_be_held(state.students),
        route.len() > 0 && route != "all"@ && route != "summary"@ && !"student/"@.is_prefix_of(route)
            ==> reportable(state, route),
{
    route_is_told(address);
    reveal_strlit("student/");
    reveal_strlit("activity/");
    reveal_strlit("summary");
    reveal_strlit("all");
    assert("summary"@.len() == 7 && "student/"@.len() == 8 && "all"@.len() == 3);
    assert("activity/"@.len() == 9);
    prefix_is_taken_off(route, "student/"@);
    prefix_is_taken_off("activity/"@ + address, "student/"@);
}

/// Whether a `u128` can hold every sum that is shown of a student.
pub open spec fn shown_sums_can_be_held(student: StudentModel) -> bool {
    &&& ether_sum(student.deposits.ether) <= u128::MAX
    &&& ether_sum(student.withdrawals.ether) <= u128::MAX
    &&& forall|i: int|
        0 <= i < student.deposits.erc20.len() ==> erc20_sum(
            student.deposits.erc20,
            (#[trigger] student.deposits.erc20[i]).0,
        ) <= u128::MAX && erc20_sum(student.withdrawals.erc20, student.deposits.erc20[i].0)
            <= u128::MAX
    &&& forall|i: int|
        0 <= i < student.deposits.erc1155.len() ==> erc1155_sum(
            student.deposits.erc1155,
            (#[trigger] student.deposits.erc1155[i]).0,
            student.deposits.erc1155[i].1,
        ) <= u128::MAX && erc1155_sum(
            student.withdrawals.erc1155,
            student.deposits.erc1155[i].0,
            student.deposits.erc1155[i].1,
        ) <= u128::MAX
}

/// Whether a `usize` can hold every count over the students.
pub open spec fn counts_can_be_held(students: Seq<StudentModel>) -> bool {
    let counts = tally(students);
    &&& counts.registered <= usize::MAX
    &&& counts.ether_deposits <= usize::MAX
    &&& counts.erc20_deposits <= usize::MAX
    &&& counts.erc721_deposits <= usize::MAX
    &&& counts.erc1155_deposits <= usize::MAX
    &&& counts.erc20_withdrawals <= usize::MAX
    &&& counts.erc721_withdrawals <= usize::MAX
    &&& counts.erc1155_withdrawals <= usize::MAX
}

/// What an input of a wallet needs: that it can be counted, that its text can be read, and for a
/// withdrawal the sums of the very asset that is asked for. Nothing else needs sums.
pub proof fn inputs_need_the_sums_they_are_measured_by(
    state: StateModel,
    input: InputModel,
    text: Seq<char>,
    document: Json,
)
    requires
        sends(state, input, text, document),
        cuttable(input.payload),
        state.total_inputs < u64::MAX,
        readable(text),
    ensures
        document.member("action"@) != Json::Text("withdraw"@) ==> advanceable(state, input),
        state.student(input.msg_sender) is None ==> advanceable(state, input),
        wants_out(state, input, text, document, "ether"@) && is_amount(document) ==> advanceable(
            state,
            input,
        ) == state.student(input.msg_sender)->0.ether_fits(),
        wants_out(state, input, text, document, "erc20"@) && is_amount(document) && is_filled(
            document,
            "token"@,
        ) ==> advanceable(state, input) == state.student(input.msg_sender)->0.erc20_fits(
            lowercased(document.member("token"@)->Text_0),
        ),
        wants_out(state, input, text, document, "erc721"@) ==> advanceable(state, input),
        wants_out(state, input, text, document, "erc1155"@) && is_amount(document) && is_filled(
            document,
            "token"@,
        ) && is_filled(document, "token_id"@) ==> advanceable(state, input) == state.student(
            input.msg_sender,
        )->0.erc1155_fits(
            lowercased(document.member("token"@)->Text_0),
            normalised(document.member("token_id"@)->Text_0),
        ),
{
    assets_differ();
    encode_utf8_valid_utf8(text);
    encode_utf8_decode_utf8(text);
    assert(state.with_input(input.app_contract).students == state.students);
    reveal_strlit("");
    reveal_strlit("withdraw");
    assert(""@.len() == 0 && "withdraw"@.len() == 8);
}

/// An input that needs no sums is answered as long as it can be counted and its payload can be cut: one
/// of a portal, one whose payload is no text, and one that does not name an asset well.
pub proof fn other_inputs_need_nothing(
    state: StateModel,
    input: InputModel,
    text: Seq<char>,
    document: Json,
)
    requires
        cuttable(input.payload),
        state.total_inputs < u64::MAX,
    ensures
        !is_from_wallet(state, input) ==> advanceable(state, input),
        spelt_bytes(unmarked(input.payload)) is None ==> advanceable(state, input),
        spelt_bytes(unmarked(input.payload)) matches Some(bytes) && !valid_utf8(bytes) ==> advanceable(
            state,
            input,
        ),
        is_from_wallet(state, input) && spelt_bytes(unmarked(input.payload)) == Some(
            encode_utf8(text),
        ) && readable(text) && parsed(text) is Err ==> advanceable(state, input),
        sends(state, input, text, document) && readable(text) && document.member("action"@)
            == Json::Text("withdraw"@) && (match document.member("asset_type"@) {
            Json::Text(kind) => if kind == "ether"@ {
                !is_amount(document)
            } else if kind == "erc20"@ {
                !is_filled(document, "token"@) || !is_amount(document)
            } else if kind == "erc1155"@ {
                !is_filled(document, "token"@) || !is_filled(document, "token_id"@) || !is_amount(
                    document,
                )
            } else {
                true
            },
            _ => true,
        }) ==> advanceable(state, input),
{
    assets_differ();
    encode_utf8_valid_utf8(text);
    encode_utf8_decode_utf8(text);
    reveal_strlit("");
    reveal_strlit("ether");
    reveal_strlit("erc20");
    reveal_strlit("erc721");
    reveal_strlit("erc1155");
    assert(""@.len() == 0 && "ether"@.len() == 5 && "erc20"@.len() == 5);
    assert("erc721"@.len() == 6 && "erc1155"@.len() == 7);
}

/// No input is answered that cannot be counted or whose payload cannot be cut, and no route is answered
/// from a payload that cannot be cut.
pub proof fn what_cannot_be_cut_is_not_answered(state: StateModel, input: InputModel)
    ensures
        state.total_inputs == u64::MAX ==> !advanceable(state, input),
        !cuttable(input.payload) ==> !advanceable(state, input) && !inspectable(
            state,
            input.payload,
        ),
        cuttable(input.payload) ==> inspectable(state, input.payload) == reportable(
            state,
            route_in(input.payload),
        ),
{
}

/// What a caller gets stands for the reply, error by error.
pub proof fn results_stand_for_replies(outcome: Outcome, fault: Fault)
    ensures
        reply_of(Ok(outcome)) == (ReplyModel::Answer {
            emissions: outcome.emissions.deep_view(),
            accepted: outcome.accepted,
        }),
        reply_of(Err(RequestError::NotUtf8)) is NotUtf8,
        reply_of(Err(RequestError::NotJson(fault))) == ReplyModel::NotJson(fault.deep_view()),
        reply_of(Err(RequestError::MissingRequestType)) is MissingRequestType,
        reply_of(Err(RequestError::MissingPayload)) is MissingPayload,
        reply_of(Err(RequestError::OutOfRange)) is OutOfRange,
{
}

} // verus!
