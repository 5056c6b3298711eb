//! What those outside are told: the fields of every notice and of every report, and where vouchers
//! go.

use vstd::prelude::*;
use vstd::utf8::encode_utf8;
use crate::advance::{advanced, answers, verdict};
use crate::decision::{DecisionModel, DepositModel, Portal, RefusalModel};
use crate::document::{empty_object, Json};
use crate::hex::{hex_digits, marked_hex, spelt_bytes, unmarked};
use crate::input::InputModel;
use crate::laws::{credited, debited, found_student_has_wallet, student_put_and_found};
use crate::ledger::{AssetModel, LedgerModel};
use crate::message::{
    closed_text, opened, processed_report, refusal_report, status, voucher_for, with_field, with_valid,
    withdrawal_notice, EmissionModel,
};
use crate::round_trips::{
    address_bytes, erc1155_call_is_encoded, erc20_call_is_encoded, erc721_call_is_encoded,
    ether_call_is_encoded, last_bytes, low_half_reads_back, number_reads_back, rest_is_marked,
    selector, word,
};
use crate::state::StateModel;
use crate::student::StudentModel;
use crate::text::{bare, decimal, lowercased, padded};

verus! {

// ---- Fields ----

/// A value in quotation marks.
pub open spec fn quoted(value: Seq<char>) -> Seq<char> {
    seq!['"'] + value + seq!['"']
}

/// A field: the key in quotation marks, a colon, and the value.
pub open spec fn field(key: Seq<char>, value: Seq<char>) -> Seq<char> {
    quoted(key) + seq![':'] + value
}

/// The fields behind one another, a comma between each two.
pub open spec fn joined(fields: Seq<(Seq<char>, Seq<char>)>) -> Seq<char>
    decreases fields.len(),
{
    if fields.len() == 0 {
        Seq::empty()
    } else if fields.len() == 1 {
        field(fields[0].0, fields[0].1)
    } else {
        joined(fields.drop_last()) + seq![','] + field(fields.last().0, fields.last().1)
    }
}

/// The text of an object with these fields, in this order.
pub open spec fn object_text(fields: Seq<(Seq<char>, Seq<char>)>) -> Seq<char> {
    seq!['{'] + joined(fields) + seq!['}']
}

proof fn joined_more(fields: Seq<(Seq<char>, Seq<char>)>, key: Seq<char>, value: Seq<char>)
    requires
        fields.len() > 0,
    ensures
        joined(fields.push((key, value))) == joined(fields) + seq![','] + field(key, value),
{
    assert(fields.push((key, value)).drop_last() =~= fields);
}

/// The fields with which every notice and every report on an input starts.
pub open spec fn head(kind: Seq<char>, name: Seq<char>, index: u64) -> Seq<
    (Seq<char>, Seq<char>),
> {
    seq![(kind, quoted(name)), ("input_index"@, decimal(index as nat))]
}

proof fn head_written(kind: Seq<char>, name: Seq<char>, index: u64)
    ensures
        opened(kind, name, index) == seq!['{'] + joined(head(kind, name, index)),
{
    reveal_strlit("{\"");
    reveal_strlit("\":\"");
    reveal_strlit("\",\"input_index\":");
    reveal_strlit("input_index");
    let one = seq![(kind, quoted(name))];
    assert(head(kind, name, index) =~= one.push(("input_index"@, decimal(index as nat))));
    joined_more(one, "input_index"@, decimal(index as nat));
    assert("\",\"input_index\":"@ =~= seq!['"', ',', '"'] + "input_index"@ + seq!['"', ':']);
    assert(opened(kind, name, index) =~= seq!['{'] + joined(head(kind, name, index)));
}

proof fn field_written(
    text: Seq<char>,
    fields: Seq<(Seq<char>, Seq<char>)>,
    key: Seq<char>,
    value: Seq<char>,
)
    requires
        fields.len() > 0,
        text == seq!['{'] + joined(fields),
    ensures
        with_field(text, key, value) == seq!['{'] + joined(fields.push((key, quoted(value)))),
{
    reveal_strlit(",\"");
    reveal_strlit("\":\"");
    reveal_strlit("\"");
    joined_more(fields, key, quoted(value));
    assert(with_field(text, key, value) =~= seq!['{'] + joined(fields.push((key, quoted(value)))));
}

proof fn told0(kind: Seq<char>, name: Seq<char>, index: u64)
    ensures
        closed_text(opened(kind, name, index)) == object_text(head(kind, name, index)),
{
    reveal_strlit("}");
    head_written(kind, name, index);
    assert(closed_text(opened(kind, name, index)) =~= object_text(head(kind, name, index)));
}

proof fn told1(
    kind: Seq<char>,
    name: Seq<char>,
    index: u64,
    k1: Seq<char>,
    v1: Seq<char>,
)
    ensures
        ({
            let t0 = opened(kind, name, index);
            let t1 = with_field(t0, k1, v1);
            let fields = head(kind, name, index) + seq![
                (k1, quoted(v1)),
            ];
            t1 == seq!['{'] + joined(fields) && closed_text(t1) == object_text(fields)
        }),
{
    reveal_strlit("}");
    let t0 = opened(kind, name, index);
    let t1 = with_field(t0, k1, v1);
    let f0 = head(kind, name, index);
    head_written(kind, name, index);
    let f1 = f0.push((k1, quoted(v1)));
    field_written(t0, f0, k1, v1);
    assert(f1 =~= f0 + seq![(k1, quoted(v1))]);
    assert(closed_text(t1) =~= object_text(f1));
}

proof fn told2(
    kind: Seq<char>,
    name: Seq<char>,
    index: u64,
    k1: Seq<char>,
    v1: Seq<char>,
    k2: Seq<char>,
    v2: Seq<char>,
)
    ensures
        ({
            let t0 = opened(kind, name, index);
            let t1 = with_field(t0, k1, v1);
            let t2 = with_field(t1, k2, v2);
            let fields = head(kind, name, index) + seq![
                (k1, quoted(v1)),
                (k2, quoted(v2)),
            ];
            t2 == seq!['{'] + joined(fields) && closed_text(t2) == object_text(fields)
        }),
{
    reveal_strlit("}");
    let t0 = opened(kind, name, index);
    let t1 = with_field(t0, k1, v1);
    let t2 = with_field(t1, k2, v2);
    let f0 = head(kind, name, index);
    head_written(kind, name, index);
    let f1 = f0.push((k1, quoted(v1)));
    field_written(t0, f0, k1, v1);
    let f2 = f1.push((k2, quoted(v2)));
    field_written(t1, f1, k2, v2);
    assert(f2 =~= f0 + seq![(k1, quoted(v1)), (k2, quoted(v2))]);
    assert(closed_text(t2) =~= object_text(f2));
}

proof fn told3(
    kind: Seq<char>,
    name: Seq<char>,
    index: u64,
    k1: Seq<char>,
    v1: Seq<char>,
    k2: Seq<char>,
    v2: Seq<char>,
    k3: Seq<char>,
    v3: Seq<char>,
)
    ensures
        ({
            let t0 = opened(kind, name, index);
            let t1 = with_field(t0, k1, v1);
            let t2 = with_field(t1, k2, v2);
            let t3 = with_field(t2, k3, v3);
            let fields = head(kind, name, index) + seq![
                (k1, quoted(v1)),
                (k2, quoted(v2)),
                (k3, quoted(v3)),
            ];
            t3 == seq!['{'] + joined(fields) && closed_text(t3) == object_text(fields)
        }),
{
    reveal_strlit("}");
    let t0 = opened(kind, name, index);
    let t1 = with_field(t0, k1, v1);
    let t2 = with_field(t1, k2, v2);
    let t3 = with_field(t2, k3, v3);
    let f0 = head(kind, name, index);
    head_written(kind, name, index);
    let f1 = f0.push((k1, quoted(v1)));
    field_written(t0, f0, k1, v1);
    let f2 = f1.push((k2, quoted(v2)));
    field_written(t1, f1, k2, v2);
    let f3 = f2.push((k3, quoted(v3)));
    field_written(t2, f2, k3, v3);
    assert(f3 =~= f0 + seq![
        (k1, quoted(v1)),
        (k2, quoted(v2)),
        (k3, quoted(v3)),
    ]);
    assert(closed_text(t3) =~= object_text(f3));
}

proof fn told4(
    kind: Seq<char>,
    name: Seq<char>,
    index: u64,
    k1: Seq<char>,
    v1: Seq<char>,
    k2: Seq<char>,
    v2: Seq<char>,
    k3: Seq<char>,
    v3: Seq<char>,
    k4: Seq<char>,
    v4: Seq<char>,
)
    ensures
        ({
            let t0 = opened(kind, name, index);
            let t1 = with_field(t0, k1, v1);
            let t2 = with_field(t1, k2, v2);
            let t3 = with_field(t2, k3, v3);
            let t4 = with_field(t3, k4, v4);
            let fields = head(kind, name, index) + seq![
                (k1, quoted(v1)),
                (k2, quoted(v2)),
                (k3, quoted(v3)),
                (k4, quoted(v4)),
            ];
            t4 == seq!['{'] + joined(fields) && closed_text(t4) == object_text(fields)
        }),
{
    reveal_strlit("}");
    let t0 = opened(kind, name, index);
    let t1 = with_field(t0, k1, v1);
    let t2 = with_field(t1, k2, v2);
    let t3 = with_field(t2, k3, v3);
    let t4 = with_field(t3, k4, v4);
    let f0 = head(kind, name, index);
    head_written(kind, name, index);
    let f1 = f0.push((k1, quoted(v1)));
    field_written(t0, f0, k1, v1);
    let f2 = f1.push((k2, quoted(v2)));
    field_written(t1, f1, k2, v2);
    let f3 = f2.push((k3, quoted(v3)));
    field_written(t2, f2, k3, v3);
    let f4 = f3.push((k4, quoted(v4)));
    field_written(t3, f3, k4, v4);
    assert(f4 =~= f0 + seq![
        (k1, quoted(v1)),
        (k2, quoted(v2)),
        (k3, quoted(v3)),
        (k4, quoted(v4)),
    ]);
    assert(closed_text(t4) =~= object_text(f4));
}

proof fn told5(
    kind: Seq<char>,
    name: Seq<char>,
    index: u64,
    k1: Seq<char>,
    v1: Seq<char>,
    k2: Seq<char>,
    v2: Seq<char>,
    k3: Seq<char>,
    v3: Seq<char>,
    k4: Seq<char>,
    v4: Seq<char>,
    k5: Seq<char>,
    v5: Seq<char>,
)
    ensures
        ({
            let t0 = opened(kind, name, index);
            let t1 = with_field(t0, k1, v1);
            let t2 = with_field(t1, k2, v2);
            let t3 = with_field(t2, k3, v3);
            let t4 = with_field(t3, k4, v4);
            let t5 = with_field(t4, k5, v5);
            let fields = head(kind, name, index) + seq![
                (k1, quoted(v1)),
                (k2, quoted(v2)),
                (k3, quoted(v3)),
                (k4, quoted(v4)),
                (k5, quoted(v5)),
            ];
            t5 == seq!['{'] + joined(fields) && closed_text(t5) == object_text(fields)
        }),
{
    reveal_strlit("}");
    let t0 = opened(kind, name, index);
    let t1 = with_field(t0, k1, v1);
    let t2 = with_field(t1, k2, v2);
    let t3 = with_field(t2, k3, v3);
    let t4 = with_field(t3, k4, v4);
    let t5 = with_field(t4, k5, v5);
    let f0 = head(kind, name, index);
    head_written(kind, name, index);
    let f1 = f0.push((k1, quoted(v1)));
    field_written(t0, f0, k1, v1);
    let f2 = f1.push((k2, quoted(v2)));
    field_written(t1, f1, k2, v2);
    let f3 = f2.push((k3, quoted(v3)));
    field_written(t2, f2, k3, v3);
    let f4 = f3.push((k4, quoted(v4)));
    field_written(t3, f3, k4, v4);
    let f5 = f4.push((k5, quoted(v5)));
    field_written(t4, f4, k5, v5);
    assert(f5 =~= f0 + seq![
        (k1, quoted(v1)),
        (k2, quoted(v2)),
        (k3, quoted(v3)),
        (k4, quoted(v4)),
        (k5, quoted(v5)),
    ]);
    assert(closed_text(t5) =~= object_text(f5));
}

// ---- Refusals ----

/// The fields that tell why an input is refused.
pub open spec fn refusal_fields(index: u64, refusal: RefusalModel) -> Seq<(Seq<char>, Seq<char>)> {
    match refusal {
        RefusalModel::InvalidPayload { portal: Portal::Ether } => head(
            "error"@,
            "invalid_ether_payload"@,
            index,
        ),
        RefusalModel::InvalidPayload { portal: Portal::Erc20 } => head(
            "error"@,
            "invalid_erc20_payload"@,
            index,
        ),
        RefusalModel::InvalidPayload { portal: Portal::Erc721 } => head(
            "error"@,
            "invalid_erc721_payload"@,
            index,
        ),
        RefusalModel::InvalidPayload { portal: Portal::Erc1155 } => head(
            "error"@,
            "invalid_erc1155_payload"@,
            index,
        ),
        RefusalModel::InvalidHex => head("error"@, "invalid_hex_payload"@, index),
        RefusalModel::NotUtf8 => head("error"@, "payload_not_utf8"@, index),
        RefusalModel::NotJson { raw } => head("error"@, "payload_not_json"@, index) + seq![
            ("raw"@, quoted(raw)),
        ],
        RefusalModel::MissingName => head("error"@, "register_missing_name"@, index),
        RefusalModel::MissingRegNumber => head("error"@, "register_missing_reg_number"@, index),
        RefusalModel::AlreadyRegistered { wallet } => head("error"@, "already_registered"@, index)
            + seq![("wallet"@, quoted(wallet))],
        RefusalModel::NotRegistered { wallet } => head("error"@, "not_registered"@, index) + seq![
            ("wallet"@, quoted(wallet)),
        ],
        RefusalModel::InvalidAmount { raw } => head("error"@, "withdraw_invalid_amount"@, index)
            + seq![("raw"@, quoted(raw))],
        RefusalModel::MissingToken => head("error"@, "withdraw_missing_token"@, index),
        RefusalModel::MissingTokenId => head("error"@, "withdraw_missing_token_id"@, index),
        RefusalModel::InsufficientEther { wallet, available, requested } => head(
            "error"@,
            "insufficient_ether_balance"@,
            index,
        ) + seq![
            ("wallet"@, quoted(wallet)),
            ("available"@, quoted(decimal(available))),
            ("requested"@, quoted(decimal(requested))),
        ],
        RefusalModel::InsufficientErc20 { wallet, token, available, requested } => head(
            "error"@,
            "insufficient_erc20_balance"@,
            index,
        ) + seq![
            ("wallet"@, quoted(wallet)),
            ("token"@, quoted(token)),
            ("available"@, quoted(decimal(available))),
            ("requested"@, quoted(decimal(requested))),
        ],
        RefusalModel::NotHeld { wallet, token, token_id } => head(
            "error"@,
            "erc721_token_not_held"@,
            index,
        ) + seq![
            ("wallet"@, quoted(wallet)),
            ("token"@, quoted(token)),
            ("token_id"@, quoted(token_id)),
        ],
        RefusalModel::InsufficientErc1155 { wallet, token, token_id, available, requested } => head(
            "error"@,
            "insufficient_erc1155_balance"@,
            index,
        ) + seq![
            ("wallet"@, quoted(wallet)),
            ("token"@, quoted(token)),
            ("token_id"@, quoted(token_id)),
            ("available"@, quoted(decimal(available))),
            ("requested"@, quoted(decimal(requested))),
        ],
        RefusalModel::AppContractUnknown => head("error"@, "app_contract_unknown"@, index),
        RefusalModel::UnknownAssetType { asset_type } => head(
            "error"@,
            "unknown_asset_type"@,
            index,
        ) + seq![
            ("asset_type"@, quoted(asset_type)),
            ("valid"@, "[\"ether\",\"erc20\",\"erc721\",\"erc1155\"]"@),
        ],
        RefusalModel::UnknownAction { action } => head("error"@, "unknown_action"@, index) + seq![
            ("action"@, quoted(action)),
            ("valid"@, "[\"ping\",\"register\",\"withdraw\"]"@),
        ],
    }
}

proof fn valid_written(text: Seq<char>, fields: Seq<(Seq<char>, Seq<char>)>, list: Seq<char>)
    requires
        fields.len() > 0,
        text == seq!['{'] + joined(fields),
    ensures
        closed_text(with_valid(text, list)) == object_text(fields.push(("valid"@, list))),
{
    reveal_strlit(",\"valid\":");
    reveal_strlit("valid");
    reveal_strlit("}");
    joined_more(fields, "valid"@, list);
    assert(",\"valid\":"@ =~= seq![',', '"'] + "valid"@ + seq!['"', ':']);
    assert(closed_text(with_valid(text, list)) =~= object_text(fields.push(("valid"@, list))));
}

proof fn refusal_written(index: u64, refusal: RefusalModel)
    ensures
        refusal_report(index, refusal) == object_text(refusal_fields(index, refusal)),
{
    let e = "error"@;
    match refusal {
        RefusalModel::InvalidPayload { portal } => {
            told0(e, "invalid_ether_payload"@, index);
            told0(e, "invalid_erc20_payload"@, index);
            told0(e, "invalid_erc721_payload"@, index);
            told0(e, "invalid_erc1155_payload"@, index);
        },
        RefusalModel::InvalidHex => {
            told0(e, "invalid_hex_payload"@, index);
        },
        RefusalModel::NotUtf8 => {
            told0(e, "payload_not_utf8"@, index);
        },
        RefusalModel::NotJson { raw } => {
            told1(e, "payload_not_json"@, index, "raw"@, raw);
        },
        RefusalModel::MissingName => {
            told0(e, "register_missing_name"@, index);
        },
        RefusalModel::MissingRegNumber => {
            told0(e, "register_missing_reg_number"@, index);
        },
        RefusalModel::AlreadyRegistered { wallet } => {
            told1(e, "already_registered"@, index, "wallet"@, wallet);
        },
        RefusalModel::NotRegistered { wallet } => {
            told1(e, "not_registered"@, index, "wallet"@, wallet);
        },
        RefusalModel::InvalidAmount { raw } => {
            told1(e, "withdraw_invalid_amount"@, index, "raw"@, raw);
        },
        RefusalModel::MissingToken => {
            told0(e, "withdraw_missing_token"@, index);
        },
        RefusalModel::MissingTokenId => {
            told0(e, "withdraw_missing_token_id"@, index);
        },
        RefusalModel::InsufficientEther { wallet, available, requested } => {
            told3(
                e,
                "insufficient_ether_balance"@,
                index,
                "wallet"@,
                wallet,
                "available"@,
                decimal(available),
                "requested"@,
                decimal(requested),
            );
        },
        RefusalModel::InsufficientErc20 { wallet, token, available, requested } => {
            told4(
                e,
                "insufficient_erc20_balance"@,
                index,
                "wallet"@,
                wallet,
                "token"@,
                token,
                "available"@,
                decimal(available),
                "requested"@,
                decimal(requested),
            );
        },
        RefusalModel::NotHeld { wallet, token, token_id } => {
            told3(
                e,
                "erc721_token_not_held"@,
                index,
                "wallet"@,
                wallet,
                "token"@,
                token,
                "token_id"@,
                token_id,
            );
        },
        RefusalModel::InsufficientErc1155 { wallet, token, token_id, available, requested } => {
            told5(
                e,
                "insufficient_erc1155_balance"@,
                index,
                "wallet"@,
                wallet,
                "token"@,
                token,
                "token_id"@,
                token_id,
                "available"@,
                decimal(available),
                "requested"@,
                decimal(requested),
            );
        },
        RefusalModel::AppContractUnknown => {
            told0(e, "app_contract_unknown"@, index);
        },
        RefusalModel::UnknownAssetType { asset_type } => {
            let fields = head(e, "unknown_asset_type"@, index) + seq![
                ("asset_type"@, quoted(asset_type)),
            ];
            let list = "[\"ether\",\"erc20\",\"erc721\",\"erc1155\"]"@;
            told1(e, "unknown_asset_type"@, index, "asset_type"@, asset_type);
            valid_written(
                with_field(opened(e, "unknown_asset_type"@, index), "asset_type"@, asset_type),
                fields,
                list,
            );
            assert(fields.push(("valid"@, list)) =~= refusal_fields(index, refusal));
        },
        RefusalModel::UnknownAction { action } => {
            let fields = head(e, "unknown_action"@, index) + seq![("action"@, quoted(action))];
            let list = "[\"ping\",\"register\",\"withdraw\"]"@;
            told1(e, "unknown_action"@, index, "action"@, action);
            valid_written(
                with_field(opened(e, "unknown_action"@, index), "action"@, action),
                fields,
                list,
            );
            assert(fields.push(("valid"@, list)) =~= refusal_fields(index, refusal));
        },
    }
}

/// An input that is refused is answered with one report, which must arrive, and which tells the reason
/// with all that belongs to it.
pub proof fn refusal_is_told(state: StateModel, input: InputModel)
    requires
        verdict(state, input) is Refuse,
    ensures
        answers(state, input) == seq![
            EmissionModel::Report {
                payload: object_text(
                    refusal_fields(input.input_index, verdict(state, input)->Refuse_0),
                ),
                required: true,
            },
        ],
{
    refusal_written(input.input_index, verdict(state, input)->Refuse_0);
}

// ---- What is done ----

/// The report with which every input that is done ends. Nothing depends on its arrival.
pub open spec fn last_report(input: InputModel) -> EmissionModel {
    EmissionModel::Report {
        payload: object_text(
            head("event"@, "advance_processed"@, input.input_index) + seq![
                ("msg_sender"@, quoted(input.msg_sender)),
                ("result"@, quoted("accept"@)),
            ],
        ),
        required: false,
    }
}

/// A notice with these fields behind the name of the event.
pub open spec fn event_notice(
    input: InputModel,
    event: Seq<char>,
    fields: Seq<(Seq<char>, Seq<char>)>,
) -> EmissionModel {
    EmissionModel::Notice {
        payload: object_text(head("event"@, event, input.input_index) + fields),
    }
}

proof fn last_report_written(input: InputModel)
    ensures
        last_report(input) == (EmissionModel::Report {
            payload: processed_report(input.input_index, input.msg_sender, "accept"@),
            required: false,
        }),
{
    told2(
        "event"@,
        "advance_processed"@,
        input.input_index,
        "msg_sender"@,
        input.msg_sender,
        "result"@,
        "accept"@,
    );
}

/// The student under a wallet. One who is not known yet is named after the wallet, and has no entries.
pub open spec fn holder(state: StateModel, wallet: Seq<char>) -> StudentModel {
    match state.student(wallet) {
        Some(student) => student,
        None => {
            let nothing = LedgerModel {
                ether: Seq::empty(),
                erc20: Seq::empty(),
                erc721: Seq::empty(),
                erc1155: Seq::empty(),
            };
            StudentModel {
                name: "Unknown("@ + wallet.take(10) + ")"@,
                registration_number: "AUTO-"@ + wallet.subrange(2, 10),
                wallet_address: wallet,
                deposits: nothing,
                withdrawals: nothing,
            }
        },
    }
}

proof fn deposit_booked(state: StateModel, input: InputModel, deposit: DepositModel)
    requires
        verdict(state, input) == DecisionModel::Deposit(deposit),
    ensures
        advanced(state, input).student(deposit.depositor) == Some(
            credited(holder(state, deposit.depositor), deposit.asset),
        ),
{
    let counted = state.with_input(input.app_contract);
    assert(counted.students == state.students);
    found_student_has_wallet(counted, deposit.depositor);
    student_put_and_found(
        counted,
        credited(holder(state, deposit.depositor), deposit.asset),
        deposit.depositor,
    );
}

/// A deposit of Ether, as its portal sends it, is booked for the depositor, whole and once, and the
/// notice tells all of it, with the data that came along.
pub proof fn ether_deposit_is_booked_and_told(
    state: StateModel,
    input: InputModel,
    depositor: Seq<u8>,
    high: Seq<u8>,
    amount: u128,
    data: Seq<u8>,
)
    requires
        input.msg_sender == state.ether_portal,
        depositor.len() == 20,
        high.len() == 16,
        spelt_bytes(unmarked(input.payload)) == Some(
            depositor + high + last_bytes(amount as nat, 16) + data,
        ),
    ensures
        verdict(state, input) is Deposit,
        ({
            let wallet = marked_hex(depositor);
            let before = holder(state, wallet);
            advanced(state, input).student(wallet) == Some(
                StudentModel {
                    deposits: LedgerModel {
                        ether: before.deposits.ether.push(amount),
                        ..before.deposits
                    },
                    ..before
                },
            )
        }),
        answers(state, input) == seq![
            event_notice(
                input,
                "ether_deposit"@,
                seq![
                    ("depositor"@, quoted(marked_hex(depositor))),
                    ("amount"@, quoted(decimal(amount as nat))),
                    ("exec_layer_data"@, quoted(marked_hex(data))),
                ],
            ),
            last_report(input),
        ],
{
    let bytes = depositor + high + last_bytes(amount as nat, 16) + data;
    low_half_reads_back(high, amount, depositor, data);
    assert(bytes.subrange(0, 20) =~= depositor);
    assert(bytes.skip(52) =~= data);
    rest_is_marked(bytes, 52, data);
    let deposit = DepositModel {
        depositor: marked_hex(depositor),
        asset: AssetModel::Ether { amount },
        data: marked_hex(data),
    };
    assert(verdict(state, input) == DecisionModel::Deposit(deposit));
    deposit_booked(state, input, deposit);
    last_report_written(input);
    reveal_strlit("ether");
    reveal_strlit("_deposit");
    reveal_strlit("ether_deposit");
    assert("ether"@ + "_deposit"@ =~= "ether_deposit"@);
    told3(
        "event"@,
        "ether_deposit"@,
        input.input_index,
        "depositor"@,
        marked_hex(depositor),
        "amount"@,
        decimal(amount as nat),
        "exec_layer_data"@,
        marked_hex(data),
    );
}

/// A deposit of a token, as its portal sends it, is booked for the depositor, whole and once, and the
/// notice tells all of it, with the data that came along.
pub proof fn erc20_deposit_is_booked_and_told(
    state: StateModel,
    input: InputModel,
    token: Seq<u8>,
    depositor: Seq<u8>,
    high: Seq<u8>,
    amount: u128,
    data: Seq<u8>,
)
    requires
        input.msg_sender == state.erc20_portal,
        input.msg_sender != state.ether_portal,
        token.len() == 20,
        depositor.len() == 20,
        high.len() == 16,
        spelt_bytes(unmarked(input.payload)) == Some(
            token + depositor + high + last_bytes(amount as nat, 16) + data,
        ),
    ensures
        verdict(state, input) is Deposit,
        ({
            let wallet = marked_hex(depositor);
            let before = holder(state, wallet);
            advanced(state, input).student(wallet) == Some(
                StudentModel {
                    deposits: LedgerModel {
                        erc20: before.deposits.erc20.push((marked_hex(token), amount)),
                        ..before.deposits
                    },
                    ..before
                },
            )
        }),
        answers(state, input) == seq![
            event_notice(
                input,
                "erc20_deposit"@,
                seq![
                    ("depositor"@, quoted(marked_hex(depositor))),
                    ("token"@, quoted(marked_hex(token))),
                    ("amount"@, quoted(decimal(amount as nat))),
                    ("exec_layer_data"@, quoted(marked_hex(data))),
                ],
            ),
            last_report(input),
        ],
{
    let bytes = token + depositor + high + last_bytes(amount as nat, 16) + data;
    low_half_reads_back(high, amount, token + depositor, data);
    assert(bytes.subrange(0, 20) =~= token);
    assert(bytes.subrange(20, 40) =~= depositor);
    assert(bytes.skip(72) =~= data);
    rest_is_marked(bytes, 72, data);
    let deposit = DepositModel {
        depositor: marked_hex(depositor),
        asset: AssetModel::Erc20 { token: marked_hex(token), amount },
        data: marked_hex(data),
    };
    assert(verdict(state, input) == DecisionModel::Deposit(deposit));
    deposit_booked(state, input, deposit);
    last_report_written(input);
    reveal_strlit("erc20");
    reveal_strlit("_deposit");
    reveal_strlit("erc20_deposit");
    assert("erc20"@ + "_deposit"@ =~= "erc20_deposit"@);
    told4(
        "event"@,
        "erc20_deposit"@,
        input.input_index,
        "depositor"@,
        marked_hex(depositor),
        "token"@,
        marked_hex(token),
        "amount"@,
        decimal(amount as nat),
        "exec_layer_data"@,
        marked_hex(data),
    );
}

/// A deposit of an item, as its portal sends it, is booked for the depositor, whole and once, and the
/// notice tells all of it, with the data that came along.
pub proof fn erc721_deposit_is_booked_and_told(
    state: StateModel,
    input: InputModel,
    token: Seq<u8>,
    depositor: Seq<u8>,
    token_id: Seq<u8>,
    data: Seq<u8>,
)
    requires
        input.msg_sender == state.erc721_portal,
        input.msg_sender != state.ether_portal,
        input.msg_sender != state.erc20_portal,
        token.len() == 20,
        depositor.len() == 20,
        token_id.len() == 32,
        spelt_bytes(unmarked(input.payload)) == Some(
            token + depositor + token_id + data,
        ),
    ensures
        verdict(state, input) is Deposit,
        ({
            let wallet = marked_hex(depositor);
            let before = holder(state, wallet);
            advanced(state, input).student(wallet) == Some(
                StudentModel {
                    deposits: LedgerModel {
                        erc721: before.deposits.erc721.push((marked_hex(token), marked_hex(token_id))),
                        ..before.deposits
                    },
                    ..before
                },
            )
        }),
        answers(state, input) == seq![
            event_notice(
                input,
                "erc721_deposit"@,
                seq![
                    ("depositor"@, quoted(marked_hex(depositor))),
                    ("token"@, quoted(marked_hex(token))),
                    ("token_id"@, quoted(marked_hex(token_id))),
                    ("extra_data"@, quoted(marked_hex(data))),
                ],
            ),
            last_report(input),
        ],
{
    let bytes = token + depositor + token_id + data;
    assert(bytes.subrange(0, 20) =~= token);
    assert(bytes.subrange(20, 40) =~= depositor);
    assert(bytes.subrange(40, 72) =~= token_id);
    assert(bytes.skip(72) =~= data);
    rest_is_marked(bytes, 72, data);
    let deposit = DepositModel {
        depositor: marked_hex(depositor),
        asset: AssetModel::Erc721 { token: marked_hex(token), token_id: marked_hex(token_id) },
        data: marked_hex(data),
    };
    assert(verdict(state, input) == DecisionModel::Deposit(deposit));
    deposit_booked(state, input, deposit);
    last_report_written(input);
    reveal_strlit("erc721");
    reveal_strlit("_deposit");
    reveal_strlit("erc721_deposit");
    assert("erc721"@ + "_deposit"@ =~= "erc721_deposit"@);
    told4(
        "event"@,
        "erc721_deposit"@,
        input.input_index,
        "depositor"@,
        marked_hex(depositor),
        "token"@,
        marked_hex(token),
        "token_id"@,
        marked_hex(token_id),
        "extra_data"@,
        marked_hex(data),
    );
}

/// A deposit of items of a kind, as its portal sends it, is booked for the depositor, whole and once, and the
/// notice tells all of it, with the data that came along.
pub proof fn erc1155_deposit_is_booked_and_told(
    state: StateModel,
    input: InputModel,
    token: Seq<u8>,
    depositor: Seq<u8>,
    token_id: Seq<u8>,
    high: Seq<u8>,
    amount: u128,
    data: Seq<u8>,
)
    requires
        input.msg_sender == state.erc1155_portal,
        input.msg_sender != state.ether_portal,
        input.msg_sender != state.erc20_portal,
        input.msg_sender != state.erc721_portal,
        token.len() == 20,
        depositor.len() == 20,
        token_id.len() == 32,
        high.len() == 16,
        spelt_bytes(unmarked(input.payload)) == Some(
            token + depositor + token_id + high + last_bytes(amount as nat, 16) + data,
        ),
    ensures
        verdict(state, input) is Deposit,
        ({
            let wallet = marked_hex(depositor);
            let before = holder(state, wallet);
            advanced(state, input).student(wallet) == Some(
                StudentModel {
                    deposits: LedgerModel {
                        erc1155: before.deposits.erc1155.push((marked_hex(token), marked_hex(token_id), amount)),
                        ..before.deposits
                    },
                    ..before
                },
            )
        }),
        answers(state, input) == seq![
            event_notice(
                input,
                "erc1155_deposit"@,
                seq![
                    ("depositor"@, quoted(marked_hex(depositor))),
                    ("token"@, quoted(marked_hex(token))),
                    ("token_id"@, quoted(marked_hex(token_id))),
                    ("amount"@, quoted(decimal(amount as nat))),
                    ("extra_data"@, quoted(marked_hex(data))),
                ],
            ),
            last_report(input),
        ],
{
    let bytes = token + depositor + token_id + high + last_bytes(amount as nat, 16) + data;
    low_half_reads_back(high, amount, token + depositor + token_id, data);
    assert(bytes.subrange(0, 20) =~= token);
    assert(bytes.subrange(20, 40) =~= depositor);
    assert(bytes.subrange(40, 72) =~= token_id);
    assert(bytes.skip(104) =~= data);
    rest_is_marked(bytes, 104, data);
    let deposit = DepositModel {
        depositor: marked_hex(depositor),
        asset: AssetModel::Erc1155 {
            token: marked_hex(token),
            token_id: marked_hex(token_id),
            amount,
        },
        data: marked_hex(data),
    };
    assert(verdict(state, input) == DecisionModel::Deposit(deposit));
    deposit_booked(state, input, deposit);
    last_report_written(input);
    reveal_strlit("erc1155");
    reveal_strlit("_deposit");
    reveal_strlit("erc1155_deposit");
    assert("erc1155"@ + "_deposit"@ =~= "erc1155_deposit"@);
    told5(
        "event"@,
        "erc1155_deposit"@,
        input.input_index,
        "depositor"@,
        marked_hex(depositor),
        "token"@,
        marked_hex(token),
        "token_id"@,
        marked_hex(token_id),
        "amount"@,
        decimal(amount as nat),
        "extra_data"@,
        marked_hex(data),
    );
}

proof fn withdrawal_booked(state: StateModel, input: InputModel, asset: AssetModel)
    requires
        verdict(state, input) == DecisionModel::Withdraw(asset),
    ensures
        state.student(input.msg_sender) is Some,
        advanced(state, input).student(input.msg_sender) == Some(
            debited(state.student(input.msg_sender)->0, asset),
        ),
{
    let counted = state.with_input(input.app_contract);
    assert(counted.students == state.students);
    found_student_has_wallet(counted, input.msg_sender);
    student_put_and_found(
        counted,
        debited(state.student(input.msg_sender)->0, asset),
        input.msg_sender,
    );
}

/// A withdrawal of Ether is booked for the sender with exactly the asset that the voucher pays: one
/// call of `withdrawEther` at the Ether portal, to the sender. The notice tells the same.
pub proof fn ether_withdrawal_is_booked_paid_and_told(
    state: StateModel,
    input: InputModel,
    to: Seq<u8>,
    amount: u128,
)
    requires
        verdict(state, input) == DecisionModel::Withdraw(
            AssetModel::Ether { amount },
        ),
        input.msg_sender == marked_hex(to),
    ensures
        state.student(input.msg_sender) matches Some(before) && advanced(state, input).student(
            input.msg_sender,
        ) == Some(
            StudentModel {
                withdrawals: LedgerModel {
                    ether: before.withdrawals.ether.push(amount),
                    ..before.withdrawals
                },
                ..before
            },
        ),
        answers(state, input) == seq![
            EmissionModel::Voucher {
                destination: state.ether_portal,
                calldata: marked_hex(
                    selector(0x52, 0x2f, 0x68, 0x15) + address_bytes(to) + word(amount),
                ),
            },
            event_notice(
                input,
                "ether_withdrawal"@,
                seq![
                    ("wallet"@, quoted(marked_hex(to))),
                    ("amount"@, quoted(decimal(amount as nat))),
                ],
            ),
            last_report(input),
        ],
{
    withdrawal_booked(
        state,
        input,
        AssetModel::Ether { amount },
    );
    ether_call_is_encoded(to, amount);
    last_report_written(input);
    reveal_strlit("ether");
    reveal_strlit("_withdrawal");
    reveal_strlit("ether_withdrawal");
    assert("ether"@ + "_withdrawal"@ =~= "ether_withdrawal"@);
    told2(
        "event"@,
        "ether_withdrawal"@,
        input.input_index,
        "wallet"@,
        marked_hex(to),
        "amount"@,
        decimal(amount as nat),
    );
}

/// A withdrawal of a token is booked for the sender with exactly the asset that the voucher pays: one
/// call of `transfer` at the token, to the sender. The notice tells the same.
pub proof fn erc20_withdrawal_is_booked_paid_and_told(
    state: StateModel,
    input: InputModel,
    to: Seq<u8>,
    token: Seq<char>,
    amount: u128,
)
    requires
        verdict(state, input) == DecisionModel::Withdraw(
            AssetModel::Erc20 { token, amount },
        ),
        input.msg_sender == marked_hex(to),
    ensures
        state.student(input.msg_sender) matches Some(before) && advanced(state, input).student(
            input.msg_sender,
        ) == Some(
            StudentModel {
                withdrawals: LedgerModel {
                    erc20: before.withdrawals.erc20.push((token, amount)),
                    ..before.withdrawals
                },
                ..before
            },
        ),
        answers(state, input) == seq![
            EmissionModel::Voucher {
                destination: token,
                calldata: marked_hex(
                    selector(0xa9, 0x05, 0x9c, 0xbb) + address_bytes(to) + word(amount),
                ),
            },
            event_notice(
                input,
                "erc20_withdrawal"@,
                seq![
                    ("wallet"@, quoted(marked_hex(to))),
                    ("token"@, quoted(token)),
                    ("amount"@, quoted(decimal(amount as nat))),
                ],
            ),
            last_report(input),
        ],
{
    withdrawal_booked(
        state,
        input,
        AssetModel::Erc20 { token, amount },
    );
    erc20_call_is_encoded(to, amount);
    last_report_written(input);
    reveal_strlit("erc20");
    reveal_strlit("_withdrawal");
    reveal_strlit("erc20_withdrawal");
    assert("erc20"@ + "_withdrawal"@ =~= "erc20_withdrawal"@);
    told3(
        "event"@,
        "erc20_withdrawal"@,
        input.input_index,
        "wallet"@,
        marked_hex(to),
        "token"@,
        token,
        "amount"@,
        decimal(amount as nat),
    );
}

/// A withdrawal of an item is booked for the sender with exactly the asset that the voucher pays: one
/// call of `safeTransferFrom` at the token, to the sender. The notice tells the same.
pub proof fn erc721_withdrawal_is_booked_paid_and_told(
    state: StateModel,
    input: InputModel,
    to: Seq<u8>,
    app: Seq<u8>,
    token: Seq<char>,
    token_id: Seq<u8>,
)
    requires
        verdict(state, input) == DecisionModel::Withdraw(
            AssetModel::Erc721 { token, token_id: marked_hex(token_id) },
        ),
        input.msg_sender == marked_hex(to),
        token_id.len() == 32,
        (match state.app_contract {
            Some(address) => address,
            None => input.app_contract,
        }) == marked_hex(app),
    ensures
        state.student(input.msg_sender) matches Some(before) && advanced(state, input).student(
            input.msg_sender,
        ) == Some(
            StudentModel {
                withdrawals: LedgerModel {
                    erc721: before.withdrawals.erc721.push((token, marked_hex(token_id))),
                    ..before.withdrawals
                },
                ..before
            },
        ),
        answers(state, input) == seq![
            EmissionModel::Voucher {
                destination: token,
                calldata: marked_hex(
                    selector(0x42, 0x84, 0x2e, 0x0e) + address_bytes(app) + address_bytes(to) + token_id,
                ),
            },
            event_notice(
                input,
                "erc721_withdrawal"@,
                seq![
                    ("wallet"@, quoted(marked_hex(to))),
                    ("token"@, quoted(token)),
                    ("token_id"@, quoted(marked_hex(token_id))),
                ],
            ),
            last_report(input),
        ],
{
    withdrawal_booked(
        state,
        input,
        AssetModel::Erc721 { token, token_id: marked_hex(token_id) },
    );
    reveal_strlit("0x");
    assert(input.app_contract == marked_hex(app) ==> input.app_contract.len() > 0);
    erc721_call_is_encoded(app, to, token_id);
    last_report_written(input);
    reveal_strlit("erc721");
    reveal_strlit("_withdrawal");
    reveal_strlit("erc721_withdrawal");
    assert("erc721"@ + "_withdrawal"@ =~= "erc721_withdrawal"@);
    told3(
        "event"@,
        "erc721_withdrawal"@,
        input.input_index,
        "wallet"@,
        marked_hex(to),
        "token"@,
        token,
        "token_id"@,
        marked_hex(token_id),
    );
}

/// A withdrawal of items of a kind is booked for the sender with exactly the asset that the voucher pays: one
/// call of `safeTransferFrom` at the token, to the sender. The notice tells the same.
pub proof fn erc1155_withdrawal_is_booked_paid_and_told(
    state: StateModel,
    input: InputModel,
    to: Seq<u8>,
    app: Seq<u8>,
    token: Seq<char>,
    token_id: Seq<u8>,
    amount: u128,
)
    requires
        verdict(state, input) == DecisionModel::Withdraw(
            AssetModel::Erc1155 { token, token_id: marked_hex(token_id), amount },
        ),
        input.msg_sender == marked_hex(to),
        token_id.len() == 32,
        (match state.app_contract {
            Some(address) => address,
            None => input.app_contract,
        }) == marked_hex(app),
    ensures
        state.student(input.msg_sender) matches Some(before) && advanced(state, input).student(
            input.msg_sender,
        ) == Some(
            StudentModel {
                withdrawals: LedgerModel {
                    erc1155: before.withdrawals.erc1155.push((token, marked_hex(token_id), amount)),
                    ..before.withdrawals
                },
                ..before
            },
        ),
        answers(state, input) == seq![
            EmissionModel::Voucher {
                destination: token,
                calldata: marked_hex(
                    selector(0xf2, 0x42, 0x43, 0x2a) + address_bytes(app) + address_bytes(to) + token_id
                        + word(amount) + word(160) + word(0),
                ),
            },
            event_notice(
                input,
                "erc1155_withdrawal"@,
                seq![
                    ("wallet"@, quoted(marked_hex(to))),
                    ("token"@, quoted(token)),
                    ("token_id"@, quoted(marked_hex(token_id))),
                    ("amount"@, quoted(decimal(amount as nat))),
                ],
            ),
            last_report(input),
        ],
{
    withdrawal_booked(
        state,
        input,
        AssetModel::Erc1155 { token, token_id: marked_hex(token_id), amount },
    );
    reveal_strlit("0x");
    assert(input.app_contract == marked_hex(app) ==> input.app_contract.len() > 0);
    erc1155_call_is_encoded(app, to, token_id, amount);
    last_report_written(input);
    reveal_strlit("erc1155");
    reveal_strlit("_withdrawal");
    reveal_strlit("erc1155_withdrawal");
    assert("erc1155"@ + "_withdrawal"@ =~= "erc1155_withdrawal"@);
    told4(
        "event"@,
        "erc1155_withdrawal"@,
        input.input_index,
        "wallet"@,
        marked_hex(to),
        "token"@,
        token,
        "token_id"@,
        marked_hex(token_id),
        "amount"@,
        decimal(amount as nat),
    );
}

/// The fields of a withdrawal in its notice.
pub open spec fn withdrawal_fields(wallet: Seq<char>, asset: AssetModel) -> Seq<
    (Seq<char>, Seq<char>),
> {
    match asset {
        AssetModel::Ether { amount } => seq![
            ("wallet"@, quoted(wallet)),
            ("amount"@, quoted(decimal(amount as nat))),
        ],
        AssetModel::Erc20 { token, amount } => seq![
            ("wallet"@, quoted(wallet)),
            ("token"@, quoted(token)),
            ("amount"@, quoted(decimal(amount as nat))),
        ],
        AssetModel::Erc721 { token, token_id } => seq![
            ("wallet"@, quoted(wallet)),
            ("token"@, quoted(token)),
            ("token_id"@, quoted(token_id)),
        ],
        AssetModel::Erc1155 { token, token_id, amount } => seq![
            ("wallet"@, quoted(wallet)),
            ("token"@, quoted(token)),
            ("token_id"@, quoted(token_id)),
            ("amount"@, quoted(decimal(amount as nat))),
        ],
    }
}

/// The name of the event of a withdrawal.
pub open spec fn withdrawal_name(asset: AssetModel) -> Seq<char> {
    match asset {
        AssetModel::Ether { .. } => "ether_withdrawal"@,
        AssetModel::Erc20 { .. } => "erc20_withdrawal"@,
        AssetModel::Erc721 { .. } => "erc721_withdrawal"@,
        AssetModel::Erc1155 { .. } => "erc1155_withdrawal"@,
    }
}

/// An address as a word: zeros before its own digits, in small letters.
pub open spec fn padded_address(address: Seq<char>) -> Seq<char> {
    "000000000000000000000000"@ + lowercased(bare(address))
}

/// The voucher that pays an asset to a wallet. For items, the call names the application's own contract,
/// from which they go.
pub open spec fn payment(
    ether_portal: Seq<char>,
    own: Seq<char>,
    wallet: Seq<char>,
    asset: AssetModel,
) -> EmissionModel {
    match asset {
        AssetModel::Ether { amount } => EmissionModel::Voucher {
            destination: ether_portal,
            calldata: "0x522f6815"@ + padded_address(wallet) + hex_digits(word(amount)),
        },
        AssetModel::Erc20 { token, amount } => EmissionModel::Voucher {
            destination: token,
            calldata: "0xa9059cbb"@ + padded_address(wallet) + hex_digits(word(amount)),
        },
        AssetModel::Erc721 { token, token_id } => EmissionModel::Voucher {
            destination: token,
            calldata: "0x42842e0e"@ + padded_address(own) + padded_address(wallet) + padded(
                lowercased(bare(token_id)),
                64,
            ),
        },
        AssetModel::Erc1155 { token, token_id, amount } => EmissionModel::Voucher {
            destination: token,
            calldata: "0xf242432a"@ + padded_address(own) + padded_address(wallet) + padded(
                lowercased(bare(token_id)),
                64,
            ) + hex_digits(word(amount)) + hex_digits(word(160)) + hex_digits(word(0)),
        },
    }
}

proof fn payment_written(state: StateModel, wallet: Seq<char>, asset: AssetModel)
    ensures
        voucher_for(state, wallet, asset) == payment(
            state.ether_portal,
            state.own_address(),
            wallet,
            asset,
        ),
{
    reveal_strlit("0x");
    let nothing = Seq::<u8>::empty();
    match asset {
        AssetModel::Ether { amount } => {
            reveal_strlit("522f6815");
            reveal_strlit("0x522f6815");
            assert("0x"@ + "522f6815"@ =~= "0x522f6815"@);
            number_reads_back(amount, nothing, nothing);
        },
        AssetModel::Erc20 { token, amount } => {
            reveal_strlit("a9059cbb");
            reveal_strlit("0xa9059cbb");
            assert("0x"@ + "a9059cbb"@ =~= "0xa9059cbb"@);
            number_reads_back(amount, nothing, nothing);
        },
        AssetModel::Erc721 { token, token_id } => {
            reveal_strlit("42842e0e");
            reveal_strlit("0x42842e0e");
            assert("0x"@ + "42842e0e"@ =~= "0x42842e0e"@);
        },
        AssetModel::Erc1155 { token, token_id, amount } => {
            reveal_strlit("f242432a");
            reveal_strlit("0xf242432a");
            assert("0x"@ + "f242432a"@ =~= "0xf242432a"@);
            number_reads_back(amount, nothing, nothing);
            number_reads_back(160, nothing, nothing);
            number_reads_back(0, nothing, nothing);
        },
    }
}

proof fn withdrawal_written(index: u64, wallet: Seq<char>, asset: AssetModel)
    ensures
        withdrawal_notice(index, wallet, asset) == object_text(
            head("event"@, withdrawal_name(asset), index) + withdrawal_fields(wallet, asset),
        ),
{
    reveal_strlit("_withdrawal");
    let e = "event"@;
    match asset {
        AssetModel::Ether { amount } => {
            reveal_strlit("ether");
            reveal_strlit("ether_withdrawal");
            assert("ether"@ + "_withdrawal"@ =~= "ether_withdrawal"@);
            let n = decimal(amount as nat);
            told2(e, "ether_withdrawal"@, index, "wallet"@, wallet, "amount"@, n);
        },
        AssetModel::Erc20 { token, amount } => {
            reveal_strlit("erc20");
            reveal_strlit("erc20_withdrawal");
            assert("erc20"@ + "_withdrawal"@ =~= "erc20_withdrawal"@);
            let n = decimal(amount as nat);
            told3(
                e,
                "erc20_withdrawal"@,
                index,
                "wallet"@,
                wallet,
                "token"@,
                token,
                "amount"@,
                n,
            );
        },
        AssetModel::Erc721 { token, token_id } => {
            reveal_strlit("erc721");
            reveal_strlit("erc721_withdrawal");
            assert("erc721"@ + "_withdrawal"@ =~= "erc721_withdrawal"@);
            told3(
                e,
                "erc721_withdrawal"@,
                index,
                "wallet"@,
                wallet,
                "token"@,
                token,
                "token_id"@,
                token_id,
            );
        },
        AssetModel::Erc1155 { token, token_id, amount } => {
            reveal_strlit("erc1155");
            reveal_strlit("erc1155_withdrawal");
            assert("erc1155"@ + "_withdrawal"@ =~= "erc1155_withdrawal"@);
            let n = decimal(amount as nat);
            told4(
                e,
                "erc1155_withdrawal"@,
                index,
                "wallet"@,
                wallet,
                "token"@,
                token,
                "token_id"@,
                token_id,
                "amount"@,
                n,
            );
        },
    }
}

/// Whoever takes something out, whatever the addresses look like, is debited exactly what the voucher
/// pays and the notice tells.
pub proof fn any_withdrawal_is_paid_and_told(
    state: StateModel,
    input: InputModel,
    asset: AssetModel,
)
    requires
        verdict(state, input) == DecisionModel::Withdraw(asset),
    ensures
        state.student(input.msg_sender) matches Some(before) && advanced(state, input).student(
            input.msg_sender,
        ) matches Some(after) && {
            &&& after.withdrawals == (match asset {
                AssetModel::Ether { amount } => LedgerModel {
                    ether: before.withdrawals.ether.push(amount),
                    ..before.withdrawals
                },
                AssetModel::Erc20 { token, amount } => LedgerModel {
                    erc20: before.withdrawals.erc20.push((token, amount)),
                    ..before.withdrawals
                },
                AssetModel::Erc721 { token, token_id } => LedgerModel {
                    erc721: before.withdrawals.erc721.push((token, token_id)),
                    ..before.withdrawals
                },
                AssetModel::Erc1155 { token, token_id, amount } => LedgerModel {
                    erc1155: before.withdrawals.erc1155.push((token, token_id, amount)),
                    ..before.withdrawals
                },
            })
            &&& after.deposits == before.deposits
            &&& after.name == before.name
            &&& after.registration_number == before.registration_number
            &&& after.wallet_address == before.wallet_address
        },
        answers(state, input) == seq![
            payment(
                state.ether_portal,
                match state.app_contract {
                    Some(address) => address,
                    None => input.app_contract,
                },
                input.msg_sender,
                asset,
            ),
            event_notice(
                input,
                withdrawal_name(asset),
                withdrawal_fields(input.msg_sender, asset),
            ),
            last_report(input),
        ],
{
    withdrawal_booked(state, input, asset);
    last_report_written(input);
    let counted = state.with_input(input.app_contract);
    if let AssetModel::Ether { .. } = asset {
        payment_written(counted, input.msg_sender, asset);
    } else if let AssetModel::Erc20 { .. } = asset {
        payment_written(counted, input.msg_sender, asset);
    } else {
        payment_written(counted, input.msg_sender, asset);
        assert(counted.own_address().len() > 0);
    }
    withdrawal_written(input.input_index, input.msg_sender, asset);
}

/// A registration makes the sender known under the name and the number that it names, without any
/// entries, and the notice tells it.
pub proof fn registration_is_booked_and_told(
    state: StateModel,
    input: InputModel,
    name: Seq<char>,
    reg_number: Seq<char>,
)
    requires
        verdict(state, input) == (DecisionModel::Register { name, reg_number }),
    ensures
        state.student(input.msg_sender) is None,
        advanced(state, input).student(input.msg_sender) == Some(
            StudentModel {
                name,
                registration_number: reg_number,
                wallet_address: input.msg_sender,
                deposits: LedgerModel {
                    ether: Seq::empty(),
                    erc20: Seq::empty(),
                    erc721: Seq::empty(),
                    erc1155: Seq::empty(),
                },
                withdrawals: LedgerModel {
                    ether: Seq::empty(),
                    erc20: Seq::empty(),
                    erc721: Seq::empty(),
                    erc1155: Seq::empty(),
                },
            },
        ),
        advanced(state, input).students.len() == state.students.len() + 1,
        answers(state, input) == seq![
            event_notice(
                input,
                "student_registered"@,
                seq![
                    ("name"@, quoted(name)),
                    ("reg_number"@, quoted(reg_number)),
                    ("wallet"@, quoted(input.msg_sender)),
                ],
            ),
            last_report(input),
        ],
{
    let counted = state.with_input(input.app_contract);
    assert(counted.students == state.students);
    student_put_and_found(
        counted,
        StudentModel::fresh(name, reg_number, input.msg_sender),
        input.msg_sender,
    );
    last_report_written(input);
    told3(
        "event"@,
        "student_registered"@,
        input.input_index,
        "name"@,
        name,
        "reg_number"@,
        reg_number,
        "wallet"@,
        input.msg_sender,
    );
}

/// A ping is answered to the sender, and changes no student.
pub proof fn ping_is_told(state: StateModel, input: InputModel)
    requires
        verdict(state, input) is Ping,
    ensures
        advanced(state, input).students == state.students,
        answers(state, input) == seq![
            event_notice(input, "pong"@, seq![("sender"@, quoted(input.msg_sender))]),
            last_report(input),
        ],
{
    last_report_written(input);
    told1("event"@, "pong"@, input.input_index, "sender"@, input.msg_sender);
}

/// An address that is relayed becomes that of the application's own contract where none is known, and
/// the notice repeats it. No student changes.
pub proof fn relay_is_told(state: StateModel, input: InputModel, address: Seq<char>)
    requires
        verdict(state, input) == (DecisionModel::Relay { address }),
    ensures
        advanced(state, input).students == state.students,
        advanced(state, input).app_contract == (if state.app_contract is Some {
            state.app_contract
        } else if input.app_contract.len() > 0 {
            Some(input.app_contract)
        } else {
            Some(address)
        }),
        answers(state, input) == seq![
            event_notice(input, "dapp_address_relay"@, seq![("address"@, quoted(address))]),
            last_report(input),
        ],
{
    last_report_written(input);
    told1("event"@, "dapp_address_relay"@, input.input_index, "address"@, address);
}

// ---- What is sent ----

/// Where it goes, and the document that carries it: a notice and a report carry the bytes of their text
/// in hexadecimal digits, a voucher its destination and its call as they are.
pub proof fn what_is_sent_is_addressed(text: Seq<char>, other: Seq<char>, required: bool)
    ensures
        (EmissionModel::Notice { payload: text }).path() == "/notice"@,
        (EmissionModel::Report { payload: text, required }).path() == "/report"@,
        (EmissionModel::Voucher { destination: text, calldata: other }).path() == "/voucher"@,
        (EmissionModel::Notice { payload: text }).document() == empty_object().with(
            "payload"@,
            Json::Text(marked_hex(encode_utf8(text))),
        ),
        (EmissionModel::Report { payload: text, required }).document() == empty_object().with(
            "payload"@,
            Json::Text(marked_hex(encode_utf8(text))),
        ),
        (EmissionModel::Voucher { destination: text, calldata: other }).document()
            == empty_object().with("destination"@, Json::Text(text)).with(
            "payload"@,
            Json::Text(other),
        ),
        status(true) == "accept"@,
        status(false) == "reject"@,
{
}

} // verus!
