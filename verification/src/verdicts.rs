//! What is decided on which input.

use vstd::prelude::*;
use vstd::utf8::{encode_utf8, encode_utf8_decode_utf8, encode_utf8_valid_utf8, valid_utf8};
use crate::advance::verdict;
use crate::decision::{action_decision, DecisionModel, Portal, RefusalModel};
use crate::document::{parsed, FaultModel, Json};
use crate::hex::{normalised, spelt_bytes, unmarked};
use crate::input::{action_in, InputModel};
use crate::laws::held_items_came_and_stayed;
use crate::ledger::{erc1155_sum, erc20_sum, ether_sum, AssetModel};
use crate::state::StateModel;
use crate::text::{amount, excerpt, lowercased};

verus! {

/// Whether a wallet, and no portal, sends the input.
pub open spec fn is_from_wallet(state: StateModel, input: InputModel) -> bool {
    &&& input.msg_sender != state.ether_portal
    &&& input.msg_sender != state.erc20_portal
    &&& input.msg_sender != state.erc721_portal
    &&& input.msg_sender != state.erc1155_portal
}

/// Whether a wallet sends a document: its payload spells the bytes of the document's text.
pub open spec fn sends(state: StateModel, input: InputModel, text: Seq<char>, document: Json) -> bool {
    &&& is_from_wallet(state, input)
    &&& spelt_bytes(unmarked(input.payload)) == Some(encode_utf8(text))
    &&& parsed(text) == Ok::<Json, FaultModel>(document)
}

/// Whether a document holds a text under a key that is not empty.
pub open spec fn is_filled(document: Json, key: Seq<char>) -> bool {
    document.member(key) matches Json::Text(text) && text.len() > 0
}

/// What a refused input is decided on.
pub open spec fn refused(refusal: RefusalModel) -> DecisionModel {
    DecisionModel::Refuse(refusal)
}

proof fn document_is_read(state: StateModel, input: InputModel, text: Seq<char>, document: Json)
    requires
        sends(state, input, text, document),
    ensures
        verdict(state, input) == action_decision(
            state.with_input(input.app_contract),
            input.msg_sender,
            action_in(document),
        ),
        state.with_input(input.app_contract).students == state.students,
{
    encode_utf8_valid_utf8(text);
    encode_utf8_decode_utf8(text);
}

proof fn actions_differ()
    ensures
        "register"@ != "withdraw"@,
        "register"@ != "ping"@,
        "register"@ != "dapp_address"@,
        "register"@ != "dapp-address"@,
        "withdraw"@ != "ping"@,
        "withdraw"@ != "dapp_address"@,
        "withdraw"@ != "dapp-address"@,
        "ping"@ != "dapp_address"@,
        "ping"@ != "dapp-address"@,
{
    reveal_strlit("register");
    reveal_strlit("withdraw");
    reveal_strlit("ping");
    reveal_strlit("dapp_address");
    reveal_strlit("dapp-address");
    assert("register"@.len() == 8 && "withdraw"@.len() == 8 && "ping"@.len() == 4);
    assert("dapp_address"@.len() == 12 && "dapp-address"@.len() == 12);
    assert("register"@[0] == 'r' && "withdraw"@[0] == 'w');
}

/// The kinds of assets are told apart.
pub proof fn assets_differ()
    ensures
        "ether"@ != "erc20"@,
        "ether"@ != "erc721"@,
        "ether"@ != "erc1155"@,
        "erc20"@ != "erc721"@,
        "erc20"@ != "erc1155"@,
        "erc721"@ != "erc1155"@,
{
    reveal_strlit("ether");
    reveal_strlit("erc20");
    reveal_strlit("erc721");
    reveal_strlit("erc1155");
    assert("ether"@.len() == 5 && "erc20"@.len() == 5);
    assert("erc721"@.len() == 6 && "erc1155"@.len() == 7);
    assert("ether"@[1] == 't' && "erc20"@[1] == 'r');
}

// ---- Registrations ----

/// A wallet registers with a name and a number, both not empty, if and only if no student is known
/// under it, whoever else is known. Otherwise it is told what is wrong: first the name, then the number,
/// then that it is known.
pub proof fn registration_is_decided(
    state: StateModel,
    input: InputModel,
    text: Seq<char>,
    document: Json,
)
    requires
        sends(state, input, text, document),
        document.member("action"@) == Json::Text("register"@),
    ensures
        verdict(state, input) == (if !is_filled(document, "name"@) {
            refused(RefusalModel::MissingName)
        } else if !is_filled(document, "reg_number"@) {
            refused(RefusalModel::MissingRegNumber)
        } else if state.student(input.msg_sender) is Some {
            refused(RefusalModel::AlreadyRegistered { wallet: input.msg_sender })
        } else {
            DecisionModel::Register {
                name: document.member("name"@)->Text_0,
                reg_number: document.member("reg_number"@)->Text_0,
            }
        }),
{
    document_is_read(state, input, text, document);
}

// ---- Withdrawals ----

/// Whether a wallet under which a student is known asks to take out an asset of a kind.
pub open spec fn wants_out(
    state: StateModel,
    input: InputModel,
    text: Seq<char>,
    document: Json,
    kind: Seq<char>,
) -> bool {
    &&& sends(state, input, text, document)
    &&& document.member("action"@) == Json::Text("withdraw"@)
    &&& document.member("asset_type"@) == Json::Text(kind)
    &&& state.student(input.msg_sender) is Some
}

/// The amount that a document names, as a text: zero where it names none.
pub open spec fn named_amount(document: Json) -> Seq<char> {
    match document.member("amount"@) {
        Json::Text(text) => text,
        _ => "0"@,
    }
}

/// Whether a document names an amount of more than zero.
pub open spec fn is_amount(document: Json) -> bool {
    amount(named_amount(document)) matches Some(n) && n > 0
}

/// What is left where so much came in and so much went out.
pub open spec fn rest(came: nat, went: nat) -> nat {
    if went <= came {
        (came - went) as nat
    } else {
        0
    }
}

/// A wallet under which no student is known is told so, whatever it asks to take out.
pub proof fn withdrawal_needs_a_student(
    state: StateModel,
    input: InputModel,
    text: Seq<char>,
    document: Json,
)
    requires
        sends(state, input, text, document),
        document.member("action"@) == Json::Text("withdraw"@),
        state.student(input.msg_sender) is None,
    ensures
        verdict(state, input) == refused(RefusalModel::NotRegistered { wallet: input.msg_sender }),
{
    actions_differ();
    document_is_read(state, input, text, document);
}

/// Ether goes out if and only if the amount is more than zero and no more than what came in for the
/// sender and has not gone out. Otherwise the sender is told the amount, or what is left.
pub proof fn ether_withdrawal_is_decided(
    state: StateModel,
    input: InputModel,
    text: Seq<char>,
    document: Json,
)
    requires
        wants_out(state, input, text, document, "ether"@),
    ensures
        ({
            let student = state.student(input.msg_sender)->0;
            let n = amount(named_amount(document))->0;
            let left = rest(
                ether_sum(student.deposits.ether),
                ether_sum(student.withdrawals.ether),
            );
            verdict(state, input) == (if !is_amount(document) {
                refused(RefusalModel::InvalidAmount { raw: named_amount(document) })
            } else if n <= left {
                DecisionModel::Withdraw(AssetModel::Ether { amount: n })
            } else {
                refused(
                    RefusalModel::InsufficientEther {
                        wallet: input.msg_sender,
                        available: left,
                        requested: n as nat,
                    },
                )
            })
        }),
{
    actions_differ();
    assets_differ();
    document_is_read(state, input, text, document);
}

/// A token goes out if and only if it is named, the amount is more than zero, and no more than what
/// came in of it for the sender and has not gone out.
pub proof fn erc20_withdrawal_is_decided(
    state: StateModel,
    input: InputModel,
    text: Seq<char>,
    document: Json,
)
    requires
        wants_out(state, input, text, document, "erc20"@),
    ensures
        ({
            let student = state.student(input.msg_sender)->0;
            let n = amount(named_amount(document))->0;
            let token = lowercased(document.member("token"@)->Text_0);
            let left = rest(
                erc20_sum(student.deposits.erc20, token),
                erc20_sum(student.withdrawals.erc20, token),
            );
            verdict(state, input) == (if !is_filled(document, "token"@) {
                refused(RefusalModel::MissingToken)
            } else if !is_amount(document) {
                refused(RefusalModel::InvalidAmount { raw: named_amount(document) })
            } else if n <= left {
                DecisionModel::Withdraw(AssetModel::Erc20 { token, amount: n })
            } else {
                refused(
                    RefusalModel::InsufficientErc20 {
                        wallet: input.msg_sender,
                        token,
                        available: left,
                        requested: n as nat,
                    },
                )
            })
        }),
{
    actions_differ();
    assets_differ();
    document_is_read(state, input, text, document);
}

/// The application's own contract once an input has come.
pub open spec fn contract_after(state: StateModel, input: InputModel) -> Seq<char> {
    match state.app_contract {
        Some(address) => address,
        None => input.app_contract,
    }
}

/// An item goes out if and only if it is named, came in for the sender and never went out, and the
/// application's own contract is known.
pub proof fn erc721_withdrawal_is_decided(
    state: StateModel,
    input: InputModel,
    text: Seq<char>,
    document: Json,
)
    requires
        wants_out(state, input, text, document, "erc721"@),
    ensures
        ({
            let student = state.student(input.msg_sender)->0;
            let token = lowercased(document.member("token"@)->Text_0);
            let token_id = normalised(document.member("token_id"@)->Text_0);
            verdict(state, input) == (if !is_filled(document, "token"@) {
                refused(RefusalModel::MissingToken)
            } else if !is_filled(document, "token_id"@) {
                refused(RefusalModel::MissingTokenId)
            } else if !student.deposits.erc721.contains((token, token_id))
                || student.withdrawals.erc721.contains((token, token_id)) {
                refused(RefusalModel::NotHeld { wallet: input.msg_sender, token, token_id })
            } else if contract_after(state, input).len() == 0 {
                refused(RefusalModel::AppContractUnknown)
            } else {
                DecisionModel::Withdraw(AssetModel::Erc721 { token, token_id })
            })
        }),
{
    actions_differ();
    assets_differ();
    document_is_read(state, input, text, document);
    held_items_came_and_stayed(
        state.student(input.msg_sender)->0,
        lowercased(document.member("token"@)->Text_0),
        normalised(document.member("token_id"@)->Text_0),
    );
}

/// Items of a kind go out if and only if they are named, the amount is more than zero and no more than
/// what came in for the sender and has not gone out, and the application's own contract is known.
pub proof fn erc1155_withdrawal_is_decided(
    state: StateModel,
    input: InputModel,
    text: Seq<char>,
    document: Json,
)
    requires
        wants_out(state, input, text, document, "erc1155"@),
    ensures
        ({
            let student = state.student(input.msg_sender)->0;
            let n = amount(named_amount(document))->0;
            let token = lowercased(document.member("token"@)->Text_0);
            let token_id = normalised(document.member("token_id"@)->Text_0);
            let left = rest(
                erc1155_sum(student.deposits.erc1155, token, token_id),
                erc1155_sum(student.withdrawals.erc1155, token, token_id),
            );
            verdict(state, input) == (if !is_filled(document, "token"@) {
                refused(RefusalModel::MissingToken)
            } else if !is_filled(document, "token_id"@) {
                refused(RefusalModel::MissingTokenId)
            } else if !is_amount(document) {
                refused(RefusalModel::InvalidAmount { raw: named_amount(document) })
            } else if n > left {
                refused(
                    RefusalModel::InsufficientErc1155 {
                        wallet: input.msg_sender,
                        token,
                        token_id,
                        available: left,
                        requested: n as nat,
                    },
                )
            } else if contract_after(state, input).len() == 0 {
                refused(RefusalModel::AppContractUnknown)
            } else {
                DecisionModel::Withdraw(AssetModel::Erc1155 { token, token_id, amount: n })
            })
        }),
{
    actions_differ();
    assets_differ();
    document_is_read(state, input, text, document);
}

/// Any other kind of asset is repeated to the sender as unknown, and so is a missing one as empty.
pub proof fn unknown_asset_is_refused(
    state: StateModel,
    input: InputModel,
    text: Seq<char>,
    document: Json,
)
    requires
        sends(state, input, text, document),
        document.member("action"@) == Json::Text("withdraw"@),
        state.student(input.msg_sender) is Some,
        document.member("asset_type"@) != Json::Text("ether"@),
        document.member("asset_type"@) != Json::Text("erc20"@),
        document.member("asset_type"@) != Json::Text("erc721"@),
        document.member("asset_type"@) != Json::Text("erc1155"@),
    ensures
        verdict(state, input) == refused(
            RefusalModel::UnknownAssetType {
                asset_type: match document.member("asset_type"@) {
                    Json::Text(kind) => kind,
                    _ => ""@,
                },
            },
        ),
{
    actions_differ();
    document_is_read(state, input, text, document);
    reveal_strlit("");
    reveal_strlit("ether");
    reveal_strlit("erc20");
    reveal_strlit("erc721");
    reveal_strlit("erc1155");
    assert(""@.len() == 0);
    assert("ether"@.len() == 5 && "erc20"@.len() == 5);
    assert("erc721"@.len() == 6 && "erc1155"@.len() == 7);
}

// ---- Other actions ----

/// A ping is answered, whoever sends it.
pub proof fn ping_is_decided(state: StateModel, input: InputModel, text: Seq<char>, document: Json)
    requires
        sends(state, input, text, document),
        document.member("action"@) == Json::Text("ping"@),
    ensures
        verdict(state, input) is Ping,
{
    actions_differ();
    document_is_read(state, input, text, document);
}

/// An address is relayed as it is named, under either spelling of the action; where none is named, that
/// of the sender.
pub proof fn relay_is_decided(state: StateModel, input: InputModel, text: Seq<char>, document: Json)
    requires
        sends(state, input, text, document),
        document.member("action"@) == Json::Text("dapp_address"@) || document.member("action"@)
            == Json::Text("dapp-address"@),
    ensures
        verdict(state, input) == (DecisionModel::Relay {
            address: match document.member("address"@) {
                Json::Text(address) => address,
                _ => input.msg_sender,
            },
        }),
{
    actions_differ();
    document_is_read(state, input, text, document);
}

/// Any other action is repeated to the sender as unknown, and so is a missing one as empty.
pub proof fn unknown_action_is_refused(
    state: StateModel,
    input: InputModel,
    text: Seq<char>,
    document: Json,
)
    requires
        sends(state, input, text, document),
        document.member("action"@) != Json::Text("register"@),
        document.member("action"@) != Json::Text("withdraw"@),
        document.member("action"@) != Json::Text("ping"@),
        document.member("action"@) != Json::Text("dapp_address"@),
        document.member("action"@) != Json::Text("dapp-address"@),
    ensures
        verdict(state, input) == refused(
            RefusalModel::UnknownAction {
                action: match document.member("action"@) {
                    Json::Text(action) => action,
                    _ => ""@,
                },
            },
        ),
{
    document_is_read(state, input, text, document);
    reveal_strlit("");
    reveal_strlit("register");
    reveal_strlit("withdraw");
    reveal_strlit("ping");
    reveal_strlit("dapp_address");
    reveal_strlit("dapp-address");
    assert(""@.len() == 0);
    assert("register"@.len() == 8 && "withdraw"@.len() == 8 && "ping"@.len() == 4);
    assert("dapp_address"@.len() == 12 && "dapp-address"@.len() == 12);
}

// ---- Payloads ----

/// A payload of a wallet that is no document is refused: where it spells no bytes, where the bytes are
/// no text, and where the text is no document, the start of which is repeated.
pub proof fn payload_must_be_a_document(state: StateModel, input: InputModel)
    requires
        is_from_wallet(state, input),
    ensures
        spelt_bytes(unmarked(input.payload)) is None ==> verdict(state, input) == refused(
            RefusalModel::InvalidHex,
        ),
        forall|bytes: Seq<u8>|
            spelt_bytes(unmarked(input.payload)) == Some(bytes) && !#[trigger] valid_utf8(bytes)
                ==> verdict(state, input) == refused(RefusalModel::NotUtf8),
        forall|text: Seq<char>|
            spelt_bytes(unmarked(input.payload)) == Some(#[trigger] encode_utf8(text)) && parsed(
                text,
            ) is Err ==> verdict(state, input) == refused(RefusalModel::NotJson { raw: excerpt(text) }),
{
    assert forall|text: Seq<char>|
        spelt_bytes(unmarked(input.payload)) == Some(#[trigger] encode_utf8(text)) && parsed(
            text,
        ) is Err implies verdict(state, input) == refused(
        RefusalModel::NotJson { raw: excerpt(text) },
    ) by {
        encode_utf8_valid_utf8(text);
        encode_utf8_decode_utf8(text);
    }
}

/// A portal that sends too few bytes for its kind of deposit, or none at all, is refused.
pub proof fn portal_must_send_enough(state: StateModel, input: InputModel, bytes: Seq<u8>)
    requires
        spelt_bytes(unmarked(input.payload)) == Some(bytes) || spelt_bytes(
            unmarked(input.payload),
        ) is None && bytes.len() == 0,
    ensures
        ({
            let sender = input.msg_sender;
            let invalid = |portal: Portal| refused(RefusalModel::InvalidPayload { portal });
            if sender == state.ether_portal {
                (verdict(state, input) == invalid(Portal::Ether)) == (bytes.len() < 20 + 32)
            } else if sender == state.erc20_portal {
                (verdict(state, input) == invalid(Portal::Erc20)) == (bytes.len() < 20 + 20 + 32)
            } else if sender == state.erc721_portal {
                (verdict(state, input) == invalid(Portal::Erc721)) == (bytes.len() < 20 + 20 + 32)
            } else if sender == state.erc1155_portal {
                (verdict(state, input) == invalid(Portal::Erc1155)) == (bytes.len() < 20 + 20 + 32
                    + 32)
            } else {
                !(verdict(state, input) is Deposit)
            }
        }),
{
}

} // verus!
