//! What is sent back to the rollup: notices, reports and vouchers, and the texts in them.

use vstd::prelude::*;
use crate::abi::{
    calldata_erc1155_transfer, calldata_erc20_transfer, calldata_erc721_transfer,
    calldata_ether_withdraw, erc1155_call, erc20_call, erc721_call, ether_call,
};
use crate::decision::{Decision, DecisionModel, Deposit, DepositModel, Portal, Refusal, RefusalModel};
use crate::document;
use crate::document::{dumped, empty_object, Json};
use crate::hex::{payload_of, str_to_hex_payload};
use crate::input::{text_else, Input, InputModel};
use crate::ledger::{Asset, AssetModel};
use crate::state::{AppState, StateModel};
use crate::text::{decimal, decimal_of};

verus! {

/// Something that is sent to the rollup.
#[derive(Debug)]
pub enum Emission {
    /// A notice of what was done.
    Notice { payload: String },
    /// A report. Where it is not required, nothing depends on its arrival.
    Report { payload: String, required: bool },
    /// A call that the rollup may make for the application.
    Voucher { destination: String, calldata: String },
}

/// Something that is sent, with its texts as sequences of characters.
pub enum EmissionModel {
    Notice { payload: Seq<char> },
    Report { payload: Seq<char>, required: bool },
    Voucher { destination: Seq<char>, calldata: Seq<char> },
}

impl DeepView for Emission {
    type V = EmissionModel;

    open spec fn deep_view(&self) -> EmissionModel {
        match self {
            Emission::Notice { payload } => EmissionModel::Notice { payload: payload@ },
            Emission::Report { payload, required } => EmissionModel::Report {
                payload: payload@,
                required: *required,
            },
            Emission::Voucher { destination, calldata } => EmissionModel::Voucher {
                destination: destination@,
                calldata: calldata@,
            },
        }
    }
}

// ---- Texts ----

/// The start of a text that tells an event or an error of an input.
pub open spec fn opened(kind: Seq<char>, name: Seq<char>, index: u64) -> Seq<char> {
    "{\""@ + kind + "\":\""@ + name + "\",\"input_index\":"@ + decimal(index as nat)
}

/// The text with one more field, whose value is put in as it is.
pub open spec fn with_field(text: Seq<char>, key: Seq<char>, value: Seq<char>) -> Seq<char> {
    text + ",\""@ + key + "\":\""@ + value + "\""@
}

/// The text with the field that lists what is valid.
pub open spec fn with_valid(text: Seq<char>, list: Seq<char>) -> Seq<char> {
    text + ",\"valid\":"@ + list
}

/// The text with its end.
pub open spec fn closed_text(text: Seq<char>) -> Seq<char> {
    text + "}"@
}

fn open_text(kind: &str, name: &str, index: u64) -> (r: String)
    ensures
        r@ == opened(kind@, name@, index),
{
    let mut r = "{\"".to_owned();
    r.append(kind);
    r.append("\":\"");
    r.append(name);
    r.append("\",\"input_index\":");
    r.append(decimal_of(index as u128).as_str());
    r
}

fn add_field(text: &mut String, key: &str, value: &str)
    ensures
        final(text)@ == with_field(old(text)@, key@, value@),
{
    text.append(",\"");
    text.append(key);
    text.append("\":\"");
    text.append(value);
    text.append("\"");
}

fn close_text(text: &mut String)
    ensures
        final(text)@ == closed_text(old(text)@),
{
    text.append("}");
}

/// The kind of an asset.
pub open spec fn asset_kind(asset: AssetModel) -> Seq<char> {
    match asset {
        AssetModel::Ether { .. } => "ether"@,
        AssetModel::Erc20 { .. } => "erc20"@,
        AssetModel::Erc721 { .. } => "erc721"@,
        AssetModel::Erc1155 { .. } => "erc1155"@,
    }
}

fn kind_of_asset(asset: &Asset) -> (r: &'static str)
    ensures
        r@ == asset_kind(asset.deep_view()),
{
    match asset {
        Asset::Ether { .. } => "ether",
        Asset::Erc20 { .. } => "erc20",
        Asset::Erc721 { .. } => "erc721",
        Asset::Erc1155 { .. } => "erc1155",
    }
}

/// The text with the fields of an asset.
pub open spec fn with_asset(text: Seq<char>, asset: AssetModel) -> Seq<char> {
    match asset {
        AssetModel::Ether { amount } => with_field(text, "amount"@, decimal(amount as nat)),
        AssetModel::Erc20 { token, amount } => with_field(
            with_field(text, "token"@, token),
            "amount"@,
            decimal(amount as nat),
        ),
        AssetModel::Erc721 { token, token_id } => with_field(
            with_field(text, "token"@, token),
            "token_id"@,
            token_id,
        ),
        AssetModel::Erc1155 { token, token_id, amount } => with_field(
            with_field(with_field(text, "token"@, token), "token_id"@, token_id),
            "amount"@,
            decimal(amount as nat),
        ),
    }
}

fn add_asset(text: &mut String, asset: &Asset)
    ensures
        final(text)@ == with_asset(old(text)@, asset.deep_view()),
{
    match asset {
        Asset::Ether { amount } => {
            add_field(text, "amount", decimal_of(*amount).as_str());
        },
        Asset::Erc20 { token, amount } => {
            add_field(text, "token", token.as_str());
            add_field(text, "amount", decimal_of(*amount).as_str());
        },
        Asset::Erc721 { token, token_id } => {
            add_field(text, "token", token.as_str());
            add_field(text, "token_id", token_id.as_str());
        },
        Asset::Erc1155 { token, token_id, amount } => {
            add_field(text, "token", token.as_str());
            add_field(text, "token_id", token_id.as_str());
            add_field(text, "amount", decimal_of(*amount).as_str());
        },
    }
}

/// Under which key the data of a deposit stand.
pub open spec fn data_key(asset: AssetModel) -> Seq<char> {
    match asset {
        AssetModel::Ether { .. } => "exec_layer_data"@,
        AssetModel::Erc20 { .. } => "exec_layer_data"@,
        AssetModel::Erc721 { .. } => "extra_data"@,
        AssetModel::Erc1155 { .. } => "extra_data"@,
    }
}

/// The notice of a deposit.
pub open spec fn deposit_notice(index: u64, deposit: DepositModel) -> Seq<char> {
    closed_text(
        with_field(
            with_asset(
                with_field(
                    opened("event"@, asset_kind(deposit.asset) + "_deposit"@, index),
                    "depositor"@,
                    deposit.depositor,
                ),
                deposit.asset,
            ),
            data_key(deposit.asset),
            deposit.data,
        ),
    )
}

fn write_deposit_notice(index: u64, deposit: &Deposit) -> (r: String)
    ensures
        r@ == deposit_notice(index, deposit.deep_view()),
{
    let mut name = kind_of_asset(&deposit.asset).to_owned();
    name.append("_deposit");
    let key = match &deposit.asset {
        Asset::Ether { .. } => "exec_layer_data",
        Asset::Erc20 { .. } => "exec_layer_data",
        Asset::Erc721 { .. } => "extra_data",
        Asset::Erc1155 { .. } => "extra_data",
    };
    let mut r = open_text("event", name.as_str(), index);
    add_field(&mut r, "depositor", deposit.depositor.as_str());
    add_asset(&mut r, &deposit.asset);
    add_field(&mut r, key, deposit.data.as_str());
    close_text(&mut r);
    r
}

/// The notice of a withdrawal.
pub open spec fn withdrawal_notice(index: u64, wallet: Seq<char>, asset: AssetModel) -> Seq<char> {
    closed_text(
        with_asset(
            with_field(
                opened("event"@, asset_kind(asset) + "_withdrawal"@, index),
                "wallet"@,
                wallet,
            ),
            asset,
        ),
    )
}

fn write_withdrawal_notice(index: u64, wallet: &str, asset: &Asset) -> (r: String)
    ensures
        r@ == withdrawal_notice(index, wallet@, asset.deep_view()),
{
    let mut name = kind_of_asset(asset).to_owned();
    name.append("_withdrawal");
    let mut r = open_text("event", name.as_str(), index);
    add_field(&mut r, "wallet", wallet);
    add_asset(&mut r, asset);
    close_text(&mut r);
    r
}

/// The notice of a registration.
pub open spec fn registration_notice(
    index: u64,
    name: Seq<char>,
    reg_number: Seq<char>,
    wallet: Seq<char>,
) -> Seq<char> {
    closed_text(
        with_field(
            with_field(
                with_field(opened("event"@, "student_registered"@, index), "name"@, name),
                "reg_number"@,
                reg_number,
            ),
            "wallet"@,
            wallet,
        ),
    )
}

fn write_registration_notice(index: u64, name: &str, reg_number: &str, wallet: &str) -> (r: String)
    ensures
        r@ == registration_notice(index, name@, reg_number@, wallet@),
{
    let mut r = open_text("event", "student_registered", index);
    add_field(&mut r, "name", name);
    add_field(&mut r, "reg_number", reg_number);
    add_field(&mut r, "wallet", wallet);
    close_text(&mut r);
    r
}

/// A text that tells an event or an error with one field.
pub open spec fn short_text(
    kind: Seq<char>,
    name: Seq<char>,
    index: u64,
    key: Seq<char>,
    value: Seq<char>,
) -> Seq<char> {
    closed_text(with_field(opened(kind, name, index), key, value))
}

fn write_short_text(kind: &str, name: &str, index: u64, key: &str, value: &str) -> (r: String)
    ensures
        r@ == short_text(kind@, name@, index, key@, value@),
{
    let mut r = open_text(kind, name, index);
    add_field(&mut r, key, value);
    close_text(&mut r);
    r
}

/// The report that an input was processed.
pub open spec fn processed_report(index: u64, sender: Seq<char>, result: Seq<char>) -> Seq<char> {
    closed_text(
        with_field(
            with_field(opened("event"@, "advance_processed"@, index), "msg_sender"@, sender),
            "result"@,
            result,
        ),
    )
}

fn write_processed_report(index: u64, sender: &str, result: &str) -> (r: String)
    ensures
        r@ == processed_report(index, sender@, result@),
{
    let mut r = open_text("event", "advance_processed", index);
    add_field(&mut r, "msg_sender", sender);
    add_field(&mut r, "result", result);
    close_text(&mut r);
    r
}

/// The name of what is wrong with the payload of a portal.
pub open spec fn payload_error(portal: Portal) -> Seq<char> {
    match portal {
        Portal::Ether => "invalid_ether_payload"@,
        Portal::Erc20 => "invalid_erc20_payload"@,
        Portal::Erc721 => "invalid_erc721_payload"@,
        Portal::Erc1155 => "invalid_erc1155_payload"@,
    }
}

/// A text that tells an error without any field.
pub open spec fn bare_error(name: Seq<char>, index: u64) -> Seq<char> {
    closed_text(opened("error"@, name, index))
}

fn write_bare_error(name: &str, index: u64) -> (r: String)
    ensures
        r@ == bare_error(name@, index),
{
    let mut r = open_text("error", name, index);
    close_text(&mut r);
    r
}

/// The text with what is available and what was requested.
pub open spec fn with_shortage(text: Seq<char>, available: nat, requested: nat) -> Seq<char> {
    with_field(
        with_field(text, "available"@, decimal(available)),
        "requested"@,
        decimal(requested),
    )
}

fn add_shortage(text: &mut String, available: u128, requested: u128)
    ensures
        final(text)@ == with_shortage(old(text)@, available as nat, requested as nat),
{
    add_field(text, "available", decimal_of(available).as_str());
    add_field(text, "requested", decimal_of(requested).as_str());
}

/// The kinds of assets that can be taken out.
pub const VALID_ASSETS: &'static str = "[\"ether\",\"erc20\",\"erc721\",\"erc1155\"]";

/// The actions that a wallet is told of.
pub const VALID_ACTIONS: &'static str = "[\"ping\",\"register\",\"withdraw\"]";

/// The report of a refusal.
pub open spec fn refusal_report(index: u64, refusal: RefusalModel) -> Seq<char> {
    match refusal {
        RefusalModel::InvalidPayload { portal } => bare_error(payload_error(portal), index),
        RefusalModel::InvalidHex => bare_error("invalid_hex_payload"@, index),
        RefusalModel::NotUtf8 => bare_error("payload_not_utf8"@, index),
        RefusalModel::NotJson { raw } => short_text(
            "error"@,
            "payload_not_json"@,
            index,
            "raw"@,
            raw,
        ),
        RefusalModel::MissingName => bare_error("register_missing_name"@, index),
        RefusalModel::MissingRegNumber => bare_error("register_missing_reg_number"@, index),
        RefusalModel::AlreadyRegistered { wallet } => short_text(
            "error"@,
            "already_registered"@,
            index,
            "wallet"@,
            wallet,
        ),
        RefusalModel::NotRegistered { wallet } => short_text(
            "error"@,
            "not_registered"@,
            index,
            "wallet"@,
            wallet,
        ),
        RefusalModel::InvalidAmount { raw } => short_text(
            "error"@,
            "withdraw_invalid_amount"@,
            index,
            "raw"@,
            raw,
        ),
        RefusalModel::MissingToken => bare_error("withdraw_missing_token"@, index),
        RefusalModel::MissingTokenId => bare_error("withdraw_missing_token_id"@, index),
        RefusalModel::InsufficientEther { wallet, available, requested } => closed_text(
            with_shortage(
                with_field(
                    opened("error"@, "insufficient_ether_balance"@, index),
                    "wallet"@,
                    wallet,
                ),
                available,
                requested,
            ),
        ),
        RefusalModel::InsufficientErc20 { wallet, token, available, requested } => closed_text(
            with_shortage(
                with_field(
                    with_field(
                        opened("error"@, "insufficient_erc20_balance"@, index),
                        "wallet"@,
                        wallet,
                    ),
                    "token"@,
                    token,
                ),
                available,
                requested,
            ),
        ),
        RefusalModel::NotHeld { wallet, token, token_id } => closed_text(
            with_field(
                with_field(
                    with_field(
                        opened("error"@, "erc721_token_not_held"@, index),
                        "wallet"@,
                        wallet,
                    ),
                    "token"@,
                    token,
                ),
                "token_id"@,
                token_id,
            ),
        ),
        RefusalModel::InsufficientErc1155 { wallet, token, token_id, available, requested } =>
            closed_text(
            with_shortage(
                with_field(
                    with_field(
                        with_field(
                            opened("error"@, "insufficient_erc1155_balance"@, index),
                            "wallet"@,
                            wallet,
                        ),
                        "token"@,
                        token,
                    ),
                    "token_id"@,
                    token_id,
                ),
                available,
                requested,
            ),
        ),
        RefusalModel::AppContractUnknown => bare_error("app_contract_unknown"@, index),
        RefusalModel::UnknownAssetType { asset_type } => closed_text(
            with_valid(
                with_field(
                    opened("error"@, "unknown_asset_type"@, index),
                    "asset_type"@,
                    asset_type,
                ),
                VALID_ASSETS@,
            ),
        ),
        RefusalModel::UnknownAction { action } => closed_text(
            with_valid(
                with_field(opened("error"@, "unknown_action"@, index), "action"@, action),
                VALID_ACTIONS@,
            ),
        ),
    }
}

fn add_valid(text: &mut String, list: &str)
    ensures
        final(text)@ == with_valid(old(text)@, list@),
{
    text.append(",\"valid\":");
    text.append(list);
}

/// Writes the report of a refusal.
pub fn write_refusal_report(index: u64, refusal: &Refusal) -> (r: String)
    ensures
        r@ == refusal_report(index, refusal.deep_view()),
{
    match refusal {
        Refusal::InvalidPayload { portal } => {
            let name = match portal {
                Portal::Ether => "invalid_ether_payload",
                Portal::Erc20 => "invalid_erc20_payload",
                Portal::Erc721 => "invalid_erc721_payload",
                Portal::Erc1155 => "invalid_erc1155_payload",
            };
            write_bare_error(name, index)
        },
        Refusal::InvalidHex => write_bare_error("invalid_hex_payload", index),
        Refusal::NotUtf8 => write_bare_error("payload_not_utf8", index),
        Refusal::NotJson { raw } => write_short_text(
            "error",
            "payload_not_json",
            index,
            "raw",
            raw.as_str(),
        ),
        Refusal::MissingName => write_bare_error("register_missing_name", index),
        Refusal::MissingRegNumber => write_bare_error("register_missing_reg_number", index),
        Refusal::AlreadyRegistered { wallet } => write_short_text(
            "error",
            "already_registered",
            index,
            "wallet",
            wallet.as_str(),
        ),
        Refusal::NotRegistered { wallet } => write_short_text(
            "error",
            "not_registered",
            index,
            "wallet",
            wallet.as_str(),
        ),
        Refusal::InvalidAmount { raw } => write_short_text(
            "error",
            "withdraw_invalid_amount",
            index,
            "raw",
            raw.as_str(),
        ),
        Refusal::MissingToken => write_bare_error("withdraw_missing_token", index),
        Refusal::MissingTokenId => write_bare_error("withdraw_missing_token_id", index),
        Refusal::InsufficientEther { wallet, available, requested } => {
            let mut r = open_text("error", "insufficient_ether_balance", index);
            add_field(&mut r, "wallet", wallet.as_str());
            add_shortage(&mut r, *available, *requested);
            close_text(&mut r);
            r
        },
        Refusal::InsufficientErc20 { wallet, token, available, requested } => {
            let mut r = open_text("error", "insufficient_erc20_balance", index);
            add_field(&mut r, "wallet", wallet.as_str());
            add_field(&mut r, "token", token.as_str());
            add_shortage(&mut r, *available, *requested);
            close_text(&mut r);
            r
        },
        Refusal::NotHeld { wallet, token, token_id } => {
            let mut r = open_text("error", "erc721_token_not_held", index);
            add_field(&mut r, "wallet", wallet.as_str());
            add_field(&mut r, "token", token.as_str());
            add_field(&mut r, "token_id", token_id.as_str());
            close_text(&mut r);
            r
        },
        Refusal::InsufficientErc1155 { wallet, token, token_id, available, requested } => {
            let mut r = open_text("error", "insufficient_erc1155_balance", index);
            add_field(&mut r, "wallet", wallet.as_str());
            add_field(&mut r, "token", token.as_str());
            add_field(&mut r, "token_id", token_id.as_str());
            add_shortage(&mut r, *available, *requested);
            close_text(&mut r);
            r
        },
        Refusal::AppContractUnknown => write_bare_error("app_contract_unknown", index),
        Refusal::UnknownAssetType { asset_type } => {
            let mut r = open_text("error", "unknown_asset_type", index);
            add_field(&mut r, "asset_type", asset_type.as_str());
            add_valid(&mut r, VALID_ASSETS);
            close_text(&mut r);
            r
        },
        Refusal::UnknownAction { action } => {
            let mut r = open_text("error", "unknown_action", index);
            add_field(&mut r, "action", action.as_str());
            add_valid(&mut r, VALID_ACTIONS);
            close_text(&mut r);
            r
        },
    }
}

// ---- Emissions ----

/// The voucher for an asset that goes out to a wallet: a call of the Ether portal or of the token.
pub open spec fn voucher_for(state: StateModel, wallet: Seq<char>, asset: AssetModel) -> EmissionModel {
    match asset {
        AssetModel::Ether { amount } => EmissionModel::Voucher {
            destination: state.ether_portal,
            calldata: ether_call(wallet, amount),
        },
        AssetModel::Erc20 { token, amount } => EmissionModel::Voucher {
            destination: token,
            calldata: erc20_call(wallet, amount),
        },
        AssetModel::Erc721 { token, token_id } => EmissionModel::Voucher {
            destination: token,
            calldata: erc721_call(state.own_address(), wallet, token_id),
        },
        AssetModel::Erc1155 { token, token_id, amount } => EmissionModel::Voucher {
            destination: token,
            calldata: erc1155_call(state.own_address(), wallet, token_id, amount),
        },
    }
}

/// Makes the voucher for an asset that goes out to a wallet.
pub fn make_voucher(state: &AppState, wallet: &str, asset: &Asset) -> (r: Emission)
    ensures
        r.deep_view() == voucher_for(state.deep_view(), wallet@, asset.deep_view()),
{
    let own_address = text_else(&state.app_contract, "");
    proof {
        reveal_strlit("");
        assert(""@ =~= Seq::empty());
    }
    match asset {
        Asset::Ether { amount } => Emission::Voucher {
            destination: state.ether_portal.clone(),
            calldata: calldata_ether_withdraw(wallet, *amount),
        },
        Asset::Erc20 { token, amount } => Emission::Voucher {
            destination: token.clone(),
            calldata: calldata_erc20_transfer(wallet, *amount),
        },
        Asset::Erc721 { token, token_id } => Emission::Voucher {
            destination: token.clone(),
            calldata: calldata_erc721_transfer(own_address, wallet, token_id.as_str()),
        },
        Asset::Erc1155 { token, token_id, amount } => Emission::Voucher {
            destination: token.clone(),
            calldata: calldata_erc1155_transfer(own_address, wallet, token_id.as_str(), *amount),
        },
    }
}

/// The notice of what a decision does, where it is no refusal.
pub open spec fn notice_of(input: InputModel, decision: DecisionModel) -> Seq<char> {
    let index = input.input_index;
    match decision {
        DecisionModel::Refuse(_) => Seq::empty(),
        DecisionModel::Deposit(deposit) => deposit_notice(index, deposit),
        DecisionModel::Register { name, reg_number } => registration_notice(
            index,
            name,
            reg_number,
            input.msg_sender,
        ),
        DecisionModel::Withdraw(asset) => withdrawal_notice(index, input.msg_sender, asset),
        DecisionModel::Ping => short_text(
            "event"@,
            "pong"@,
            index,
            "sender"@,
            input.msg_sender,
        ),
        DecisionModel::Relay { address } => short_text(
            "event"@,
            "dapp_address_relay"@,
            index,
            "address"@,
            address,
        ),
    }
}

/// What is sent for a decision: a report of the refusal; or else the voucher of a withdrawal, the
/// notice, and the report that the input was processed, on which nothing depends.
pub open spec fn emissions_of(
    state: StateModel,
    input: InputModel,
    decision: DecisionModel,
) -> Seq<EmissionModel> {
    let notice = EmissionModel::Notice { payload: notice_of(input, decision) };
    let report = EmissionModel::Report {
        payload: processed_report(input.input_index, input.msg_sender, "accept"@),
        required: false,
    };
    match decision {
        DecisionModel::Refuse(refusal) => seq![
            EmissionModel::Report {
                payload: refusal_report(input.input_index, refusal),
                required: true,
            },
        ],
        DecisionModel::Withdraw(asset) => seq![
            voucher_for(state, input.msg_sender, asset),
            notice,
            report,
        ],
        _ => seq![notice, report],
    }
}

fn write_notice(input: &Input, decision: &Decision) -> (r: String)
    ensures
        r@ == notice_of(input.deep_view(), decision.deep_view()),
{
    let index = input.input_index;
    let sender = input.msg_sender.as_str();
    match decision {
        Decision::Refuse(_) => String::new(),
        Decision::Deposit(deposit) => write_deposit_notice(index, deposit),
        Decision::Register { name, reg_number } => write_registration_notice(
            index,
            name.as_str(),
            reg_number.as_str(),
            sender,
        ),
        Decision::Withdraw(asset) => write_withdrawal_notice(index, sender, asset),
        Decision::Ping => write_short_text("event", "pong", index, "sender", sender),
        Decision::Relay { address } => write_short_text(
            "event",
            "dapp_address_relay",
            index,
            "address",
            address.as_str(),
        ),
    }
}

/// Makes what is sent for a decision.
pub fn make_emissions(state: &AppState, input: &Input, decision: &Decision) -> (r: Vec<Emission>)
    ensures
        r.deep_view() == emissions_of(
            state.deep_view(),
            input.deep_view(),
            decision.deep_view(),
        ),
{
    let mut r: Vec<Emission> = Vec::new();
    match decision {
        Decision::Refuse(refusal) => {
            r.push(
                Emission::Report {
                    payload: write_refusal_report(input.input_index, refusal),
                    required: true,
                },
            );
        },
        _ => {
            if let Decision::Withdraw(asset) = decision {
                r.push(make_voucher(state, input.msg_sender.as_str(), asset));
            }
            r.push(Emission::Notice { payload: write_notice(input, decision) });
            r.push(
                Emission::Report {
                    payload: write_processed_report(
                        input.input_index,
                        input.msg_sender.as_str(),
                        "accept",
                    ),
                    required: false,
                },
            );
        },
    }
    assert(r.deep_view() =~= emissions_of(
        state.deep_view(),
        input.deep_view(),
        decision.deep_view(),
    ));
    r
}

impl EmissionModel {
    /// Where it is sent, behind the address of the rollup's server.
    pub open spec fn path(self) -> Seq<char> {
        match self {
            EmissionModel::Notice { .. } => "/notice"@,
            EmissionModel::Report { .. } => "/report"@,
            EmissionModel::Voucher { .. } => "/voucher"@,
        }
    }

    /// The document that is sent.
    pub open spec fn document(self) -> Json {
        match self {
            EmissionModel::Notice { payload } => empty_object().with(
                "payload"@,
                Json::Text(payload_of(payload)),
            ),
            EmissionModel::Report { payload, .. } => empty_object().with(
                "payload"@,
                Json::Text(payload_of(payload)),
            ),
            EmissionModel::Voucher { destination, calldata } => empty_object().with(
                "destination"@,
                Json::Text(destination),
            ).with("payload"@, Json::Text(calldata)),
        }
    }
}

impl Emission {
    /// Where it is sent, behind the address of the rollup's server.
    pub fn path(&self) -> (r: &'static str)
        ensures
            r@ == self.deep_view().path(),
    {
        match self {
            Emission::Notice { .. } => "/notice",
            Emission::Report { .. } => "/report",
            Emission::Voucher { .. } => "/voucher",
        }
    }

    /// The text of the document that is sent.
    pub fn body(&self) -> (r: String)
        ensures
            r@ == dumped(self.deep_view().document()),
    {
        let mut body = document::new_object();
        match self {
            Emission::Notice { payload } => {
                let digits = str_to_hex_payload(payload.as_str());
                document::insert(&mut body, "payload", document::from_text(digits.as_str()));
            },
            Emission::Report { payload, .. } => {
                let digits = str_to_hex_payload(payload.as_str());
                document::insert(&mut body, "payload", document::from_text(digits.as_str()));
            },
            Emission::Voucher { destination, calldata } => {
                document::insert(
                    &mut body,
                    "destination",
                    document::from_text(destination.as_str()),
                );
                document::insert(&mut body, "payload", document::from_text(calldata.as_str()));
            },
        }
        document::dump(&body)
    }
}

/// How an input is answered: accepted or refused.
pub open spec fn status(accepted: bool) -> Seq<char> {
    if accepted {
        "accept"@
    } else {
        "reject"@
    }
}

/// The word for how an input is answered.
pub fn status_word(accepted: bool) -> (r: &'static str)
    ensures
        r@ == status(accepted),
{
    if accepted {
        "accept"
    } else {
        "reject"
    }
}

/// Writes the document with which the next request is asked for; it tells how the last one was
/// answered.
pub fn finish_body(accepted: bool) -> (r: String)
    ensures
        r@ == dumped(empty_object().with("status"@, Json::Text(status(accepted)))),
{
    let mut body = document::new_object();
    document::insert(&mut body, "status", document::from_text(status_word(accepted)));
    document::dump(&body)
}

} // verus!
