//! What is decided on an input: to refuse it, or what it does.

use vstd::prelude::*;
use vstd::utf8::{decode_utf8, valid_utf8};
use crate::document;
use crate::document::{is_readable, parsed, readable};
use crate::hex::{
    address_at, cuttable, extract_address, extract_trailing_hex, extract_u128, extract_uint256_hex,
    hex_to_bytes, is_cuttable, low_number_at, normalise_uint256, normalised, number_text_at,
    rest_text, spelt_bytes, unmarked,
};
use crate::input::{action_in, read_action, text_else, text_or, Action, ActionModel, Input, InputModel};
use crate::ledger::{Asset, AssetModel};
use crate::state::{AppState, StateModel};
use crate::student::{Student, StudentModel};
use crate::text::{amount, contains_text, decode, excerpt, excerpt_of, lowercase, lowercased, parse_amount};

verus! {

/// The contracts through which assets come in.
#[derive(Clone, Copy, Debug, PartialEq, Eq, Structural)]
pub enum Portal {
    Ether,
    Erc20,
    Erc721,
    Erc1155,
}

/// Why an input is refused.
#[derive(Debug)]
pub enum Refusal {
    /// A portal sent no hexadecimal digits, or too few of them.
    InvalidPayload { portal: Portal },
    InvalidHex,
    NotUtf8,
    /// The payload is no JSON document; an excerpt of it is repeated.
    NotJson { raw: String },
    MissingName,
    MissingRegNumber,
    AlreadyRegistered { wallet: String },
    NotRegistered { wallet: String },
    InvalidAmount { raw: String },
    MissingToken,
    MissingTokenId,
    InsufficientEther { wallet: String, available: u128, requested: u128 },
    InsufficientErc20 { wallet: String, token: String, available: u128, requested: u128 },
    NotHeld { wallet: String, token: String, token_id: String },
    InsufficientErc1155 {
        wallet: String,
        token: String,
        token_id: String,
        available: u128,
        requested: u128,
    },
    AppContractUnknown,
    UnknownAssetType { asset_type: String },
    UnknownAction { action: String },
}

/// Why an input is refused, with texts as sequences of characters.
pub enum RefusalModel {
    InvalidPayload { portal: Portal },
    InvalidHex,
    NotUtf8,
    NotJson { raw: Seq<char> },
    MissingName,
    MissingRegNumber,
    AlreadyRegistered { wallet: Seq<char> },
    NotRegistered { wallet: Seq<char> },
    InvalidAmount { raw: Seq<char> },
    MissingToken,
    MissingTokenId,
    InsufficientEther { wallet: Seq<char>, available: nat, requested: nat },
    InsufficientErc20 { wallet: Seq<char>, token: Seq<char>, available: nat, requested: nat },
    NotHeld { wallet: Seq<char>, token: Seq<char>, token_id: Seq<char> },
    InsufficientErc1155 {
        wallet: Seq<char>,
        token: Seq<char>,
        token_id: Seq<char>,
        available: nat,
        requested: nat,
    },
    AppContractUnknown,
    UnknownAssetType { asset_type: Seq<char> },
    UnknownAction { action: Seq<char> },
}

impl DeepView for Refusal {
    type V = RefusalModel;

    open spec fn deep_view(&self) -> RefusalModel {
        match self {
            Refusal::InvalidPayload { portal } => RefusalModel::InvalidPayload { portal: *portal },
            Refusal::InvalidHex => RefusalModel::InvalidHex,
            Refusal::NotUtf8 => RefusalModel::NotUtf8,
            Refusal::NotJson { raw } => RefusalModel::NotJson { raw: raw@ },
            Refusal::MissingName => RefusalModel::MissingName,
            Refusal::MissingRegNumber => RefusalModel::MissingRegNumber,
            Refusal::AlreadyRegistered { wallet } => RefusalModel::AlreadyRegistered {
                wallet: wallet@,
            },
            Refusal::NotRegistered { wallet } => RefusalModel::NotRegistered { wallet: wallet@ },
            Refusal::InvalidAmount { raw } => RefusalModel::InvalidAmount { raw: raw@ },
            Refusal::MissingToken => RefusalModel::MissingToken,
            Refusal::MissingTokenId => RefusalModel::MissingTokenId,
            Refusal::InsufficientEther { wallet, available, requested } =>
                RefusalModel::InsufficientEther {
                wallet: wallet@,
                available: *available as nat,
                requested: *requested as nat,
            },
            Refusal::InsufficientErc20 { wallet, token, available, requested } =>
                RefusalModel::InsufficientErc20 {
                wallet: wallet@,
                token: token@,
                available: *available as nat,
                requested: *requested as nat,
            },
            Refusal::NotHeld { wallet, token, token_id } => RefusalModel::NotHeld {
                wallet: wallet@,
                token: token@,
                token_id: token_id@,
            },
            Refusal::InsufficientErc1155 { wallet, token, token_id, available, requested } =>
                RefusalModel::InsufficientErc1155 {
                wallet: wallet@,
                token: token@,
                token_id: token_id@,
                available: *available as nat,
                requested: *requested as nat,
            },
            Refusal::AppContractUnknown => RefusalModel::AppContractUnknown,
            Refusal::UnknownAssetType { asset_type } => RefusalModel::UnknownAssetType {
                asset_type: asset_type@,
            },
            Refusal::UnknownAction { action } => RefusalModel::UnknownAction { action: action@ },
        }
    }
}

/// An asset that came in through a portal, for whom, and the data that came along.
#[derive(Debug)]
pub struct Deposit {
    pub depositor: String,
    pub asset: Asset,
    pub data: String,
}

/// A deposit, with its texts as sequences of characters.
pub struct DepositModel {
    pub depositor: Seq<char>,
    pub asset: AssetModel,
    pub data: Seq<char>,
}

impl DeepView for Deposit {
    type V = DepositModel;

    open spec fn deep_view(&self) -> DepositModel {
        DepositModel {
            depositor: self.depositor@,
            asset: self.asset.deep_view(),
            data: self.data@,
        }
    }
}

/// What is decided on an input.
#[derive(Debug)]
pub enum Decision {
    Refuse(Refusal),
    /// An asset came in.
    Deposit(Deposit),
    /// The sender registers as a student.
    Register { name: String, reg_number: String },
    /// The sender takes an asset out.
    Withdraw(Asset),
    /// The sender asks for a sign of life.
    Ping,
    /// The sender tells the application's own address.
    Relay { address: String },
}

/// What is decided on an input, with texts as sequences of characters.
pub enum DecisionModel {
    Refuse(RefusalModel),
    Deposit(DepositModel),
    Register { name: Seq<char>, reg_number: Seq<char> },
    Withdraw(AssetModel),
    Ping,
    Relay { address: Seq<char> },
}

impl DeepView for Decision {
    type V = DecisionModel;

    open spec fn deep_view(&self) -> DecisionModel {
        match self {
            Decision::Refuse(refusal) => DecisionModel::Refuse(refusal.deep_view()),
            Decision::Deposit(deposit) => DecisionModel::Deposit(deposit.deep_view()),
            Decision::Register { name, reg_number } => DecisionModel::Register {
                name: name@,
                reg_number: reg_number@,
            },
            Decision::Withdraw(asset) => DecisionModel::Withdraw(asset.deep_view()),
            Decision::Ping => DecisionModel::Ping,
            Decision::Relay { address } => DecisionModel::Relay { address: address@ },
        }
    }
}

// ---- Deposits ----

/// The portal that sends from an address. Where two have the same, the first one counts.
pub open spec fn portal_of(state: StateModel, sender: Seq<char>) -> Option<Portal> {
    if sender == state.ether_portal {
        Some(Portal::Ether)
    } else if sender == state.erc20_portal {
        Some(Portal::Erc20)
    } else if sender == state.erc721_portal {
        Some(Portal::Erc721)
    } else if sender == state.erc1155_portal {
        Some(Portal::Erc1155)
    } else {
        None
    }
}

/// How many bytes a portal sends at least.
pub open spec fn least_bytes(portal: Portal) -> nat {
    match portal {
        Portal::Ether => 52,
        Portal::Erc20 => 72,
        Portal::Erc721 => 72,
        Portal::Erc1155 => 104,
    }
}

/// The deposit in the bytes that a portal sends.
///
/// The Ether portal sends the depositor and the amount. The others send the token, the depositor, and
/// then an amount, a token id, or both. An address takes twenty bytes, and a number thirty-two. The
/// rest are data.
pub open spec fn deposit_in(portal: Portal, bytes: Seq<u8>) -> DepositModel {
    match portal {
        Portal::Ether => DepositModel {
            depositor: address_at(bytes, 0)->0,
            asset: AssetModel::Ether { amount: low_number_at(bytes, 20)->0 },
            data: rest_text(bytes, 52),
        },
        Portal::Erc20 => DepositModel {
            depositor: address_at(bytes, 20)->0,
            asset: AssetModel::Erc20 {
                token: address_at(bytes, 0)->0,
                amount: low_number_at(bytes, 40)->0,
            },
            data: rest_text(bytes, 72),
        },
        Portal::Erc721 => DepositModel {
            depositor: address_at(bytes, 20)->0,
            asset: AssetModel::Erc721 {
                token: address_at(bytes, 0)->0,
                token_id: number_text_at(bytes, 40)->0,
            },
            data: rest_text(bytes, 72),
        },
        Portal::Erc1155 => DepositModel {
            depositor: address_at(bytes, 20)->0,
            asset: AssetModel::Erc1155 {
                token: address_at(bytes, 0)->0,
                token_id: number_text_at(bytes, 40)->0,
                amount: low_number_at(bytes, 72)->0,
            },
            data: rest_text(bytes, 104),
        },
    }
}

/// What is decided on the payload of a portal.
pub open spec fn deposit_decision(portal: Portal, payload: Seq<char>) -> DecisionModel {
    match spelt_bytes(unmarked(payload)) {
        Some(bytes) => if bytes.len() >= least_bytes(portal) {
            DecisionModel::Deposit(deposit_in(portal, bytes))
        } else {
            DecisionModel::Refuse(RefusalModel::InvalidPayload { portal })
        },
        None => DecisionModel::Refuse(RefusalModel::InvalidPayload { portal }),
    }
}

/// Decides on the payload of a portal.
pub fn decide_deposit(portal: Portal, payload: &str) -> (r: Decision)
    requires
        cuttable(payload@),
    ensures
        r.deep_view() == deposit_decision(portal, payload@),
{
    let least: usize = match portal {
        Portal::Ether => 52,
        Portal::Erc20 => 72,
        Portal::Erc721 => 72,
        Portal::Erc1155 => 104,
    };
    let bytes = match hex_to_bytes(payload) {
        Some(bytes) => bytes,
        None => {
            return Decision::Refuse(Refusal::InvalidPayload { portal });
        },
    };
    assert(bytes.deep_view() =~= bytes@);
    if bytes.len() < least {
        return Decision::Refuse(Refusal::InvalidPayload { portal });
    }
    let bytes = bytes.as_slice();
    match portal {
        Portal::Ether => Decision::Deposit(
            Deposit {
                depositor: extract_address(bytes, 0).unwrap(),
                asset: Asset::Ether { amount: extract_u128(bytes, 20).unwrap() },
                data: extract_trailing_hex(bytes, 52),
            },
        ),
        Portal::Erc20 => Decision::Deposit(
            Deposit {
                depositor: extract_address(bytes, 20).unwrap(),
                asset: Asset::Erc20 {
                    token: extract_address(bytes, 0).unwrap(),
                    amount: extract_u128(bytes, 40).unwrap(),
                },
                data: extract_trailing_hex(bytes, 72),
            },
        ),
        Portal::Erc721 => Decision::Deposit(
            Deposit {
                depositor: extract_address(bytes, 20).unwrap(),
                asset: Asset::Erc721 {
                    token: extract_address(bytes, 0).unwrap(),
                    token_id: extract_uint256_hex(bytes, 40).unwrap(),
                },
                data: extract_trailing_hex(bytes, 72),
            },
        ),
        Portal::Erc1155 => Decision::Deposit(
            Deposit {
                depositor: extract_address(bytes, 20).unwrap(),
                asset: Asset::Erc1155 {
                    token: extract_address(bytes, 0).unwrap(),
                    token_id: extract_uint256_hex(bytes, 40).unwrap(),
                    amount: extract_u128(bytes, 72).unwrap(),
                },
                data: extract_trailing_hex(bytes, 104),
            },
        ),
    }
}

// ---- Withdrawals ----

/// The text, unless it is missing or empty.
pub open spec fn filled(text: Option<Seq<char>>) -> Option<Seq<char>> {
    match text {
        Some(text) => if text.len() > 0 {
            Some(text)
        } else {
            None
        },
        None => None,
    }
}

/// The amount that an action names: zero where it names none.
pub open spec fn amount_text(action: ActionModel) -> Seq<char> {
    text_or(action.amount, "0"@)
}

/// The amount that an action names, which must be more than zero.
pub open spec fn wanted_amount(action: ActionModel) -> Result<u128, RefusalModel> {
    match amount(amount_text(action)) {
        Some(n) => if n > 0 {
            Ok(n)
        } else {
            Err(RefusalModel::InvalidAmount { raw: amount_text(action) })
        },
        None => Err(RefusalModel::InvalidAmount { raw: amount_text(action) }),
    }
}

/// The asset that an action asks for, or what is wrong with it: first the token, then the token id,
/// then the amount, as far as the kind of asset has them.
pub open spec fn wanted_asset(action: ActionModel) -> Result<AssetModel, RefusalModel> {
    let kind = text_or(action.asset_type, ""@);
    if kind == "ether"@ {
        match wanted_amount(action) {
            Ok(amount) => Ok(AssetModel::Ether { amount }),
            Err(refusal) => Err(refusal),
        }
    } else if kind == "erc20"@ {
        match (filled(action.token), wanted_amount(action)) {
            (None, _) => Err(RefusalModel::MissingToken),
            (Some(token), Ok(amount)) => Ok(AssetModel::Erc20 { token: lowercased(token), amount }),
            (Some(_), Err(refusal)) => Err(refusal),
        }
    } else if kind == "erc721"@ {
        match (filled(action.token), filled(action.token_id)) {
            (None, _) => Err(RefusalModel::MissingToken),
            (Some(_), None) => Err(RefusalModel::MissingTokenId),
            (Some(token), Some(id)) => Ok(
                AssetModel::Erc721 { token: lowercased(token), token_id: normalised(id) },
            ),
        }
    } else if kind == "erc1155"@ {
        match (filled(action.token), filled(action.token_id), wanted_amount(action)) {
            (None, _, _) => Err(RefusalModel::MissingToken),
            (Some(_), None, _) => Err(RefusalModel::MissingTokenId),
            (Some(_), Some(_), Err(refusal)) => Err(refusal),
            (Some(token), Some(id), Ok(amount)) => Ok(
                AssetModel::Erc1155 { token: lowercased(token), token_id: normalised(id), amount },
            ),
        }
    } else {
        Err(RefusalModel::UnknownAssetType { asset_type: kind })
    }
}

fn read_amount(action: &Action) -> (r: Result<u128, Refusal>)
    ensures
        (match r {
            Ok(amount) => wanted_amount(action.deep_view()) == Ok::<u128, RefusalModel>(amount),
            Err(refusal) => wanted_amount(action.deep_view()) == Err::<u128, RefusalModel>(
                refusal.deep_view(),
            ),
        }),
{
    let text = text_else(&action.amount, "0");
    match parse_amount(text) {
        Some(amount) => if amount > 0 {
            Ok(amount)
        } else {
            Err(Refusal::InvalidAmount { raw: text.to_owned() })
        },
        None => Err(Refusal::InvalidAmount { raw: text.to_owned() }),
    }
}

fn read_filled(text: &Option<String>) -> (r: Option<&str>)
    ensures
        r.deep_view() == filled(text.deep_view()),
{
    match text {
        Some(text) => if text.as_str().is_empty() {
            None
        } else {
            Some(text.as_str())
        },
        None => None,
    }
}

/// Reads the asset that an action asks for.
pub fn read_asset(action: &Action) -> (r: Result<Asset, Refusal>)
    ensures
        (match r {
            Ok(asset) => wanted_asset(action.deep_view()) == Ok::<AssetModel, RefusalModel>(
                asset.deep_view(),
            ),
            Err(refusal) => wanted_asset(action.deep_view()) == Err::<AssetModel, RefusalModel>(
                refusal.deep_view(),
            ),
        }),
{
    let kind = text_else(&action.asset_type, "");
    if *kind == *"ether" {
        match read_amount(action) {
            Ok(amount) => Ok(Asset::Ether { amount }),
            Err(refusal) => Err(refusal),
        }
    } else if *kind == *"erc20" {
        let token = match read_filled(&action.token) {
            Some(token) => lowercase(token),
            None => {
                return Err(Refusal::MissingToken);
            },
        };
        match read_amount(action) {
            Ok(amount) => Ok(Asset::Erc20 { token, amount }),
            Err(refusal) => Err(refusal),
        }
    } else if *kind == *"erc721" {
        let token = match read_filled(&action.token) {
            Some(token) => lowercase(token),
            None => {
                return Err(Refusal::MissingToken);
            },
        };
        match read_filled(&action.token_id) {
            Some(id) => Ok(Asset::Erc721 { token, token_id: normalise_uint256(id) }),
            None => Err(Refusal::MissingTokenId),
        }
    } else if *kind == *"erc1155" {
        let token = match read_filled(&action.token) {
            Some(token) => lowercase(token),
            None => {
                return Err(Refusal::MissingToken);
            },
        };
        let token_id = match read_filled(&action.token_id) {
            Some(id) => normalise_uint256(id),
            None => {
                return Err(Refusal::MissingTokenId);
            },
        };
        match read_amount(action) {
            Ok(amount) => Ok(Asset::Erc1155 { token, token_id, amount }),
            Err(refusal) => Err(refusal),
        }
    } else {
        Err(Refusal::UnknownAssetType { asset_type: kind.to_owned() })
    }
}

/// What stands against a student's taking an asset out: that too little is left, or that the call
/// for it would have to name the application's own contract, which is not known.
pub open spec fn objection(
    student: StudentModel,
    own_address: Seq<char>,
    wallet: Seq<char>,
    asset: AssetModel,
) -> Option<RefusalModel> {
    match asset {
        AssetModel::Ether { amount } => if student.ether_left() < amount {
            Some(
                RefusalModel::InsufficientEther {
                    wallet,
                    available: student.ether_left(),
                    requested: amount as nat,
                },
            )
        } else {
            None
        },
        AssetModel::Erc20 { token, amount } => if student.erc20_left(token) < amount {
            Some(
                RefusalModel::InsufficientErc20 {
                    wallet,
                    token,
                    available: student.erc20_left(token),
                    requested: amount as nat,
                },
            )
        } else {
            None
        },
        AssetModel::Erc721 { token, token_id } => if !student.held_ids(token).contains(token_id) {
            Some(RefusalModel::NotHeld { wallet, token, token_id })
        } else if own_address.len() == 0 {
            Some(RefusalModel::AppContractUnknown)
        } else {
            None
        },
        AssetModel::Erc1155 { token, token_id, amount } => if student.erc1155_left(token, token_id)
            < amount {
            Some(
                RefusalModel::InsufficientErc1155 {
                    wallet,
                    token,
                    token_id,
                    available: student.erc1155_left(token, token_id),
                    requested: amount as nat,
                },
            )
        } else if own_address.len() == 0 {
            Some(RefusalModel::AppContractUnknown)
        } else {
            None
        },
    }
}

/// Whether a `u128` can hold the sums of a student's entries of an asset.
pub open spec fn sums_fit(student: StudentModel, asset: AssetModel) -> bool {
    match asset {
        AssetModel::Ether { .. } => student.ether_fits(),
        AssetModel::Erc20 { token, .. } => student.erc20_fits(token),
        AssetModel::Erc721 { .. } => true,
        AssetModel::Erc1155 { token, token_id, .. } => student.erc1155_fits(token, token_id),
    }
}

/// Tells whether the sums of a student's entries of an asset can be held.
pub fn do_sums_fit(student: &Student, asset: &Asset) -> (r: bool)
    ensures
        r == sums_fit(student.deep_view(), asset.deep_view()),
{
    match asset {
        Asset::Ether { .. } => student.deposits.ether_total().is_some()
            && student.withdrawals.ether_total().is_some(),
        Asset::Erc20 { token, .. } => student.deposits.erc20_total(token.as_str()).is_some()
            && student.withdrawals.erc20_total(token.as_str()).is_some(),
        Asset::Erc721 { .. } => true,
        Asset::Erc1155 { token, token_id, .. } => student.deposits.erc1155_total(
            token.as_str(),
            token_id.as_str(),
        ).is_some() && student.withdrawals.erc1155_total(
            token.as_str(),
            token_id.as_str(),
        ).is_some(),
    }
}

/// Looks for what stands against a student's taking an asset out.
pub fn find_objection(student: &Student, own_address: &str, wallet: &str, asset: &Asset) -> (r:
    Option<Refusal>)
    requires
        sums_fit(student.deep_view(), asset.deep_view()),
    ensures
        r.deep_view() == objection(
            student.deep_view(),
            own_address@,
            wallet@,
            asset.deep_view(),
        ),
{
    match asset {
        Asset::Ether { amount } => {
            let available = student.ether_available();
            if available < *amount {
                return Some(
                    Refusal::InsufficientEther {
                        wallet: wallet.to_owned(),
                        available,
                        requested: *amount,
                    },
                );
            }
        },
        Asset::Erc20 { token, amount } => {
            let available = student.erc20_available(token.as_str());
            if available < *amount {
                return Some(
                    Refusal::InsufficientErc20 {
                        wallet: wallet.to_owned(),
                        token: token.clone(),
                        available,
                        requested: *amount,
                    },
                );
            }
        },
        Asset::Erc721 { token, token_id } => {
            if !contains_text(&student.erc721_held_ids(token.as_str()), token_id.as_str()) {
                return Some(
                    Refusal::NotHeld {
                        wallet: wallet.to_owned(),
                        token: token.clone(),
                        token_id: token_id.clone(),
                    },
                );
            }
            if own_address.is_empty() {
                return Some(Refusal::AppContractUnknown);
            }
        },
        Asset::Erc1155 { token, token_id, amount } => {
            let available = student.erc1155_available(token.as_str(), token_id.as_str());
            if available < *amount {
                return Some(
                    Refusal::InsufficientErc1155 {
                        wallet: wallet.to_owned(),
                        token: token.clone(),
                        token_id: token_id.clone(),
                        available,
                        requested: *amount,
                    },
                );
            }
            if own_address.is_empty() {
                return Some(Refusal::AppContractUnknown);
            }
        },
    }
    None
}

// ---- Actions ----

/// What is decided on a registration: it needs a name and a number, and a wallet that is not yet known.
pub open spec fn registration(
    state: StateModel,
    sender: Seq<char>,
    action: ActionModel,
) -> DecisionModel {
    match (filled(action.name), filled(action.reg_number)) {
        (None, _) => DecisionModel::Refuse(RefusalModel::MissingName),
        (Some(_), None) => DecisionModel::Refuse(RefusalModel::MissingRegNumber),
        (Some(name), Some(reg_number)) => if state.student(sender) is Some {
            DecisionModel::Refuse(RefusalModel::AlreadyRegistered { wallet: sender })
        } else {
            DecisionModel::Register { name, reg_number }
        },
    }
}

/// What is decided on a withdrawal: it needs a known wallet, an asset, and enough of it.
pub open spec fn withdrawal(
    state: StateModel,
    sender: Seq<char>,
    action: ActionModel,
) -> DecisionModel {
    match (state.student(sender), wanted_asset(action)) {
        (None, _) => DecisionModel::Refuse(RefusalModel::NotRegistered { wallet: sender }),
        (Some(_), Err(refusal)) => DecisionModel::Refuse(refusal),
        (Some(student), Ok(asset)) => match objection(student, state.own_address(), sender, asset) {
            Some(refusal) => DecisionModel::Refuse(refusal),
            None => DecisionModel::Withdraw(asset),
        },
    }
}

/// What is decided on an action that a wallet asks for.
pub open spec fn action_decision(
    state: StateModel,
    sender: Seq<char>,
    action: ActionModel,
) -> DecisionModel {
    let kind = text_or(action.action, ""@);
    if kind == "register"@ {
        registration(state, sender, action)
    } else if kind == "withdraw"@ {
        withdrawal(state, sender, action)
    } else if kind == "ping"@ {
        DecisionModel::Ping
    } else if kind == "dapp_address"@ || kind == "dapp-address"@ {
        DecisionModel::Relay { address: text_or(action.address, sender) }
    } else {
        DecisionModel::Refuse(RefusalModel::UnknownAction { action: kind })
    }
}

/// Whether the sums that an action is measured against can be held.
pub open spec fn measurable(state: StateModel, sender: Seq<char>, action: ActionModel) -> bool {
    text_or(action.action, ""@) == "withdraw"@ ==> match (state.student(sender), wanted_asset(action)) {
        (Some(student), Ok(asset)) => sums_fit(student, asset),
        _ => true,
    }
}

/// Tells whether the sums that an action is measured against can be held.
pub fn is_measurable(state: &AppState, sender: &str, action: &Action) -> (r: bool)
    ensures
        r == measurable(state.deep_view(), sender@, action.deep_view()),
{
    if *text_else(&action.action, "") == *"withdraw" {
        match (state.find(sender), read_asset(action)) {
            (Some(place), Ok(asset)) => do_sums_fit(&state.students[place], &asset),
            _ => true,
        }
    } else {
        true
    }
}

fn decide_registration(state: &AppState, sender: &str, action: &Action) -> (r: Decision)
    ensures
        r.deep_view() == registration(state.deep_view(), sender@, action.deep_view()),
{
    let name = match read_filled(&action.name) {
        Some(name) => name.to_owned(),
        None => {
            return Decision::Refuse(Refusal::MissingName);
        },
    };
    let reg_number = match read_filled(&action.reg_number) {
        Some(reg_number) => reg_number.to_owned(),
        None => {
            return Decision::Refuse(Refusal::MissingRegNumber);
        },
    };
    match state.find(sender) {
        Some(_) => Decision::Refuse(Refusal::AlreadyRegistered { wallet: sender.to_owned() }),
        None => Decision::Register { name, reg_number },
    }
}

fn decide_withdrawal(state: &AppState, sender: &str, action: &Action) -> (r: Decision)
    requires
        text_or(action.deep_view().action, ""@) == "withdraw"@,
        measurable(state.deep_view(), sender@, action.deep_view()),
    ensures
        r.deep_view() == withdrawal(state.deep_view(), sender@, action.deep_view()),
{
    let place = match state.find(sender) {
        Some(place) => place,
        None => {
            return Decision::Refuse(Refusal::NotRegistered { wallet: sender.to_owned() });
        },
    };
    let asset = match read_asset(action) {
        Ok(asset) => asset,
        Err(refusal) => {
            return Decision::Refuse(refusal);
        },
    };
    let own_address = text_else(&state.app_contract, "");
    proof {
        reveal_strlit("");
        assert(""@ =~= Seq::empty());
    }
    match find_objection(&state.students[place], own_address, sender, &asset) {
        Some(refusal) => Decision::Refuse(refusal),
        None => Decision::Withdraw(asset),
    }
}

/// Decides on an action that a wallet asks for.
pub fn decide_action(state: &AppState, sender: &str, action: &Action) -> (r: Decision)
    requires
        measurable(state.deep_view(), sender@, action.deep_view()),
    ensures
        r.deep_view() == action_decision(state.deep_view(), sender@, action.deep_view()),
{
    let kind = text_else(&action.action, "");
    if *kind == *"register" {
        decide_registration(state, sender, action)
    } else if *kind == *"withdraw" {
        decide_withdrawal(state, sender, action)
    } else if *kind == *"ping" {
        Decision::Ping
    } else if *kind == *"dapp_address" || *kind == *"dapp-address" {
        Decision::Relay { address: text_else(&action.address, sender).to_owned() }
    } else {
        Decision::Refuse(Refusal::UnknownAction { action: kind.to_owned() })
    }
}

// ---- Inputs ----

/// The text in the payload of a wallet, or what is wrong with it.
pub open spec fn payload_text(payload: Seq<char>) -> Result<Seq<char>, RefusalModel> {
    match spelt_bytes(unmarked(payload)) {
        None => Err(RefusalModel::InvalidHex),
        Some(bytes) => if valid_utf8(bytes) {
            Ok(decode_utf8(bytes))
        } else {
            Err(RefusalModel::NotUtf8)
        },
    }
}

/// What is decided on an input of a wallet.
pub open spec fn wallet_decision(state: StateModel, input: InputModel) -> DecisionModel {
    match payload_text(input.payload) {
        Err(refusal) => DecisionModel::Refuse(refusal),
        Ok(text) => match parsed(text) {
            Err(_) => DecisionModel::Refuse(RefusalModel::NotJson { raw: excerpt(text) }),
            Ok(document) => action_decision(state, input.msg_sender, action_in(document)),
        },
    }
}

/// What is decided on an input.
pub open spec fn decision(state: StateModel, input: InputModel) -> DecisionModel {
    match portal_of(state, input.msg_sender) {
        Some(portal) => deposit_decision(portal, input.payload),
        None => wallet_decision(state, input),
    }
}

/// Whether an input can be decided on: its texts can be taken apart, and the sums that it is measured
/// against can be held.
pub open spec fn decidable(state: StateModel, input: InputModel) -> bool {
    &&& cuttable(input.payload)
    &&& portal_of(state, input.msg_sender) is None ==> match payload_text(input.payload) {
        Err(_) => true,
        Ok(text) => readable(text) && match parsed(text) {
            Err(_) => true,
            Ok(document) => measurable(state, input.msg_sender, action_in(document)),
        },
    }
}

fn read_portal(state: &AppState, sender: &str) -> (r: Option<Portal>)
    ensures
        r == portal_of(state.deep_view(), sender@),
{
    if *sender == *state.ether_portal.as_str() {
        Some(Portal::Ether)
    } else if *sender == *state.erc20_portal.as_str() {
        Some(Portal::Erc20)
    } else if *sender == *state.erc721_portal.as_str() {
        Some(Portal::Erc721)
    } else if *sender == *state.erc1155_portal.as_str() {
        Some(Portal::Erc1155)
    } else {
        None
    }
}

/// Reads the text in the payload of a wallet.
pub fn read_payload_text(payload: &str) -> (r: Result<String, Refusal>)
    requires
        cuttable(payload@),
    ensures
        (match r {
            Ok(text) => payload_text(payload@) == Ok::<Seq<char>, RefusalModel>(text@),
            Err(refusal) => payload_text(payload@) == Err::<Seq<char>, RefusalModel>(
                refusal.deep_view(),
            ),
        }),
{
    match hex_to_bytes(payload) {
        None => Err(Refusal::InvalidHex),
        Some(bytes) => {
            assert(bytes.deep_view() =~= bytes@);
            match decode(bytes.as_slice()) {
                Some(text) => Ok(text.to_owned()),
                None => Err(Refusal::NotUtf8),
            }
        },
    }
}

/// Tells whether an input can be decided on.
pub fn is_decidable(state: &AppState, input: &Input) -> (r: bool)
    ensures
        r == decidable(state.deep_view(), input.deep_view()),
{
    if !is_cuttable(input.payload.as_str()) {
        return false;
    }
    if read_portal(state, input.msg_sender.as_str()).is_some() {
        return true;
    }
    match read_payload_text(input.payload.as_str()) {
        Err(_) => true,
        Ok(text) => if !is_readable(text.as_str()) {
            false
        } else {
            match document::parse(text.as_str()) {
                Err(_) => true,
                Ok(value) => is_measurable(state, input.msg_sender.as_str(), &read_action(&value)),
            }
        },
    }
}

/// Decides on an input.
pub fn decide(state: &AppState, input: &Input) -> (r: Decision)
    requires
        decidable(state.deep_view(), input.deep_view()),
    ensures
        r.deep_view() == decision(state.deep_view(), input.deep_view()),
{
    match read_portal(state, input.msg_sender.as_str()) {
        Some(portal) => decide_deposit(portal, input.payload.as_str()),
        None => match read_payload_text(input.payload.as_str()) {
            Err(refusal) => Decision::Refuse(refusal),
            Ok(text) => match document::parse(text.as_str()) {
                Err(_) => Decision::Refuse(Refusal::NotJson { raw: excerpt_of(text.as_str()) }),
                Ok(value) => decide_action(state, input.msg_sender.as_str(), &read_action(&value)),
            },
        },
    }
}

} // verus!
