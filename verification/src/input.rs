//! What the rollup hands over: requests, the inputs in them, and the actions that inputs ask for.

use vstd::prelude::*;
use crate::document;
use crate::document::{content, Fault, Json};
use crate::text::{lowercase, lowercased};

verus! {

/// Why a request is not answered.
#[derive(Debug)]
pub enum RequestError {
    /// The request is no text.
    NotUtf8,
    /// The request is no JSON document.
    NotJson(Fault),
    /// The request does not say what it asks for.
    MissingRequestType,
    /// The request carries no payload.
    MissingPayload,
    /// A text cannot be taken apart, or a number grows too large to be held.
    OutOfRange,
}

/// An input, as a request to advance the state carries it.
#[derive(Debug)]
pub struct Input {
    /// The payload in hexadecimal digits.
    pub payload: String,
    /// The wallet or portal that sent the input, in small letters.
    pub msg_sender: String,
    pub input_index: u64,
    /// The application's own contract in small letters, or nothing.
    pub app_contract: String,
}

/// An input, with its texts as sequences of characters.
pub struct InputModel {
    pub payload: Seq<char>,
    pub msg_sender: Seq<char>,
    pub input_index: u64,
    pub app_contract: Seq<char>,
}

impl DeepView for Input {
    type V = InputModel;

    open spec fn deep_view(&self) -> InputModel {
        InputModel {
            payload: self.payload@,
            msg_sender: self.msg_sender@,
            input_index: self.input_index,
            app_contract: self.app_contract@,
        }
    }
}

/// A text, or another where there is none.
pub open spec fn text_or(text: Option<Seq<char>>, other: Seq<char>) -> Seq<char> {
    match text {
        Some(text) => text,
        None => other,
    }
}

/// The payload of a request.
pub open spec fn payload_in(request: Json) -> Option<Seq<char>> {
    request.member("data"@).member("payload"@).text()
}

/// The input in a request to advance the state, where it carries a payload. What else is missing is
/// taken as an empty text, or as zero.
pub open spec fn input_in(request: Json) -> Option<InputModel> {
    let metadata = request.member("data"@).member("metadata"@);
    match payload_in(request) {
        Some(payload) => Some(
            InputModel {
                payload,
                msg_sender: lowercased(text_or(metadata.member("msg_sender"@).text(), ""@)),
                input_index: match metadata.member("input_index"@).whole() {
                    Some(index) => index,
                    None => 0,
                },
                app_contract: lowercased(text_or(metadata.member("app_contract"@).text(), ""@)),
            },
        ),
        None => None,
    }
}

/// Reads the payload of a request.
pub fn read_payload(request: &json::JsonValue) -> (r: Option<String>)
    ensures
        r.deep_view() == payload_in(content(*request)),
{
    let data = document::member(request, "data");
    match document::text_of(document::member(data, "payload")) {
        Some(payload) => Some(payload.to_owned()),
        None => None,
    }
}

/// Reads the input in a request to advance the state.
pub fn read_input(request: &json::JsonValue) -> (r: Option<Input>)
    ensures
        r.deep_view() == input_in(content(*request)),
{
    let metadata = document::member(document::member(request, "data"), "metadata");
    match read_payload(request) {
        Some(payload) => Some(
            Input {
                payload,
                msg_sender: lowercase(
                    document::text_of(document::member(metadata, "msg_sender")).unwrap_or(""),
                ),
                input_index: document::whole_of(document::member(metadata, "input_index")).unwrap_or(
                    0,
                ),
                app_contract: lowercase(
                    document::text_of(document::member(metadata, "app_contract")).unwrap_or(""),
                ),
            },
        ),
        None => None,
    }
}

/// The texts in an action that a wallet asks for; nothing where a text is missing.
#[derive(Debug)]
pub struct Action {
    pub action: Option<String>,
    pub name: Option<String>,
    pub reg_number: Option<String>,
    pub asset_type: Option<String>,
    pub amount: Option<String>,
    pub token: Option<String>,
    pub token_id: Option<String>,
    pub address: Option<String>,
}

/// The texts in an action, as sequences of characters.
pub struct ActionModel {
    pub action: Option<Seq<char>>,
    pub name: Option<Seq<char>>,
    pub reg_number: Option<Seq<char>>,
    pub asset_type: Option<Seq<char>>,
    pub amount: Option<Seq<char>>,
    pub token: Option<Seq<char>>,
    pub token_id: Option<Seq<char>>,
    pub address: Option<Seq<char>>,
}

impl DeepView for Action {
    type V = ActionModel;

    open spec fn deep_view(&self) -> ActionModel {
        ActionModel {
            action: self.action.deep_view(),
            name: self.name.deep_view(),
            reg_number: self.reg_number.deep_view(),
            asset_type: self.asset_type.deep_view(),
            amount: self.amount.deep_view(),
            token: self.token.deep_view(),
            token_id: self.token_id.deep_view(),
            address: self.address.deep_view(),
        }
    }
}

/// The texts in the document of an action.
pub open spec fn action_in(document: Json) -> ActionModel {
    ActionModel {
        action: document.member("action"@).text(),
        name: document.member("name"@).text(),
        reg_number: document.member("reg_number"@).text(),
        asset_type: document.member("asset_type"@).text(),
        amount: document.member("amount"@).text(),
        token: document.member("token"@).text(),
        token_id: document.member("token_id"@).text(),
        address: document.member("address"@).text(),
    }
}

fn read_text(value: &json::JsonValue, key: &str) -> (r: Option<String>)
    ensures
        r.deep_view() == content(*value).member(key@).text(),
{
    match document::text_of(document::member(value, key)) {
        Some(text) => Some(text.to_owned()),
        None => None,
    }
}

/// Reads the texts in the document of an action.
pub fn read_action(value: &json::JsonValue) -> (r: Action)
    ensures
        r.deep_view() == action_in(content(*value)),
{
    Action {
        action: read_text(value, "action"),
        name: read_text(value, "name"),
        reg_number: read_text(value, "reg_number"),
        asset_type: read_text(value, "asset_type"),
        amount: read_text(value, "amount"),
        token: read_text(value, "token"),
        token_id: read_text(value, "token_id"),
        address: read_text(value, "address"),
    }
}

/// A text that may be missing, or another.
pub(crate) fn text_else<'a>(text: &'a Option<String>, other: &'a str) -> (r: &'a str)
    ensures
        r@ == text_or(text.deep_view(), other@),
{
    match text {
        Some(text) => text.as_str(),
        None => other,
    }
}

} // verus!
