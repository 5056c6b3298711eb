//! Requests of the rollup, as they come.

use vstd::prelude::*;
use vstd::utf8::{decode_utf8, valid_utf8};
use crate::advance::{advanceable, advanced, answers, handle_advance, is_advanceable, verdict, Outcome};
use crate::document;
use crate::document::{content, is_readable, parsed, readable, FaultModel, Json};
use crate::input::{input_in, payload_in, read_input, read_payload, RequestError};
use crate::inspect::{handle_inspect, inspectable, is_inspectable, looked_at};
use crate::message::EmissionModel;
use crate::state::{AppState, StateModel};
use crate::text::decode;

verus! {

/// What a request asks for.
pub open spec fn request_type(request: Json) -> Option<Seq<char>> {
    request.member("request_type"@).text()
}

/// How a request is answered, or why it is not, with texts as sequences of characters.
pub enum ReplyModel {
    Answer { emissions: Seq<EmissionModel>, accepted: bool },
    NotUtf8,
    NotJson(FaultModel),
    MissingRequestType,
    MissingPayload,
    OutOfRange,
}

/// What comes of a request: the state that follows, and the reply.
pub struct ReactionModel {
    pub state: StateModel,
    pub reply: ReplyModel,
}

/// What comes of a request to advance the state.
pub open spec fn advance_reaction(state: StateModel, request: Json) -> ReactionModel {
    match input_in(request) {
        None => ReactionModel { state, reply: ReplyModel::MissingPayload },
        Some(input) => if advanceable(state, input) {
            ReactionModel {
                state: advanced(state, input),
                reply: ReplyModel::Answer {
                    emissions: answers(state, input),
                    accepted: !(verdict(state, input) is Refuse),
                },
            }
        } else {
            ReactionModel { state, reply: ReplyModel::OutOfRange }
        },
    }
}

/// What comes of a request to look at the state, which stays as it is.
pub open spec fn inspect_reaction(state: StateModel, request: Json) -> ReactionModel {
    match payload_in(request) {
        None => ReactionModel { state, reply: ReplyModel::MissingPayload },
        Some(payload) => if inspectable(state, payload) {
            ReactionModel {
                state,
                reply: ReplyModel::Answer { emissions: looked_at(state, payload), accepted: true },
            }
        } else {
            ReactionModel { state, reply: ReplyModel::OutOfRange }
        },
    }
}

/// What comes of a request that is a document. Where it asks for anything else than to advance the
/// state or to look at it, it is not accepted, and nothing is sent.
pub open spec fn document_reaction(state: StateModel, request: Json) -> ReactionModel {
    match request_type(request) {
        None => ReactionModel { state, reply: ReplyModel::MissingRequestType },
        Some(kind) => if kind == "advance_state"@ {
            advance_reaction(state, request)
        } else if kind == "inspect_state"@ {
            inspect_reaction(state, request)
        } else {
            ReactionModel {
                state,
                reply: ReplyModel::Answer { emissions: Seq::empty(), accepted: false },
            }
        },
    }
}

/// What comes of the text of a request.
pub open spec fn text_reaction(state: StateModel, text: Seq<char>) -> ReactionModel {
    if !readable(text) {
        ReactionModel { state, reply: ReplyModel::OutOfRange }
    } else {
        match parsed(text) {
            Err(fault) => ReactionModel { state, reply: ReplyModel::NotJson(fault) },
            Ok(request) => document_reaction(state, request),
        }
    }
}

/// What comes of the bytes of a request.
pub open spec fn reaction(state: StateModel, body: Seq<u8>) -> ReactionModel {
    if valid_utf8(body) {
        text_reaction(state, decode_utf8(body))
    } else {
        ReactionModel { state, reply: ReplyModel::NotUtf8 }
    }
}

/// The reply that a result stands for.
pub open spec fn reply_of(r: Result<Outcome, RequestError>) -> ReplyModel {
    match r {
        Ok(outcome) => ReplyModel::Answer {
            emissions: outcome.emissions.deep_view(),
            accepted: outcome.accepted,
        },
        Err(RequestError::NotUtf8) => ReplyModel::NotUtf8,
        Err(RequestError::NotJson(fault)) => ReplyModel::NotJson(fault.deep_view()),
        Err(RequestError::MissingRequestType) => ReplyModel::MissingRequestType,
        Err(RequestError::MissingPayload) => ReplyModel::MissingPayload,
        Err(RequestError::OutOfRange) => ReplyModel::OutOfRange,
    }
}

fn react_to_advance(state: &mut AppState, request: &json::JsonValue) -> (r: Result<
    Outcome,
    RequestError,
>)
    ensures
        final(state).deep_view() == advance_reaction(
            old(state).deep_view(),
            content(*request),
        ).state,
        reply_of(r) == advance_reaction(old(state).deep_view(), content(*request)).reply,
        old(state).deep_view().sound() ==> final(state).deep_view().sound(),
{
    if let Some(input) = read_input(request) {
        if !is_advanceable(state, &input) {
            return Err(RequestError::OutOfRange);
        }
    }
    handle_advance(state, request)
}

fn react_to_inspect(state: &AppState, request: &json::JsonValue) -> (r: Result<
    Outcome,
    RequestError,
>)
    ensures
        reply_of(r) == inspect_reaction(state.deep_view(), content(*request)).reply,
{
    if let Some(payload) = read_payload(request) {
        if !is_inspectable(state, payload.as_str()) {
            return Err(RequestError::OutOfRange);
        }
    }
    handle_inspect(state, request)
}

/// Answers a request that is a document.
pub fn handle_document(state: &mut AppState, request: &json::JsonValue) -> (r: Result<
    Outcome,
    RequestError,
>)
    ensures
        final(state).deep_view() == document_reaction(
            old(state).deep_view(),
            content(*request),
        ).state,
        reply_of(r) == document_reaction(old(state).deep_view(), content(*request)).reply,
        old(state).deep_view().sound() ==> final(state).deep_view().sound(),
{
    match document::text_of(document::member(request, "request_type")) {
        None => Err(RequestError::MissingRequestType),
        Some(kind) => if *kind == *"advance_state" {
            react_to_advance(state, request)
        } else if *kind == *"inspect_state" {
            react_to_inspect(state, request)
        } else {
            let outcome = Outcome { emissions: Vec::new(), accepted: false };
            assert(outcome.emissions.deep_view() =~= Seq::empty());
            Ok(outcome)
        },
    }
}

/// Answers the text of a request.
pub fn handle_text(state: &mut AppState, text: &str) -> (r: Result<Outcome, RequestError>)
    ensures
        final(state).deep_view() == text_reaction(old(state).deep_view(), text@).state,
        reply_of(r) == text_reaction(old(state).deep_view(), text@).reply,
        old(state).deep_view().sound() ==> final(state).deep_view().sound(),
{
    if !is_readable(text) {
        return Err(RequestError::OutOfRange);
    }
    match document::parse(text) {
        Err(fault) => Err(RequestError::NotJson(fault)),
        Ok(request) => handle_document(state, &request),
    }
}

/// Answers the bytes of a request, whatever they hold.
pub fn handle_request(state: &mut AppState, body: &[u8]) -> (r: Result<Outcome, RequestError>)
    ensures
        final(state).deep_view() == reaction(old(state).deep_view(), body@).state,
        reply_of(r) == reaction(old(state).deep_view(), body@).reply,
        old(state).deep_view().sound() ==> final(state).deep_view().sound(),
{
    match decode(body) {
        Some(text) => handle_text(state, text),
        None => Err(RequestError::NotUtf8),
    }
}

/// The HTTP status with which the rollup says that no input waits.
pub const NO_INPUT: u16 = 202;

/// Tells from the HTTP status whether the rollup hands a request over.
pub fn has_request(http_status: u16) -> (r: bool)
    ensures
        r == (http_status != NO_INPUT),
{
    http_status != NO_INPUT
}

} // verus!
