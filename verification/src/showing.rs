//! What is shown of the state, on which route.

use vstd::prelude::*;
use vstd::utf8::{encode_utf8, encode_utf8_decode_utf8, encode_utf8_valid_utf8, valid_utf8};
use crate::document::{dumped, empty_object, member_put_and_found, number, Json};
use crate::hex::{spelt_bytes, unmarked};
use crate::inspect::{is_registered, looked_at, not_found, report_on, route_in, tally};
use crate::laws::route_is_told;
use crate::ledger::{erc1155_sum, erc20_sum, ether_sum, LedgerModel};
use crate::message::EmissionModel;
use crate::state::StateModel;
use crate::statement::{
    erc1155_kinds, erc1155_kinds_are_listed_once, erc20_tokens, erc20_tokens_are_listed_once,
    erc721_tokens, erc721_tokens_are_listed_once, ids_of, texts,
};
use crate::student::StudentModel;
use crate::telling::{field, joined, object_text, quoted};
use crate::text::{after, bare, decimal, lowercased, trimmed};
use crate::verdicts::rest;

verus! {

// ---- One student ----

/// What is shown of one token: its address, what came in, what went out, and what is left.
pub open spec fn token_entry(student: StudentModel, token: Seq<char>) -> Json {
    let came = erc20_sum(student.deposits.erc20, token);
    let went = erc20_sum(student.withdrawals.erc20, token);
    empty_object().with("token_address"@, Json::Text(token)).with(
        "total_deposited"@,
        Json::Text(decimal(came)),
    ).with("total_withdrawn"@, Json::Text(decimal(went))).with(
        "available"@,
        Json::Text(decimal(rest(came, went))),
    )
}

/// What is shown of one kind of item: its address and id, what came in, what went out, what is left.
pub open spec fn kind_entry(student: StudentModel, token: Seq<char>, token_id: Seq<char>) -> Json {
    let came = erc1155_sum(student.deposits.erc1155, token, token_id);
    let went = erc1155_sum(student.withdrawals.erc1155, token, token_id);
    empty_object().with("token_address"@, Json::Text(token)).with(
        "token_id"@,
        Json::Text(token_id),
    ).with("total_deposited"@, Json::Text(decimal(came))).with(
        "total_withdrawn"@,
        Json::Text(decimal(went)),
    ).with("available"@, Json::Text(decimal(rest(came, went))))
}

/// The ids of a collection among some entries, in their order.
pub open spec fn ids_among(entries: Seq<(Seq<char>, Seq<char>)>, token: Seq<char>) -> Seq<
    Seq<char>,
> {
    entries.filter(|entry: (Seq<char>, Seq<char>)| entry.0 == token).map_values(
        |entry: (Seq<char>, Seq<char>)| entry.1,
    )
}

/// What is shown of one collection: its address, the ids that came in, in order, and the ids that are
/// held, with their number.
pub open spec fn collection_entry(student: StudentModel, token: Seq<char>) -> Json {
    let held_ids = student.held_ids(token);
    let came = ids_among(student.deposits.erc721, token);
    empty_object().with("token_address"@, Json::Text(token)).with(
        "deposited_ids"@,
        Json::Array(Seq::new(came.len(), |i: int| Json::Text(came[i]))),
    ).with(
        "held_ids"@,
        Json::Array(Seq::new(held_ids.len(), |i: int| Json::Text(held_ids[i]))),
    ).with("held_count"@, number(held_ids.len() as u64))
}

proof fn token_entry_told(student: StudentModel, token: Seq<char>)
    ensures
        student.erc20_shown(token) == token_entry(student, token),
        token_entry(student, token).member("token_address"@) == Json::Text(token),
{
    reveal_strlit("token_address");
    reveal_strlit("total_deposited");
    reveal_strlit("total_withdrawn");
    reveal_strlit("available");
    assert("token_address"@.len() == 13 && "total_deposited"@.len() == 15);
    assert("total_withdrawn"@.len() == 15 && "available"@.len() == 9);
    let came = Json::Text(decimal(erc20_sum(student.deposits.erc20, token)));
    let went = Json::Text(decimal(erc20_sum(student.withdrawals.erc20, token)));
    let a = empty_object().with("token_address"@, Json::Text(token));
    let b = a.with("total_deposited"@, came);
    let c = b.with("total_withdrawn"@, went);
    let left = rest(
        erc20_sum(student.deposits.erc20, token),
        erc20_sum(student.withdrawals.erc20, token),
    );
    member_put_and_found(empty_object(), "token_address"@, Json::Text(token), "token_address"@);
    member_put_and_found(a, "total_deposited"@, came, "token_address"@);
    member_put_and_found(b, "total_withdrawn"@, went, "token_address"@);
    member_put_and_found(c, "available"@, Json::Text(decimal(left)), "token_address"@);
}

/// In what is shown of a student each token that came in has its own entry, with its own sums, and
/// there is no other entry.
pub proof fn every_token_is_shown(student: StudentModel)
    ensures
        student.shown().member("erc20_balances"@) matches Json::Array(shown) && {
            &&& forall|i: int|
                0 <= i < student.deposits.erc20.len() ==> shown.contains(
                    token_entry(student, (#[trigger] student.deposits.erc20[i]).0),
                )
            &&& forall|j: int|
                0 <= j < shown.len() ==> exists|i: int|
                    0 <= i < student.deposits.erc20.len() && #[trigger] shown[j] == token_entry(
                        student,
                        (#[trigger] student.deposits.erc20[i]).0,
                    )
            &&& forall|j: int, k: int|
                0 <= j < k < shown.len() ==> (#[trigger] shown[j]).member("token_address"@) != (
                #[trigger] shown[k]).member("token_address"@)
        },
{
    members_of_shown(student);
    let entries = student.deposits.erc20;
    let tokens = erc20_tokens(entries);
    let shown = student.erc20_all_shown();
    assert forall|i: int| 0 <= i < entries.len() implies shown.contains(
        token_entry(student, (#[trigger] entries[i]).0),
    ) by {
        let token = entries[i].0;
        erc20_tokens_are_listed_once(entries, token);
        let j = choose|j: int| 0 <= j < tokens.len() && tokens[j] == token;
        token_entry_told(student, token);
        assert(shown[j] == token_entry(student, token));
    }
    assert forall|j: int| 0 <= j < shown.len() implies exists|i: int|
        0 <= i < entries.len() && #[trigger] shown[j] == token_entry(
            student,
            (#[trigger] entries[i]).0,
        ) by {
        let token = tokens[j];
        erc20_tokens_are_listed_once(entries, token);
        assert(tokens.contains(token));
        token_entry_told(student, token);
        let i = choose|i: int| 0 <= i < entries.len() && (#[trigger] entries[i]).0 == token;
        assert(shown[j] == token_entry(student, entries[i].0));
    }
    assert forall|j: int, k: int| 0 <= j < k < shown.len() implies (#[trigger] shown[j]).member(
        "token_address"@,
    ) != (#[trigger] shown[k]).member("token_address"@) by {
        erc20_tokens_are_listed_once(entries, tokens[j]);
        token_entry_told(student, tokens[j]);
        token_entry_told(student, tokens[k]);
        assert(tokens[j] != tokens[k]);
    }
}

proof fn kind_entry_told(student: StudentModel, token: Seq<char>, token_id: Seq<char>)
    ensures
        student.erc1155_shown(token, token_id) == kind_entry(student, token, token_id),
        kind_entry(student, token, token_id).member("token_address"@) == Json::Text(token),
        kind_entry(student, token, token_id).member("token_id"@) == Json::Text(token_id),
{
    reveal_strlit("token_address");
    reveal_strlit("token_id");
    reveal_strlit("total_deposited");
    reveal_strlit("total_withdrawn");
    reveal_strlit("available");
    assert("token_address"@.len() == 13 && "total_deposited"@.len() == 15 && "token_id"@.len() == 8);
    assert("total_withdrawn"@.len() == 15 && "available"@.len() == 9);
    let sum_in = erc1155_sum(student.deposits.erc1155, token, token_id);
    let sum_out = erc1155_sum(student.withdrawals.erc1155, token, token_id);
    let came = Json::Text(decimal(sum_in));
    let went = Json::Text(decimal(sum_out));
    let left = Json::Text(decimal(rest(sum_in, sum_out)));
    let address = "token_address"@;
    let id = "token_id"@;
    let a = empty_object().with(address, Json::Text(token));
    let b = a.with(id, Json::Text(token_id));
    let c = b.with("total_deposited"@, came);
    let d = c.with("total_withdrawn"@, went);
    member_put_and_found(empty_object(), address, Json::Text(token), id);
    member_put_and_found(a, id, Json::Text(token_id), address);
    member_put_and_found(b, "total_deposited"@, came, address);
    member_put_and_found(b, "total_deposited"@, came, id);
    member_put_and_found(c, "total_withdrawn"@, went, address);
    member_put_and_found(c, "total_withdrawn"@, went, id);
    member_put_and_found(d, "available"@, left, address);
    member_put_and_found(d, "available"@, left, id);
}

/// In what is shown of a student each kind of item that came in has its own entry, with its own sums,
/// and there is no other entry.
pub proof fn every_kind_is_shown(student: StudentModel)
    ensures
        student.shown().member("erc1155_balances"@) matches Json::Array(shown) && {
            &&& forall|i: int|
                0 <= i < student.deposits.erc1155.len() ==> shown.contains(
                    kind_entry(
                        student,
                        (#[trigger] student.deposits.erc1155[i]).0,
                        student.deposits.erc1155[i].1,
                    ),
                )
            &&& forall|j: int|
                0 <= j < shown.len() ==> exists|i: int|
                    0 <= i < student.deposits.erc1155.len() && #[trigger] shown[j] == kind_entry(
                        student,
                        (#[trigger] student.deposits.erc1155[i]).0,
                        student.deposits.erc1155[i].1,
                    )
            &&& forall|j: int, k: int|
                0 <= j < k < shown.len() ==> (#[trigger] shown[j]).member("token_address"@) != (
                #[trigger] shown[k]).member("token_address"@) || shown[j].member("token_id"@)
                    != shown[k].member("token_id"@)
        },
{
    members_of_shown(student);
    let entries = student.deposits.erc1155;
    let kinds = erc1155_kinds(entries);
    let shown = student.erc1155_all_shown();
    assert forall|i: int| 0 <= i < entries.len() implies shown.contains(
        kind_entry(student, (#[trigger] entries[i]).0, entries[i].1),
    ) by {
        let kind = (entries[i].0, entries[i].1);
        erc1155_kinds_are_listed_once(entries, kind.0, kind.1);
        let j = choose|j: int| 0 <= j < kinds.len() && kinds[j] == kind;
        kind_entry_told(student, kind.0, kind.1);
        assert(shown[j] == kind_entry(student, kind.0, kind.1));
    }
    assert forall|j: int| 0 <= j < shown.len() implies exists|i: int|
        0 <= i < entries.len() && #[trigger] shown[j] == kind_entry(
            student,
            (#[trigger] entries[i]).0,
            entries[i].1,
        ) by {
        let kind = kinds[j];
        erc1155_kinds_are_listed_once(entries, kind.0, kind.1);
        assert(kinds.contains(kind));
        kind_entry_told(student, kind.0, kind.1);
        let i = choose|i: int|
            0 <= i < entries.len() && (#[trigger] entries[i]).0 == kind.0 && entries[i].1 == kind.1;
        assert(shown[j] == kind_entry(student, entries[i].0, entries[i].1));
    }
    assert forall|j: int, k: int| 0 <= j < k < shown.len() implies (#[trigger] shown[j]).member(
        "token_address"@,
    ) != (#[trigger] shown[k]).member("token_address"@) || shown[j].member("token_id"@)
        != shown[k].member("token_id"@) by {
        erc1155_kinds_are_listed_once(entries, kinds[j].0, kinds[j].1);
        kind_entry_told(student, kinds[j].0, kinds[j].1);
        kind_entry_told(student, kinds[k].0, kinds[k].1);
        assert(kinds[j] != kinds[k]);
    }
}

proof fn ids_filtered(entries: Seq<(Seq<char>, Seq<char>)>, token: Seq<char>)
    ensures
        ids_of(entries, token) == ids_among(entries, token),
    decreases entries.len(),
{
    reveal(Seq::filter);
    if entries.len() > 0 {
        ids_filtered(entries.drop_last(), token);
    }
    assert(ids_of(entries, token) =~= ids_among(entries, token));
}

proof fn collection_entry_told(student: StudentModel, token: Seq<char>)
    ensures
        student.erc721_shown(token) == collection_entry(student, token),
        collection_entry(student, token).member("token_address"@) == Json::Text(token),
{
    let held_ids = student.held_ids(token);
    let ids = ids_among(student.deposits.erc721, token);
    ids_filtered(student.deposits.erc721, token);
    let listed = texts(ids);
    let kept = texts(held_ids);
    assert(listed->Array_0 =~= Seq::new(ids.len(), |i: int| Json::Text(ids[i])));
    assert(kept->Array_0 =~= Seq::new(held_ids.len(), |i: int| Json::Text(held_ids[i])));
    reveal_strlit("token_address");
    reveal_strlit("deposited_ids");
    reveal_strlit("held_ids");
    reveal_strlit("held_count");
    assert("token_address"@[0] == 't' && "deposited_ids"@[0] == 'd');
    assert("held_ids"@[0] == 'h' && "held_count"@[0] == 'h');
    let address = "token_address"@;
    let a = empty_object().with(address, Json::Text(token));
    let b = a.with("deposited_ids"@, listed);
    let c = b.with("held_ids"@, kept);
    member_put_and_found(empty_object(), address, Json::Text(token), address);
    member_put_and_found(a, "deposited_ids"@, listed, address);
    member_put_and_found(b, "held_ids"@, kept, address);
    member_put_and_found(c, "held_count"@, number(held_ids.len() as u64), address);
}

/// In what is shown of a student each collection of which an item came in has its own entry, with the
/// ids that came in and those that are held, and there is no other entry.
pub proof fn every_collection_is_shown(student: StudentModel)
    ensures
        student.shown().member("erc721_holdings"@) matches Json::Array(shown) && {
            &&& forall|i: int|
                0 <= i < student.deposits.erc721.len() ==> shown.contains(
                    collection_entry(student, (#[trigger] student.deposits.erc721[i]).0),
                )
            &&& forall|j: int|
                0 <= j < shown.len() ==> exists|i: int|
                    0 <= i < student.deposits.erc721.len() && #[trigger] shown[j]
                        == collection_entry(student, (#[trigger] student.deposits.erc721[i]).0)
            &&& forall|j: int, k: int|
                0 <= j < k < shown.len() ==> (#[trigger] shown[j]).member("token_address"@) != (
                #[trigger] shown[k]).member("token_address"@)
        },
{
    members_of_shown(student);
    let entries = student.deposits.erc721;
    let tokens = erc721_tokens(entries);
    let shown = student.erc721_all_shown();
    assert forall|i: int| 0 <= i < entries.len() implies shown.contains(
        collection_entry(student, (#[trigger] entries[i]).0),
    ) by {
        let token = entries[i].0;
        erc721_tokens_are_listed_once(entries, token);
        let j = choose|j: int| 0 <= j < tokens.len() && tokens[j] == token;
        collection_entry_told(student, token);
        assert(shown[j] == collection_entry(student, token));
    }
    assert forall|j: int| 0 <= j < shown.len() implies exists|i: int|
        0 <= i < entries.len() && #[trigger] shown[j] == collection_entry(
            student,
            (#[trigger] entries[i]).0,
        ) by {
        let token = tokens[j];
        erc721_tokens_are_listed_once(entries, token);
        assert(tokens.contains(token));
        collection_entry_told(student, token);
        let i = choose|i: int| 0 <= i < entries.len() && (#[trigger] entries[i]).0 == token;
        assert(shown[j] == collection_entry(student, entries[i].0));
    }
    assert forall|j: int, k: int| 0 <= j < k < shown.len() implies (#[trigger] shown[j]).member(
        "token_address"@,
    ) != (#[trigger] shown[k]).member("token_address"@) by {
        erc721_tokens_are_listed_once(entries, tokens[j]);
        collection_entry_told(student, tokens[j]);
        collection_entry_told(student, tokens[k]);
        assert(tokens[j] != tokens[k]);
    }
}

/// What is shown of a student, once the entries of the assets are known.
pub open spec fn student_entry(
    student: StudentModel,
    tokens: Seq<Json>,
    collections: Seq<Json>,
    kinds: Seq<Json>,
) -> Json {
    let came = ether_sum(student.deposits.ether);
    let went = ether_sum(student.withdrawals.ether);
    empty_object().with("name"@, Json::Text(student.name)).with(
        "registration_number"@,
        Json::Text(student.registration_number),
    ).with("wallet_address"@, Json::Text(student.wallet_address)).with(
        "ether_balance"@,
        empty_object().with("total_deposited"@, Json::Text(decimal(came))).with(
            "total_withdrawn"@,
            Json::Text(decimal(went)),
        ).with("available_wei"@, Json::Text(decimal(rest(came, went)))),
    ).with("erc20_balances"@, Json::Array(tokens)).with(
        "erc721_holdings"@,
        Json::Array(collections),
    ).with("erc1155_balances"@, Json::Array(kinds))
}

proof fn members_of_shown(student: StudentModel)
    ensures
        student.shown().member("erc20_balances"@) == Json::Array(student.erc20_all_shown()),
        student.shown().member("erc721_holdings"@) == Json::Array(student.erc721_all_shown()),
        student.shown().member("erc1155_balances"@) == Json::Array(student.erc1155_all_shown()),
{
    reveal_strlit("erc20_balances");
    reveal_strlit("erc721_holdings");
    reveal_strlit("erc1155_balances");
    assert("erc20_balances"@.len() == 14 && "erc721_holdings"@.len() == 15);
    assert("erc1155_balances"@.len() == 16);
    let tokens = Json::Array(student.erc20_all_shown());
    let collections = Json::Array(student.erc721_all_shown());
    let kinds = Json::Array(student.erc1155_all_shown());
    let a = empty_object().with("name"@, Json::Text(student.name)).with(
        "registration_number"@,
        Json::Text(student.registration_number),
    ).with("wallet_address"@, Json::Text(student.wallet_address)).with(
        "ether_balance"@,
        student.ether_shown(),
    );
    let b = a.with("erc20_balances"@, tokens);
    let c = b.with("erc721_holdings"@, collections);
    member_put_and_found(a, "erc20_balances"@, tokens, Seq::empty());
    member_put_and_found(b, "erc721_holdings"@, collections, "erc20_balances"@);
    member_put_and_found(c, "erc1155_balances"@, kinds, "erc20_balances"@);
    member_put_and_found(c, "erc1155_balances"@, kinds, "erc721_holdings"@);
}

/// A student is shown with the own name, number and wallet, the own Ether, and the entries of the assets
/// that came in, and with nothing else.
pub proof fn student_is_shown(student: StudentModel)
    ensures
        student.shown() == student_entry(
            student,
            student.shown().member("erc20_balances"@)->Array_0,
            student.shown().member("erc721_holdings"@)->Array_0,
            student.shown().member("erc1155_balances"@)->Array_0,
        ),
{
    members_of_shown(student);
}

// ---- The history of a student ----

/// The entries of a ledger as events, each kind under its own name, in its own order.
pub open spec fn events_told(
    ledger: LedgerModel,
    ether: Seq<char>,
    erc20: Seq<char>,
    erc721: Seq<char>,
    erc1155: Seq<char>,
) -> Seq<Json> {
    let a = ledger.ether.map_values(
        |amount: u128|
            empty_object().with("type"@, Json::Text(ether)).with(
                "amount"@,
                Json::Text(decimal(amount as nat)),
            ),
    );
    let b = ledger.erc20.map_values(
        |entry: (Seq<char>, u128)|
            empty_object().with("type"@, Json::Text(erc20)).with(
                "token"@,
                Json::Text(entry.0),
            ).with("amount"@, Json::Text(decimal(entry.1 as nat))),
    );
    let c = ledger.erc721.map_values(
        |entry: (Seq<char>, Seq<char>)|
            empty_object().with("type"@, Json::Text(erc721)).with(
                "token"@,
                Json::Text(entry.0),
            ).with("token_id"@, Json::Text(entry.1)),
    );
    let d = ledger.erc1155.map_values(
        |entry: (Seq<char>, Seq<char>, u128)|
            empty_object().with("type"@, Json::Text(erc1155)).with(
                "token"@,
                Json::Text(entry.0),
            ).with("token_id"@, Json::Text(entry.1)).with(
                "amount"@,
                Json::Text(decimal(entry.2 as nat)),
            ),
    );
    a + b + c + d
}

/// The history of a student tells every entry once: first what came in, then what went out.
pub open spec fn history_told(student: StudentModel) -> Seq<Json> {
    events_told(
        student.deposits,
        "ether_deposit"@,
        "erc20_deposit"@,
        "erc721_deposit"@,
        "erc1155_deposit"@,
    ) + events_told(
        student.withdrawals,
        "ether_withdrawal"@,
        "erc20_withdrawal"@,
        "erc721_withdrawal"@,
        "erc1155_withdrawal"@,
    )
}

proof fn events_written(ledger: LedgerModel, suffix: Seq<char>)
    ensures
        ledger.events(suffix) == events_told(
            ledger,
            "ether"@ + suffix,
            "erc20"@ + suffix,
            "erc721"@ + suffix,
            "erc1155"@ + suffix,
        ),
{
    assert(ledger.events(suffix) =~= events_told(
        ledger,
        "ether"@ + suffix,
        "erc20"@ + suffix,
        "erc721"@ + suffix,
        "erc1155"@ + suffix,
    ));
}

proof fn history_written(student: StudentModel)
    ensures
        student.history() == Json::Array(history_told(student)),
{
    events_written(student.deposits, "_deposit"@);
    events_written(student.withdrawals, "_withdrawal"@);
    reveal_strlit("ether");
    reveal_strlit("erc20");
    reveal_strlit("erc721");
    reveal_strlit("erc1155");
    reveal_strlit("_deposit");
    reveal_strlit("_withdrawal");
    reveal_strlit("ether_deposit");
    reveal_strlit("erc20_deposit");
    reveal_strlit("erc721_deposit");
    reveal_strlit("erc1155_deposit");
    reveal_strlit("ether_withdrawal");
    reveal_strlit("erc20_withdrawal");
    reveal_strlit("erc721_withdrawal");
    reveal_strlit("erc1155_withdrawal");
    assert("ether"@ + "_deposit"@ =~= "ether_deposit"@);
    assert("erc20"@ + "_deposit"@ =~= "erc20_deposit"@);
    assert("erc721"@ + "_deposit"@ =~= "erc721_deposit"@);
    assert("erc1155"@ + "_deposit"@ =~= "erc1155_deposit"@);
    assert("ether"@ + "_withdrawal"@ =~= "ether_withdrawal"@);
    assert("erc20"@ + "_withdrawal"@ =~= "erc20_withdrawal"@);
    assert("erc721"@ + "_withdrawal"@ =~= "erc721_withdrawal"@);
    assert("erc1155"@ + "_withdrawal"@ =~= "erc1155_withdrawal"@);
}

// ---- Routes ----

/// The route is the text of the payload without the whitespace around it, and the answer is one report,
/// which must arrive. A payload that spells no bytes asks for all, and so do bytes that are no text.
pub proof fn route_is_the_text_of_the_payload(state: StateModel, payload: Seq<char>)
    ensures
        forall|text: Seq<char>|
            spelt_bytes(unmarked(payload)) == Some(#[trigger] encode_utf8(text)) ==> looked_at(
                state,
                payload,
            ) == seq![
                EmissionModel::Report { payload: report_on(state, trimmed(text)), required: true },
            ],
        spelt_bytes(unmarked(payload)) is None ==> looked_at(state, payload) == seq![
            EmissionModel::Report { payload: report_on(state, "all"@), required: true },
        ],
        forall|bytes: Seq<u8>|
            spelt_bytes(unmarked(payload)) == Some(bytes) && !#[trigger] valid_utf8(bytes)
                ==> looked_at(state, payload) == seq![
                EmissionModel::Report { payload: report_on(state, "all"@), required: true },
            ],
{
    assert forall|text: Seq<char>|
        spelt_bytes(unmarked(payload)) == Some(#[trigger] encode_utf8(text)) implies looked_at(
        state,
        payload,
    ) == seq![
        EmissionModel::Report { payload: report_on(state, trimmed(text)), required: true },
    ] by {
        encode_utf8_valid_utf8(text);
        encode_utf8_decode_utf8(text);
    }
    assert forall|bytes: Seq<u8>|
        spelt_bytes(unmarked(payload)) == Some(bytes) && !#[trigger] valid_utf8(
            bytes,
        ) implies looked_at(state, payload) == seq![
        EmissionModel::Report { payload: report_on(state, "all"@), required: true },
    ] by {
        reveal_strlit("all");
        assert("all"@[0] == 'a' && "all"@.last() == 'l');
        assert(trimmed("all"@) == "all"@);
    }
    if spelt_bytes(unmarked(payload)) is None {
        let nothing = Seq::<u8>::empty();
        encode_utf8_decode_utf8(Seq::empty());
        encode_utf8_valid_utf8(Seq::empty());
        assert(encode_utf8(Seq::empty()) =~= nothing);
        assert(route_in(payload).len() == 0);
    }
}

/// All students are shown, each as on the own route, with their number.
pub proof fn all_students_are_shown(state: StateModel, route: Seq<char>)
    requires
        route.len() == 0 || route == "all"@,
    ensures
        report_on(state, route) == dumped(
            empty_object().with("route"@, Json::Text("all"@)).with(
                "total_students"@,
                number(state.students.len() as u64),
            ).with(
                "students"@,
                Json::Array(state.students.map_values(|student: StudentModel| student.shown())),
            ),
        ),
{
    assert(Seq::new(state.students.len(), |i: int| state.students[i].shown())
        =~= state.students.map_values(|student: StudentModel| student.shown()));
}

/// The text that tells that no student is known under a wallet.
pub open spec fn nobody(route: Seq<char>, wallet: Seq<char>) -> Seq<char> {
    object_text(
        seq![
            ("error"@, quoted("not_found"@)),
            ("route"@, quoted(route)),
            ("wallet"@, quoted(wallet)),
        ],
    )
}

proof fn nobody_written(route: Seq<char>, wallet: Seq<char>)
    ensures
        not_found(route, wallet) == nobody(route, wallet),
{
    reveal_strlit("{\"error\":\"not_found\",\"route\":\"");
    reveal_strlit("\",\"wallet\":\"");
    reveal_strlit("\"}");
    reveal_strlit("error");
    reveal_strlit("not_found");
    reveal_strlit("route");
    reveal_strlit("wallet");
    let fields = seq![
        ("error"@, quoted("not_found"@)),
        ("route"@, quoted(route)),
        ("wallet"@, quoted(wallet)),
    ];
    reveal_with_fuel(joined, 4);
    assert(fields.drop_last() =~= seq![
        ("error"@, quoted("not_found"@)),
        ("route"@, quoted(route)),
    ]);
    assert(fields.drop_last().drop_last() =~= seq![("error"@, quoted("not_found"@))]);
    assert("{\"error\":\"not_found\",\"route\":\""@ =~= seq!['{'] + field(
        "error"@,
        quoted("not_found"@),
    ) + seq![','] + quoted("route"@) + seq![':', '"']);
    assert("\",\"wallet\":\""@ =~= seq!['"', ','] + quoted("wallet"@) + seq![':', '"']);
    assert(not_found(route, wallet) =~= nobody(route, wallet));
}

/// A student is shown on the route of the own wallet, whichever way the address is written, and nobody
/// else is. The report rests on nothing but the student under that wallet.
pub proof fn student_route_shows_the_student(state: StateModel, address: Seq<char>)
    ensures
        ({
            let wallet = "0x"@ + lowercased(bare(address));
            report_on(state, "student/"@ + address) == (match state.student(wallet) {
                Some(student) => dumped(student.shown().with("route"@, Json::Text("student"@))),
                None => nobody("student"@, wallet),
            })
        }),
{
    route_is_told(address);
    nobody_written("student"@, "0x"@ + lowercased(bare(address)));
}

/// The history of a student is shown on the route of the own wallet, whichever way the address is
/// written: every entry of that student, and of nobody else.
pub proof fn activity_route_shows_the_history(state: StateModel, address: Seq<char>)
    ensures
        ({
            let wallet = "0x"@ + lowercased(bare(address));
            report_on(state, "activity/"@ + address) == (match state.student(wallet) {
                Some(student) => dumped(
                    empty_object().with("route"@, Json::Text("activity"@)).with(
                        "wallet"@,
                        Json::Text(wallet),
                    ).with("activity"@, Json::Array(history_told(student))),
                ),
                None => nobody("activity"@, wallet),
            })
        }),
{
    route_is_told(address);
    let wallet = "0x"@ + lowercased(bare(address));
    nobody_written("activity"@, wallet);
    if let Some(student) = state.student(wallet) {
        history_written(student);
    }
}

/// Two states with the same student under a wallet report the same on that wallet, whatever else they
/// hold.
pub proof fn reports_rest_on_the_student_alone(
    first: StateModel,
    second: StateModel,
    address: Seq<char>,
)
    requires
        first.student("0x"@ + lowercased(bare(address))) == second.student(
            "0x"@ + lowercased(bare(address)),
        ),
    ensures
        report_on(first, "student/"@ + address) == report_on(second, "student/"@ + address),
        report_on(first, "activity/"@ + address) == report_on(second, "activity/"@ + address),
{
    student_route_shows_the_student(first, address);
    student_route_shows_the_student(second, address);
    activity_route_shows_the_history(first, address);
    activity_route_shows_the_history(second, address);
}

proof fn routes_differ()
    ensures
        forall|route: Seq<char>|
            #![trigger after(route, "student/"@)]
            route == "portals"@ || route == "summary"@ || route == "app"@ || route == "status"@
                || route == "health"@ ==> {
                &&& route.len() > 0
                &&& route != "all"@
                &&& after(route, "student/"@) is None
                &&& after(route, "activity/"@) is None
            },
        "summary"@ != "portals"@,
        "app"@ != "portals"@,
        "app"@ != "summary"@,
        "status"@ != "portals"@,
        "status"@ != "summary"@,
        "status"@ != "app"@,
        "health"@ != "portals"@,
        "health"@ != "summary"@,
        "health"@ != "app"@,
{
    reveal_strlit("all");
    reveal_strlit("student/");
    reveal_strlit("activity/");
    reveal_strlit("portals");
    reveal_strlit("summary");
    reveal_strlit("app");
    reveal_strlit("status");
    reveal_strlit("health");
    assert("all"@.len() == 3 && "app"@.len() == 3 && "student/"@.len() == 8);
    assert("activity/"@.len() == 9 && "portals"@.len() == 7 && "summary"@.len() == 7);
    assert("status"@.len() == 6 && "health"@.len() == 6);
    assert("all"@[1] == 'l' && "app"@[1] == 'p');
    assert("portals"@[0] == 'p' && "summary"@[0] == 's');
}

/// The portals are shown as they are configured, and the application's own contract, empty where it is
/// not known.
pub proof fn portals_are_shown(state: StateModel)
    ensures
        report_on(state, "portals"@) == dumped(
            empty_object().with("route"@, Json::Text("portals"@)).with(
                "ether_portal"@,
                Json::Text(state.ether_portal),
            ).with("erc20_portal"@, Json::Text(state.erc20_portal)).with(
                "erc721_portal"@,
                Json::Text(state.erc721_portal),
            ).with("erc1155_portal"@, Json::Text(state.erc1155_portal)).with(
                "app_contract"@,
                Json::Text(
                    match state.app_contract {
                        Some(address) => address,
                        None => Seq::empty(),
                    },
                ),
            ),
        ),
{
    routes_differ();
    assert(after("portals"@, "student/"@) is None);
}

/// The application's own contract is shown once it is known.
pub proof fn contract_is_shown(state: StateModel)
    ensures
        report_on(state, "app"@) == dumped(
            match state.app_contract {
                Some(address) => empty_object().with("route"@, Json::Text("app"@)).with(
                    "app_contract"@,
                    Json::Text(address),
                ).with("discovered"@, Json::Boolean(true)),
                None => empty_object().with("route"@, Json::Text("app"@)).with(
                    "app_contract"@,
                    Json::Null,
                ).with("discovered"@, Json::Boolean(false)).with(
                    "hint"@,
                    Json::Text("no advance input processed yet"@),
                ),
            },
        ),
{
    routes_differ();
    assert(after("app"@, "student/"@) is None);
}

/// The health of the application is shown under two names, with the counters and with which portals are
/// configured.
pub proof fn health_is_shown(state: StateModel, route: Seq<char>)
    requires
        route == "status"@ || route == "health"@,
    ensures
        report_on(state, route) == dumped(
            empty_object().with("route"@, Json::Text("status"@)).with(
                "status"@,
                Json::Text("ok"@),
            ).with("app_name"@, Json::Text("student-tracker"@)).with(
                "version"@,
                Json::Text("2.0.0"@),
            ).with("total_students"@, number(state.students.len() as u64)).with(
                "total_inputs"@,
                number(state.total_inputs),
            ).with("total_notices"@, number(state.total_notices)).with(
                "total_vouchers"@,
                number(state.total_vouchers),
            ).with(
                "portals_configured"@,
                empty_object().with("ether"@, Json::Boolean(state.ether_portal.len() != 0)).with(
                    "erc20"@,
                    Json::Boolean(state.erc20_portal.len() != 0),
                ).with("erc721"@, Json::Boolean(state.erc721_portal.len() != 0)).with(
                    "erc1155"@,
                    Json::Boolean(state.erc1155_portal.len() != 0),
                ),
            ),
        ),
{
    routes_differ();
    assert(after(route, "student/"@) is None);
}

/// How many students have a name that does not start as those of unknown students do.
pub open spec fn registered_among(students: Seq<StudentModel>) -> nat {
    students.filter(|student: StudentModel| !"Unknown("@.is_prefix_of(student.name)).len()
}

/// The sum over some students of a number that each of them has.
pub open spec fn summed(students: Seq<StudentModel>, f: spec_fn(StudentModel) -> nat) -> nat {
    students.fold_left(0nat, |sum: nat, student: StudentModel| sum + f(student))
}

proof fn tally_told(students: Seq<StudentModel>)
    ensures
        ({
            let counts = tally(students);
            &&& counts.registered == registered_among(students)
            &&& counts.ether_deposits == summed(students, |s: StudentModel| s.deposits.ether.len())
            &&& counts.erc20_deposits == summed(students, |s: StudentModel| s.deposits.erc20.len())
            &&& counts.erc721_deposits == summed(students, |s: StudentModel| s.deposits.erc721.len())
            &&& counts.erc1155_deposits == summed(
                students,
                |s: StudentModel| s.deposits.erc1155.len(),
            )
            &&& counts.erc20_withdrawals == summed(
                students,
                |s: StudentModel| s.withdrawals.erc20.len(),
            )
            &&& counts.erc721_withdrawals == summed(
                students,
                |s: StudentModel| s.withdrawals.erc721.len(),
            )
            &&& counts.erc1155_withdrawals == summed(
                students,
                |s: StudentModel| s.withdrawals.erc1155.len(),
            )
            &&& counts.registered <= students.len()
        }),
    decreases students.len(),
{
    reveal(Seq::filter);
    if students.len() > 0 {
        tally_told(students.drop_last());
        let name = students.last().name;
        let start = "Unknown("@;
        assert(is_registered(students.last()) == !start.is_prefix_of(name)) by {
            if start.is_prefix_of(name) {
                assert(name.take(start.len() as int) =~= start);
            }
            if start.len() <= name.len() && name.take(start.len() as int) == start {
                assert(start.is_prefix_of(name));
            }
        }
    }
}

/// The counts are shown: the students, those of them who registered and those who did not, and the
/// entries of each kind over all students.
pub proof fn counts_are_shown(state: StateModel)
    ensures
        ({
            let students = state.students;
            let registered = registered_among(students);
            report_on(state, "summary"@) == dumped(
                empty_object().with("route"@, Json::Text("summary"@)).with(
                    "total_students"@,
                    number(students.len() as u64),
                ).with("registered"@, number(registered as u64)).with(
                    "auto_registered"@,
                    number((students.len() - registered) as u64),
                ).with(
                    "ether_deposits"@,
                    number(
                        summed(students, |s: StudentModel| s.deposits.ether.len()) as u64,
                    ),
                ).with(
                    "erc20_deposits"@,
                    number(
                        summed(students, |s: StudentModel| s.deposits.erc20.len()) as u64,
                    ),
                ).with(
                    "erc721_deposits"@,
                    number(
                        summed(students, |s: StudentModel| s.deposits.erc721.len()) as u64,
                    ),
                ).with(
                    "erc1155_deposits"@,
                    number(
                        summed(students, |s: StudentModel| s.deposits.erc1155.len()) as u64,
                    ),
                ).with(
                    "erc20_withdrawals"@,
                    number(
                        summed(students, |s: StudentModel| s.withdrawals.erc20.len()) as u64,
                    ),
                ).with(
                    "erc721_withdrawals"@,
                    number(
                        summed(students, |s: StudentModel| s.withdrawals.erc721.len()) as u64,
                    ),
                ).with(
                    "erc1155_withdrawals"@,
                    number(
                        summed(students, |s: StudentModel| s.withdrawals.erc1155.len()) as u64,
                    ),
                ),
            )
        }),
{
    routes_differ();
    assert(after("summary"@, "student/"@) is None);
    tally_told(state.students);
}

/// Any other route is repeated as unknown, with the routes that there are.
pub proof fn unknown_route_is_told(state: StateModel, route: Seq<char>)
    requires
        route.len() > 0,
        route != "all"@,
        route != "portals"@,
        route != "summary"@,
        route != "app"@,
        route != "status"@,
        route != "health"@,
        !"student/"@.is_prefix_of(route),
        !"activity/"@.is_prefix_of(route),
    ensures
        report_on(state, route) == object_text(
            seq![
                ("error"@, quoted("unknown_route"@)),
                ("route"@, quoted(route)),
                (
                    "valid"@,
                    "[\"all\",\"student/<addr>\",\"activity/<addr>\",\"portals\",\"app\",\"summary\",\"status\"]"@,
                ),
            ],
        ),
{
    if after(route, "student/"@) is Some {
        assert("student/"@.is_prefix_of(route));
    }
    if after(route, "activity/"@) is Some {
        assert("activity/"@.is_prefix_of(route));
    }
    let list =
        "[\"all\",\"student/<addr>\",\"activity/<addr>\",\"portals\",\"app\",\"summary\",\"status\"]"@;
    reveal_strlit("{\"error\":\"unknown_route\",\"route\":\"");
    reveal_strlit("\",\"valid\":");
    reveal_strlit("}");
    reveal_strlit("error");
    reveal_strlit("unknown_route");
    reveal_strlit("route");
    reveal_strlit("valid");
    let fields = seq![
        ("error"@, quoted("unknown_route"@)),
        ("route"@, quoted(route)),
        ("valid"@, list),
    ];
    reveal_with_fuel(joined, 4);
    assert(fields.drop_last() =~= seq![
        ("error"@, quoted("unknown_route"@)),
        ("route"@, quoted(route)),
    ]);
    assert(fields.drop_last().drop_last() =~= seq![("error"@, quoted("unknown_route"@))]);
    assert("{\"error\":\"unknown_route\",\"route\":\""@ =~= seq!['{'] + field(
        "error"@,
        quoted("unknown_route"@),
    ) + seq![','] + quoted("route"@) + seq![':', '"']);
    assert("\",\"valid\":"@ =~= seq!['"', ','] + quoted("valid"@) + seq![':']);
    assert(report_on(state, route) =~= object_text(fields));
}

} // verus!
