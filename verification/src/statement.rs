//! How a student is shown: the balances, and the history of the entries.

use vstd::prelude::*;
use crate::document;
use crate::document::{content, empty_object, number, Json};
use crate::ledger::{erc1155_sum, erc20_sum, ether_sum, Ledger, LedgerModel};
use crate::student::{contains_pair, Student, StudentModel};
use crate::text::{contains_text, decimal, decimal_of};

verus! {

/// The ids of one collection among the entries, in their order.
pub open spec fn ids_of(entries: Seq<(Seq<char>, Seq<char>)>, token: Seq<char>) -> Seq<Seq<char>>
    decreases entries.len(),
{
    if entries.len() == 0 {
        Seq::empty()
    } else if entries.last().0 == token {
        ids_of(entries.drop_last(), token).push(entries.last().1)
    } else {
        ids_of(entries.drop_last(), token)
    }
}

/// The items of a sequence, each once, in the order in which they first occur.
pub open spec fn distinct<A>(items: Seq<A>) -> Seq<A>
    decreases items.len(),
{
    if items.len() == 0 {
        Seq::empty()
    } else {
        let before = distinct(items.drop_last());
        if before.contains(items.last()) {
            before
        } else {
            before.push(items.last())
        }
    }
}

/// The tokens among the entries, each once, in the order in which they first occur.
pub open spec fn erc20_tokens(entries: Seq<(Seq<char>, u128)>) -> Seq<Seq<char>> {
    distinct(Seq::new(entries.len(), |i: int| entries[i].0))
}

/// The collections among the entries, each once, in the order in which they first occur.
pub open spec fn erc721_tokens(entries: Seq<(Seq<char>, Seq<char>)>) -> Seq<Seq<char>> {
    distinct(Seq::new(entries.len(), |i: int| entries[i].0))
}

/// The kinds of items among the entries, each once, in the order in which they first occur.
pub open spec fn erc1155_kinds(entries: Seq<(Seq<char>, Seq<char>, u128)>) -> Seq<
    (Seq<char>, Seq<char>),
> {
    distinct(Seq::new(entries.len(), |i: int| (entries[i].0, entries[i].1)))
}

/// A number as a text of decimal digits.
pub open spec fn digits(n: nat) -> Json {
    Json::Text(decimal(n))
}

/// Texts as an array.
pub open spec fn texts(items: Seq<Seq<char>>) -> Json {
    Json::Array(Seq::new(items.len(), |i: int| Json::Text(items[i])))
}

impl StudentModel {
    /// What is shown of one token.
    pub open spec fn erc20_shown(self, token: Seq<char>) -> Json {
        empty_object().with("token_address"@, Json::Text(token)).with(
            "total_deposited"@,
            digits(erc20_sum(self.deposits.erc20, token)),
        ).with("total_withdrawn"@, digits(erc20_sum(self.withdrawals.erc20, token))).with(
            "available"@,
            digits(self.erc20_left(token)),
        )
    }

    /// What is shown of one collection.
    pub open spec fn erc721_shown(self, token: Seq<char>) -> Json {
        empty_object().with("token_address"@, Json::Text(token)).with(
            "deposited_ids"@,
            texts(ids_of(self.deposits.erc721, token)),
        ).with("held_ids"@, texts(self.held_ids(token))).with(
            "held_count"@,
            number(self.held_ids(token).len() as u64),
        )
    }

    /// What is shown of one kind of item.
    pub open spec fn erc1155_shown(self, token: Seq<char>, token_id: Seq<char>) -> Json {
        empty_object().with("token_address"@, Json::Text(token)).with(
            "token_id"@,
            Json::Text(token_id),
        ).with(
            "total_deposited"@,
            digits(erc1155_sum(self.deposits.erc1155, token, token_id)),
        ).with(
            "total_withdrawn"@,
            digits(erc1155_sum(self.withdrawals.erc1155, token, token_id)),
        ).with("available"@, digits(self.erc1155_left(token, token_id)))
    }

    /// What is shown of the Ether.
    pub open spec fn ether_shown(self) -> Json {
        empty_object().with("total_deposited"@, digits(ether_sum(self.deposits.ether))).with(
            "total_withdrawn"@,
            digits(ether_sum(self.withdrawals.ether)),
        ).with("available_wei"@, digits(self.ether_left()))
    }

    /// What is shown of every token that came in.
    pub open spec fn erc20_all_shown(self) -> Seq<Json> {
        let tokens = erc20_tokens(self.deposits.erc20);
        Seq::new(tokens.len(), |i: int| self.erc20_shown(tokens[i]))
    }

    /// What is shown of every collection of which an item came in.
    pub open spec fn erc721_all_shown(self) -> Seq<Json> {
        let tokens = erc721_tokens(self.deposits.erc721);
        Seq::new(tokens.len(), |i: int| self.erc721_shown(tokens[i]))
    }

    /// What is shown of every kind of item that came in.
    pub open spec fn erc1155_all_shown(self) -> Seq<Json> {
        let kinds = erc1155_kinds(self.deposits.erc1155);
        Seq::new(kinds.len(), |i: int| self.erc1155_shown(kinds[i].0, kinds[i].1))
    }

    /// What is shown of the student.
    pub open spec fn shown(self) -> Json {
        empty_object().with("name"@, Json::Text(self.name)).with(
            "registration_number"@,
            Json::Text(self.registration_number),
        ).with("wallet_address"@, Json::Text(self.wallet_address)).with(
            "ether_balance"@,
            self.ether_shown(),
        ).with("erc20_balances"@, Json::Array(self.erc20_all_shown())).with(
            "erc721_holdings"@,
            Json::Array(self.erc721_all_shown()),
        ).with("erc1155_balances"@, Json::Array(self.erc1155_all_shown()))
    }
}

proof fn pushed_contains<A>(items: Seq<A>, last: A, item: A)
    ensures
        items.push(last).contains(item) == (items.contains(item) || item == last),
{
    let all = items.push(last);
    if items.contains(item) {
        let i = choose|i: int| 0 <= i < items.len() && items[i] == item;
        assert(all[i] == item);
    }
    if all.contains(item) {
        let i = choose|i: int| 0 <= i < all.len() && all[i] == item;
        if i < items.len() {
            assert(items[i] == item);
        }
    }
    assert(all[items.len() as int] == last);
}

/// Every item is listed, once, and no other.
pub proof fn items_are_listed_once<A>(items: Seq<A>, item: A)
    ensures
        distinct(items).no_duplicates(),
        distinct(items).contains(item) == items.contains(item),
    decreases items.len(),
{
    if items.len() > 0 {
        let before = items.drop_last();
        items_are_listed_once(before, item);
        assert(items =~= before.push(items.last()));
        pushed_contains(before, items.last(), item);
        pushed_contains(distinct(before), items.last(), item);
    }
}

/// Every token that came in is listed, once, and no other.
pub proof fn erc20_tokens_are_listed_once(entries: Seq<(Seq<char>, u128)>, token: Seq<char>)
    ensures
        erc20_tokens(entries).no_duplicates(),
        erc20_tokens(entries).contains(token) <==> exists|i: int|
            0 <= i < entries.len() && (#[trigger] entries[i]).0 == token,
{
    let tokens = Seq::new(entries.len(), |i: int| entries[i].0);
    items_are_listed_once(tokens, token);
    if exists|i: int| 0 <= i < entries.len() && (#[trigger] entries[i]).0 == token {
        let i = choose|i: int| 0 <= i < entries.len() && (#[trigger] entries[i]).0 == token;
        assert(tokens[i] == token);
    }
    if tokens.contains(token) {
        let i = choose|i: int| 0 <= i < tokens.len() && tokens[i] == token;
        assert(entries[i].0 == token);
    }
}

/// Every collection of which an item came in is listed, once, and no other.
pub proof fn erc721_tokens_are_listed_once(
    entries: Seq<(Seq<char>, Seq<char>)>,
    token: Seq<char>,
)
    ensures
        erc721_tokens(entries).no_duplicates(),
        erc721_tokens(entries).contains(token) <==> exists|i: int|
            0 <= i < entries.len() && (#[trigger] entries[i]).0 == token,
{
    let tokens = Seq::new(entries.len(), |i: int| entries[i].0);
    items_are_listed_once(tokens, token);
    if exists|i: int| 0 <= i < entries.len() && (#[trigger] entries[i]).0 == token {
        let i = choose|i: int| 0 <= i < entries.len() && (#[trigger] entries[i]).0 == token;
        assert(tokens[i] == token);
    }
    if tokens.contains(token) {
        let i = choose|i: int| 0 <= i < tokens.len() && tokens[i] == token;
        assert(entries[i].0 == token);
    }
}

/// Every kind of item that came in is listed, once, and no other.
pub proof fn erc1155_kinds_are_listed_once(
    entries: Seq<(Seq<char>, Seq<char>, u128)>,
    token: Seq<char>,
    token_id: Seq<char>,
)
    ensures
        erc1155_kinds(entries).no_duplicates(),
        erc1155_kinds(entries).contains((token, token_id)) <==> exists|i: int|
            0 <= i < entries.len() && (#[trigger] entries[i]).0 == token && entries[i].1
                == token_id,
{
    let kinds = Seq::new(entries.len(), |i: int| (entries[i].0, entries[i].1));
    items_are_listed_once(kinds, (token, token_id));
    if exists|i: int|
        0 <= i < entries.len() && (#[trigger] entries[i]).0 == token && entries[i].1 == token_id {
        let i = choose|i: int|
            0 <= i < entries.len() && (#[trigger] entries[i]).0 == token && entries[i].1
                == token_id;
        assert(kinds[i] == (token, token_id));
    }
    if kinds.contains((token, token_id)) {
        let i = choose|i: int| 0 <= i < kinds.len() && kinds[i] == (token, token_id);
        assert(entries[i].0 == token);
    }
}

fn write_digits(n: u128) -> (r: json::JsonValue)
    ensures
        content(r) == digits(n as nat),
{
    document::from_text(decimal_of(n).as_str())
}

fn write_texts(items: &Vec<String>) -> (r: json::JsonValue)
    ensures
        content(r) == texts(items.deep_view()),
{
    let ghost all = texts(items.deep_view())->Array_0;
    let mut r = document::new_array();
    let mut i: usize = 0;
    assert(all.take(0) =~= Seq::empty());
    while i < items.len()
        invariant
            i <= items@.len(),
            all == texts(items.deep_view())->Array_0,
            content(r) == Json::Array(all.take(i as int)),
        decreases items@.len() - i,
    {
        document::push(&mut r, document::from_text(items[i].as_str()));
        assert(all.take(i + 1) =~= all.take(i as int).push(Json::Text(items@[i as int]@)));
        i = i + 1;
    }
    assert(all.take(all.len() as int) =~= all);
    r
}

fn list_ids(ledger: &Ledger, token: &str) -> (r: Vec<String>)
    ensures
        r.deep_view() == ids_of(ledger.deep_view().erc721, token@),
{
    let ghost entries = ledger.deep_view().erc721;
    let mut r: Vec<String> = Vec::new();
    let mut i: usize = 0;
    assert(r.deep_view() =~= Seq::<Seq<char>>::empty());
    while i < ledger.erc721.len()
        invariant
            i <= ledger.erc721@.len(),
            entries == ledger.deep_view().erc721,
            r.deep_view() == ids_of(entries.take(i as int), token@),
        decreases ledger.erc721@.len() - i,
    {
        let entry = &ledger.erc721[i];
        let ghost before = r.deep_view();
        assert(entries.take(i + 1).drop_last() =~= entries.take(i as int));
        assert(entries.take(i + 1).last() == (entry.0@, entry.1@));
        if *entry.0.as_str() == *token {
            r.push(entry.1.clone());
            assert(r.deep_view() =~= before.push(entry.1@));
        }
        i = i + 1;
    }
    assert(entries.take(entries.len() as int) =~= entries);
    r
}

fn list_erc20_tokens(ledger: &Ledger) -> (r: Vec<String>)
    ensures
        r.deep_view() == erc20_tokens(ledger.deep_view().erc20),
{
    let ghost entries = ledger.deep_view().erc20;
    let ghost tokens = Seq::new(entries.len(), |i: int| entries[i].0);
    let mut r: Vec<String> = Vec::new();
    let mut i: usize = 0;
    assert(r.deep_view() =~= Seq::<Seq<char>>::empty());
    while i < ledger.erc20.len()
        invariant
            i <= ledger.erc20@.len(),
            entries == ledger.deep_view().erc20,
            tokens == Seq::new(entries.len(), |i: int| entries[i].0),
            r.deep_view() == distinct(tokens.take(i as int)),
        decreases ledger.erc20@.len() - i,
    {
        let entry = &ledger.erc20[i];
        let ghost before = r.deep_view();
        assert(tokens.take(i + 1).drop_last() =~= tokens.take(i as int));
        assert(tokens.take(i + 1).last() == entry.0@);
        if !contains_text(&r, entry.0.as_str()) {
            r.push(entry.0.clone());
            assert(r.deep_view() =~= before.push(entry.0@));
        }
        i = i + 1;
    }
    assert(tokens.take(tokens.len() as int) =~= tokens);
    r
}

fn list_erc721_tokens(ledger: &Ledger) -> (r: Vec<String>)
    ensures
        r.deep_view() == erc721_tokens(ledger.deep_view().erc721),
{
    let ghost entries = ledger.deep_view().erc721;
    let ghost tokens = Seq::new(entries.len(), |i: int| entries[i].0);
    let mut r: Vec<String> = Vec::new();
    let mut i: usize = 0;
    assert(r.deep_view() =~= Seq::<Seq<char>>::empty());
    while i < ledger.erc721.len()
        invariant
            i <= ledger.erc721@.len(),
            entries == ledger.deep_view().erc721,
            tokens == Seq::new(entries.len(), |i: int| entries[i].0),
            r.deep_view() == distinct(tokens.take(i as int)),
        decreases ledger.erc721@.len() - i,
    {
        let entry = &ledger.erc721[i];
        let ghost before = r.deep_view();
        assert(tokens.take(i + 1).drop_last() =~= tokens.take(i as int));
        assert(tokens.take(i + 1).last() == entry.0@);
        if !contains_text(&r, entry.0.as_str()) {
            r.push(entry.0.clone());
            assert(r.deep_view() =~= before.push(entry.0@));
        }
        i = i + 1;
    }
    assert(tokens.take(tokens.len() as int) =~= tokens);
    r
}

fn list_erc1155_kinds(ledger: &Ledger) -> (r: Vec<(String, String)>)
    ensures
        r.deep_view() == erc1155_kinds(ledger.deep_view().erc1155),
{
    let ghost entries = ledger.deep_view().erc1155;
    let ghost kinds = Seq::new(entries.len(), |i: int| (entries[i].0, entries[i].1));
    let mut r: Vec<(String, String)> = Vec::new();
    let mut i: usize = 0;
    assert(r.deep_view() =~= Seq::<(Seq<char>, Seq<char>)>::empty());
    while i < ledger.erc1155.len()
        invariant
            i <= ledger.erc1155@.len(),
            entries == ledger.deep_view().erc1155,
            kinds == Seq::new(entries.len(), |i: int| (entries[i].0, entries[i].1)),
            r.deep_view() == distinct(kinds.take(i as int)),
        decreases ledger.erc1155@.len() - i,
    {
        let entry = &ledger.erc1155[i];
        let ghost before = r.deep_view();
        assert(kinds.take(i + 1).drop_last() =~= kinds.take(i as int));
        assert(kinds.take(i + 1).last() == (entry.0@, entry.1@));
        if !contains_pair(&r, entry.0.as_str(), entry.1.as_str()) {
            r.push((entry.0.clone(), entry.1.clone()));
            assert(r.deep_view() =~= before.push((entry.0@, entry.1@)));
        }
        i = i + 1;
    }
    assert(kinds.take(kinds.len() as int) =~= kinds);
    r
}

impl Student {
    /// Tells whether `to_json` may be asked for.
    pub fn totals_fit(&self) -> (r: bool)
        ensures
            r == self.deep_view().totals_fit(),
    {
        let ghost model = self.deep_view();
        if self.deposits.ether_total().is_none() || self.withdrawals.ether_total().is_none() {
            return false;
        }
        let mut i: usize = 0;
        while i < self.deposits.erc20.len()
            invariant
                i <= self.deposits.erc20@.len(),
                model == self.deep_view(),
                forall|j: int|
                    0 <= j < i ==> model.erc20_fits((#[trigger] model.deposits.erc20[j]).0),
            decreases self.deposits.erc20@.len() - i,
        {
            let token = self.deposits.erc20[i].0.as_str();
            assert(model.deposits.erc20[i as int].0 == token@);
            if self.deposits.erc20_total(token).is_none() || self.withdrawals.erc20_total(
                token,
            ).is_none() {
                return false;
            }
            i = i + 1;
        }
        let mut k: usize = 0;
        while k < self.deposits.erc1155.len()
            invariant
                k <= self.deposits.erc1155@.len(),
                model == self.deep_view(),
                forall|j: int|
                    0 <= j < k ==> model.erc1155_fits(
                        (#[trigger] model.deposits.erc1155[j]).0,
                        model.deposits.erc1155[j].1,
                    ),
            decreases self.deposits.erc1155@.len() - k,
        {
            let entry = &self.deposits.erc1155[k];
            assert(model.deposits.erc1155[k as int] == (entry.0@, entry.1@, entry.2));
            if self.deposits.erc1155_total(entry.0.as_str(), entry.1.as_str()).is_none()
                || self.withdrawals.erc1155_total(entry.0.as_str(), entry.1.as_str()).is_none() {
                return false;
            }
            k = k + 1;
        }
        true
    }

    fn show_ether(&self) -> (r: json::JsonValue)
        requires
            self.deep_view().ether_fits(),
        ensures
            content(r) == self.deep_view().ether_shown(),
    {
        let came: u128 = self.deposits.ether_total().unwrap();
        let went: u128 = self.withdrawals.ether_total().unwrap();
        let mut r = document::new_object();
        document::insert(&mut r, "total_deposited", write_digits(came));
        document::insert(&mut r, "total_withdrawn", write_digits(went));
        document::insert(&mut r, "available_wei", write_digits(self.ether_available()));
        r
    }

    fn show_erc20(&self, token: &str) -> (r: json::JsonValue)
        requires
            self.deep_view().erc20_fits(token@),
        ensures
            content(r) == self.deep_view().erc20_shown(token@),
    {
        let came: u128 = self.deposits.erc20_total(token).unwrap();
        let went: u128 = self.withdrawals.erc20_total(token).unwrap();
        let mut r = document::new_object();
        document::insert(&mut r, "token_address", document::from_text(token));
        document::insert(&mut r, "total_deposited", write_digits(came));
        document::insert(&mut r, "total_withdrawn", write_digits(went));
        document::insert(&mut r, "available", write_digits(came.saturating_sub(went)));
        r
    }

    fn show_erc721(&self, token: &str) -> (r: json::JsonValue)
        ensures
            content(r) == self.deep_view().erc721_shown(token@),
    {
        let held = self.erc721_held_ids(token);
        let mut r = document::new_object();
        document::insert(&mut r, "token_address", document::from_text(token));
        document::insert(&mut r, "deposited_ids", write_texts(&list_ids(&self.deposits, token)));
        document::insert(&mut r, "held_ids", write_texts(&held));
        document::insert(&mut r, "held_count", document::from_whole(held.len() as u64));
        r
    }

    fn show_erc1155(&self, token: &str, token_id: &str) -> (r: json::JsonValue)
        requires
            self.deep_view().erc1155_fits(token@, token_id@),
        ensures
            content(r) == self.deep_view().erc1155_shown(token@, token_id@),
    {
        let came: u128 = self.deposits.erc1155_total(token, token_id).unwrap();
        let went: u128 = self.withdrawals.erc1155_total(token, token_id).unwrap();
        let mut r = document::new_object();
        document::insert(&mut r, "token_address", document::from_text(token));
        document::insert(&mut r, "token_id", document::from_text(token_id));
        document::insert(&mut r, "total_deposited", write_digits(came));
        document::insert(&mut r, "total_withdrawn", write_digits(went));
        document::insert(&mut r, "available", write_digits(came.saturating_sub(went)));
        r
    }

    fn show_all_erc20(&self) -> (r: json::JsonValue)
        requires
            self.deep_view().totals_fit(),
        ensures
            content(r) == Json::Array(self.deep_view().erc20_all_shown()),
    {
        let ghost model = self.deep_view();
        let ghost all = model.erc20_all_shown();
        let tokens = list_erc20_tokens(&self.deposits);
        let mut r = document::new_array();
        let mut i: usize = 0;
        assert(all.take(0) =~= Seq::empty());
        while i < tokens.len()
            invariant
                i <= tokens@.len(),
                model == self.deep_view(),
                model.totals_fit(),
                tokens.deep_view() == erc20_tokens(model.deposits.erc20),
                all == model.erc20_all_shown(),
                content(r) == Json::Array(all.take(i as int)),
            decreases tokens@.len() - i,
        {
            proof {
                let token = tokens.deep_view()[i as int];
                assert(token == tokens@[i as int]@);
                assert(erc20_tokens(model.deposits.erc20).contains(token));
                erc20_tokens_are_listed_once(model.deposits.erc20, token);
            }
            document::push(&mut r, self.show_erc20(tokens[i].as_str()));
            assert(all.take(i + 1) =~= all.take(i as int).push(all[i as int]));
            i = i + 1;
        }
        assert(all.take(all.len() as int) =~= all);
        r
    }

    fn show_all_erc721(&self) -> (r: json::JsonValue)
        ensures
            content(r) == Json::Array(self.deep_view().erc721_all_shown()),
    {
        let ghost model = self.deep_view();
        let ghost all = model.erc721_all_shown();
        let tokens = list_erc721_tokens(&self.deposits);
        let mut r = document::new_array();
        let mut i: usize = 0;
        assert(all.take(0) =~= Seq::empty());
        while i < tokens.len()
            invariant
                i <= tokens@.len(),
                model == self.deep_view(),
                tokens.deep_view() == erc721_tokens(model.deposits.erc721),
                all == model.erc721_all_shown(),
                content(r) == Json::Array(all.take(i as int)),
            decreases tokens@.len() - i,
        {
            assert(tokens.deep_view()[i as int] == tokens@[i as int]@);
            document::push(&mut r, self.show_erc721(tokens[i].as_str()));
            assert(all.take(i + 1) =~= all.take(i as int).push(all[i as int]));
            i = i + 1;
        }
        assert(all.take(all.len() as int) =~= all);
        r
    }

    fn show_all_erc1155(&self) -> (r: json::JsonValue)
        requires
            self.deep_view().totals_fit(),
        ensures
            content(r) == Json::Array(self.deep_view().erc1155_all_shown()),
    {
        let ghost model = self.deep_view();
        let ghost all = model.erc1155_all_shown();
        let kinds = list_erc1155_kinds(&self.deposits);
        let mut r = document::new_array();
        let mut i: usize = 0;
        assert(all.take(0) =~= Seq::empty());
        while i < kinds.len()
            invariant
                i <= kinds@.len(),
                model == self.deep_view(),
                model.totals_fit(),
                kinds.deep_view() == erc1155_kinds(model.deposits.erc1155),
                all == model.erc1155_all_shown(),
                content(r) == Json::Array(all.take(i as int)),
            decreases kinds@.len() - i,
        {
            let kind = &kinds[i];
            proof {
                assert(kinds.deep_view()[i as int] == (kind.0@, kind.1@));
                assert(erc1155_kinds(model.deposits.erc1155).contains((kind.0@, kind.1@)));
                erc1155_kinds_are_listed_once(model.deposits.erc1155, kind.0@, kind.1@);
            }
            document::push(&mut r, self.show_erc1155(kind.0.as_str(), kind.1.as_str()));
            assert(all.take(i + 1) =~= all.take(i as int).push(all[i as int]));
            i = i + 1;
        }
        assert(all.take(all.len() as int) =~= all);
        r
    }

    /// Shows the student with all balances.
    pub fn to_json(&self) -> (r: json::JsonValue)
        requires
            self.deep_view().totals_fit(),
        ensures
            content(r) == self.deep_view().shown(),
    {
        let mut r = document::new_object();
        document::insert(&mut r, "name", document::from_text(self.name.as_str()));
        document::insert(
            &mut r,
            "registration_number",
            document::from_text(self.registration_number.as_str()),
        );
        document::insert(
            &mut r,
            "wallet_address",
            document::from_text(self.wallet_address.as_str()),
        );
        document::insert(&mut r, "ether_balance", self.show_ether());
        document::insert(&mut r, "erc20_balances", self.show_all_erc20());
        document::insert(&mut r, "erc721_holdings", self.show_all_erc721());
        document::insert(&mut r, "erc1155_balances", self.show_all_erc1155());
        r
    }
}

/// An entry of Ether as an event; the suffix tells which way it went.
pub open spec fn ether_event(amount: u128, suffix: Seq<char>) -> Json {
    empty_object().with("type"@, Json::Text("ether"@ + suffix)).with(
        "amount"@,
        digits(amount as nat),
    )
}

/// An entry of a token as an event.
pub open spec fn erc20_event(entry: (Seq<char>, u128), suffix: Seq<char>) -> Json {
    empty_object().with("type"@, Json::Text("erc20"@ + suffix)).with(
        "token"@,
        Json::Text(entry.0),
    ).with("amount"@, digits(entry.1 as nat))
}

/// An entry of an item as an event.
pub open spec fn erc721_event(entry: (Seq<char>, Seq<char>), suffix: Seq<char>) -> Json {
    empty_object().with("type"@, Json::Text("erc721"@ + suffix)).with(
        "token"@,
        Json::Text(entry.0),
    ).with("token_id"@, Json::Text(entry.1))
}

/// An entry of one kind of item as an event.
pub open spec fn erc1155_event(entry: (Seq<char>, Seq<char>, u128), suffix: Seq<char>) -> Json {
    empty_object().with("type"@, Json::Text("erc1155"@ + suffix)).with(
        "token"@,
        Json::Text(entry.0),
    ).with("token_id"@, Json::Text(entry.1)).with("amount"@, digits(entry.2 as nat))
}

impl LedgerModel {
    /// The entries as events: first those of Ether, then the other kinds, each in its order.
    pub open spec fn events(self, suffix: Seq<char>) -> Seq<Json> {
        Seq::new(self.ether.len(), |i: int| ether_event(self.ether[i], suffix)) + Seq::new(
            self.erc20.len(),
            |i: int| erc20_event(self.erc20[i], suffix),
        ) + Seq::new(self.erc721.len(), |i: int| erc721_event(self.erc721[i], suffix)) + Seq::new(
            self.erc1155.len(),
            |i: int| erc1155_event(self.erc1155[i], suffix),
        )
    }
}

impl StudentModel {
    /// All entries as events: what came in, then what went out.
    pub open spec fn history(self) -> Json {
        Json::Array(self.deposits.events("_deposit"@) + self.withdrawals.events("_withdrawal"@))
    }
}

fn typed(kind: &str, suffix: &str) -> (r: json::JsonValue)
    ensures
        content(r) == empty_object().with("type"@, Json::Text(kind@ + suffix@)),
{
    let mut name = kind.to_owned();
    name.append(suffix);
    let mut r = document::new_object();
    document::insert(&mut r, "type", document::from_text(name.as_str()));
    r
}

fn push_ether_events(events: &mut json::JsonValue, ledger: &Ledger, suffix: &str)
    requires
        content(*old(events)) is Array,
    ensures
        content(*final(events)) == Json::Array(
            content(*old(events))->Array_0 + Seq::new(
                ledger.deep_view().ether.len(),
                |i: int| ether_event(ledger.deep_view().ether[i], suffix@),
            ),
        ),
{
    let ghost start = content(*events)->Array_0;
    let ghost all = Seq::new(
        ledger.deep_view().ether.len(),
        |i: int| ether_event(ledger.deep_view().ether[i], suffix@),
    );
    let mut i: usize = 0;
    assert(start =~= start + all.take(0));
    while i < ledger.ether.len()
        invariant
            i <= ledger.ether@.len() == all.len(),
            forall|j: int|
                0 <= j < all.len() ==> #[trigger] all[j] == ether_event(
                    ledger.deep_view().ether[j],
                    suffix@,
                ),
            content(*events) == Json::Array(start + all.take(i as int)),
        decreases ledger.ether@.len() - i,
    {
        let mut event = typed("ether", suffix);
        document::insert(&mut event, "amount", write_digits(ledger.ether[i]));
        assert(content(event) == all[i as int]);
        document::push(events, event);
        assert(start + all.take(i + 1) =~= (start + all.take(i as int)).push(all[i as int]));
        i = i + 1;
    }
    assert(all.take(all.len() as int) =~= all);
}

fn push_erc20_events(events: &mut json::JsonValue, ledger: &Ledger, suffix: &str)
    requires
        content(*old(events)) is Array,
    ensures
        content(*final(events)) == Json::Array(
            content(*old(events))->Array_0 + Seq::new(
                ledger.deep_view().erc20.len(),
                |i: int| erc20_event(ledger.deep_view().erc20[i], suffix@),
            ),
        ),
{
    let ghost start = content(*events)->Array_0;
    let ghost all = Seq::new(
        ledger.deep_view().erc20.len(),
        |i: int| erc20_event(ledger.deep_view().erc20[i], suffix@),
    );
    let mut i: usize = 0;
    assert(start =~= start + all.take(0));
    while i < ledger.erc20.len()
        invariant
            i <= ledger.erc20@.len() == all.len(),
            forall|j: int|
                0 <= j < all.len() ==> #[trigger] all[j] == erc20_event(
                    ledger.deep_view().erc20[j],
                    suffix@,
                ),
            content(*events) == Json::Array(start + all.take(i as int)),
        decreases ledger.erc20@.len() - i,
    {
        let entry = &ledger.erc20[i];
        assert(ledger.deep_view().erc20[i as int] == (entry.0@, entry.1));
        let mut event = typed("erc20", suffix);
        document::insert(&mut event, "token", document::from_text(entry.0.as_str()));
        document::insert(&mut event, "amount", write_digits(entry.1));
        assert(content(event) == all[i as int]);
        document::push(events, event);
        assert(start + all.take(i + 1) =~= (start + all.take(i as int)).push(all[i as int]));
        i = i + 1;
    }
    assert(all.take(all.len() as int) =~= all);
}

fn push_erc721_events(events: &mut json::JsonValue, ledger: &Ledger, suffix: &str)
    requires
        content(*old(events)) is Array,
    ensures
        content(*final(events)) == Json::Array(
            content(*old(events))->Array_0 + Seq::new(
                ledger.deep_view().erc721.len(),
                |i: int| erc721_event(ledger.deep_view().erc721[i], suffix@),
            ),
        ),
{
    let ghost start = content(*events)->Array_0;
    let ghost all = Seq::new(
        ledger.deep_view().erc721.len(),
        |i: int| erc721_event(ledger.deep_view().erc721[i], suffix@),
    );
    let mut i: usize = 0;
    assert(start =~= start + all.take(0));
    while i < ledger.erc721.len()
        invariant
            i <= ledger.erc721@.len() == all.len(),
            forall|j: int|
                0 <= j < all.len() ==> #[trigger] all[j] == erc721_event(
                    ledger.deep_view().erc721[j],
                    suffix@,
                ),
            content(*events) == Json::Array(start + all.take(i as int)),
        decreases ledger.erc721@.len() - i,
    {
        let entry = &ledger.erc721[i];
        assert(ledger.deep_view().erc721[i as int] == (entry.0@, entry.1@));
        let mut event = typed("erc721", suffix);
        document::insert(&mut event, "token", document::from_text(entry.0.as_str()));
        document::insert(&mut event, "token_id", document::from_text(entry.1.as_str()));
        assert(content(event) == all[i as int]);
        document::push(events, event);
        assert(start + all.take(i + 1) =~= (start + all.take(i as int)).push(all[i as int]));
        i = i + 1;
    }
    assert(all.take(all.len() as int) =~= all);
}

fn push_erc1155_events(events: &mut json::JsonValue, ledger: &Ledger, suffix: &str)
    requires
        content(*old(events)) is Array,
    ensures
        content(*final(events)) == Json::Array(
            content(*old(events))->Array_0 + Seq::new(
                ledger.deep_view().erc1155.len(),
                |i: int| erc1155_event(ledger.deep_view().erc1155[i], suffix@),
            ),
        ),
{
    let ghost start = content(*events)->Array_0;
    let ghost all = Seq::new(
        ledger.deep_view().erc1155.len(),
        |i: int| erc1155_event(ledger.deep_view().erc1155[i], suffix@),
    );
    let mut i: usize = 0;
    assert(start =~= start + all.take(0));
    while i < ledger.erc1155.len()
        invariant
            i <= ledger.erc1155@.len() == all.len(),
            forall|j: int|
                0 <= j < all.len() ==> #[trigger] all[j] == erc1155_event(
                    ledger.deep_view().erc1155[j],
                    suffix@,
                ),
            content(*events) == Json::Array(start + all.take(i as int)),
        decreases ledger.erc1155@.len() - i,
    {
        let entry = &ledger.erc1155[i];
        assert(ledger.deep_view().erc1155[i as int] == (entry.0@, entry.1@, entry.2));
        let mut event = typed("erc1155", suffix);
        document::insert(&mut event, "token", document::from_text(entry.0.as_str()));
        document::insert(&mut event, "token_id", document::from_text(entry.1.as_str()));
        document::insert(&mut event, "amount", write_digits(entry.2));
        assert(content(event) == all[i as int]);
        document::push(events, event);
        assert(start + all.take(i + 1) =~= (start + all.take(i as int)).push(all[i as int]));
        i = i + 1;
    }
    assert(all.take(all.len() as int) =~= all);
}

fn push_events(events: &mut json::JsonValue, ledger: &Ledger, suffix: &str)
    requires
        content(*old(events)) is Array,
    ensures
        content(*final(events)) == Json::Array(
            content(*old(events))->Array_0 + ledger.deep_view().events(suffix@),
        ),
{
    let ghost start = content(*events)->Array_0;
    push_ether_events(events, ledger, suffix);
    push_erc20_events(events, ledger, suffix);
    push_erc721_events(events, ledger, suffix);
    push_erc1155_events(events, ledger, suffix);
    assert(content(*events)->Array_0 =~= start + ledger.deep_view().events(suffix@));
}

impl Student {
    /// Lists all entries as events.
    pub fn activity_log(&self) -> (r: json::JsonValue)
        ensures
            content(r) == self.deep_view().history(),
    {
        let mut r = document::new_array();
        push_events(&mut r, &self.deposits, "_deposit");
        push_events(&mut r, &self.withdrawals, "_withdrawal");
        assert(content(r)->Array_0 =~= self.deep_view().history()->Array_0);
        r
    }
}

} // verus!
