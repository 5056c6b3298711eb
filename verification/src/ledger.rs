//! What comes in and what goes out: assets, and the ledgers that record them.

use vstd::prelude::*;

verus! {

/// An asset that comes in or goes out.
#[derive(Debug)]
pub enum Asset {
    /// Ether, in wei.
    Ether { amount: u128 },
    /// So much of a token.
    Erc20 { token: String, amount: u128 },
    /// One item of a collection.
    Erc721 { token: String, token_id: String },
    /// So many of one kind of item of a collection.
    Erc1155 { token: String, token_id: String, amount: u128 },
}

/// An asset, with its texts as sequences of characters.
pub enum AssetModel {
    Ether { amount: u128 },
    Erc20 { token: Seq<char>, amount: u128 },
    Erc721 { token: Seq<char>, token_id: Seq<char> },
    Erc1155 { token: Seq<char>, token_id: Seq<char>, amount: u128 },
}

impl DeepView for Asset {
    type V = AssetModel;

    open spec fn deep_view(&self) -> AssetModel {
        match self {
            Asset::Ether { amount } => AssetModel::Ether { amount: *amount },
            Asset::Erc20 { token, amount } => AssetModel::Erc20 { token: token@, amount: *amount },
            Asset::Erc721 { token, token_id } => AssetModel::Erc721 {
                token: token@,
                token_id: token_id@,
            },
            Asset::Erc1155 { token, token_id, amount } => AssetModel::Erc1155 {
                token: token@,
                token_id: token_id@,
                amount: *amount,
            },
        }
    }
}

/// The assets that came in, or those that went out, each kind in the order of its entries.
#[derive(Clone, Debug)]
pub struct Ledger {
    /// Amounts in wei.
    pub ether: Vec<u128>,
    /// Tokens and amounts.
    pub erc20: Vec<(String, u128)>,
    /// Tokens and token ids.
    pub erc721: Vec<(String, String)>,
    /// Tokens, token ids and amounts.
    pub erc1155: Vec<(String, String, u128)>,
}

/// A ledger, with its entries as sequences.
pub struct LedgerModel {
    pub ether: Seq<u128>,
    pub erc20: Seq<(Seq<char>, u128)>,
    pub erc721: Seq<(Seq<char>, Seq<char>)>,
    pub erc1155: Seq<(Seq<char>, Seq<char>, u128)>,
}

impl DeepView for Ledger {
    type V = LedgerModel;

    open spec fn deep_view(&self) -> LedgerModel {
        LedgerModel {
            ether: self.ether.deep_view(),
            erc20: self.erc20.deep_view(),
            erc721: self.erc721.deep_view(),
            erc1155: self.erc1155.deep_view(),
        }
    }
}

/// The sum of amounts of Ether.
pub open spec fn ether_sum(entries: Seq<u128>) -> nat
    decreases entries.len(),
{
    if entries.len() == 0 {
        0
    } else {
        ether_sum(entries.drop_last()) + entries.last() as nat
    }
}

/// The sum of the amounts of one token.
pub open spec fn erc20_sum(entries: Seq<(Seq<char>, u128)>, token: Seq<char>) -> nat
    decreases entries.len(),
{
    if entries.len() == 0 {
        0
    } else {
        erc20_sum(entries.drop_last(), token) + (if entries.last().0 == token {
            entries.last().1 as nat
        } else {
            0
        })
    }
}

/// The sum of the amounts of one kind of item.
pub open spec fn erc1155_sum(
    entries: Seq<(Seq<char>, Seq<char>, u128)>,
    token: Seq<char>,
    token_id: Seq<char>,
) -> nat
    decreases entries.len(),
{
    if entries.len() == 0 {
        0
    } else {
        erc1155_sum(entries.drop_last(), token, token_id) + (if entries.last().0 == token
            && entries.last().1 == token_id {
            entries.last().2 as nat
        } else {
            0
        })
    }
}

/// A sum as a `u128`, where it can hold it.
pub open spec fn fitted(sum: nat) -> Option<u128> {
    if sum <= u128::MAX {
        Some(sum as u128)
    } else {
        None
    }
}

impl LedgerModel {
    /// The ledger without entries.
    pub open spec fn empty() -> LedgerModel {
        LedgerModel {
            ether: Seq::empty(),
            erc20: Seq::empty(),
            erc721: Seq::empty(),
            erc1155: Seq::empty(),
        }
    }

    /// The ledger with one more entry.
    pub open spec fn with(self, asset: AssetModel) -> LedgerModel {
        match asset {
            AssetModel::Ether { amount } => LedgerModel { ether: self.ether.push(amount), ..self },
            AssetModel::Erc20 { token, amount } => LedgerModel {
                erc20: self.erc20.push((token, amount)),
                ..self
            },
            AssetModel::Erc721 { token, token_id } => LedgerModel {
                erc721: self.erc721.push((token, token_id)),
                ..self
            },
            AssetModel::Erc1155 { token, token_id, amount } => LedgerModel {
                erc1155: self.erc1155.push((token, token_id, amount)),
                ..self
            },
        }
    }
}

/// The first entries of a ledger add up to no more than all of them.
proof fn sums_grow(ledger: LedgerModel, n: int, token: Seq<char>, token_id: Seq<char>)
    ensures
        0 <= n <= ledger.ether.len() ==> ether_sum(ledger.ether.take(n)) <= ether_sum(ledger.ether),
        0 <= n <= ledger.erc20.len() ==> erc20_sum(ledger.erc20.take(n), token) <= erc20_sum(
            ledger.erc20,
            token,
        ),
        0 <= n <= ledger.erc1155.len() ==> erc1155_sum(ledger.erc1155.take(n), token, token_id)
            <= erc1155_sum(ledger.erc1155, token, token_id),
    decreases ledger.ether.len() + ledger.erc20.len() + ledger.erc1155.len(),
{
    if 0 <= n < ledger.ether.len() {
        sums_grow(LedgerModel { ether: ledger.ether.drop_last(), ..ledger }, n, token, token_id);
        assert(ledger.ether.drop_last().take(n) =~= ledger.ether.take(n));
    } else if 0 <= n < ledger.erc20.len() {
        sums_grow(LedgerModel { erc20: ledger.erc20.drop_last(), ..ledger }, n, token, token_id);
        assert(ledger.erc20.drop_last().take(n) =~= ledger.erc20.take(n));
    } else if 0 <= n < ledger.erc1155.len() {
        sums_grow(
            LedgerModel { erc1155: ledger.erc1155.drop_last(), ..ledger },
            n,
            token,
            token_id,
        );
        assert(ledger.erc1155.drop_last().take(n) =~= ledger.erc1155.take(n));
    }
    if n == ledger.ether.len() {
        assert(ledger.ether.take(n) =~= ledger.ether);
    }
    if n == ledger.erc20.len() {
        assert(ledger.erc20.take(n) =~= ledger.erc20);
    }
    if n == ledger.erc1155.len() {
        assert(ledger.erc1155.take(n) =~= ledger.erc1155);
    }
}

impl Ledger {
    /// A ledger without entries.
    pub fn new() -> (r: Ledger)
        ensures
            r.deep_view() == LedgerModel::empty(),
    {
        let r = Ledger { ether: Vec::new(), erc20: Vec::new(), erc721: Vec::new(), erc1155: Vec::new() };
        assert(r.ether.deep_view() =~= Seq::empty());
        assert(r.erc20.deep_view() =~= Seq::empty());
        assert(r.erc721.deep_view() =~= Seq::empty());
        assert(r.erc1155.deep_view() =~= Seq::empty());
        r
    }

    /// Puts an entry behind those of its kind.
    pub fn record(&mut self, asset: &Asset)
        ensures
            final(self).deep_view() == old(self).deep_view().with(asset.deep_view()),
    {
        let ghost before = self.deep_view();
        match asset {
            Asset::Ether { amount } => {
                self.ether.push(*amount);
                assert(self.ether.deep_view() =~= before.ether.push(*amount));
            },
            Asset::Erc20 { token, amount } => {
                self.erc20.push((token.clone(), *amount));
                assert(self.erc20.deep_view() =~= before.erc20.push((token@, *amount)));
            },
            Asset::Erc721 { token, token_id } => {
                self.erc721.push((token.clone(), token_id.clone()));
                assert(self.erc721.deep_view() =~= before.erc721.push((token@, token_id@)));
            },
            Asset::Erc1155 { token, token_id, amount } => {
                self.erc1155.push((token.clone(), token_id.clone(), *amount));
                assert(self.erc1155.deep_view() =~= before.erc1155.push(
                    (token@, token_id@, *amount),
                ));
            },
        }
    }

    /// Adds up the Ether, where a `u128` can hold the sum.
    pub fn ether_total(&self) -> (r: Option<u128>)
        ensures
            r == fitted(ether_sum(self.deep_view().ether)),
    {
        let ghost entries = self.deep_view().ether;
        let mut sum: u128 = 0;
        let mut i: usize = 0;
        while i < self.ether.len()
            invariant
                i <= self.ether@.len(),
                entries == self.deep_view().ether,
                sum == ether_sum(entries.take(i as int)),
            decreases self.ether@.len() - i,
        {
            proof {
                assert(entries.take(i + 1).drop_last() =~= entries.take(i as int));
                sums_grow(self.deep_view(), i + 1, Seq::empty(), Seq::empty());
            }
            match sum.checked_add(self.ether[i]) {
                Some(more) => {
                    sum = more;
                },
                None => {
                    return None;
                },
            }
            i = i + 1;
        }
        assert(entries.take(entries.len() as int) =~= entries);
        Some(sum)
    }

    /// Adds up one token, where a `u128` can hold the sum.
    pub fn erc20_total(&self, token: &str) -> (r: Option<u128>)
        ensures
            r == fitted(erc20_sum(self.deep_view().erc20, token@)),
    {
        let ghost entries = self.deep_view().erc20;
        let mut sum: u128 = 0;
        let mut i: usize = 0;
        while i < self.erc20.len()
            invariant
                i <= self.erc20@.len(),
                entries == self.deep_view().erc20,
                sum == erc20_sum(entries.take(i as int), token@),
            decreases self.erc20@.len() - i,
        {
            let entry = &self.erc20[i];
            proof {
                assert(entries.take(i + 1).drop_last() =~= entries.take(i as int));
                assert(entries[i as int] == (entry.0@, entry.1));
                sums_grow(self.deep_view(), i + 1, token@, Seq::empty());
            }
            if *entry.0.as_str() == *token {
                match sum.checked_add(entry.1) {
                    Some(more) => {
                        sum = more;
                    },
                    None => {
                        return None;
                    },
                }
            }
            i = i + 1;
        }
        assert(entries.take(entries.len() as int) =~= entries);
        Some(sum)
    }

    /// Adds up one kind of item, where a `u128` can hold the sum.
    pub fn erc1155_total(&self, token: &str, token_id: &str) -> (r: Option<u128>)
        ensures
            r == fitted(erc1155_sum(self.deep_view().erc1155, token@, token_id@)),
    {
        let ghost entries = self.deep_view().erc1155;
        let mut sum: u128 = 0;
        let mut i: usize = 0;
        while i < self.erc1155.len()
            invariant
                i <= self.erc1155@.len(),
                entries == self.deep_view().erc1155,
                sum == erc1155_sum(entries.take(i as int), token@, token_id@),
            decreases self.erc1155@.len() - i,
        {
            let entry = &self.erc1155[i];
            proof {
                assert(entries.take(i + 1).drop_last() =~= entries.take(i as int));
                assert(entries[i as int] == (entry.0@, entry.1@, entry.2));
                sums_grow(self.deep_view(), i + 1, token@, token_id@);
            }
            if *entry.0.as_str() == *token && *entry.1.as_str() == *token_id {
                match sum.checked_add(entry.2) {
                    Some(more) => {
                        sum = more;
                    },
                    None => {
                        return None;
                    },
                }
            }
            i = i + 1;
        }
        assert(entries.take(entries.len() as int) =~= entries);
        Some(sum)
    }
}

} // verus!
