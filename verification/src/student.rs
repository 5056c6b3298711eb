//! Students and what they hold.

use vstd::prelude::*;
use crate::ledger::{erc1155_sum, erc20_sum, ether_sum, Ledger, LedgerModel};
use crate::text::contains_text;

verus! {

/// A student, known by a wallet.
#[derive(Clone, Debug)]
pub struct Student {
    pub name: String,
    pub registration_number: String,
    pub wallet_address: String,
    /// What the student brought in.
    pub deposits: Ledger,
    /// What the student took out, by vouchers.
    pub withdrawals: Ledger,
}

/// A student, with texts and entries as sequences.
pub struct StudentModel {
    pub name: Seq<char>,
    pub registration_number: Seq<char>,
    pub wallet_address: Seq<char>,
    pub deposits: LedgerModel,
    pub withdrawals: LedgerModel,
}

impl DeepView for Student {
    type V = StudentModel;

    open spec fn deep_view(&self) -> StudentModel {
        StudentModel {
            name: self.name@,
            registration_number: self.registration_number@,
            wallet_address: self.wallet_address@,
            deposits: self.deposits.deep_view(),
            withdrawals: self.withdrawals.deep_view(),
        }
    }
}

/// What is left of a sum: nothing where more is taken from it than it holds.
pub open spec fn left_of(sum: nat, taken: nat) -> nat {
    if taken <= sum {
        (sum - taken) as nat
    } else {
        0
    }
}

/// The ids of one collection that are in and not out, each once, in the order of their coming.
pub open spec fn held(
    came: Seq<(Seq<char>, Seq<char>)>,
    went: Seq<(Seq<char>, Seq<char>)>,
    token: Seq<char>,
) -> Seq<Seq<char>>
    decreases came.len(),
{
    if came.len() == 0 {
        Seq::empty()
    } else {
        let before = held(came.drop_last(), went, token);
        let (last_token, last_id) = came.last();
        if last_token == token && !went.contains((token, last_id)) && !before.contains(last_id) {
            before.push(last_id)
        } else {
            before
        }
    }
}

impl StudentModel {
    /// A student without any entries.
    pub open spec fn fresh(name: Seq<char>, reg: Seq<char>, wallet: Seq<char>) -> StudentModel {
        StudentModel {
            name,
            registration_number: reg,
            wallet_address: wallet,
            deposits: LedgerModel::empty(),
            withdrawals: LedgerModel::empty(),
        }
    }

    /// The Ether that is left.
    pub open spec fn ether_left(self) -> nat {
        left_of(ether_sum(self.deposits.ether), ether_sum(self.withdrawals.ether))
    }

    /// What is left of a token.
    pub open spec fn erc20_left(self, token: Seq<char>) -> nat {
        left_of(erc20_sum(self.deposits.erc20, token), erc20_sum(self.withdrawals.erc20, token))
    }

    /// The ids of a collection that are held.
    pub open spec fn held_ids(self, token: Seq<char>) -> Seq<Seq<char>> {
        held(self.deposits.erc721, self.withdrawals.erc721, token)
    }

    /// What is left of one kind of item.
    pub open spec fn erc1155_left(self, token: Seq<char>, token_id: Seq<char>) -> nat {
        left_of(
            erc1155_sum(self.deposits.erc1155, token, token_id),
            erc1155_sum(self.withdrawals.erc1155, token, token_id),
        )
    }

    /// Whether a `u128` can hold the sums of Ether.
    pub open spec fn ether_fits(self) -> bool {
        &&& ether_sum(self.deposits.ether) <= u128::MAX
        &&& ether_sum(self.withdrawals.ether) <= u128::MAX
    }

    /// Whether a `u128` can hold the sums of a token.
    pub open spec fn erc20_fits(self, token: Seq<char>) -> bool {
        &&& erc20_sum(self.deposits.erc20, token) <= u128::MAX
        &&& erc20_sum(self.withdrawals.erc20, token) <= u128::MAX
    }

    /// Whether a `u128` can hold the sums of one kind of item.
    pub open spec fn erc1155_fits(self, token: Seq<char>, token_id: Seq<char>) -> bool {
        &&& erc1155_sum(self.deposits.erc1155, token, token_id) <= u128::MAX
        &&& erc1155_sum(self.withdrawals.erc1155, token, token_id) <= u128::MAX
    }

    /// Whether a `u128` can hold every sum of what the student brought in, and of what went out of it.
    pub open spec fn totals_fit(self) -> bool {
        &&& self.ether_fits()
        &&& forall|i: int|
            0 <= i < self.deposits.erc20.len() ==> self.erc20_fits(
                (#[trigger] self.deposits.erc20[i]).0,
            )
        &&& forall|i: int|
            0 <= i < self.deposits.erc1155.len() ==> self.erc1155_fits(
                (#[trigger] self.deposits.erc1155[i]).0,
                self.deposits.erc1155[i].1,
            )
    }
}

/// Tells whether a pair of texts is among others.
pub(crate) fn contains_pair(pairs: &Vec<(String, String)>, first: &str, second: &str) -> (r: bool)
    ensures
        r == pairs.deep_view().contains((first@, second@)),
{
    let mut i: usize = 0;
    while i < pairs.len()
        invariant
            i <= pairs@.len(),
            forall|j: int| 0 <= j < i ==> pairs.deep_view()[j] != (first@, second@),
        decreases pairs@.len() - i,
    {
        let entry = &pairs[i];
        assert(pairs.deep_view()[i as int] == (entry.0@, entry.1@));
        if *entry.0.as_str() == *first && *entry.1.as_str() == *second {
            return true;
        }
        i = i + 1;
    }
    false
}

impl Student {
    /// A student without any entries.
    pub fn new(name: String, reg: String, wallet: String) -> (r: Student)
        ensures
            r.deep_view() == StudentModel::fresh(name@, reg@, wallet@),
    {
        Student {
            name,
            registration_number: reg,
            wallet_address: wallet,
            deposits: Ledger::new(),
            withdrawals: Ledger::new(),
        }
    }

    /// The Ether that the student can take out.
    pub fn ether_available(&self) -> (r: u128)
        requires
            self.deep_view().ether_fits(),
        ensures
            r == self.deep_view().ether_left(),
    {
        let came: u128 = self.deposits.ether_total().unwrap();
        let went: u128 = self.withdrawals.ether_total().unwrap();
        came.saturating_sub(went)
    }

    /// How much of a token the student can take out.
    pub fn erc20_available(&self, token: &str) -> (r: u128)
        requires
            self.deep_view().erc20_fits(token@),
        ensures
            r == self.deep_view().erc20_left(token@),
    {
        let came: u128 = self.deposits.erc20_total(token).unwrap();
        let went: u128 = self.withdrawals.erc20_total(token).unwrap();
        came.saturating_sub(went)
    }

    /// The ids of a collection that the student can take out, in the order of their coming.
    pub fn erc721_held_ids(&self, token: &str) -> (r: Vec<String>)
        ensures
            r.deep_view() == self.deep_view().held_ids(token@),
    {
        let ghost came = self.deep_view().deposits.erc721;
        let ghost went = self.deep_view().withdrawals.erc721;
        let mut r: Vec<String> = Vec::new();
        let mut i: usize = 0;
        assert(r.deep_view() =~= Seq::<Seq<char>>::empty());
        while i < self.deposits.erc721.len()
            invariant
                i <= self.deposits.erc721@.len(),
                came == self.deep_view().deposits.erc721,
                went == self.deep_view().withdrawals.erc721,
                r.deep_view() == held(came.take(i as int), went, token@),
            decreases self.deposits.erc721@.len() - i,
        {
            let entry = &self.deposits.erc721[i];
            proof {
                assert(came.take(i + 1).drop_last() =~= came.take(i as int));
                assert(came.take(i + 1).last() == (entry.0@, entry.1@));
            }
            let ghost before = r.deep_view();
            if *entry.0.as_str() == *token && !contains_pair(
                &self.withdrawals.erc721,
                token,
                entry.1.as_str(),
            ) && !contains_text(&r, entry.1.as_str()) {
                r.push(entry.1.clone());
                assert(r.deep_view() =~= before.push(entry.1@));
            }
            i = i + 1;
        }
        assert(came.take(came.len() as int) =~= came);
        r
    }

    /// How many of one kind of item the student can take out.
    pub fn erc1155_available(&self, token: &str, token_id: &str) -> (r: u128)
        requires
            self.deep_view().erc1155_fits(token@, token_id@),
        ensures
            r == self.deep_view().erc1155_left(token@, token_id@),
    {
        let came: u128 = self.deposits.erc1155_total(token, token_id).unwrap();
        let went: u128 = self.withdrawals.erc1155_total(token, token_id).unwrap();
        came.saturating_sub(went)
    }
}

} // verus!
