//! The state of the application: the students, the portals, and the counters.

use vstd::prelude::*;
use crate::decision::objection;
use crate::laws::{deposit_keeps_soundness, student_put_and_found, withdrawal_keeps_soundness};
use crate::ledger::{erc1155_sum, erc20_sum, ether_sum, Asset, AssetModel};
use crate::student::{Student, StudentModel};
use crate::text::{chars_of, lowercase, lowercased, text_between};

verus! {

/// The Ether portal that is used where none is configured.
pub const DEFAULT_ETHER_PORTAL: &'static str = "0xa632c5c05812c6a6149b7af5c56117d1d2603828";

/// The state of the application. No two students have the same wallet.
pub struct AppState {
    /// The students, in the order in which they became known.
    pub students: Vec<Student>,
    pub ether_portal: String,
    pub erc20_portal: String,
    pub erc721_portal: String,
    pub erc1155_portal: String,
    /// The address of the application's own contract, once it is known.
    pub app_contract: Option<String>,
    pub total_inputs: u64,
    pub total_notices: u64,
    pub total_vouchers: u64,
}

/// The state of the application, with texts and students as sequences.
pub struct StateModel {
    pub students: Seq<StudentModel>,
    pub ether_portal: Seq<char>,
    pub erc20_portal: Seq<char>,
    pub erc721_portal: Seq<char>,
    pub erc1155_portal: Seq<char>,
    pub app_contract: Option<Seq<char>>,
    pub total_inputs: u64,
    pub total_notices: u64,
    pub total_vouchers: u64,
}

impl DeepView for AppState {
    type V = StateModel;

    open spec fn deep_view(&self) -> StateModel {
        StateModel {
            students: self.students.deep_view(),
            ether_portal: self.ether_portal@,
            erc20_portal: self.erc20_portal@,
            erc721_portal: self.erc721_portal@,
            erc1155_portal: self.erc1155_portal@,
            app_contract: self.app_contract.deep_view(),
            total_inputs: self.total_inputs,
            total_notices: self.total_notices,
            total_vouchers: self.total_vouchers,
        }
    }
}

/// Where the student with a wallet stands, or the number of students where there is none.
pub open spec fn place_of(students: Seq<StudentModel>, wallet: Seq<char>) -> nat
    decreases students.len(),
{
    if students.len() == 0 {
        0
    } else if students[0].wallet_address == wallet {
        0
    } else {
        1 + place_of(students.drop_first(), wallet)
    }
}

/// The student who becomes known by a deposit alone, named after the wallet.
pub open spec fn unknown_student(wallet: Seq<char>) -> StudentModel {
    StudentModel::fresh(
        "Unknown("@ + wallet.take(10) + ")"@,
        "AUTO-"@ + wallet.subrange(2, 10),
        wallet,
    )
}

impl StudentModel {
    /// Whether no more went out than came in: of Ether, of any token and of any kind of item; and
    /// every item that went out came in, and went out once.
    pub open spec fn solvent(self) -> bool {
        &&& ether_sum(self.withdrawals.ether) <= ether_sum(self.deposits.ether)
        &&& forall|token: Seq<char>|
            #[trigger] erc20_sum(self.withdrawals.erc20, token) <= erc20_sum(
                self.deposits.erc20,
                token,
            )
        &&& forall|token: Seq<char>, token_id: Seq<char>|
            #[trigger] erc1155_sum(self.withdrawals.erc1155, token, token_id) <= erc1155_sum(
                self.deposits.erc1155,
                token,
                token_id,
            )
        &&& forall|i: int|
            0 <= i < self.withdrawals.erc721.len() ==> self.deposits.erc721.contains(
                #[trigger] self.withdrawals.erc721[i],
            )
        &&& self.withdrawals.erc721.no_duplicates()
    }
}

impl StateModel {
    /// The student with a wallet.
    pub open spec fn student(self, wallet: Seq<char>) -> Option<StudentModel> {
        let place = place_of(self.students, wallet);
        if place < self.students.len() {
            Some(self.students[place as int])
        } else {
            None
        }
    }

    /// The state with a student in place of the one with the same wallet, or behind the others.
    pub open spec fn with_student(self, student: StudentModel) -> StateModel {
        let place = place_of(self.students, student.wallet_address);
        StateModel {
            students: if place < self.students.len() {
                self.students.update(place as int, student)
            } else {
                self.students.push(student)
            },
            ..self
        }
    }

    /// The application's own contract, or an empty text where it is not known.
    pub open spec fn own_address(self) -> Seq<char> {
        match self.app_contract {
            Some(address) => address,
            None => Seq::empty(),
        }
    }

    /// The state where an address of the application's own contract is learnt: the first one stays.
    pub open spec fn with_contract(self, address: Seq<char>) -> StateModel {
        if self.app_contract is None {
            StateModel { app_contract: Some(address), ..self }
        } else {
            self
        }
    }

    /// The state once an input has come, which may name the application's own contract.
    pub open spec fn with_input(self, named: Seq<char>) -> StateModel {
        let counted = StateModel { total_inputs: (self.total_inputs + 1) as u64, ..self };
        if named.len() > 0 {
            counted.with_contract(named)
        } else {
            counted
        }
    }

    /// The state once an asset has come in for a wallet, whose student becomes known by that.
    pub open spec fn with_deposit(self, wallet: Seq<char>, asset: AssetModel) -> StateModel {
        let student = match self.student(wallet) {
            Some(student) => student,
            None => unknown_student(wallet),
        };
        self.with_student(StudentModel { deposits: student.deposits.with(asset), ..student })
    }

    /// The state once an asset has gone out to a wallet of a student.
    pub open spec fn with_withdrawal(self, wallet: Seq<char>, asset: AssetModel) -> StateModel {
        match self.student(wallet) {
            Some(student) => self.with_student(
                StudentModel { withdrawals: student.withdrawals.with(asset), ..student },
            ),
            None => self,
        }
    }

    /// Whether no two students have the same wallet.
    pub open spec fn wallets_differ(self) -> bool {
        forall|i: int, j: int|
            0 <= i < j < self.students.len() ==> (#[trigger] self.students[i]).wallet_address != (
            #[trigger] self.students[j]).wallet_address
    }

    /// Whether the state is one that the application can reach: no two students have the same
    /// wallet, and no student took out more than came in.
    pub open spec fn sound(self) -> bool {
        &&& self.wallets_differ()
        &&& forall|i: int| 0 <= i < self.students.len() ==> (#[trigger] self.students[i]).solvent()
    }
}

/// The place that is found holds the wallet, and no place before it does.
pub proof fn place_found(students: Seq<StudentModel>, wallet: Seq<char>)
    ensures
        place_of(students, wallet) <= students.len(),
        place_of(students, wallet) < students.len() ==> students[place_of(
            students,
            wallet,
        ) as int].wallet_address == wallet,
        forall|i: int|
            0 <= i < place_of(students, wallet) ==> (#[trigger] students[i]).wallet_address != wallet,
    decreases students.len(),
{
    if students.len() > 0 && students[0].wallet_address != wallet {
        let rest = students.drop_first();
        place_found(rest, wallet);
        assert forall|i: int| 0 <= i < place_of(students, wallet) implies (
        #[trigger] students[i]).wallet_address != wallet by {
            if i > 0 {
                assert(students[i] == rest[i - 1]);
            }
        }
    }
}

/// A place that holds the wallet, where no place before it does, is the one that is found.
pub proof fn place_fixed(students: Seq<StudentModel>, wallet: Seq<char>, place: int)
    requires
        0 <= place <= students.len(),
        place < students.len() ==> students[place].wallet_address == wallet,
        forall|i: int| 0 <= i < place ==> (#[trigger] students[i]).wallet_address != wallet,
    ensures
        place_of(students, wallet) == place,
{
    place_found(students, wallet);
    let found = place_of(students, wallet) as int;
    if found < place {
        assert(students[found].wallet_address == wallet);
    }
}

impl AppState {
    /// The state before the first input, with the addresses of the portals in small letters.
    pub fn new(
        ether_portal: Option<&str>,
        erc20_portal: &str,
        erc721_portal: &str,
        erc1155_portal: &str,
    ) -> (r: AppState)
        ensures
            r.deep_view() == (StateModel {
                students: Seq::empty(),
                ether_portal: lowercased(
                    match ether_portal {
                        Some(address) => address@,
                        None => DEFAULT_ETHER_PORTAL@,
                    },
                ),
                erc20_portal: lowercased(erc20_portal@),
                erc721_portal: lowercased(erc721_portal@),
                erc1155_portal: lowercased(erc1155_portal@),
                app_contract: None,
                total_inputs: 0,
                total_notices: 0,
                total_vouchers: 0,
            }),
            r.deep_view().sound(),
    {
        let ether_address = match ether_portal {
            Some(address) => address,
            None => DEFAULT_ETHER_PORTAL,
        };
        let r = AppState {
            students: Vec::new(),
            ether_portal: lowercase(ether_address),
            erc20_portal: lowercase(erc20_portal),
            erc721_portal: lowercase(erc721_portal),
            erc1155_portal: lowercase(erc1155_portal),
            app_contract: None,
            total_inputs: 0,
            total_notices: 0,
            total_vouchers: 0,
        };
        assert(r.students.deep_view() =~= Seq::empty());
        r
    }

    /// Looks for the student with a wallet.
    pub fn find(&self, wallet: &str) -> (r: Option<usize>)
        ensures
            (match r {
                Some(place) => place < self.students@.len() && place == place_of(
                    self.deep_view().students,
                    wallet@,
                ),
                None => place_of(self.deep_view().students, wallet@) == self.students@.len(),
            }),
    {
        let ghost students = self.deep_view().students;
        let mut i: usize = 0;
        while i < self.students.len()
            invariant
                i <= self.students@.len(),
                students == self.deep_view().students,
                forall|j: int| 0 <= j < i ==> (#[trigger] students[j]).wallet_address != wallet@,
            decreases self.students@.len() - i,
        {
            if *self.students[i].wallet_address.as_str() == *wallet {
                proof {
                    place_fixed(students, wallet@, i as int);
                }
                return Some(i);
            }
            i = i + 1;
        }
        proof {
            place_fixed(students, wallet@, i as int);
        }
        None
    }

    /// Counts an input, and learns the application's own contract from it where it was not known.
    pub fn begin_input(&mut self, named: &str)
        requires
            old(self).total_inputs < u64::MAX,
        ensures
            final(self).deep_view() == old(self).deep_view().with_input(named@),
            old(self).deep_view().sound() ==> final(self).deep_view().sound(),
    {
        self.total_inputs = self.total_inputs + 1;
        if !named.is_empty() {
            self.learn_contract(named);
        }
    }

    /// Learns the application's own contract where it was not known.
    pub fn learn_contract(&mut self, address: &str)
        ensures
            final(self).deep_view() == old(self).deep_view().with_contract(address@),
            old(self).deep_view().sound() ==> final(self).deep_view().sound(),
    {
        if self.app_contract.is_none() {
            self.app_contract = Some(address.to_owned());
        }
    }

    /// Puts a student behind the others.
    pub fn enrol(&mut self, student: Student)
        requires
            old(self).deep_view().student(student.wallet_address@) is None,
        ensures
            final(self).deep_view() == old(self).deep_view().with_student(student.deep_view()),
            old(self).deep_view().sound() && student.deep_view().solvent()
                ==> final(self).deep_view().sound(),
    {
        let ghost before = self.students.deep_view();
        let ghost model = student.deep_view();
        proof {
            student_put_and_found(self.deep_view(), model, model.wallet_address);
        }
        self.students.push(student);
        assert(self.students.deep_view() =~= before.push(model));
        proof {
            place_found(before, model.wallet_address);
        }
    }

    /// Records an asset that came in for a wallet.
    pub fn deposit(&mut self, wallet: &str, asset: &Asset)
        requires
            wallet@.len() >= 10,
        ensures
            final(self).deep_view() == old(self).deep_view().with_deposit(
                wallet@,
                asset.deep_view(),
            ),
            old(self).deep_view().sound() ==> final(self).deep_view().sound(),
    {
        proof {
            if self.deep_view().sound() {
                deposit_keeps_soundness(self.deep_view(), wallet@, asset.deep_view());
            }
        }
        let ghost before = self.students.deep_view();
        proof {
            place_found(before, wallet@);
        }
        match self.find(wallet) {
            Some(place) => {
                self.students[place].deposits.record(asset);
                assert(self.students.deep_view() =~= before.update(
                    place as int,
                    StudentModel {
                        deposits: before[place as int].deposits.with(asset.deep_view()),
                        ..before[place as int]
                    },
                ));
            },
            None => {
                let chars = chars_of(wallet);
                let mut name = "Unknown(".to_owned();
                name.append(text_between(&chars, 0, 10).as_str());
                name.append(")");
                let mut number = "AUTO-".to_owned();
                number.append(text_between(&chars, 2, 10).as_str());
                let mut student = Student::new(name, number, wallet.to_owned());
                assert(wallet@.subrange(0, 10) =~= wallet@.take(10));
                student.deposits.record(asset);
                let ghost model = student.deep_view();
                self.students.push(student);
                assert(self.students.deep_view() =~= before.push(model));
            },
        }
    }

    /// Records an asset that goes out to a wallet.
    pub fn withdraw(&mut self, wallet: &str, asset: &Asset)
        ensures
            final(self).deep_view() == old(self).deep_view().with_withdrawal(
                wallet@,
                asset.deep_view(),
            ),
            old(self).deep_view().sound() && (old(self).deep_view().student(wallet@) matches Some(
                student,
            ) ==> objection(
                student,
                old(self).deep_view().own_address(),
                wallet@,
                asset.deep_view(),
            ) is None) ==> final(self).deep_view().sound(),
    {
        proof {
            if self.deep_view().sound() {
                withdrawal_keeps_soundness(self.deep_view(), wallet@, asset.deep_view());
            }
        }
        let ghost before = self.students.deep_view();
        proof {
            place_found(before, wallet@);
        }
        if let Some(place) = self.find(wallet) {
            self.students[place].withdrawals.record(asset);
            assert(self.students.deep_view() =~= before.update(
                place as int,
                StudentModel {
                    withdrawals: before[place as int].withdrawals.with(asset.deep_view()),
                    ..before[place as int]
                },
            ));
        }
    }
}

} // verus!
