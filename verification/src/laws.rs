//! What holds of the state in the long run, whatever inputs come.

use vstd::prelude::*;
use vstd::utf8::{decode_utf8, valid_utf8};
use crate::advance::{advanced, answers, verdict};
use crate::decision::{
    deposit_in, least_bytes, objection, payload_text, portal_of, wanted_asset, withdrawal,
    DecisionModel, Portal, RefusalModel,
};
use crate::document::{parsed, readable};
use crate::hex::{hex_digits, marked_hex, spelt_bytes, unmarked};
use crate::input::{action_in, input_in, ActionModel, InputModel};
use crate::inspect::{activity_report, is_registered, report_on, student_report};
use crate::ledger::{erc1155_sum, erc20_sum, ether_sum, AssetModel, LedgerModel};
use crate::message::{asset_kind, refusal_report, voucher_for, EmissionModel};
use crate::request::{reaction, request_type};
use crate::round_trips::{
    address_is_a_wallet, amount_reads_back, digits_are_small, token_id_is_normal,
};
use crate::state::{place_fixed, place_found, place_of, unknown_student, StateModel};
use crate::student::{held, StudentModel};
use crate::text::{after, ascii_small, decimal, lowercased};

verus! {

// ---- Ledgers and balances ----

/// How much Ether an asset is.
pub open spec fn ether_in(asset: AssetModel) -> nat {
    match asset {
        AssetModel::Ether { amount } => amount as nat,
        _ => 0,
    }
}

/// How much of a token an asset is.
pub open spec fn erc20_in(asset: AssetModel, wanted: Seq<char>) -> nat {
    match asset {
        AssetModel::Erc20 { token, amount } => if token == wanted {
            amount as nat
        } else {
            0
        },
        _ => 0,
    }
}

/// How many of one kind of item an asset is.
pub open spec fn erc1155_in(asset: AssetModel, wanted: Seq<char>, wanted_id: Seq<char>) -> nat {
    match asset {
        AssetModel::Erc1155 { token, token_id, amount } => if token == wanted && token_id
            == wanted_id {
            amount as nat
        } else {
            0
        },
        _ => 0,
    }
}

/// One more entry in a ledger raises the sums by what the asset is, and by nothing else.
pub proof fn entry_adds_up(
    ledger: LedgerModel,
    asset: AssetModel,
    token: Seq<char>,
    token_id: Seq<char>,
)
    ensures
        ether_sum(ledger.with(asset).ether) == ether_sum(ledger.ether) + ether_in(asset),
        erc20_sum(ledger.with(asset).erc20, token) == erc20_sum(ledger.erc20, token) + erc20_in(
            asset,
            token,
        ),
        erc1155_sum(ledger.with(asset).erc1155, token, token_id) == erc1155_sum(
            ledger.erc1155,
            token,
            token_id,
        ) + erc1155_in(asset, token, token_id),
{
    match asset {
        AssetModel::Ether { amount } => {
            assert(ledger.ether.push(amount).drop_last() =~= ledger.ether);
        },
        AssetModel::Erc20 { token: t, amount } => {
            assert(ledger.erc20.push((t, amount)).drop_last() =~= ledger.erc20);
        },
        AssetModel::Erc721 { .. } => {},
        AssetModel::Erc1155 { token: t, token_id: id, amount } => {
            assert(ledger.erc1155.push((t, id, amount)).drop_last() =~= ledger.erc1155);
        },
    }
}

proof fn held_told(
    came: Seq<(Seq<char>, Seq<char>)>,
    went: Seq<(Seq<char>, Seq<char>)>,
    token: Seq<char>,
    token_id: Seq<char>,
)
    ensures
        held(came, went, token).contains(token_id) == (came.contains((token, token_id))
            && !went.contains((token, token_id))),
        held(came, went, token).no_duplicates(),
    decreases came.len(),
{
    if came.len() > 0 {
        let rest = came.drop_last();
        let before = held(rest, went, token);
        let (last_token, last_id) = came.last();
        held_told(rest, went, token, token_id);
        assert(came =~= rest.push((last_token, last_id)));
        assert(came.contains((token, token_id)) == (rest.contains((token, token_id)) || (
        last_token == token && last_id == token_id))) by {
            if rest.contains((token, token_id)) {
                let i = choose|i: int| 0 <= i < rest.len() && rest[i] == (token, token_id);
                assert(came[i] == (token, token_id));
            }
            if came.contains((token, token_id)) {
                let i = choose|i: int| 0 <= i < came.len() && came[i] == (token, token_id);
                if i < rest.len() {
                    assert(rest[i] == (token, token_id));
                }
            }
            assert(came[came.len() - 1] == (last_token, last_id));
        }
        if last_token == token && !went.contains((token, last_id)) && !before.contains(last_id) {
            let now = before.push(last_id);
            assert(now.contains(token_id) == (before.contains(token_id) || last_id == token_id)) by {
                if before.contains(token_id) {
                    let i = choose|i: int| 0 <= i < before.len() && before[i] == token_id;
                    assert(now[i] == token_id);
                }
                if now.contains(token_id) {
                    let i = choose|i: int| 0 <= i < now.len() && now[i] == token_id;
                    if i < before.len() {
                        assert(before[i] == token_id);
                    }
                }
                assert(now[now.len() - 1] == last_id);
            }
            assert(now.no_duplicates());
        }
    }
}

/// A student holds exactly the items that came in and have never gone out, each listed once.
pub proof fn held_items_came_and_stayed(
    student: StudentModel,
    token: Seq<char>,
    token_id: Seq<char>,
)
    ensures
        student.held_ids(token).contains(token_id) == (student.deposits.erc721.contains(
            (token, token_id),
        ) && !student.withdrawals.erc721.contains((token, token_id))),
        student.held_ids(token).no_duplicates(),
{
    held_told(student.deposits.erc721, student.withdrawals.erc721, token, token_id);
}

/// Of a solvent student, what is left and what went out add up to what came in.
pub proof fn balances_add_up(student: StudentModel, token: Seq<char>, token_id: Seq<char>)
    requires
        student.solvent(),
    ensures
        student.ether_left() + ether_sum(student.withdrawals.ether) == ether_sum(
            student.deposits.ether,
        ),
        student.erc20_left(token) + erc20_sum(student.withdrawals.erc20, token) == erc20_sum(
            student.deposits.erc20,
            token,
        ),
        student.erc1155_left(token, token_id) + erc1155_sum(
            student.withdrawals.erc1155,
            token,
            token_id,
        ) == erc1155_sum(student.deposits.erc1155, token, token_id),
{
    assert(erc20_sum(student.withdrawals.erc20, token) <= erc20_sum(student.deposits.erc20, token));
    assert(erc1155_sum(student.withdrawals.erc1155, token, token_id) <= erc1155_sum(
        student.deposits.erc1155,
        token,
        token_id,
    ));
}

/// The student with one more entry of what came in.
pub open spec fn credited(student: StudentModel, asset: AssetModel) -> StudentModel {
    StudentModel { deposits: student.deposits.with(asset), ..student }
}

/// The student with one more entry of what went out.
pub open spec fn debited(student: StudentModel, asset: AssetModel) -> StudentModel {
    StudentModel { withdrawals: student.withdrawals.with(asset), ..student }
}

/// What comes in raises what is left of that asset by its amount, and changes no other balance.
pub proof fn deposit_raises_balances(
    student: StudentModel,
    asset: AssetModel,
    token: Seq<char>,
    token_id: Seq<char>,
)
    requires
        student.solvent(),
    ensures
        credited(student, asset).solvent(),
        credited(student, asset).ether_left() == student.ether_left() + ether_in(asset),
        credited(student, asset).erc20_left(token) == student.erc20_left(token) + erc20_in(
            asset,
            token,
        ),
        credited(student, asset).erc1155_left(token, token_id) == student.erc1155_left(
            token,
            token_id,
        ) + erc1155_in(asset, token, token_id),
{
    let after = credited(student, asset);
    entry_adds_up(student.deposits, asset, token, token_id);
    assert forall|t: Seq<char>|
        #[trigger] erc20_sum(after.withdrawals.erc20, t) <= erc20_sum(after.deposits.erc20, t) by {
        entry_adds_up(student.deposits, asset, t, token_id);
    }
    assert forall|t: Seq<char>, id: Seq<char>|
        #[trigger] erc1155_sum(after.withdrawals.erc1155, t, id) <= erc1155_sum(
            after.deposits.erc1155,
            t,
            id,
        ) by {
        entry_adds_up(student.deposits, asset, t, id);
    }
    assert forall|i: int| 0 <= i < after.withdrawals.erc721.len() implies after.deposits.erc721.contains(
        #[trigger] after.withdrawals.erc721[i],
    ) by {
        let entry = student.withdrawals.erc721[i];
        let j = choose|j: int|
            0 <= j < student.deposits.erc721.len() && student.deposits.erc721[j] == entry;
        assert(after.deposits.erc721[j] == entry);
    }
    assert(erc20_sum(student.withdrawals.erc20, token) <= erc20_sum(student.deposits.erc20, token));
    assert(erc1155_sum(student.withdrawals.erc1155, token, token_id) <= erc1155_sum(
        student.deposits.erc1155,
        token,
        token_id,
    ));
}

/// Where nothing stands against taking an asset out, it is covered: what is left of that asset falls
/// by exactly its amount, no other balance changes, and an item that goes out is held no longer.
pub proof fn withdrawal_lowers_balances(
    student: StudentModel,
    own_address: Seq<char>,
    wallet: Seq<char>,
    asset: AssetModel,
    token: Seq<char>,
    token_id: Seq<char>,
)
    requires
        student.solvent(),
        objection(student, own_address, wallet, asset) is None,
    ensures
        debited(student, asset).solvent(),
        debited(student, asset).ether_left() + ether_in(asset) == student.ether_left(),
        debited(student, asset).erc20_left(token) + erc20_in(asset, token) == student.erc20_left(
            token,
        ),
        debited(student, asset).erc1155_left(token, token_id) + erc1155_in(asset, token, token_id)
            == student.erc1155_left(token, token_id),
        debited(student, asset).held_ids(token).contains(token_id) == (student.held_ids(
            token,
        ).contains(token_id) && asset != (AssetModel::Erc721 { token, token_id })),
{
    let after = debited(student, asset);
    let went = student.withdrawals.erc721;
    entry_adds_up(student.withdrawals, asset, token, token_id);
    assert(erc20_sum(student.withdrawals.erc20, token) <= erc20_sum(student.deposits.erc20, token));
    assert(erc1155_sum(student.withdrawals.erc1155, token, token_id) <= erc1155_sum(
        student.deposits.erc1155,
        token,
        token_id,
    ));
    assert forall|t: Seq<char>|
        #[trigger] erc20_sum(after.withdrawals.erc20, t) <= erc20_sum(after.deposits.erc20, t) by {
        entry_adds_up(student.withdrawals, asset, t, token_id);
        assert(erc20_sum(student.withdrawals.erc20, t) <= erc20_sum(student.deposits.erc20, t));
    }
    assert forall|t: Seq<char>, id: Seq<char>|
        #[trigger] erc1155_sum(after.withdrawals.erc1155, t, id) <= erc1155_sum(
            after.deposits.erc1155,
            t,
            id,
        ) by {
        entry_adds_up(student.withdrawals, asset, t, id);
        assert(erc1155_sum(student.withdrawals.erc1155, t, id) <= erc1155_sum(
            student.deposits.erc1155,
            t,
            id,
        ));
    }
    if let AssetModel::Erc721 { token: t, token_id: id } = asset {
        held_items_came_and_stayed(student, t, id);
        assert(after.withdrawals.erc721 =~= went.push((t, id)));
        assert forall|i: int, j: int|
            0 <= i < j < after.withdrawals.erc721.len() implies after.withdrawals.erc721[i]
            != after.withdrawals.erc721[j] by {
            if j == went.len() {
                assert(went[i] != (t, id));
            }
        }
    }
    held_items_came_and_stayed(student, token, token_id);
    held_items_came_and_stayed(after, token, token_id);
    assert(after.withdrawals.erc721.contains((token, token_id)) == (went.contains(
        (token, token_id),
    ) || asset == (AssetModel::Erc721 { token, token_id }))) by {
        if went.contains((token, token_id)) {
            let i = choose|i: int| 0 <= i < went.len() && went[i] == (token, token_id);
            assert(after.withdrawals.erc721[i] == (token, token_id));
        }
        if asset == (AssetModel::Erc721 { token, token_id }) {
            assert(after.withdrawals.erc721[went.len() as int] == (token, token_id));
        }
    }
}

// ---- Students ----

/// The student who is found under a wallet has that wallet.
pub proof fn found_student_has_wallet(state: StateModel, wallet: Seq<char>)
    ensures
        state.student(wallet) matches Some(student) ==> student.wallet_address == wallet,
{
    place_found(state.students, wallet);
}

/// A student who is put into the state is found there under the own wallet, and no other wallet is
/// touched. Students who were all different and solvent stay so.
pub proof fn student_put_and_found(state: StateModel, student: StudentModel, wallet: Seq<char>)
    ensures
        state.with_student(student).student(wallet) == (if wallet == student.wallet_address {
            Some(student)
        } else {
            state.student(wallet)
        }),
        state.wallets_differ() ==> state.with_student(student).wallets_differ(),
        state.sound() && student.solvent() ==> state.with_student(student).sound(),
{
    let before = state.students;
    let after = state.with_student(student).students;
    let own = student.wallet_address;
    place_found(before, own);
    place_found(before, wallet);
    let put = place_of(before, own) as int;
    let place = place_of(before, wallet) as int;
    if wallet == own {
        place_fixed(after, wallet, put);
    } else if place < before.len() {
        place_fixed(after, wallet, place);
    } else {
        place_fixed(after, wallet, after.len() as int);
    }
    if state.wallets_differ() {
        assert forall|i: int, j: int| 0 <= i < j < after.len() implies (
        #[trigger] after[i]).wallet_address != (#[trigger] after[j]).wallet_address by {
            if j < before.len() {
                assert(before[i].wallet_address != before[j].wallet_address);
            }
        }
    }
}

/// The balances under a wallet, also where no student is known by it.
pub open spec fn account(state: StateModel, wallet: Seq<char>) -> StudentModel {
    match state.student(wallet) {
        Some(student) => student,
        None => unknown_student(wallet),
    }
}

/// An account of a sound state is solvent.
pub proof fn accounts_are_solvent(state: StateModel, wallet: Seq<char>)
    requires
        state.sound(),
    ensures
        account(state, wallet).solvent(),
        account(state, wallet).wallet_address == wallet,
{
    place_found(state.students, wallet);
}

/// A deposit for any wallet keeps the state sound.
pub proof fn deposit_keeps_soundness(state: StateModel, wallet: Seq<char>, asset: AssetModel)
    requires
        state.sound(),
    ensures
        state.with_deposit(wallet, asset).sound(),
{
    accounts_are_solvent(state, wallet);
    let before = account(state, wallet);
    deposit_raises_balances(before, asset, Seq::empty(), Seq::empty());
    student_put_and_found(state, credited(before, asset), wallet);
}

/// A withdrawal that nothing stands against keeps the state sound.
pub proof fn withdrawal_keeps_soundness(state: StateModel, wallet: Seq<char>, asset: AssetModel)
    requires
        state.sound(),
    ensures
        (state.student(wallet) matches Some(student) ==> objection(
            student,
            state.own_address(),
            wallet,
            asset,
        ) is None) ==> state.with_withdrawal(wallet, asset).sound(),
{
    if let Some(student) = state.student(wallet) {
        if objection(student, state.own_address(), wallet, asset) is None {
            accounts_are_solvent(state, wallet);
            withdrawal_lowers_balances(
                student,
                state.own_address(),
                wallet,
                asset,
                Seq::empty(),
                Seq::empty(),
            );
            student_put_and_found(state, debited(student, asset), wallet);
        }
    }
}

// ---- Single inputs ----

/// Whatever input comes, the state stays sound: no two students have the same wallet, and nobody takes
/// out more than came in.
pub proof fn soundness_is_kept(state: StateModel, input: InputModel)
    requires
        state.sound(),
    ensures
        advanced(state, input).sound(),
{
    let counted = state.with_input(input.app_contract);
    assert(counted.students == state.students);
    match verdict(state, input) {
        DecisionModel::Deposit(deposit) => {
            deposit_keeps_soundness(counted, deposit.depositor, deposit.asset);
        },
        DecisionModel::Register { name, reg_number } => {
            let student = StudentModel::fresh(name, reg_number, input.msg_sender);
            student_put_and_found(counted, student, input.msg_sender);
        },
        DecisionModel::Withdraw(asset) => {
            withdrawal_keeps_soundness(counted, input.msg_sender, asset);
        },
        _ => {},
    }
}

/// Whatever input comes, it is counted once, the portals stay, and nothing is counted as sent.
pub proof fn input_is_counted(state: StateModel, input: InputModel)
    requires
        state.total_inputs < u64::MAX,
    ensures
        advanced(state, input).total_inputs == state.total_inputs + 1,
        advanced(state, input).ether_portal == state.ether_portal,
        advanced(state, input).erc20_portal == state.erc20_portal,
        advanced(state, input).erc721_portal == state.erc721_portal,
        advanced(state, input).erc1155_portal == state.erc1155_portal,
        advanced(state, input).total_notices == state.total_notices,
        advanced(state, input).total_vouchers == state.total_vouchers,
{
}

/// Once the application's own contract is known, no input changes it; and the first input that names
/// it makes it known.
pub proof fn contract_is_learnt_once(state: StateModel, input: InputModel)
    ensures
        state.app_contract is Some ==> advanced(state, input).app_contract == state.app_contract,
        state.app_contract is None && input.app_contract.len() > 0 ==> advanced(
            state,
            input,
        ).app_contract == Some(input.app_contract),
        state.app_contract is None && input.app_contract.len() == 0 && !(verdict(state, input) is Relay)
            ==> advanced(state, input).app_contract is None,
{
}

/// An input that is refused changes no student and sends nothing but the report of the refusal, which
/// must arrive.
pub proof fn refusal_changes_nothing(state: StateModel, input: InputModel)
    requires
        verdict(state, input) is Refuse,
    ensures
        advanced(state, input) == state.with_input(input.app_contract),
        advanced(state, input).students == state.students,
        answers(state, input) == seq![
            EmissionModel::Report {
                payload: refusal_report(
                    input.input_index,
                    verdict(state, input)->Refuse_0,
                ),
                required: true,
            },
        ],
{
}

/// Notices and vouchers can be counted as long as their own counter is not full; reports need none.
pub proof fn sending_can_be_counted(state: StateModel, a: Seq<char>, b: Seq<char>, required: bool)
    ensures
        state.can_count(EmissionModel::Notice { payload: a }) == (state.total_notices < u64::MAX),
        state.can_count(EmissionModel::Voucher { destination: a, calldata: b }) == (
        state.total_vouchers < u64::MAX),
        state.can_count(EmissionModel::Report { payload: a, required }),
{
}

/// How many of what is sent are notices.
pub open spec fn notices(sent: Seq<EmissionModel>) -> nat {
    sent.filter(|emission: EmissionModel| emission is Notice).len()
}

/// How many of what is sent are vouchers.
pub open spec fn vouchers(sent: Seq<EmissionModel>) -> nat {
    sent.filter(|emission: EmissionModel| emission is Voucher).len()
}

/// How many of what is sent are reports.
pub open spec fn reports(sent: Seq<EmissionModel>) -> nat {
    sent.filter(|emission: EmissionModel| emission is Report).len()
}

/// Every input is reported on once. An input that is accepted is noticed once, and one that is refused
/// is not. A voucher is made where something is taken out, and nowhere else.
pub proof fn answers_are_counted(state: StateModel, input: InputModel)
    ensures
        reports(answers(state, input)) == 1,
        notices(answers(state, input)) == (if verdict(state, input) is Refuse {
            0nat
        } else {
            1nat
        }),
        vouchers(answers(state, input)) == (if verdict(state, input) is Withdraw {
            1nat
        } else {
            0nat
        }),
        answers(state, input).last() matches EmissionModel::Report { required, .. } && required
            == verdict(state, input) is Refuse,
{
    reveal_with_fuel(Seq::filter, 4);
}

/// Whether a ledger holds all that another holds, with what was added behind it.
pub open spec fn continues(before: LedgerModel, after: LedgerModel) -> bool {
    &&& before.ether.is_prefix_of(after.ether)
    &&& before.erc20.is_prefix_of(after.erc20)
    &&& before.erc721.is_prefix_of(after.erc721)
    &&& before.erc1155.is_prefix_of(after.erc1155)
}

/// Whether a student is still the same, with ledgers that only grew.
pub open spec fn lives_on(before: StudentModel, after: StudentModel) -> bool {
    &&& before.name == after.name
    &&& before.registration_number == after.registration_number
    &&& before.wallet_address == after.wallet_address
    &&& continues(before.deposits, after.deposits)
    &&& continues(before.withdrawals, after.withdrawals)
}

proof fn entry_continues(ledger: LedgerModel, asset: AssetModel)
    ensures
        continues(ledger, ledger),
        continues(ledger, ledger.with(asset)),
{
}

/// Whose account an input touches.
pub open spec fn touched(state: StateModel, input: InputModel) -> Option<Seq<char>> {
    match verdict(state, input) {
        DecisionModel::Deposit(deposit) => Some(deposit.depositor),
        DecisionModel::Register { .. } => Some(input.msg_sender),
        DecisionModel::Withdraw(_) => Some(input.msg_sender),
        _ => None,
    }
}

/// A student who is known stays known, under the same name and number, and no entry is ever lost or
/// changed. An input touches one account at the most.
pub proof fn students_live_on(state: StateModel, input: InputModel, wallet: Seq<char>)
    ensures
        state.student(wallet) matches Some(before) ==> advanced(state, input).student(
            wallet,
        ) matches Some(after) && lives_on(before, after),
        touched(state, input) != Some(wallet) ==> advanced(state, input).student(wallet)
            == state.student(wallet),
{
    let counted = state.with_input(input.app_contract);
    assert(counted.students == state.students);
    found_student_has_wallet(counted, wallet);
    found_student_has_wallet(counted, input.msg_sender);
    match verdict(state, input) {
        DecisionModel::Deposit(deposit) => {
            found_student_has_wallet(counted, deposit.depositor);
            let before = account(counted, deposit.depositor);
            entry_continues(before.deposits, deposit.asset);
            entry_continues(before.withdrawals, deposit.asset);
            student_put_and_found(counted, credited(before, deposit.asset), wallet);
        },
        DecisionModel::Register { name, reg_number } => {
            let student = StudentModel::fresh(name, reg_number, input.msg_sender);
            student_put_and_found(counted, student, wallet);
        },
        DecisionModel::Withdraw(asset) => {
            let before = account(counted, input.msg_sender);
            entry_continues(before.deposits, asset);
            entry_continues(before.withdrawals, asset);
            student_put_and_found(counted, debited(before, asset), wallet);
        },
        _ => {},
    }
}

/// Nothing but the portals brings assets in, and a portal does nothing else. What is taken out, and
/// who registers, is up to wallets.
pub proof fn portals_bring_and_wallets_act(state: StateModel, input: InputModel)
    ensures
        portal_of(state, input.msg_sender) is None ==> !(verdict(state, input) is Deposit),
        portal_of(state, input.msg_sender) matches Some(portal) ==> {
            ||| verdict(state, input) is Deposit
            ||| verdict(state, input) == DecisionModel::Refuse(
                RefusalModel::InvalidPayload { portal },
            )
        },
{
}

/// A deposit is credited to the depositor, whether a student was known by the wallet or not, and to
/// nobody else.
pub proof fn deposit_is_credited(
    state: StateModel,
    input: InputModel,
    token: Seq<char>,
    token_id: Seq<char>,
)
    requires
        state.sound(),
        verdict(state, input) is Deposit,
    ensures
        ({
            let deposit = verdict(state, input)->Deposit_0;
            let before = account(state, deposit.depositor);
            let after = account(advanced(state, input), deposit.depositor);
            &&& advanced(state, input).student(deposit.depositor) == Some(
                credited(before, deposit.asset),
            )
            &&& after.ether_left() == before.ether_left() + ether_in(deposit.asset)
            &&& after.erc20_left(token) == before.erc20_left(token) + erc20_in(deposit.asset, token)
            &&& after.erc1155_left(token, token_id) == before.erc1155_left(token, token_id)
                + erc1155_in(deposit.asset, token, token_id)
        }),
{
    let counted = state.with_input(input.app_contract);
    assert(counted.students == state.students);
    let deposit = verdict(state, input)->Deposit_0;
    accounts_are_solvent(counted, deposit.depositor);
    let before = account(counted, deposit.depositor);
    deposit_raises_balances(before, deposit.asset, token, token_id);
    student_put_and_found(counted, credited(before, deposit.asset), deposit.depositor);
}

/// A withdrawal is debited from the sender alone, who had enough, and is paid by one voucher to that
/// sender.
pub proof fn withdrawal_is_debited_and_paid(
    state: StateModel,
    input: InputModel,
    token: Seq<char>,
    token_id: Seq<char>,
)
    requires
        state.sound(),
        verdict(state, input) is Withdraw,
    ensures
        ({
            let asset = verdict(state, input)->Withdraw_0;
            let wallet = input.msg_sender;
            let before = account(state, wallet);
            let after = account(advanced(state, input), wallet);
            &&& state.student(wallet) is Some
            &&& advanced(state, input).student(wallet) == Some(debited(before, asset))
            &&& after.ether_left() + ether_in(asset) == before.ether_left()
            &&& after.erc20_left(token) + erc20_in(asset, token) == before.erc20_left(token)
            &&& after.erc1155_left(token, token_id) + erc1155_in(asset, token, token_id)
                == before.erc1155_left(token, token_id)
            &&& after.held_ids(token).contains(token_id) == (before.held_ids(token).contains(
                token_id,
            ) && asset != (AssetModel::Erc721 { token, token_id }))
            &&& answers(state, input)[0] == voucher_for(
                state.with_input(input.app_contract),
                wallet,
                asset,
            )
        }),
{
    let counted = state.with_input(input.app_contract);
    assert(counted.students == state.students);
    let asset = verdict(state, input)->Withdraw_0;
    let wallet = input.msg_sender;
    accounts_are_solvent(counted, wallet);
    let before = account(counted, wallet);
    withdrawal_lowers_balances(before, counted.own_address(), wallet, asset, token, token_id);
    student_put_and_found(counted, debited(before, asset), wallet);
}

// ---- Histories ----

/// What can happen to the state: an input comes, or something that was sent arrives.
pub enum Step {
    Input(InputModel),
    Arrival(EmissionModel),
}

/// The state after a step.
pub open spec fn stepped(state: StateModel, step: Step) -> StateModel {
    match step {
        Step::Input(input) => advanced(state, input),
        Step::Arrival(emission) => state.with_sent(emission),
    }
}

/// The state after some steps.
pub open spec fn after_steps(state: StateModel, steps: Seq<Step>) -> StateModel
    decreases steps.len(),
{
    if steps.len() == 0 {
        state
    } else {
        stepped(after_steps(state, steps.drop_last()), steps.last())
    }
}

/// A sound state stays sound for ever. The state that `AppState::new` makes is sound, so every state
/// that is ever reached is.
pub proof fn soundness_lasts(state: StateModel, steps: Seq<Step>)
    requires
        state.sound(),
    ensures
        after_steps(state, steps).sound(),
    decreases steps.len(),
{
    if steps.len() > 0 {
        soundness_lasts(state, steps.drop_last());
        if let Step::Input(input) = steps.last() {
            soundness_is_kept(after_steps(state, steps.drop_last()), input);
        }
    }
}

/// The portals never change, and the application's own contract does not once it is known.
pub proof fn addresses_last(state: StateModel, steps: Seq<Step>)
    ensures
        after_steps(state, steps).ether_portal == state.ether_portal,
        after_steps(state, steps).erc20_portal == state.erc20_portal,
        after_steps(state, steps).erc721_portal == state.erc721_portal,
        after_steps(state, steps).erc1155_portal == state.erc1155_portal,
        state.app_contract is Some ==> after_steps(state, steps).app_contract == state.app_contract,
    decreases steps.len(),
{
    if steps.len() > 0 {
        addresses_last(state, steps.drop_last());
    }
}

/// How many of some steps are inputs, arrivals of notices, and arrivals of vouchers.
pub open spec fn counted_steps(steps: Seq<Step>) -> (nat, nat, nat)
    decreases steps.len(),
{
    if steps.len() == 0 {
        (0, 0, 0)
    } else {
        let (inputs, notices, vouchers) = counted_steps(steps.drop_last());
        match steps.last() {
            Step::Input(_) => (inputs + 1, notices, vouchers),
            Step::Arrival(EmissionModel::Notice { .. }) => (inputs, notices + 1, vouchers),
            Step::Arrival(EmissionModel::Report { .. }) => (inputs, notices, vouchers),
            Step::Arrival(EmissionModel::Voucher { .. }) => (inputs, notices, vouchers + 1),
        }
    }
}

/// The counters tell how many inputs came, accepted or not, and how many notices and vouchers arrived.
pub proof fn counters_tell_the_steps(state: StateModel, steps: Seq<Step>)
    requires
        state.total_inputs + steps.len() <= u64::MAX,
        state.total_notices + steps.len() <= u64::MAX,
        state.total_vouchers + steps.len() <= u64::MAX,
    ensures
        after_steps(state, steps).total_inputs == state.total_inputs + counted_steps(steps).0,
        after_steps(state, steps).total_notices == state.total_notices + counted_steps(steps).1,
        after_steps(state, steps).total_vouchers == state.total_vouchers + counted_steps(steps).2,
        counted_steps(steps).0 + counted_steps(steps).1 + counted_steps(steps).2 <= steps.len(),
    decreases steps.len(),
{
    if steps.len() > 0 {
        counters_tell_the_steps(state, steps.drop_last());
        if let Step::Input(input) = steps.last() {
            input_is_counted(after_steps(state, steps.drop_last()), input);
        }
    }
}

proof fn lives_on_further(a: StudentModel, b: StudentModel, c: StudentModel)
    requires
        lives_on(a, b),
        lives_on(b, c),
    ensures
        lives_on(a, c),
{
}

/// A student who is known stays known for ever, under the same name and number, and no entry of the
/// ledgers is ever lost or changed.
pub proof fn students_last(state: StateModel, steps: Seq<Step>, wallet: Seq<char>)
    requires
        state.student(wallet) is Some,
    ensures
        after_steps(state, steps).student(wallet) matches Some(after) && lives_on(
            state.student(wallet)->0,
            after,
        ),
    decreases steps.len(),
{
    if steps.len() > 0 {
        let before = after_steps(state, steps.drop_last());
        students_last(state, steps.drop_last(), wallet);
        if let Step::Input(input) = steps.last() {
            students_live_on(before, input, wallet);
            lives_on_further(
                state.student(wallet)->0,
                before.student(wallet)->0,
                advanced(before, input).student(wallet)->0,
            );
        } else {
            assert(after_steps(state, steps).students == before.students);
        }
    }
}

/// Once a student is known by a wallet, by registration or by a deposit, that wallet never registers
/// again.
pub proof fn wallet_registers_once(
    state: StateModel,
    steps: Seq<Step>,
    input: InputModel,
)
    requires
        state.student(input.msg_sender) is Some,
    ensures
        !(verdict(after_steps(state, steps), input) is Register),
{
    students_last(state, steps, input.msg_sender);
    let later = after_steps(state, steps);
    assert(later.with_input(input.app_contract).students == later.students);
}

/// A wallet by which no student is known takes nothing out.
pub proof fn unknown_wallet_takes_nothing(state: StateModel, input: InputModel)
    requires
        state.student(input.msg_sender) is None,
    ensures
        !(verdict(state, input) is Withdraw),
{
    assert(state.with_input(input.app_contract).students == state.students);
}

/// An item that once went out to a student never goes out to that student again, not even where it
/// came in anew.
pub proof fn item_goes_out_once(
    state: StateModel,
    steps: Seq<Step>,
    input: InputModel,
    token: Seq<char>,
    token_id: Seq<char>,
)
    requires
        state.student(input.msg_sender) matches Some(student)
            && student.withdrawals.erc721.contains((token, token_id)),
    ensures
        verdict(after_steps(state, steps), input) != DecisionModel::Withdraw(
            AssetModel::Erc721 { token, token_id },
        ),
{
    let wallet = input.msg_sender;
    let later = after_steps(state, steps);
    students_last(state, steps, wallet);
    assert(later.with_input(input.app_contract).students == later.students);
    let before = state.student(wallet)->0.withdrawals.erc721;
    let after = later.student(wallet)->0.withdrawals.erc721;
    let i = choose|i: int| 0 <= i < before.len() && before[i] == (token, token_id);
    assert(after[i] == before[i]);
    held_items_came_and_stayed(later.student(wallet)->0, token, token_id);
}

// ---- Deposits that are taken out ----

/// Whether an action asks to take an asset out, in the words in which notices tell of it.
pub open spec fn asks_for(action: ActionModel, asset: AssetModel) -> bool {
    &&& action.action == Some("withdraw"@)
    &&& action.asset_type == Some(asset_kind(asset))
    &&& match asset {
        AssetModel::Ether { amount } => action.amount == Some(decimal(amount as nat)),
        AssetModel::Erc20 { token, amount } => {
            &&& action.token == Some(token)
            &&& action.amount == Some(decimal(amount as nat))
        },
        AssetModel::Erc721 { token, token_id } => {
            &&& action.token == Some(token)
            &&& action.token_id == Some(token_id)
        },
        AssetModel::Erc1155 { token, token_id, amount } => {
            &&& action.token == Some(token)
            &&& action.token_id == Some(token_id)
            &&& action.amount == Some(decimal(amount as nat))
        },
    }
}

/// Whether there is anything of an asset.
pub open spec fn amounts_to_something(asset: AssetModel) -> bool {
    match asset {
        AssetModel::Ether { amount } => amount > 0,
        AssetModel::Erc20 { amount, .. } => amount > 0,
        AssetModel::Erc721 { .. } => true,
        AssetModel::Erc1155 { amount, .. } => amount > 0,
    }
}

proof fn address_is_small(bytes: Seq<u8>)
    ensures
        lowercased(marked_hex(bytes)) == marked_hex(bytes),
        marked_hex(bytes).len() > 0,
{
    let text = marked_hex(bytes);
    digits_are_small(bytes);
    reveal_strlit("0x");
    let digits = hex_digits(bytes);
    assert forall|i: int| 0 <= i < text.len() implies {
        &&& '\0' <= #[trigger] text[i] <= '\u{7f}'
        &&& ascii_small(text[i]) == text[i]
    } by {
        if i >= 2 {
            assert(text[i] == digits[i - 2]);
            assert(lowercased(digits)[i - 2] == digits[i - 2]);
        }
    }
    assert(lowercased(text) =~= text);
}

/// An action that names an asset as it came in through a portal is read as asking for that asset.
pub proof fn deposited_asset_can_be_named(portal: Portal, bytes: Seq<u8>, action: ActionModel)
    requires
        bytes.len() >= least_bytes(portal),
        amounts_to_something(deposit_in(portal, bytes).asset),
        asks_for(action, deposit_in(portal, bytes).asset),
    ensures
        wanted_asset(action) == Ok::<AssetModel, RefusalModel>(deposit_in(portal, bytes).asset),
{
    reveal_strlit("ether");
    reveal_strlit("erc20");
    reveal_strlit("erc721");
    reveal_strlit("erc1155");
    assert("ether"@ != "erc20"@) by {
        assert("ether"@[1] == 't');
        assert("erc20"@[1] == 'r');
    }
    assert("ether"@.len() == 5 && "erc20"@.len() == 5);
    assert("erc721"@.len() == 6 && "erc1155"@.len() == 7);
    match deposit_in(portal, bytes).asset {
        AssetModel::Ether { amount } => {
            amount_reads_back(amount);
        },
        AssetModel::Erc20 { token, amount } => {
            amount_reads_back(amount);
            address_is_small(bytes.subrange(0, 20));
        },
        AssetModel::Erc721 { token, token_id } => {
            address_is_small(bytes.subrange(0, 20));
            address_is_small(bytes.subrange(40, 72));
            token_id_is_normal(bytes.subrange(40, 72), 0);
        },
        AssetModel::Erc1155 { token, token_id, amount } => {
            amount_reads_back(amount);
            address_is_small(bytes.subrange(0, 20));
            address_is_small(bytes.subrange(40, 72));
            token_id_is_normal(bytes.subrange(40, 72), 0);
        },
    }
}

/// Whether a student could be paid an asset that just came in: there is something of it, and an item
/// has not gone out before.
pub open spec fn payable(student: StudentModel, asset: AssetModel) -> bool {
    &&& amounts_to_something(asset)
    &&& asset matches AssetModel::Erc721 { token, token_id }
        ==> !student.withdrawals.erc721.contains((token, token_id))
}

/// What was deposited can be taken out at once by the depositor, who need not have registered. For items
/// the application's own contract must be known, which the call for them names.
pub proof fn deposit_can_be_taken_out(
    state: StateModel,
    input: InputModel,
    request: InputModel,
    text: Seq<char>,
)
    requires
        state.sound(),
        verdict(state, input) is Deposit,
        payable(
            account(state, verdict(state, input)->Deposit_0.depositor),
            verdict(state, input)->Deposit_0.asset,
        ),
        request.msg_sender == verdict(state, input)->Deposit_0.depositor,
        portal_of(state, request.msg_sender) is None,
        payload_text(request.payload) == Ok::<Seq<char>, RefusalModel>(text),
        parsed(text) is Ok,
        asks_for(action_in(parsed(text)->Ok_0), verdict(state, input)->Deposit_0.asset),
        verdict(state, input)->Deposit_0.asset is Erc721 || verdict(
            state,
            input,
        )->Deposit_0.asset is Erc1155 ==> advanced(state, input).with_input(
            request.app_contract,
        ).own_address().len() > 0,
    ensures
        verdict(advanced(state, input), request) == DecisionModel::Withdraw(
            verdict(state, input)->Deposit_0.asset,
        ),
{
    let deposit = verdict(state, input)->Deposit_0;
    let asset = deposit.asset;
    let wallet = deposit.depositor;
    let action = action_in(parsed(text)->Ok_0);
    let counted = state.with_input(input.app_contract);
    let portal = portal_of(counted, input.msg_sender)->0;
    let bytes = spelt_bytes(unmarked(input.payload))->0;
    deposited_asset_can_be_named(portal, bytes, action);
    let later = advanced(state, input).with_input(request.app_contract);
    assert(later.students == advanced(state, input).students);
    let before = account(state, wallet);
    accounts_are_solvent(state, wallet);
    match asset {
        AssetModel::Ether { amount } => {
            deposit_is_credited(state, input, Seq::empty(), Seq::empty());
        },
        AssetModel::Erc20 { token, amount } => {
            deposit_is_credited(state, input, token, Seq::empty());
        },
        AssetModel::Erc721 { token, token_id } => {
            deposit_is_credited(state, input, token, token_id);
            let after = credited(before, asset);
            let came = before.deposits.erc721;
            assert(after.deposits.erc721[came.len() as int] == (token, token_id));
            held_items_came_and_stayed(after, token, token_id);
        },
        AssetModel::Erc1155 { token, token_id, amount } => {
            deposit_is_credited(state, input, token, token_id);
        },
    }
    reveal_strlit("register");
    reveal_strlit("withdraw");
    assert("register"@[0] == 'r' && "withdraw"@[0] == 'w');
    assert(withdrawal(later, wallet, action) == DecisionModel::Withdraw(asset));
}

// ---- Requests ----

/// A request that is not answered changes nothing, nor does one that only looks at the state.
pub proof fn only_inputs_change_the_state(state: StateModel, body: Seq<u8>)
    ensures
        !(reaction(state, body).reply is Answer) ==> reaction(state, body).state == state,
        valid_utf8(body) && readable(decode_utf8(body)) && (parsed(
            decode_utf8(body),
        ) matches Ok(request) && request_type(request) != Some("advance_state"@)) ==> reaction(
            state,
            body,
        ).state == state,
{
}

/// Whatever bytes come as a request, the state stays sound.
pub proof fn requests_keep_soundness(state: StateModel, body: Seq<u8>)
    requires
        state.sound(),
    ensures
        reaction(state, body).state.sound(),
{
    if valid_utf8(body) {
        if let Ok(request) = parsed(decode_utf8(body)) {
            if let Some(input) = input_in(request) {
                soundness_is_kept(state, input);
            }
        }
    }
}

/// A student is found under the own wallet, with the mark of the address and without.
pub proof fn routes_find_the_wallet(state: StateModel, wallet: Seq<u8>)
    ensures
        report_on(state, "student/"@ + marked_hex(wallet)) == student_report(
            state,
            marked_hex(wallet),
        ),
        report_on(state, "student/"@ + hex_digits(wallet)) == student_report(
            state,
            marked_hex(wallet),
        ),
        report_on(state, "activity/"@ + marked_hex(wallet)) == activity_report(
            state,
            marked_hex(wallet),
        ),
        report_on(state, "activity/"@ + hex_digits(wallet)) == activity_report(
            state,
            marked_hex(wallet),
        ),
{
    address_is_a_wallet(wallet);
    route_is_told(marked_hex(wallet));
    route_is_told(hex_digits(wallet));
}

/// The routes of a student and of a history are told apart from the others, and from each other.
pub proof fn route_is_told(rest: Seq<char>)
    ensures
        "student/"@ + rest != "all"@,
        "activity/"@ + rest != "all"@,
        ("student/"@ + rest).len() > 0,
        ("activity/"@ + rest).len() > 0,
        after("student/"@ + rest, "student/"@) == Some(rest),
        after("activity/"@ + rest, "activity/"@) == Some(rest),
        after("activity/"@ + rest, "student/"@) is None,
{
    reveal_strlit("all");
    reveal_strlit("student/");
    reveal_strlit("activity/");
    let student = "student/"@ + rest;
    let activity = "activity/"@ + rest;
    assert("all"@.len() == 3 && "student/"@.len() == 8 && "activity/"@.len() == 9);
    assert(student.take(8) =~= "student/"@);
    assert(student.skip(8) =~= rest);
    assert(activity.take(9) =~= "activity/"@);
    assert(activity.skip(9) =~= rest);
    assert(activity.take(8)[0] == 'a');
    assert("student/"@[0] == 's');
}

/// A student who became known by a deposit alone does not count as registered.
pub proof fn unknown_student_is_not_registered(wallet: Seq<char>, asset: AssetModel)
    ensures
        !is_registered(unknown_student(wallet)),
        !is_registered(credited(unknown_student(wallet), asset)),
{
    let name = unknown_student(wallet).name;
    assert(name.take("Unknown("@.len() as int) =~= "Unknown("@);
}

} // verus!
