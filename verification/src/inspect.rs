//! Requests that look at the state.

use vstd::prelude::*;
use vstd::utf8::{decode_utf8, valid_utf8};
use crate::advance::Outcome;
use crate::document;
use crate::document::{content, dumped, empty_object, number, Json};
use crate::hex::{cuttable, hex_to_bytes, is_cuttable, spelt_bytes, unmarked};
use crate::input::{payload_in, read_payload, text_else, RequestError};
use crate::message::{Emission, EmissionModel};
use crate::state::{AppState, StateModel};
use crate::student::{Student, StudentModel};
use crate::text::{after, bare, decode, lowercase, lowercased, strip_marks, strip_prefix, trim, trimmed};

verus! {

/// The version of the application.
pub const APP_VERSION: &'static str = "2.0.0";

/// The name of the application.
pub const APP_NAME: &'static str = "student-tracker";

/// How the name of a student starts who is known by deposits alone.
pub const UNKNOWN_START: &'static str = "Unknown(";

/// The list of routes that an unknown one is answered with.
pub const VALID_ROUTES: &'static str =
    "[\"all\",\"student/<addr>\",\"activity/<addr>\",\"portals\",\"app\",\"summary\",\"status\"]";

/// The text in a payload: an empty one where the payload spells no bytes, and `all` where the bytes
/// are no text.
pub open spec fn route_text(payload: Seq<char>) -> Seq<char> {
    let bytes = match spelt_bytes(unmarked(payload)) {
        Some(bytes) => bytes,
        None => Seq::empty(),
    };
    if valid_utf8(bytes) {
        decode_utf8(bytes)
    } else {
        "all"@
    }
}

/// What a payload asks to look at.
pub open spec fn route_in(payload: Seq<char>) -> Seq<char> {
    trimmed(route_text(payload))
}

/// Reads what a payload asks to look at.
pub fn read_route(payload: &str) -> (r: String)
    requires
        cuttable(payload@),
    ensures
        r@ == route_in(payload@),
{
    let bytes: Vec<u8> = match hex_to_bytes(payload) {
        Some(bytes) => bytes,
        None => Vec::new(),
    };
    assert(bytes.deep_view() =~= bytes@);
    match decode(bytes.as_slice()) {
        Some(text) => trim(text),
        None => trim("all"),
    }
}

/// The one way in which a wallet is written: marked, and in small letters.
pub open spec fn wallet_of(address: Seq<char>) -> Seq<char> {
    "0x"@ + lowercased(bare(address))
}

fn write_wallet(address: &str) -> (r: String)
    ensures
        r@ == wallet_of(address@),
{
    let mut r = "0x".to_owned();
    r.append(lowercase(strip_marks(address).as_str()).as_str());
    r
}

// ---- Counts ----

/// How many students registered, and how many entries there are of each kind.
pub struct Tally {
    pub registered: usize,
    pub ether_deposits: usize,
    pub erc20_deposits: usize,
    pub erc721_deposits: usize,
    pub erc1155_deposits: usize,
    pub erc20_withdrawals: usize,
    pub erc721_withdrawals: usize,
    pub erc1155_withdrawals: usize,
}

/// The counts as numbers without bound.
pub struct TallyModel {
    pub registered: nat,
    pub ether_deposits: nat,
    pub erc20_deposits: nat,
    pub erc721_deposits: nat,
    pub erc1155_deposits: nat,
    pub erc20_withdrawals: nat,
    pub erc721_withdrawals: nat,
    pub erc1155_withdrawals: nat,
}

impl DeepView for Tally {
    type V = TallyModel;

    open spec fn deep_view(&self) -> TallyModel {
        TallyModel {
            registered: self.registered as nat,
            ether_deposits: self.ether_deposits as nat,
            erc20_deposits: self.erc20_deposits as nat,
            erc721_deposits: self.erc721_deposits as nat,
            erc1155_deposits: self.erc1155_deposits as nat,
            erc20_withdrawals: self.erc20_withdrawals as nat,
            erc721_withdrawals: self.erc721_withdrawals as nat,
            erc1155_withdrawals: self.erc1155_withdrawals as nat,
        }
    }
}

/// Whether a student registered, which the name tells.
pub open spec fn is_registered(student: StudentModel) -> bool {
    after(student.name, UNKNOWN_START@) is None
}

/// The counts over some students.
pub open spec fn tally(students: Seq<StudentModel>) -> TallyModel
    decreases students.len(),
{
    if students.len() == 0 {
        TallyModel {
            registered: 0,
            ether_deposits: 0,
            erc20_deposits: 0,
            erc721_deposits: 0,
            erc1155_deposits: 0,
            erc20_withdrawals: 0,
            erc721_withdrawals: 0,
            erc1155_withdrawals: 0,
        }
    } else {
        let before = tally(students.drop_last());
        let last = students.last();
        TallyModel {
            registered: before.registered + (if is_registered(last) {
                1nat
            } else {
                0nat
            }),
            ether_deposits: before.ether_deposits + last.deposits.ether.len(),
            erc20_deposits: before.erc20_deposits + last.deposits.erc20.len(),
            erc721_deposits: before.erc721_deposits + last.deposits.erc721.len(),
            erc1155_deposits: before.erc1155_deposits + last.deposits.erc1155.len(),
            erc20_withdrawals: before.erc20_withdrawals + last.withdrawals.erc20.len(),
            erc721_withdrawals: before.erc721_withdrawals + last.withdrawals.erc721.len(),
            erc1155_withdrawals: before.erc1155_withdrawals + last.withdrawals.erc1155.len(),
        }
    }
}

impl TallyModel {
    /// Whether a `usize` can hold each of the counts.
    pub open spec fn fits(self) -> bool {
        &&& self.registered <= usize::MAX
        &&& self.ether_deposits <= usize::MAX
        &&& self.erc20_deposits <= usize::MAX
        &&& self.erc721_deposits <= usize::MAX
        &&& self.erc1155_deposits <= usize::MAX
        &&& self.erc20_withdrawals <= usize::MAX
        &&& self.erc721_withdrawals <= usize::MAX
        &&& self.erc1155_withdrawals <= usize::MAX
    }
}

/// The counts over the first students can be held where those over all can.
proof fn tally_grows(students: Seq<StudentModel>, n: int)
    requires
        0 <= n <= students.len(),
        tally(students).fits(),
    ensures
        tally(students.take(n)).fits(),
    decreases students.len(),
{
    if n == students.len() {
        assert(students.take(n) =~= students);
    } else {
        tally_grows(students.drop_last(), n);
        assert(students.drop_last().take(n) =~= students.take(n));
    }
}

/// No more students registered than there are.
proof fn registered_bounded(students: Seq<StudentModel>)
    ensures
        tally(students).registered <= students.len(),
    decreases students.len(),
{
    if students.len() > 0 {
        registered_bounded(students.drop_last());
    }
}

/// Adds the counts of one student, where the sums can be held.
fn count_student(before: &Tally, student: &Student) -> (r: Option<Tally>)
    requires
        before.registered < usize::MAX,
    ensures
        ({
            let sum = TallyModel {
                registered: before.registered as nat + (if is_registered(student.deep_view()) {
                    1nat
                } else {
                    0nat
                }),
                ether_deposits: before.ether_deposits as nat
                    + student.deep_view().deposits.ether.len(),
                erc20_deposits: before.erc20_deposits as nat
                    + student.deep_view().deposits.erc20.len(),
                erc721_deposits: before.erc721_deposits as nat
                    + student.deep_view().deposits.erc721.len(),
                erc1155_deposits: before.erc1155_deposits as nat
                    + student.deep_view().deposits.erc1155.len(),
                erc20_withdrawals: before.erc20_withdrawals as nat
                    + student.deep_view().withdrawals.erc20.len(),
                erc721_withdrawals: before.erc721_withdrawals as nat
                    + student.deep_view().withdrawals.erc721.len(),
                erc1155_withdrawals: before.erc1155_withdrawals as nat
                    + student.deep_view().withdrawals.erc1155.len(),
            };
            match r {
                Some(after) => sum.fits() && after.deep_view() == sum,
                None => !sum.fits(),
            }
        }),
{
    let registered: usize = if strip_prefix(student.name.as_str(), UNKNOWN_START).is_none() {
        before.registered + 1
    } else {
        before.registered
    };
    match (
        before.ether_deposits.checked_add(student.deposits.ether.len()),
        before.erc20_deposits.checked_add(student.deposits.erc20.len()),
        before.erc721_deposits.checked_add(student.deposits.erc721.len()),
        before.erc1155_deposits.checked_add(student.deposits.erc1155.len()),
        before.erc20_withdrawals.checked_add(student.withdrawals.erc20.len()),
        before.erc721_withdrawals.checked_add(student.withdrawals.erc721.len()),
        before.erc1155_withdrawals.checked_add(student.withdrawals.erc1155.len()),
    ) {
        (Some(a), Some(b), Some(c), Some(d), Some(e), Some(f), Some(g)) => Some(
            Tally {
                registered,
                ether_deposits: a,
                erc20_deposits: b,
                erc721_deposits: c,
                erc1155_deposits: d,
                erc20_withdrawals: e,
                erc721_withdrawals: f,
                erc1155_withdrawals: g,
            },
        ),
        _ => None,
    }
}

/// Counts the students and their entries, where the counts can be held.
pub fn count(state: &AppState) -> (r: Option<Tally>)
    ensures
        (match r {
            Some(counts) => tally(state.deep_view().students).fits() && counts.deep_view() == tally(
                state.deep_view().students,
            ),
            None => !tally(state.deep_view().students).fits(),
        }),
{
    let ghost students = state.deep_view().students;
    let mut counts = Tally {
        registered: 0,
        ether_deposits: 0,
        erc20_deposits: 0,
        erc721_deposits: 0,
        erc1155_deposits: 0,
        erc20_withdrawals: 0,
        erc721_withdrawals: 0,
        erc1155_withdrawals: 0,
    };
    let mut i: usize = 0;
    while i < state.students.len()
        invariant
            i <= state.students@.len(),
            students == state.deep_view().students,
            counts.deep_view() == tally(students.take(i as int)),
            tally(students.take(i as int)).fits(),
        decreases state.students@.len() - i,
    {
        proof {
            registered_bounded(students.take(i as int));
            assert(students.take(i + 1).drop_last() =~= students.take(i as int));
            assert(students.take(i + 1).last() == state.students@[i as int].deep_view());
            if tally(students).fits() {
                tally_grows(students, i + 1);
            }
        }
        match count_student(&counts, &state.students[i]) {
            Some(more) => {
                counts = more;
            },
            None => {
                return None;
            },
        }
        i = i + 1;
    }
    assert(students.take(students.len() as int) =~= students);
    Some(counts)
}

// ---- Reports ----

/// What is shown of all students.
pub open spec fn all_shown(students: Seq<StudentModel>) -> Json {
    empty_object().with("route"@, Json::Text("all"@)).with(
        "total_students"@,
        number(students.len() as u64),
    ).with(
        "students"@,
        Json::Array(Seq::new(students.len(), |i: int| students[i].shown())),
    )
}

/// The text that tells that a wallet is not known.
pub open spec fn not_found(route: Seq<char>, wallet: Seq<char>) -> Seq<char> {
    "{\"error\":\"not_found\",\"route\":\""@ + route + "\",\"wallet\":\""@ + wallet + "\"}"@
}

/// What is shown of one student.
pub open spec fn student_report(state: StateModel, wallet: Seq<char>) -> Seq<char> {
    match state.student(wallet) {
        Some(student) => dumped(student.shown().with("route"@, Json::Text("student"@))),
        None => not_found("student"@, wallet),
    }
}

/// The history that is shown of one student.
pub open spec fn activity_report(state: StateModel, wallet: Seq<char>) -> Seq<char> {
    match state.student(wallet) {
        Some(student) => dumped(
            empty_object().with("route"@, Json::Text("activity"@)).with(
                "wallet"@,
                Json::Text(wallet),
            ).with("activity"@, student.history()),
        ),
        None => not_found("activity"@, wallet),
    }
}

/// What is shown of the portals.
pub open spec fn portals_shown(state: StateModel) -> Json {
    empty_object().with("route"@, Json::Text("portals"@)).with(
        "ether_portal"@,
        Json::Text(state.ether_portal),
    ).with("erc20_portal"@, Json::Text(state.erc20_portal)).with(
        "erc721_portal"@,
        Json::Text(state.erc721_portal),
    ).with("erc1155_portal"@, Json::Text(state.erc1155_portal)).with(
        "app_contract"@,
        Json::Text(state.own_address()),
    )
}

/// What is shown of the counts.
pub open spec fn summary_shown(students: Seq<StudentModel>) -> Json {
    let counts = tally(students);
    empty_object().with("route"@, Json::Text("summary"@)).with(
        "total_students"@,
        number(students.len() as u64),
    ).with("registered"@, number(counts.registered as u64)).with(
        "auto_registered"@,
        number((students.len() - counts.registered) as u64),
    ).with("ether_deposits"@, number(counts.ether_deposits as u64)).with(
        "erc20_deposits"@,
        number(counts.erc20_deposits as u64),
    ).with("erc721_deposits"@, number(counts.erc721_deposits as u64)).with(
        "erc1155_deposits"@,
        number(counts.erc1155_deposits as u64),
    ).with("erc20_withdrawals"@, number(counts.erc20_withdrawals as u64)).with(
        "erc721_withdrawals"@,
        number(counts.erc721_withdrawals as u64),
    ).with("erc1155_withdrawals"@, number(counts.erc1155_withdrawals as u64))
}

/// What is shown of the application's own contract.
pub open spec fn app_shown(state: StateModel) -> Json {
    match state.app_contract {
        Some(address) => empty_object().with("route"@, Json::Text("app"@)).with(
            "app_contract"@,
            Json::Text(address),
        ).with("discovered"@, Json::Boolean(true)),
        None => empty_object().with("route"@, Json::Text("app"@)).with(
            "app_contract"@,
            Json::Null,
        ).with("discovered"@, Json::Boolean(false)).with(
            "hint"@,
            Json::Text("no advance input processed yet"@),
        ),
    }
}

/// What is shown of the health of the application.
pub open spec fn status_shown(state: StateModel) -> Json {
    empty_object().with("route"@, Json::Text("status"@)).with("status"@, Json::Text("ok"@)).with(
        "app_name"@,
        Json::Text(APP_NAME@),
    ).with("version"@, Json::Text(APP_VERSION@)).with(
        "total_students"@,
        number(state.students.len() as u64),
    ).with("total_inputs"@, number(state.total_inputs)).with(
        "total_notices"@,
        number(state.total_notices),
    ).with("total_vouchers"@, number(state.total_vouchers)).with(
        "portals_configured"@,
        empty_object().with("ether"@, Json::Boolean(state.ether_portal.len() > 0)).with(
            "erc20"@,
            Json::Boolean(state.erc20_portal.len() > 0),
        ).with("erc721"@, Json::Boolean(state.erc721_portal.len() > 0)).with(
            "erc1155"@,
            Json::Boolean(state.erc1155_portal.len() > 0),
        ),
    )
}

/// The text that tells that a route is not known.
pub open spec fn unknown_route(route: Seq<char>) -> Seq<char> {
    "{\"error\":\"unknown_route\",\"route\":\""@ + route + "\",\"valid\":"@ + VALID_ROUTES@ + "}"@
}

/// What is reported on a route.
pub open spec fn report_on(state: StateModel, route: Seq<char>) -> Seq<char> {
    if route.len() == 0 || route == "all"@ {
        dumped(all_shown(state.students))
    } else if after(route, "student/"@) is Some {
        student_report(state, wallet_of(after(route, "student/"@)->0))
    } else if after(route, "activity/"@) is Some {
        activity_report(state, wallet_of(after(route, "activity/"@)->0))
    } else if route == "portals"@ {
        dumped(portals_shown(state))
    } else if route == "summary"@ {
        dumped(summary_shown(state.students))
    } else if route == "app"@ {
        dumped(app_shown(state))
    } else if route == "status"@ || route == "health"@ {
        dumped(status_shown(state))
    } else {
        unknown_route(route)
    }
}

/// Whether the sums and counts that a route shows can be held.
pub open spec fn reportable(state: StateModel, route: Seq<char>) -> bool {
    if route.len() == 0 || route == "all"@ {
        forall|i: int| 0 <= i < state.students.len() ==> (#[trigger] state.students[i]).totals_fit()
    } else if after(route, "student/"@) is Some {
        state.student(wallet_of(after(route, "student/"@)->0)) matches Some(student)
            ==> student.totals_fit()
    } else if after(route, "activity/"@) is Some {
        true
    } else if route == "summary"@ {
        tally(state.students).fits()
    } else {
        true
    }
}

fn do_all_totals_fit(state: &AppState) -> (r: bool)
    ensures
        r == (forall|i: int|
            0 <= i < state.deep_view().students.len() ==> (
            #[trigger] state.deep_view().students[i]).totals_fit()),
{
    let ghost students = state.deep_view().students;
    let mut i: usize = 0;
    while i < state.students.len()
        invariant
            i <= state.students@.len(),
            students == state.deep_view().students,
            forall|j: int| 0 <= j < i ==> (#[trigger] students[j]).totals_fit(),
        decreases state.students@.len() - i,
    {
        if !state.students[i].totals_fit() {
            assert(!students[i as int].totals_fit());
            return false;
        }
        i = i + 1;
    }
    true
}

/// Tells whether the sums and counts that a route shows can be held.
pub fn is_reportable(state: &AppState, route: &str) -> (r: bool)
    ensures
        r == reportable(state.deep_view(), route@),
{
    if route.is_empty() || *route == *"all" {
        return do_all_totals_fit(state);
    }
    if let Some(address) = strip_prefix(route, "student/") {
        return match state.find(write_wallet(address.as_str()).as_str()) {
            Some(place) => state.students[place].totals_fit(),
            None => true,
        };
    }
    if strip_prefix(route, "activity/").is_some() {
        return true;
    }
    if *route == *"summary" {
        count(state).is_some()
    } else {
        true
    }
}

fn show_all(state: &AppState) -> (r: json::JsonValue)
    requires
        forall|i: int|
            0 <= i < state.deep_view().students.len() ==> (
            #[trigger] state.deep_view().students[i]).totals_fit(),
    ensures
        content(r) == all_shown(state.deep_view().students),
{
    let ghost students = state.deep_view().students;
    let ghost all = Seq::new(students.len(), |i: int| students[i].shown());
    let mut list = document::new_array();
    let mut i: usize = 0;
    assert(all.take(0) =~= Seq::empty());
    while i < state.students.len()
        invariant
            i <= state.students@.len() == all.len(),
            students == state.deep_view().students,
            forall|j: int| 0 <= j < students.len() ==> (#[trigger] students[j]).totals_fit(),
            forall|j: int| 0 <= j < all.len() ==> #[trigger] all[j] == students[j].shown(),
            content(list) == Json::Array(all.take(i as int)),
        decreases state.students@.len() - i,
    {
        assert(students[i as int] == state.students@[i as int].deep_view());
        document::push(&mut list, state.students[i].to_json());
        assert(all.take(i + 1) =~= all.take(i as int).push(all[i as int]));
        i = i + 1;
    }
    assert(all.take(all.len() as int) =~= all);
    let mut r = document::new_object();
    document::insert(&mut r, "route", document::from_text("all"));
    document::insert(
        &mut r,
        "total_students",
        document::from_whole(state.students.len() as u64),
    );
    document::insert(&mut r, "students", list);
    r
}

fn write_not_found(route: &str, wallet: &str) -> (r: String)
    ensures
        r@ == not_found(route@, wallet@),
{
    let mut r = "{\"error\":\"not_found\",\"route\":\"".to_owned();
    r.append(route);
    r.append("\",\"wallet\":\"");
    r.append(wallet);
    r.append("\"}");
    r
}

fn report_student(state: &AppState, wallet: &str) -> (r: String)
    requires
        state.deep_view().student(wallet@) matches Some(student) ==> student.totals_fit(),
    ensures
        r@ == student_report(state.deep_view(), wallet@),
{
    match state.find(wallet) {
        Some(place) => {
            assert(state.deep_view().students[place as int]
                == state.students@[place as int].deep_view());
            let mut shown = state.students[place].to_json();
            document::insert(&mut shown, "route", document::from_text("student"));
            document::dump(&shown)
        },
        None => write_not_found("student", wallet),
    }
}

fn report_activity(state: &AppState, wallet: &str) -> (r: String)
    ensures
        r@ == activity_report(state.deep_view(), wallet@),
{
    match state.find(wallet) {
        Some(place) => {
            let mut shown = document::new_object();
            document::insert(&mut shown, "route", document::from_text("activity"));
            document::insert(&mut shown, "wallet", document::from_text(wallet));
            document::insert(&mut shown, "activity", state.students[place].activity_log());
            document::dump(&shown)
        },
        None => write_not_found("activity", wallet),
    }
}

fn show_portals(state: &AppState) -> (r: json::JsonValue)
    ensures
        content(r) == portals_shown(state.deep_view()),
{
    proof {
        reveal_strlit("");
        assert(""@ =~= Seq::empty());
    }
    let mut r = document::new_object();
    document::insert(&mut r, "route", document::from_text("portals"));
    document::insert(&mut r, "ether_portal", document::from_text(state.ether_portal.as_str()));
    document::insert(&mut r, "erc20_portal", document::from_text(state.erc20_portal.as_str()));
    document::insert(&mut r, "erc721_portal", document::from_text(state.erc721_portal.as_str()));
    document::insert(&mut r, "erc1155_portal", document::from_text(state.erc1155_portal.as_str()));
    document::insert(
        &mut r,
        "app_contract",
        document::from_text(text_else(&state.app_contract, "")),
    );
    r
}

fn show_count(object: &mut json::JsonValue, key: &str, n: usize)
    requires
        content(*old(object)) is Object,
    ensures
        content(*final(object)) == content(*old(object)).with(key@, number(n as u64)),
{
    document::insert(object, key, document::from_whole(n as u64));
}

fn show_summary(state: &AppState) -> (r: json::JsonValue)
    requires
        tally(state.deep_view().students).fits(),
    ensures
        content(r) == summary_shown(state.deep_view().students),
{
    let counts = count(state).unwrap();
    proof {
        registered_bounded(state.deep_view().students);
    }
    let total: usize = state.students.len();
    let mut r = document::new_object();
    document::insert(&mut r, "route", document::from_text("summary"));
    show_count(&mut r, "total_students", total);
    show_count(&mut r, "registered", counts.registered);
    show_count(&mut r, "auto_registered", total - counts.registered);
    show_count(&mut r, "ether_deposits", counts.ether_deposits);
    show_count(&mut r, "erc20_deposits", counts.erc20_deposits);
    show_count(&mut r, "erc721_deposits", counts.erc721_deposits);
    show_count(&mut r, "erc1155_deposits", counts.erc1155_deposits);
    show_count(&mut r, "erc20_withdrawals", counts.erc20_withdrawals);
    show_count(&mut r, "erc721_withdrawals", counts.erc721_withdrawals);
    show_count(&mut r, "erc1155_withdrawals", counts.erc1155_withdrawals);
    r
}

fn show_app(state: &AppState) -> (r: json::JsonValue)
    ensures
        content(r) == app_shown(state.deep_view()),
{
    let mut r = document::new_object();
    document::insert(&mut r, "route", document::from_text("app"));
    match &state.app_contract {
        Some(address) => {
            document::insert(&mut r, "app_contract", document::from_text(address.as_str()));
            document::insert(&mut r, "discovered", document::from_truth(true));
        },
        None => {
            document::insert(&mut r, "app_contract", document::null());
            document::insert(&mut r, "discovered", document::from_truth(false));
            document::insert(
                &mut r,
                "hint",
                document::from_text("no advance input processed yet"),
            );
        },
    }
    r
}

fn show_status(state: &AppState) -> (r: json::JsonValue)
    ensures
        content(r) == status_shown(state.deep_view()),
{
    let mut configured = document::new_object();
    document::insert(
        &mut configured,
        "ether",
        document::from_truth(!state.ether_portal.as_str().is_empty()),
    );
    document::insert(
        &mut configured,
        "erc20",
        document::from_truth(!state.erc20_portal.as_str().is_empty()),
    );
    document::insert(
        &mut configured,
        "erc721",
        document::from_truth(!state.erc721_portal.as_str().is_empty()),
    );
    document::insert(
        &mut configured,
        "erc1155",
        document::from_truth(!state.erc1155_portal.as_str().is_empty()),
    );
    let mut r = document::new_object();
    document::insert(&mut r, "route", document::from_text("status"));
    document::insert(&mut r, "status", document::from_text("ok"));
    document::insert(&mut r, "app_name", document::from_text(APP_NAME));
    document::insert(&mut r, "version", document::from_text(APP_VERSION));
    show_count(&mut r, "total_students", state.students.len());
    document::insert(&mut r, "total_inputs", document::from_whole(state.total_inputs));
    document::insert(&mut r, "total_notices", document::from_whole(state.total_notices));
    document::insert(&mut r, "total_vouchers", document::from_whole(state.total_vouchers));
    document::insert(&mut r, "portals_configured", configured);
    r
}

fn write_unknown_route(route: &str) -> (r: String)
    ensures
        r@ == unknown_route(route@),
{
    let mut r = "{\"error\":\"unknown_route\",\"route\":\"".to_owned();
    r.append(route);
    r.append("\",\"valid\":");
    r.append(VALID_ROUTES);
    r.append("}");
    r
}

/// Reports on a route.
pub fn report(state: &AppState, route: &str) -> (r: String)
    requires
        reportable(state.deep_view(), route@),
    ensures
        r@ == report_on(state.deep_view(), route@),
{
    if route.is_empty() || *route == *"all" {
        return document::dump(&show_all(state));
    }
    if let Some(address) = strip_prefix(route, "student/") {
        return report_student(state, write_wallet(address.as_str()).as_str());
    }
    if let Some(address) = strip_prefix(route, "activity/") {
        return report_activity(state, write_wallet(address.as_str()).as_str());
    }
    if *route == *"portals" {
        document::dump(&show_portals(state))
    } else if *route == *"summary" {
        document::dump(&show_summary(state))
    } else if *route == *"app" {
        document::dump(&show_app(state))
    } else if *route == *"status" || *route == *"health" {
        document::dump(&show_status(state))
    } else {
        write_unknown_route(route)
    }
}

/// Whether a payload can be taken apart and what it asks to look at can be reported on.
pub open spec fn inspectable(state: StateModel, payload: Seq<char>) -> bool {
    cuttable(payload) && reportable(state, route_in(payload))
}

/// Tells whether `inspect` may be given the payload.
pub fn is_inspectable(state: &AppState, payload: &str) -> (r: bool)
    ensures
        r == inspectable(state.deep_view(), payload@),
{
    is_cuttable(payload) && is_reportable(state, read_route(payload).as_str())
}

/// What is sent for a payload that asks to look at the state.
pub open spec fn looked_at(state: StateModel, payload: Seq<char>) -> Seq<EmissionModel> {
    seq![EmissionModel::Report { payload: report_on(state, route_in(payload)), required: true }]
}

/// Reports on what a payload asks to look at.
pub fn inspect(state: &AppState, payload: &str) -> (r: Outcome)
    requires
        inspectable(state.deep_view(), payload@),
    ensures
        r.emissions.deep_view() == looked_at(state.deep_view(), payload@),
        r.accepted,
{
    let mut emissions: Vec<Emission> = Vec::new();
    emissions.push(
        Emission::Report {
            payload: report(state, read_route(payload).as_str()),
            required: true,
        },
    );
    assert(emissions.deep_view() =~= looked_at(state.deep_view(), payload@));
    Outcome { emissions, accepted: true }
}

/// Answers a request to look at the state, which stays as it is.
pub fn handle_inspect(state: &AppState, request: &json::JsonValue) -> (r: Result<
    Outcome,
    RequestError,
>)
    requires
        payload_in(content(*request)) matches Some(payload) ==> inspectable(
            state.deep_view(),
            payload,
        ),
    ensures
        (match payload_in(content(*request)) {
            Some(payload) => {
                &&& r matches Ok(outcome)
                &&& outcome.emissions.deep_view() == looked_at(state.deep_view(), payload)
                &&& outcome.accepted
            },
            None => r == Err::<Outcome, RequestError>(RequestError::MissingPayload),
        }),
{
    match read_payload(request) {
        Some(payload) => Ok(inspect(state, payload.as_str())),
        None => Err(RequestError::MissingPayload),
    }
}

} // verus!
