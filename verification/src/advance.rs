//! Inputs that advance the state.

use vstd::prelude::*;
use crate::decision::{
    decidable, decide, decision, is_decidable, Decision, DecisionModel,
};
use crate::document::content;
use crate::hex::{hex_digits_placed, spelt_bytes, unmarked};
use crate::input::{input_in, read_input, Input, InputModel, RequestError};
use crate::laws::soundness_is_kept;
use crate::message::{emissions_of, make_emissions, Emission, EmissionModel};
use crate::state::{AppState, StateModel};
use crate::student::{Student, StudentModel};

verus! {

/// How a request is answered: what is sent, in this order, and whether the request is accepted.
#[derive(Debug)]
pub struct Outcome {
    pub emissions: Vec<Emission>,
    pub accepted: bool,
}

/// The state once a decision is carried out.
pub open spec fn carried_out(
    state: StateModel,
    sender: Seq<char>,
    decision: DecisionModel,
) -> StateModel {
    match decision {
        DecisionModel::Refuse(_) => state,
        DecisionModel::Deposit(deposit) => state.with_deposit(deposit.depositor, deposit.asset),
        DecisionModel::Register { name, reg_number } => state.with_student(
            StudentModel::fresh(name, reg_number, sender),
        ),
        DecisionModel::Withdraw(asset) => state.with_withdrawal(sender, asset),
        DecisionModel::Ping => state,
        DecisionModel::Relay { address } => state.with_contract(address),
    }
}

/// What is decided on an input that comes in a state, once it is counted.
pub open spec fn verdict(state: StateModel, input: InputModel) -> DecisionModel {
    decision(state.with_input(input.app_contract), input)
}

/// The state once an input has been counted, decided on, and carried out.
pub open spec fn advanced(state: StateModel, input: InputModel) -> StateModel {
    carried_out(state.with_input(input.app_contract), input.msg_sender, verdict(state, input))
}

/// What is sent for an input.
pub open spec fn answers(state: StateModel, input: InputModel) -> Seq<EmissionModel> {
    emissions_of(state.with_input(input.app_contract), input, verdict(state, input))
}

/// Whether an input can be counted and decided on.
pub open spec fn advanceable(state: StateModel, input: InputModel) -> bool {
    &&& state.total_inputs < u64::MAX
    &&& decidable(state.with_input(input.app_contract), input)
}

/// Carries a decision out.
pub fn carry_out(state: &mut AppState, sender: &str, decision: &Decision)
    requires
        decision.deep_view() matches DecisionModel::Deposit(deposit) ==> deposit.depositor.len()
            >= 10,
        decision.deep_view() is Register ==> old(state).deep_view().student(sender@) is None,
    ensures
        final(state).deep_view() == carried_out(
            old(state).deep_view(),
            sender@,
            decision.deep_view(),
        ),
{
    match decision {
        Decision::Refuse(_) => {},
        Decision::Deposit(deposit) => {
            state.deposit(deposit.depositor.as_str(), &deposit.asset);
        },
        Decision::Register { name, reg_number } => {
            state.enrol(Student::new(name.clone(), reg_number.clone(), sender.to_owned()));
        },
        Decision::Withdraw(asset) => {
            state.withdraw(sender, asset);
        },
        Decision::Ping => {},
        Decision::Relay { address } => {
            state.learn_contract(address.as_str());
        },
    }
}

/// Counts an input, decides on it, and carries the decision out.
pub fn advance(state: &mut AppState, input: &Input) -> (r: Outcome)
    requires
        advanceable(old(state).deep_view(), input.deep_view()),
    ensures
        final(state).deep_view() == advanced(old(state).deep_view(), input.deep_view()),
        r.emissions.deep_view() == answers(old(state).deep_view(), input.deep_view()),
        r.accepted == !(verdict(old(state).deep_view(), input.deep_view()) is Refuse),
        old(state).deep_view().sound() ==> final(state).deep_view().sound(),
{
    proof {
        if state.deep_view().sound() {
            soundness_is_kept(state.deep_view(), input.deep_view());
        }
    }
    state.begin_input(input.app_contract.as_str());
    let decision = decide(state, input);
    let emissions = make_emissions(state, input, &decision);
    proof {
        if decision is Deposit {
            let bytes = spelt_bytes(unmarked(input.payload@))->0;
            hex_digits_placed(bytes.subrange(0, 20));
            hex_digits_placed(bytes.subrange(20, 40));
        }
    }
    carry_out(state, input.msg_sender.as_str(), &decision);
    let accepted = match decision {
        Decision::Refuse(_) => false,
        _ => true,
    };
    Outcome { emissions, accepted }
}

/// Tells whether `advance` may be given the input.
pub fn is_advanceable(state: &AppState, input: &Input) -> (r: bool)
    ensures
        r == advanceable(state.deep_view(), input.deep_view()),
{
    state.total_inputs < u64::MAX && is_decidable(state, input)
}

/// Answers a request to advance the state. Where it carries no payload it is not even counted.
pub fn handle_advance(state: &mut AppState, request: &json::JsonValue) -> (r: Result<
    Outcome,
    RequestError,
>)
    requires
        input_in(content(*request)) matches Some(input) ==> advanceable(
            old(state).deep_view(),
            input,
        ),
    ensures
        (match input_in(content(*request)) {
            Some(input) => {
                &&& final(state).deep_view() == advanced(old(state).deep_view(), input)
                &&& r matches Ok(outcome)
                &&& outcome.emissions.deep_view() == answers(old(state).deep_view(), input)
                &&& outcome.accepted == !(verdict(old(state).deep_view(), input) is Refuse)
            },
            None => {
                &&& *final(state) == *old(state)
                &&& r == Err::<Outcome, RequestError>(RequestError::MissingPayload)
            },
        }),
        old(state).deep_view().sound() ==> final(state).deep_view().sound(),
{
    match read_input(request) {
        Some(input) => Ok(advance(state, &input)),
        None => Err(RequestError::MissingPayload),
    }
}

impl StateModel {
    /// The state once something has been sent: notices and vouchers are counted.
    pub open spec fn with_sent(self, emission: EmissionModel) -> StateModel {
        match emission {
            EmissionModel::Notice { .. } => StateModel {
                total_notices: (self.total_notices + 1) as u64,
                ..self
            },
            EmissionModel::Report { .. } => self,
            EmissionModel::Voucher { .. } => StateModel {
                total_vouchers: (self.total_vouchers + 1) as u64,
                ..self
            },
        }
    }

    /// Whether what is sent can be counted.
    pub open spec fn can_count(self, emission: EmissionModel) -> bool {
        match emission {
            EmissionModel::Notice { .. } => self.total_notices < u64::MAX,
            EmissionModel::Report { .. } => true,
            EmissionModel::Voucher { .. } => self.total_vouchers < u64::MAX,
        }
    }
}

impl AppState {
    /// Tells whether what is sent can be counted.
    pub fn can_count(&self, emission: &Emission) -> (r: bool)
        ensures
            r == self.deep_view().can_count(emission.deep_view()),
    {
        match emission {
            Emission::Notice { .. } => self.total_notices < u64::MAX,
            Emission::Report { .. } => true,
            Emission::Voucher { .. } => self.total_vouchers < u64::MAX,
        }
    }

    /// Takes note of whether something that was sent has arrived, and tells whether to go on: what
    /// has not arrived must not have been required.
    pub fn settle(&mut self, emission: &Emission, arrived: bool) -> (r: bool)
        requires
            arrived ==> old(self).deep_view().can_count(emission.deep_view()),
        ensures
            final(self).deep_view() == (if arrived {
                old(self).deep_view().with_sent(emission.deep_view())
            } else {
                old(self).deep_view()
            }),
            r == (arrived || emission.deep_view() matches EmissionModel::Report {
                required: false,
                ..
            }),
            old(self).deep_view().sound() ==> final(self).deep_view().sound(),
    {
        if arrived {
            match emission {
                Emission::Notice { .. } => {
                    self.total_notices = self.total_notices + 1;
                },
                Emission::Report { .. } => {},
                Emission::Voucher { .. } => {
                    self.total_vouchers = self.total_vouchers + 1;
                },
            }
            true
        } else {
            match emission {
                Emission::Report { required, .. } => !*required,
                _ => false,
            }
        }
    }
}

} // verus!
