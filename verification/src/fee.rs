//! Charging the fee of a submission.
//!
//! Taking tokens out of an account is up to the runtime. So what is to be done is
//! handed out one step at a time: a step says what to do, [`ChargeStep::next`] takes
//! the outcome.

use crate::types::{FeeCharge, OutsideResult};
use vstd::prelude::*;

verus! {

/// What is to be done next to charge a fee.
#[derive(PartialEq, Eq, Debug)]
pub enum ChargeStep<AccountId> {
    /// Ask the ledger whether the fee can be withdrawn.
    Check(FeeCharge<AccountId>),
    /// Withdraw the fee.
    Withdraw(FeeCharge<AccountId>),
    /// Hand what was withdrawn to the treasury. This has no outcome but `Ok`.
    HandOver,
    /// Nothing: this is how it ended.
    Ended(OutsideResult),
}

impl<AccountId> ChargeStep<AccountId> {
    /// The step that follows one with this outcome: a fee is withdrawn once the ledger
    /// was asked and has agreed, and handed over once it was withdrawn. Where the ledger
    /// refuses, nothing more is done.
    pub open spec fn followed_by(self, outcome: OutsideResult) -> ChargeStep<AccountId> {
        match self {
            ChargeStep::Check(charge) => if outcome is Ok {
                ChargeStep::Withdraw(charge)
            } else {
                ChargeStep::Ended(outcome)
            },
            ChargeStep::Withdraw(_) => if outcome is Ok {
                ChargeStep::HandOver
            } else {
                ChargeStep::Ended(outcome)
            },
            ChargeStep::HandOver => ChargeStep::Ended(Ok(())),
            ChargeStep::Ended(ending) => ChargeStep::Ended(ending),
        }
    }

    /// The first step of charging a fee: the ledger is asked whether it can be
    /// withdrawn.
    pub fn first(charge: FeeCharge<AccountId>) -> (result: ChargeStep<AccountId>)
        ensures
            result == ChargeStep::Check(charge),
    {
        ChargeStep::Check(charge)
    }

    /// Takes the outcome of a step and says what is to be done next.
    pub fn next(self, outcome: OutsideResult) -> (result: ChargeStep<AccountId>)
        ensures
            result == self.followed_by(outcome),
    {
        match self {
            ChargeStep::Check(charge) => match outcome {
                Ok(()) => ChargeStep::Withdraw(charge),
                Err(error) => ChargeStep::Ended(Err(error)),
            },
            ChargeStep::Withdraw(_) => match outcome {
                Ok(()) => ChargeStep::HandOver,
                Err(error) => ChargeStep::Ended(Err(error)),
            },
            ChargeStep::HandOver => ChargeStep::Ended(Ok(())),
            ChargeStep::Ended(ending) => ChargeStep::Ended(ending),
        }
    }
}

/// Charging goes from asking to withdrawing to handing over, each for the same charge and
/// only where the ledger agreed to what came before. Where it refuses, charging ends with
/// its error; where the fee was handed over, it ends well; and what has ended stays so.
pub proof fn charging_stops_at_the_first_refusal<AccountId>(
    charge: FeeCharge<AccountId>,
    outcome: OutsideResult,
    ending: OutsideResult,
)
    ensures
        ({
            let checked = ChargeStep::Check(charge).followed_by(outcome);
            let withdrawn = ChargeStep::Withdraw(charge).followed_by(outcome);
            &&& outcome is Ok ==> checked == ChargeStep::Withdraw(charge)
            &&& outcome is Err ==> checked == ChargeStep::<AccountId>::Ended(outcome)
            &&& outcome is Ok ==> withdrawn is HandOver
            &&& outcome is Err ==> withdrawn == ChargeStep::<AccountId>::Ended(outcome)
            &&& ChargeStep::<AccountId>::HandOver.followed_by(outcome) == ChargeStep::<
                AccountId,
            >::Ended(Ok(()))
            &&& ChargeStep::<AccountId>::Ended(ending).followed_by(outcome) == ChargeStep::<
                AccountId,
            >::Ended(ending)
        }),
{
}

} // verus!
