//! The claimer: for each claim it decides whether a transaction is sent.
//!
//! The duplicate check and the submission are done by the caller. The claimer
//! is handed what they returned and says what follows: `after_duplicate_check`
//! once the checker has answered, `after_send` once the sender has.

use vstd::prelude::*;
use crate::claim::RollupsClaim;

verus! {

/// Why a claim could not be processed.
#[derive(Debug)]
pub enum ClaimerError<DE, TE> {
    /// The duplicate checker could not tell whether the claim is on chain.
    DuplicatedClaimError { source: DE },
    /// The transaction sender failed to submit or confirm the claim.
    TransactionSenderError { source: TE },
}

impl<DE, TE> ClaimerError<DE, TE> {
    /// The text that names the kind of the error.
    pub open spec fn message(self) -> Seq<char> {
        match self {
            ClaimerError::DuplicatedClaimError { .. } => "duplicated claim error"@,
            ClaimerError::TransactionSenderError { .. } => "transaction sender error"@,
        }
    }

    pub fn to_string(&self) -> (text: String)
        ensures
            text@ == self.message(),
    {
        match self {
            ClaimerError::DuplicatedClaimError { .. } => "duplicated claim error".to_string(),
            ClaimerError::TransactionSenderError { .. } => "transaction sender error".to_string(),
        }
    }
}

/// A duplicate checker and a transaction sender, owned together. Each claim
/// consumes the value and gives a new one.
#[derive(Debug)]
pub struct AbstractClaimer<D, T> {
    duplicate_checker: D,
    transaction_sender: T,
}

/// A claimer whose sender is out submitting a claim.
#[derive(Debug)]
pub struct PendingSend<D> {
    duplicate_checker: D,
}

/// What follows the duplicate check of a claim.
#[derive(Debug)]
pub enum ClaimerStep<D, T, DE, TE> {
    /// The claim is settled without a transaction.
    Done(Result<AbstractClaimer<D, T>, ClaimerError<DE, TE>>),
    /// The claim is new: `transaction_sender` is to submit `rollups_claim`,
    /// and `pending` takes what that returns.
    Send { pending: PendingSend<D>, transaction_sender: T, rollups_claim: RollupsClaim },
}

/// The claims that one call hands to the transaction sender, given the
/// checker's answer: the claim itself where it is reported new, nothing
/// otherwise.
pub open spec fn send_attempts<DE>(rollups_claim: RollupsClaim, checked: Result<bool, DE>) -> Seq<
    RollupsClaim,
> {
    match checked {
        Ok(false) => seq![rollups_claim],
        _ => Seq::empty(),
    }
}

impl<D, T, DE, TE> ClaimerStep<D, T, DE, TE> {
    /// The claims that this step hands to the transaction sender.
    pub open spec fn attempts(self) -> Seq<RollupsClaim> {
        match self {
            ClaimerStep::Send { rollups_claim, .. } => seq![rollups_claim],
            ClaimerStep::Done(_) => Seq::empty(),
        }
    }
}

impl<D> PendingSend<D> {
    /// The duplicate checker that waits for the sender to come back.
    pub closed spec fn duplicate_checker(self) -> D {
        self.duplicate_checker
    }

    /// Settles the claim once the sender has answered. A sender that came
    /// back takes the place of the old one; a failure is reported as a
    /// transaction-sender error with its cause.
    pub fn after_send<T, DE, TE>(self, sent: Result<T, TE>) -> (result: Result<
        AbstractClaimer<D, T>,
        ClaimerError<DE, TE>,
    >)
        ensures
            match sent {
                Ok(sender) => result matches Ok(claimer) && claimer@ == (
                    self.duplicate_checker(),
                    sender,
                ),
                Err(cause) => result == Err::<AbstractClaimer<D, T>, ClaimerError<DE, TE>>(
                    ClaimerError::TransactionSenderError { source: cause },
                ),
            },
    {
        match sent {
            Ok(transaction_sender) => Ok(
                AbstractClaimer { duplicate_checker: self.duplicate_checker, transaction_sender },
            ),
            Err(source) => Err(ClaimerError::TransactionSenderError { source }),
        }
    }
}

impl<D, T> AbstractClaimer<D, T> {
    /// The duplicate checker and the transaction sender that the claimer holds.
    pub closed spec fn view(&self) -> (D, T) {
        (self.duplicate_checker, self.transaction_sender)
    }

    pub fn new(duplicate_checker: D, transaction_sender: T) -> (claimer: Self)
        ensures
            claimer@ == (duplicate_checker, transaction_sender),
    {
        Self { duplicate_checker, transaction_sender }
    }

    /// The checker to ask about the next claim.
    pub fn duplicate_checker(&self) -> (checker: &D)
        ensures
            *checker == self@.0,
    {
        &self.duplicate_checker
    }

    /// The sender that will submit the next new claim.
    pub fn transaction_sender(&self) -> (sender: &T)
        ensures
            *sender == self@.1,
    {
        &self.transaction_sender
    }

    /// Decides what follows the duplicate check of `rollups_claim`.
    ///
    /// A failed check ends the call with a duplicate-check error that holds
    /// the cause. A claim reported as duplicate gives the claimer back
    /// unchanged, and no sender is handed out. A claim reported as new gives
    /// the sender and the claim out for one submission.
    pub fn after_duplicate_check<DE, TE>(
        self,
        rollups_claim: RollupsClaim,
        checked: Result<bool, DE>,
    ) -> (step: ClaimerStep<D, T, DE, TE>)
        ensures
            match checked {
                Err(cause) => step == ClaimerStep::<D, T, DE, TE>::Done(
                    Err(ClaimerError::DuplicatedClaimError { source: cause }),
                ),
                Ok(true) => step == ClaimerStep::<D, T, DE, TE>::Done(Ok(self)),
                Ok(false) => step matches ClaimerStep::Send {
                    pending,
                    transaction_sender,
                    rollups_claim: handed,
                } && pending.duplicate_checker() == self@.0 && transaction_sender == self@.1
                    && handed == rollups_claim,
            },
            step.attempts() == send_attempts(rollups_claim, checked),
    {
        match checked {
            Err(source) => ClaimerStep::Done(Err(ClaimerError::DuplicatedClaimError { source })),
            Ok(true) => ClaimerStep::Done(Ok(self)),
            Ok(false) => ClaimerStep::Send {
                pending: PendingSend { duplicate_checker: self.duplicate_checker },
                transaction_sender: self.transaction_sender,
                rollups_claim,
            },
        }
    }
}

} // verus!
