//! The failures a transition can end in.

use vstd::prelude::*;

verus! {

/// Why the proof backend would not, or did not, prove a transition.
#[derive(Debug, Clone, Copy, PartialEq, Eq, Structural)]
pub enum ProofFailure {
    /// A fresh counter must start at zero.
    InitialValueNotZero,
    /// The created counter is not exactly one above the consumed counter.
    ValueNotIncremented,
    /// The consumed counter already holds the largest value.
    CounterOverflow,
    /// The created resource reuses the consumed resource's nonce.
    NonceReused,
    /// The resources do not belong to the same counter.
    KindMismatch,
    /// The backend rejected the witness.
    Rejected,
}

/// The failure of one initialize or increment attempt.
#[derive(Debug, Clone, Copy, PartialEq, Eq, Structural)]
pub enum TransitionError {
    /// Increment before initialize.
    NotInitialized,
    /// The ledger returned an authentication path of the wrong depth.
    MalformedPath { expected: usize, found: usize },
    /// The witness was refused before or by the proof backend.
    ProofGeneration(ProofFailure),
    /// The ledger did not accept the transaction.
    Submission { retryable: bool },
    /// Another attempt holds the account.
    Concurrency,
}

/// The name of an error's kind.
pub open spec fn kind_name(e: TransitionError) -> Seq<char> {
    match e {
        TransitionError::NotInitialized => "NotInitializedError"@,
        TransitionError::MalformedPath { .. } => "MalformedPathError"@,
        TransitionError::ProofGeneration(_) => "ProofGenerationError"@,
        TransitionError::Submission { .. } => "SubmissionError"@,
        TransitionError::Concurrency => "ConcurrencyError"@,
    }
}

/// The sentence that explains an error's cause.
pub open spec fn cause_text(e: TransitionError) -> Seq<char> {
    match e {
        TransitionError::NotInitialized => "the counter is not initialized for this account"@,
        TransitionError::MalformedPath { .. } => "the ledger returned a path of the wrong depth"@,
        TransitionError::ProofGeneration(f) => match f {
            ProofFailure::InitialValueNotZero => "a new counter must start at zero"@,
            ProofFailure::ValueNotIncremented => "the new counter value is not the old one plus one"@,
            ProofFailure::CounterOverflow => "the counter has reached its largest value"@,
            ProofFailure::NonceReused => "the new resource reuses the old nonce"@,
            ProofFailure::KindMismatch => "the resources belong to different counters"@,
            ProofFailure::Rejected => "the proof backend rejected the witness"@,
        },
        TransitionError::Submission { retryable } => if retryable {
            "the ledger call failed and may be retried"@
        } else {
            "the ledger rejected the transaction"@
        },
        TransitionError::Concurrency => "another request for this account is in flight"@,
    }
}

impl TransitionError {
    /// Whether the caller may try the same operation again.
    pub open spec fn spec_is_retryable(&self) -> bool {
        match *self {
            TransitionError::NotInitialized => false,
            TransitionError::MalformedPath { .. } => true,
            TransitionError::ProofGeneration(f) => f == ProofFailure::Rejected,
            TransitionError::Submission { retryable } => retryable,
            TransitionError::Concurrency => true,
        }
    }

    #[verifier::when_used_as_spec(spec_is_retryable)]
    pub fn is_retryable(&self) -> (r: bool)
        ensures
            r == self.spec_is_retryable(),
    {
        match self {
            TransitionError::NotInitialized => false,
            TransitionError::MalformedPath { .. } => true,
            TransitionError::ProofGeneration(f) => match f {
                ProofFailure::Rejected => true,
                _ => false,
            },
            TransitionError::Submission { retryable } => *retryable,
            TransitionError::Concurrency => true,
        }
    }

    /// The HTTP status that answers a request that failed with this error.
    pub fn status(&self) -> (r: u16)
        ensures
            r == (match *self {
                TransitionError::NotInitialized => 400u16,
                TransitionError::Concurrency => 409u16,
                _ => 500u16,
            }),
    {
        match self {
            TransitionError::NotInitialized => 400,
            TransitionError::Concurrency => 409,
            _ => 500,
        }
    }

    /// The name of the error's kind.
    pub fn kind(&self) -> (r: &'static str)
        ensures
            r@ == kind_name(*self),
    {
        match self {
            TransitionError::NotInitialized => "NotInitializedError",
            TransitionError::MalformedPath { .. } => "MalformedPathError",
            TransitionError::ProofGeneration(_) => "ProofGenerationError",
            TransitionError::Submission { .. } => "SubmissionError",
            TransitionError::Concurrency => "ConcurrencyError",
        }
    }

    /// A sentence on the cause, for the person who made the request.
    pub fn cause(&self) -> (r: &'static str)
        ensures
            r@ == cause_text(*self),
    {
        match self {
            TransitionError::NotInitialized => "the counter is not initialized for this account",
            TransitionError::MalformedPath { .. } => "the ledger returned a path of the wrong depth",
            TransitionError::ProofGeneration(f) => match f {
                ProofFailure::InitialValueNotZero => "a new counter must start at zero",
                ProofFailure::ValueNotIncremented => "the new counter value is not the old one plus one",
                ProofFailure::CounterOverflow => "the counter has reached its largest value",
                ProofFailure::NonceReused => "the new resource reuses the old nonce",
                ProofFailure::KindMismatch => "the resources belong to different counters",
                ProofFailure::Rejected => "the proof backend rejected the witness",
            },
            TransitionError::Submission { retryable } => if *retryable {
                "the ledger call failed and may be retried"
            } else {
                "the ledger rejected the transaction"
            },
            TransitionError::Concurrency => "another request for this account is in flight",
        }
    }
}

} // verus!
