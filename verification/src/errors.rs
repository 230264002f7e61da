//! The failures that the services report.

use vstd::prelude::*;

verus! {

/// Why a call failed.
#[derive(Clone, Copy, Debug, PartialEq, Eq)]
pub enum ServiceError {
    /// A file could not be opened, mapped or created.
    Io,
    /// The sections of a key store decode but do not belong together.
    FormatMismatch,
    /// A section of a key store is cut short or holds what cannot be decoded.
    Deserialization,
    /// A proof was asked for before a key bundle was published.
    KeyNotLoaded,
    /// The circuit evaluator gave no assignment, or one that does not fit the key.
    WitnessComputation,
    /// The proof could not be built from the key and the assignment.
    ProofConstruction,
    /// The bytes handed in as a proof are no proof.
    ProofDecode,
    /// A hexadecimal scalar is badly written.
    HexDecode,
    /// A decimal field element is badly written.
    FieldParse,
    /// An integer is badly written.
    IntegerParse,
    /// The verification could not be carried out.
    VerificationComputation,
    /// A request is not written as the interface asks.
    MalformedRequest,
}

/// The status that a failure is reported with; zero stands for success.
pub open spec fn status_of(error: ServiceError) -> i32 {
    match error {
        ServiceError::Io => 1,
        ServiceError::FormatMismatch => 2,
        ServiceError::Deserialization => 3,
        ServiceError::KeyNotLoaded => 4,
        ServiceError::WitnessComputation => 5,
        ServiceError::ProofConstruction => 6,
        ServiceError::ProofDecode => 7,
        ServiceError::HexDecode => 8,
        ServiceError::FieldParse => 9,
        ServiceError::IntegerParse => 10,
        ServiceError::VerificationComputation => 11,
        ServiceError::MalformedRequest => 12,
    }
}

impl ServiceError {
    /// The status that the failure is reported with: never zero, and
    /// different for different failures.
    pub fn status(&self) -> (out: i32)
        ensures
            out == status_of(*self),
            out != 0,
    {
        match self {
            ServiceError::Io => 1,
            ServiceError::FormatMismatch => 2,
            ServiceError::Deserialization => 3,
            ServiceError::KeyNotLoaded => 4,
            ServiceError::WitnessComputation => 5,
            ServiceError::ProofConstruction => 6,
            ServiceError::ProofDecode => 7,
            ServiceError::HexDecode => 8,
            ServiceError::FieldParse => 9,
            ServiceError::IntegerParse => 10,
            ServiceError::VerificationComputation => 11,
            ServiceError::MalformedRequest => 12,
        }
    }

    /// A short description of the failure.
    pub fn message(&self) -> (out: &'static str)
        ensures
            out@ == (match *self {
                ServiceError::Io => "file could not be opened"@,
                ServiceError::FormatMismatch => "key store sections do not belong together"@,
                ServiceError::Deserialization => "key store could not be decoded"@,
                ServiceError::KeyNotLoaded => "no key bundle is loaded"@,
                ServiceError::WitnessComputation => "witness could not be computed"@,
                ServiceError::ProofConstruction => "proof could not be built"@,
                ServiceError::ProofDecode => "proof bytes could not be decoded"@,
                ServiceError::HexDecode => "hexadecimal scalar is badly written"@,
                ServiceError::FieldParse => "field element is badly written"@,
                ServiceError::IntegerParse => "integer is badly written"@,
                ServiceError::VerificationComputation => "verification could not be carried out"@,
                ServiceError::MalformedRequest => "request is badly written"@,
            }),
    {
        match self {
            ServiceError::Io => "file could not be opened",
            ServiceError::FormatMismatch => "key store sections do not belong together",
            ServiceError::Deserialization => "key store could not be decoded",
            ServiceError::KeyNotLoaded => "no key bundle is loaded",
            ServiceError::WitnessComputation => "witness could not be computed",
            ServiceError::ProofConstruction => "proof could not be built",
            ServiceError::ProofDecode => "proof bytes could not be decoded",
            ServiceError::HexDecode => "hexadecimal scalar is badly written",
            ServiceError::FieldParse => "field element is badly written",
            ServiceError::IntegerParse => "integer is badly written",
            ServiceError::VerificationComputation => "verification could not be carried out",
            ServiceError::MalformedRequest => "request is badly written",
        }
    }
}

/// Different failures have different statuses.
pub proof fn lemma_status_tells_failures_apart(first: ServiceError, second: ServiceError)
    requires
        status_of(first) == status_of(second),
    ensures
        first == second,
{
}

} // verus!
