use vstd::prelude::*;

verus! {

/// Everything that can stop a mining attempt.
#[derive(Clone, Copy, Debug, PartialEq, Eq, Structural)]
pub enum MinerError {
    /// The compact bits do not describe a 256-bit target.
    MalformedTarget,
    /// The payout hash or the miner tag cannot be put into a script.
    InvalidScript,
    /// A Merkle root was asked of no transactions at all.
    EmptyTransactionSet,
    /// The header's 32-bit timestamp cannot reach the template's minimum time.
    TimeBeforeMinimum,
    /// A search worker ended abnormally.
    WorkerFault,
    /// No nonce below the bound gives a hash below the target.
    NoSolutionInRange,
    /// The template source failed, or handed over a field that cannot be read.
    TemplateFetchFailed,
    /// A transaction's hex payload does not decode.
    MalformedTransactionEncoding,
}

impl MinerError {
    /// A short description for people.
    pub fn message(&self) -> (text: &'static str)
        ensures
            text@ == Self::message_of(*self),
    {
        match self {
            MinerError::MalformedTarget => "compact bits overflow the 256-bit target",
            MinerError::InvalidScript => "payout hash or miner tag does not fit a script",
            MinerError::EmptyTransactionSet => "no transactions to build a Merkle root from",
            MinerError::TimeBeforeMinimum => "header time cannot reach the template's minimum time",
            MinerError::WorkerFault => "a search worker ended abnormally",
            MinerError::NoSolutionInRange => "nonce range exhausted without a solution",
            MinerError::TemplateFetchFailed => "block template could not be fetched or read",
            MinerError::MalformedTransactionEncoding => "a template transaction is not valid hex",
        }
    }

    /// The text that `message` returns for each error.
    pub open spec fn message_of(e: MinerError) -> Seq<char> {
        match e {
            MinerError::MalformedTarget => "compact bits overflow the 256-bit target"@,
            MinerError::InvalidScript => "payout hash or miner tag does not fit a script"@,
            MinerError::EmptyTransactionSet => "no transactions to build a Merkle root from"@,
            MinerError::TimeBeforeMinimum => "header time cannot reach the template's minimum time"@,
            MinerError::WorkerFault => "a search worker ended abnormally"@,
            MinerError::NoSolutionInRange => "nonce range exhausted without a solution"@,
            MinerError::TemplateFetchFailed => "block template could not be fetched or read"@,
            MinerError::MalformedTransactionEncoding => "a template transaction is not valid hex"@,
        }
    }
}

} // verus!
