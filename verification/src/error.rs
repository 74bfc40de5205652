//! The ways in which a request can fail.

use crate::datatypes::BlockchainError;
use vstd::prelude::*;

verus! {

/// Why a block was not accepted.
#[derive(Clone, Copy, Debug, PartialEq, Eq, Structural)]
pub enum VerifyError {
    /// The block's id is not the place it is offered for, or it names a
    /// predecessor that the chain does not hold.
    IdGap,
    /// The block does not name the hash of its predecessor.
    PrevHashMismatch,
    /// The stored hash is not the hash of the block's other fields.
    HashMismatch,
    /// The hash does not begin with enough zero bits.
    DifficultyUnmet,
}

/// Why a contract could not be evaluated.
#[derive(Clone, Copy, Debug, PartialEq, Eq, Structural)]
pub enum EvalError {
    /// An operation found fewer than two values on the stack.
    MissingOperand,
    /// The contract asks for more arguments than were supplied.
    MissingArgument,
    /// Division or remainder by zero.
    DivisionByZero,
    /// An operation other than `+ - * / % p`.
    UnknownOperation,
    /// The contract came to its end with no value on the stack.
    NoResult,
}

/// Why a request to evaluate a contract names no contract.
#[derive(Clone, Copy, Debug, PartialEq, Eq, Structural)]
pub enum BlockRefError {
    /// The request holds no block id.
    MissingId,
    /// The chain has no block of that id.
    OutOfRange,
    /// The block of that id holds no contract.
    NotContract,
}

/// Every way in which handling a message, or mining, can fail.
#[derive(Clone, Copy, Debug, PartialEq, Eq, Structural)]
pub enum Failure {
    /// The payload is not the layout that the command calls for.
    Decode,
    Verification(VerifyError),
    /// An offered chain is not longer than the one held.
    Shorter,
    ContractEval(EvalError),
    BlockRef(BlockRefError),
    /// Mining was stopped through the control channel.
    MinerCancelled,
    /// No nonce makes the candidate meet the difficulty.
    NonceExhausted,
    /// The predecessor's id is the largest there is.
    IdExhausted,
    /// The control channel has no receiver left.
    ControlClosed,
}

/// What a failure is called when it is shown to the operator.
pub open spec fn failure_text(failure: Failure) -> Seq<char> {
    match failure {
        Failure::Decode => "Payload is not in the expected layout."@,
        Failure::Verification(VerifyError::IdGap) => "Block ID don't match blockchain lenght."@,
        Failure::Verification(VerifyError::PrevHashMismatch) => "Previous hash don't match!"@,
        Failure::Verification(VerifyError::HashMismatch) => "Hash don't match block contents."@,
        Failure::Verification(VerifyError::DifficultyUnmet) =>
            "Hash in improper form for this nonce."@,
        Failure::Shorter => "New block is shorter or equal in lenght to current one."@,
        Failure::ContractEval(EvalError::MissingOperand) => "No value found"@,
        Failure::ContractEval(EvalError::MissingArgument) => "No value found"@,
        Failure::ContractEval(EvalError::DivisionByZero) => "Error: division by 0"@,
        Failure::ContractEval(EvalError::UnknownOperation) => "Unknown sign"@,
        Failure::ContractEval(EvalError::NoResult) => "No value found"@,
        Failure::BlockRef(BlockRefError::MissingId) => "Couldn't extract block id"@,
        Failure::BlockRef(BlockRefError::OutOfRange) =>
            "Block id is bigger than blockchain lenght"@,
        Failure::BlockRef(BlockRefError::NotContract) => "Provided block doesn't hold contract."@,
        Failure::MinerCancelled => "Mining stopped via message."@,
        Failure::NonceExhausted => "No nonce seals this block."@,
        Failure::IdExhausted => "No block id is left."@,
        Failure::ControlClosed => "Miner control channel is closed."@,
    }
}

/// Whether a failure belongs to the ordinary course of a node: a block or a
/// chain that is not taken up while the peers converge, and a worker that was
/// told to stop.
pub open spec fn routine(failure: Failure) -> bool {
    failure is Verification || failure is Shorter || failure is MinerCancelled
}

impl Failure {
    /// Whether the failure belongs to the ordinary course of a node, and so
    /// is worth no more than a note to the operator.
    pub fn is_routine(&self) -> (res: bool)
        ensures
            res == routine(*self),
    {
        match self {
            Failure::Verification(_) => true,
            Failure::Shorter => true,
            Failure::MinerCancelled => true,
            _ => false,
        }
    }

    /// The failure as an error with its description.
    pub fn to_error(&self) -> (error: BlockchainError)
        ensures
            error.0@ == failure_text(*self),
    {
        let text: &str = match self {
            Failure::Decode => "Payload is not in the expected layout.",
            Failure::Verification(VerifyError::IdGap) => "Block ID don't match blockchain lenght.",
            Failure::Verification(VerifyError::PrevHashMismatch) => "Previous hash don't match!",
            Failure::Verification(VerifyError::HashMismatch) => "Hash don't match block contents.",
            Failure::Verification(VerifyError::DifficultyUnmet) =>
                "Hash in improper form for this nonce.",
            Failure::Shorter => "New block is shorter or equal in lenght to current one.",
            Failure::ContractEval(EvalError::MissingOperand) => "No value found",
            Failure::ContractEval(EvalError::MissingArgument) => "No value found",
            Failure::ContractEval(EvalError::DivisionByZero) => "Error: division by 0",
            Failure::ContractEval(EvalError::UnknownOperation) => "Unknown sign",
            Failure::ContractEval(EvalError::NoResult) => "No value found",
            Failure::BlockRef(BlockRefError::MissingId) => "Couldn't extract block id",
            Failure::BlockRef(BlockRefError::OutOfRange) =>
                "Block id is bigger than blockchain lenght",
            Failure::BlockRef(BlockRefError::NotContract) => "Provided block doesn't hold contract.",
            Failure::MinerCancelled => "Mining stopped via message.",
            Failure::NonceExhausted => "No nonce seals this block.",
            Failure::IdExhausted => "No block id is left.",
            Failure::ControlClosed => "Miner control channel is closed.",
        };
        BlockchainError(text.to_owned())
    }
}


} // verus!
