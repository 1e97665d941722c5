//! Operations, transactions, their authorization rule, and the error
//! taxonomy shared by the ledger, the miner and the block committer.

use vstd::prelude::*;

use crate::AccountId;
use crate::Balance;
use crate::origin::Origin;

verus! {

/// A ledger operation. Each variant carries its own authorization
/// requirement, checked by [`Operation::is_privilaged`].
#[derive(Clone, Copy, Debug, PartialEq, Eq)]
pub enum Operation {
    Empty,
    Panic,
    DestroyAccount { account_id: AccountId },
    TransferFund { sender: AccountId, receiver: AccountId, amount: Balance },
    Airdrop { receiver: AccountId, amount: Balance },
}

/// An operation together with its authenticated originator.
#[derive(Clone, Copy, Debug, PartialEq, Eq)]
pub struct Transaction {
    pub operation: Operation,
    pub initiator: Origin,
}

/// Why an operation, a mining attempt, or a block was rejected.
#[derive(Debug)]
pub enum ChainError {
    /// The transaction's originator may not perform its operation.
    Unauthorized,
    /// The transfer's sender has no ledger entry.
    SenderNotFound,
    /// The transfer's sender holds less than the transferred amount.
    InsufficientBalance,
    /// A keep-alive transfer would leave the sender below the existential
    /// deposit.
    CannotKillSender,
    /// The transfer would leave the receiver below the existential deposit.
    ReceiverBelowDeposit,
    /// Crediting the receiver would overflow its balance.
    BalanceOverflow,
    /// The account to destroy has no ledger entry.
    AccountNotFound,
    /// An airdrop failed because the system account cannot cover it.
    SystemAllowanceTooLow,
    /// The deliberate fault: a `Panic` operation was executed.
    OperationPanic,
    /// The whole timestamp and nonce search space was exhausted without a
    /// hash meeting the difficulty.
    MiningExhausted,
    /// The candidate block does not reference the current tip as parent.
    ParentMismatch,
    /// The candidate block's timestamp is older than the tolerated age.
    BlockTooOld,
    /// The candidate block's hash does not meet the difficulty.
    DifficultyNotMet,
    /// A transaction inside a committed block failed; the whole block was
    /// rolled back. Carries the failing transaction's index, the transaction
    /// itself, and the underlying error.
    TransactionFailed { index: usize, transaction: Transaction, cause: Box<ChainError> },
}

/// The outcome of every operation, mining attempt, and block commit.
pub type TransactionResult = Result<(), ChainError>;

/// The authorization table: `Empty` and `Panic` are always allowed; a
/// privileged operation must be signed by the account it most directly
/// affects (the sender pays, the destroyed account consents, the airdrop
/// receiver requests).
pub open spec fn spec_authorized(operation: Operation, origin: Origin) -> bool {
    match operation {
        Operation::Empty => true,
        Operation::Panic => true,
        Operation::DestroyAccount { account_id } => match origin {
            Origin::Signed(id) => id@ == account_id@,
            _ => false,
        },
        Operation::TransferFund { sender, .. } => match origin {
            Origin::Signed(id) => id@ == sender@,
            _ => false,
        },
        Operation::Airdrop { receiver, .. } => match origin {
            Origin::Signed(id) => id@ == receiver@,
            _ => false,
        },
    }
}

impl Operation {
    /// True iff `origin` is allowed to perform this operation.
    pub fn is_privilaged(&self, origin: &Origin) -> (r: bool)
        ensures
            r == spec_authorized(*self, *origin),
    {
        match self {
            Operation::Empty | Operation::Panic => true,
            Operation::DestroyAccount { account_id } => match origin {
                Origin::Signed(id) => *id == *account_id,
                _ => false,
            },
            Operation::TransferFund { sender, .. } => match origin {
                Origin::Signed(id) => *id == *sender,
                _ => false,
            },
            Operation::Airdrop { receiver, .. } => match origin {
                Origin::Signed(id) => *id == *receiver,
                _ => false,
            },
        }
    }
}

} // verus!
