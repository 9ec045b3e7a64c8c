use vstd::prelude::*;

verus! {

/// Failure taxonomy of the library. Every operation that can refuse work
/// reports one of these, and its contract says exactly on which inputs.
#[derive(Clone, Copy, Debug, PartialEq, Eq, Structural)]
pub enum OpError {
    /// The caller lacks the role or identity the operation demands.
    Unauthorized,
    /// A proposal, registry entry or ledger record with the given name is absent.
    NotFound,
    /// The caller's identity is already on the proposal's voter list.
    DuplicateVote,
    /// Voting was attempted at or after the proposal's deadline.
    ProposalExpired,
    /// A time-gated computation was requested before its eligible time.
    TooEarly,
    /// The proposal's effect has already been executed once.
    AlreadyFinalized,
    /// The proposal is not (or not yet) accepted, so its effect cannot run.
    NotYetDecidable,
    /// A name that must be unique is already taken.
    AlreadyExists,
    /// The operation would drive a balance or sub-amount below zero.
    InsufficientBalance,
    /// A withdrawal was attempted before the cooldown period elapsed.
    CooldownActive,
    /// A dependent remote step reported failure; the rest of the chain is halted.
    RemoteStepFailed,
    /// The requested duration cannot be resolved to a deadline timestamp.
    InvalidDuration,
    /// An amount fails a validity check: zero where a positive amount is
    /// required, or an exit price that is not a whole multiple of the shares.
    InvalidAmount,
    /// Checked fixed-point arithmetic would overflow the machine integer.
    Overflow,
    /// A pro-rata reward share is undefined while nothing is staked.
    ZeroTotalStaked,
}

/// Three-valued outcome of reading a proposal's tally against its deadline.
#[derive(Clone, Copy, Debug, PartialEq, Eq, Structural)]
pub enum Decision {
    /// The deadline has not yet passed; the proposal is still open.
    Pending,
    /// The deadline passed and the votes for strictly outnumber the votes against.
    Accepted,
    /// The deadline passed without a strict majority in favour (a tie rejects).
    Rejected,
}

} // verus!
