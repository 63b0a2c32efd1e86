use vstd::prelude::*;

verus! {

/// Why an operation was refused. Every failure ends the invocation and
/// leaves the state as it was.
#[derive(Debug, Clone, Copy, PartialEq, Eq, Structural)]
pub enum ContractError {
    /// A collaborator outside the pool (the ownership registry or the asset
    /// service) gave no answer.
    QueryFailed,
    /// The caller does not hold the role that the operation asks for.
    Unauthorized,
    /// The funds sent along do not match the declared amount.
    InsufficientFunds,
    /// The legs of one wager cover more points than allowed.
    ExceedBetPoints,
    /// No wager has opened the round yet.
    RoundNotStarted,
    /// The round's duration has not elapsed.
    RoundNotFinished,
    /// The round's duration has elapsed: no more wagers.
    RoundFinished,
    /// The owner asked for more than the pool can spare.
    WithdrawalExceedsAvailable { requested: u128, available: u128 },
    /// A row, column or single-number selection with an id out of range.
    InvalidSelection,
    /// The player already holds a wager in this room and round.
    DuplicateWager,
    /// Some outcome would cost more than the pool holds.
    InsufficientPoolCoverage { held: u128, number: u32, worst_case: u128 },
    /// No room has this id.
    RoomNotFound { room_id: u64 },
    /// The pool is halted.
    Halted,
    /// The wager's total is outside the room's limits.
    BetOutOfLimits { min_bet: u128, max_bet: u128 },
    /// The platform fee is not a fraction between zero and one.
    InvalidPlatformFee,
    /// A counter or a sum left the range of its type.
    Overflow,
    /// The state was written under another name or version.
    CannotMigrate,
}

} // verus!
