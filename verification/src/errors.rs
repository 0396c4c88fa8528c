//! The error taxonomy of the lottery state machine.

use vstd::prelude::*;

verus! {

/// Why a transition was refused. Every precondition is checked before any
/// mutation or transfer, so a transition that returns one of these has had
/// no observable effect.
#[derive(Clone, Copy, Debug, PartialEq, Eq)]
pub enum ErrorCode {
    /// Bad initialization inputs: a zero price or capacity, a fee above the
    /// whole pool, a deadline not strictly in the future, or a capacity so
    /// large that the pool could not be accounted for.
    InvalidParameters,
    /// A round already exists under the requested round id.
    DuplicateRound,
    /// No round, or no ticket, exists under the given key.
    NotFound,
    /// The round is not accepting this transition because it is not active.
    LotteryNotActive,
    /// Every ticket of the round has been sold.
    LotteryFull,
    /// The sales deadline has passed.
    LotteryEnded,
    /// A draw was attempted on a round that sold no tickets.
    NoTicketsSold,
    /// A draw was attempted before the sales deadline.
    DrawNotReady,
    /// A claim was attempted on a round whose winner has not been drawn.
    LotteryNotCompleted,
    /// The presented ticket does not belong to the round, or does not exist.
    InvalidTicket,
    /// The presented ticket is not the winning ticket.
    NotWinningTicket,
    /// The round's prize has already been paid out.
    AlreadyClaimed,
    /// The storage slot for the next ticket is already occupied.
    SlotAlreadyIssued,
    /// An escrow transfer failed: insufficient funds in the source account,
    /// or a balance that cannot be represented in the destination account.
    TransferFailed,
}

impl ErrorCode {
    /// A short description of the error, for callers that display it.
    pub fn message(&self) -> &'static str {
        match self {
            ErrorCode::InvalidParameters => "Invalid lottery parameters",
            ErrorCode::DuplicateRound => "A round with this id already exists",
            ErrorCode::NotFound => "Not found",
            ErrorCode::LotteryNotActive => "Lottery is not active",
            ErrorCode::LotteryFull => "Lottery is full",
            ErrorCode::LotteryEnded => "Lottery has ended",
            ErrorCode::NoTicketsSold => "No tickets sold",
            ErrorCode::DrawNotReady => "Draw is not ready yet",
            ErrorCode::LotteryNotCompleted => "Lottery is not completed",
            ErrorCode::InvalidTicket => "Invalid ticket",
            ErrorCode::NotWinningTicket => "Not a winning ticket",
            ErrorCode::AlreadyClaimed => "Prize has already been claimed",
            ErrorCode::SlotAlreadyIssued => "Ticket slot is already issued",
            ErrorCode::TransferFailed => "Escrow transfer failed",
        }
    }
}

} // verus!
