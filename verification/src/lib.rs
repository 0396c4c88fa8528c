//! A ticket-based lottery as a deterministic state machine over
//! externally-custodied accounts.
//!
//! The core is the round lifecycle: a round is initialized with a ticket
//! price, a capacity and a deadline; tickets are sold against an escrowed
//! pool; after the deadline a winner is drawn from external entropy; the
//! winning ticket's owner claims the pool, minus a platform fee.
//!
//! The hosting ledger is modelled explicitly: token balances live in an
//! escrow ledger keyed by account id, rounds and tickets live in registries
//! keyed by round id and ticket number, and each transition either commits
//! all of its effects or fails with a specific error and no effect at all.

pub mod errors;
pub mod escrow;
pub mod laws;
pub mod machine;
pub mod state;

pub use errors::ErrorCode;
pub use escrow::AccountId;
pub use machine::{
    buy_ticket, claim_prize, draw_winner, entropy_from_bytes, initialize_lottery, issue,
    BuyTicket, ClaimPrize, DrawWinner, InitializeLottery, LotteryProgram, PrizeClaimed,
    TicketPurchased, WinnerDrawn,
};
pub use state::{Lottery, LotteryStatus, RoundEntry, Ticket, FEE_DENOMINATOR};
