//! The data model of one lottery round, and the pure description of each
//! lifecycle transition as a function from round state to round state.

use vstd::prelude::*;

verus! {

/// Fee denominator: fees are expressed in basis points of the pool.
pub const FEE_DENOMINATOR: u64 = 10000;

/// The lifecycle phase of a round. The transition from `Active` to
/// `Completed` is a one-way gate: it happens exactly once, at draw time.
#[derive(Clone, Copy, Debug, PartialEq, Eq, Structural)]
pub enum LotteryStatus {
    Active,
    Completed,
}

/// One lottery round: its immutable configuration and its mutable progress.
#[derive(Clone, Copy, Debug, PartialEq, Eq)]
pub struct Lottery {
    /// Identity that created the round; immutable after creation.
    pub authority: u64,
    /// External round id; the registry holds at most one round per id.
    pub round: u64,
    /// Amount charged per ticket; immutable.
    pub ticket_price: u64,
    /// Capacity ceiling; immutable.
    pub max_tickets: u64,
    /// Number of tickets issued so far.
    pub tickets_sold: u64,
    /// Sum of all payments collected; always `tickets_sold * ticket_price`.
    pub total_pool: u64,
    /// Timestamp after which sales close and drawing becomes eligible.
    pub end_time: i64,
    /// Platform fee in basis points of the pool, fixed at initialization.
    pub fee_bps: u64,
    /// Lifecycle phase.
    pub status: LotteryStatus,
    /// Unset while active; set exactly once, at draw time.
    pub winner_ticket: Option<u64>,
    /// Whether the prize has been paid out; checked before any payout.
    pub claimed: bool,
}

/// One purchase: proof that `owner` bought ticket `ticket_number` of the
/// round with id `lottery`. Tickets are immutable once issued.
#[derive(Clone, Copy, Debug, PartialEq, Eq)]
pub struct Ticket {
    /// Round id of the round this ticket belongs to.
    pub lottery: u64,
    /// Identity of the buyer.
    pub owner: u64,
    /// Sequential number in `[1, tickets_sold at issuance]`; the per-round key.
    pub ticket_number: u64,
    /// Timestamp of the purchase.
    pub purchase_time: i64,
}

/// One round together with its ticket ledger: the ticket with number `k + 1`
/// is stored at position `k`, which makes ticket numbers unique per round
/// by construction.
#[derive(Debug)]
pub struct RoundEntry {
    pub lottery: Lottery,
    pub tickets: Vec<Ticket>,
}

/// Well-formedness of a round record: the invariants that hold after every
/// committed transition.
pub open spec fn lottery_wf(l: Lottery) -> bool {
    &&& 1 <= l.ticket_price
    &&& 1 <= l.max_tickets
    &&& l.max_tickets * l.ticket_price <= u64::MAX
    &&& l.fee_bps <= FEE_DENOMINATOR
    &&& l.tickets_sold <= l.max_tickets
    &&& l.total_pool == l.tickets_sold * l.ticket_price
    &&& (l.winner_ticket is None <==> l.status == LotteryStatus::Active)
    &&& (l.winner_ticket matches Some(w) ==> 1 <= w <= l.tickets_sold)
    &&& (l.claimed ==> l.status == LotteryStatus::Completed)
}

/// The ticket at position `k` of a round's ledger carries number `k + 1`
/// and refers back to its round.
pub open spec fn ticket_in_place(t: Ticket, round: u64, k: int) -> bool {
    &&& t.lottery == round
    &&& t.ticket_number == k + 1
}

/// Well-formedness of a round together with its ticket ledger.
pub open spec fn entry_wf(e: RoundEntry) -> bool {
    &&& lottery_wf(e.lottery)
    &&& e.tickets@.len() == e.lottery.tickets_sold
    &&& forall|k: int|
        0 <= k < e.tickets@.len() ==> ticket_in_place(
            #[trigger] e.tickets@[k],
            e.lottery.round,
            k,
        )
}

/// The initialization inputs that are accepted: positive price and capacity,
/// a fee of at most the whole pool, a deadline strictly in the future, and a
/// capacity small enough that a full pool still fits in a balance.
pub open spec fn params_ok(
    ticket_price: u64,
    max_tickets: u64,
    fee_bps: u64,
    end_time: i64,
    now: i64,
) -> bool {
    &&& 1 <= ticket_price
    &&& 1 <= max_tickets
    &&& max_tickets * ticket_price <= u64::MAX
    &&& fee_bps <= FEE_DENOMINATOR
    &&& now < end_time
}

/// The round created by `initialize_lottery`: active, with all counters
/// zeroed and no winner.
pub open spec fn new_lottery(
    authority: u64,
    round: u64,
    ticket_price: u64,
    max_tickets: u64,
    fee_bps: u64,
    end_time: i64,
) -> Lottery {
    Lottery {
        authority,
        round,
        ticket_price,
        max_tickets,
        tickets_sold: 0,
        total_pool: 0,
        end_time,
        fee_bps,
        status: LotteryStatus::Active,
        winner_ticket: None,
        claimed: false,
    }
}

/// A ticket can be sold: the round is active, not full, and the deadline
/// has not passed.
pub open spec fn sale_open(l: Lottery, now: i64) -> bool {
    &&& l.status == LotteryStatus::Active
    &&& l.tickets_sold < l.max_tickets
    &&& now < l.end_time
}

/// The round after one ticket sale: one more ticket, one more price in the
/// pool, everything else unchanged.
pub open spec fn bought(l: Lottery) -> Lottery {
    Lottery {
        tickets_sold: (l.tickets_sold + 1) as u64,
        total_pool: (l.total_pool + l.ticket_price) as u64,
        ..l
    }
}

/// The ticket issued by one sale: the next sequential number, addressed to
/// the buyer, stamped with the purchase time.
pub open spec fn issued_ticket(l: Lottery, owner: u64, now: i64) -> Ticket {
    Ticket {
        lottery: l.round,
        owner,
        ticket_number: (l.tickets_sold + 1) as u64,
        purchase_time: now,
    }
}

/// A winner can be drawn: the round is active, sold at least one ticket,
/// and the deadline has passed.
pub open spec fn draw_ready(l: Lottery, now: i64) -> bool {
    &&& l.status == LotteryStatus::Active
    &&& l.tickets_sold > 0
    &&& now >= l.end_time
}

/// The winning ticket number selected from the entropy value: the entropy
/// reduced modulo the number of tickets sold, plus one. The reduction has a
/// bias of up to `tickets_sold / 2^64`, which is accepted for ticket counts
/// small against the entropy width.
pub open spec fn winner_of(entropy: u64, tickets_sold: u64) -> u64
    recommends
        tickets_sold > 0,
{
    (entropy as int % tickets_sold as int + 1) as u64
}

/// The round after the draw: completed, with the winner recorded, everything
/// else unchanged.
pub open spec fn drawn(l: Lottery, entropy: u64) -> Lottery {
    Lottery {
        status: LotteryStatus::Completed,
        winner_ticket: Some(winner_of(entropy, l.tickets_sold)),
        ..l
    }
}

/// The platform fee taken out of a pool, in basis points, rounded down.
pub open spec fn fee_amount(pool: u64, fee_bps: u64) -> int {
    pool * fee_bps / (FEE_DENOMINATOR as int)
}

/// What the winner is paid: the pool minus the platform fee.
pub open spec fn payout_amount(pool: u64, fee_bps: u64) -> int {
    pool - fee_amount(pool, fee_bps)
}

/// The prize of the round can be claimed with ticket `(ticket_round,
/// ticket_number)`: the winner has been drawn, the prize is still unclaimed,
/// the ticket belongs to the round and exists, and it is the winning one.
pub open spec fn claim_ready(l: Lottery, ticket_round: u64, ticket_number: u64) -> bool {
    &&& l.status == LotteryStatus::Completed
    &&& !l.claimed
    &&& ticket_round == l.round
    &&& 1 <= ticket_number <= l.tickets_sold
    &&& Some(ticket_number) == l.winner_ticket
}

/// The round after the payout: marked claimed, everything else unchanged.
/// The fields that determined the winner are never touched again.
pub open spec fn settled(l: Lottery) -> Lottery {
    Lottery { claimed: true, ..l }
}

} // verus!
