//! The guarantees of the lottery, stated and proved once over the state
//! model. The transitions in [`crate::machine`] establish and preserve the
//! well-formedness predicates these proofs start from, so each statement
//! here holds in every reachable state.

use crate::machine::LotteryProgram;
use crate::state::{
    bought, claim_ready, draw_ready, drawn, entry_wf, fee_amount, lottery_wf, payout_amount,
    sale_open, settled, ticket_in_place, Lottery, LotteryStatus, RoundEntry, FEE_DENOMINATOR,
};
use vstd::prelude::*;

verus! {

/// Accounting invariant: in every well-formed round the pool holds exactly
/// the price of every ticket sold, and sales never exceed capacity.
/// Initialization establishes well-formedness and every transition
/// preserves it, so this holds in every reachable state.
pub proof fn lemma_pool_accounting(l: Lottery)
    requires
        lottery_wf(l),
    ensures
        l.total_pool == l.tickets_sold * l.ticket_price,
        l.tickets_sold <= l.max_tickets,
{
}

/// A sale keeps the accounting invariant: one more ticket and one more
/// price in the pool balance out exactly.
pub proof fn lemma_sale_keeps_accounting(l: Lottery, now: i64)
    requires
        lottery_wf(l),
        sale_open(l, now),
    ensures
        bought(l).total_pool == bought(l).tickets_sold * bought(l).ticket_price,
        bought(l).tickets_sold <= bought(l).max_tickets,
{
    vstd::arithmetic::mul::lemma_mul_is_distributive_add_other_way(
        l.ticket_price as int,
        l.tickets_sold as int,
        1,
    );
    vstd::arithmetic::mul::lemma_mul_inequality(
        l.tickets_sold + 1,
        l.max_tickets as int,
        l.ticket_price as int,
    );
}

/// Uniqueness: no two committed tickets of a round share a ticket number.
/// The ticket ledger stores the ticket with number `k + 1` at position `k`,
/// so distinct positions carry distinct numbers.
pub proof fn lemma_ticket_numbers_distinct(e: RoundEntry)
    requires
        entry_wf(e),
    ensures
        forall|i: int, j: int|
            0 <= i < j < e.tickets@.len() ==> (#[trigger] e.tickets@[i]).ticket_number != (
            #[trigger] e.tickets@[j]).ticket_number,
{
    assert forall|i: int, j: int|
        0 <= i < j < e.tickets@.len() implies (#[trigger] e.tickets@[i]).ticket_number != (
    #[trigger] e.tickets@[j]).ticket_number by {
        assert(ticket_in_place(e.tickets@[i], e.lottery.round, i));
        assert(ticket_in_place(e.tickets@[j], e.lottery.round, j));
    }
}

/// Uniqueness across the whole system: in a well-formed state, no two
/// committed tickets of any registered round share a ticket number.
pub proof fn lemma_no_duplicate_tickets(p: LotteryProgram, round: u64)
    requires
        p.wf(),
        p.has_round(round),
    ensures
        forall|i: int, j: int|
            0 <= i < j < p.spec_tickets(round).len() ==> (#[trigger] p.spec_tickets(
                round,
            )[i]).ticket_number != (#[trigger] p.spec_tickets(round)[j]).ticket_number,
{
    p.lemma_registered_round(round);
    assert forall|i: int, j: int|
        0 <= i < j < p.spec_tickets(round).len() implies (#[trigger] p.spec_tickets(
        round,
    )[i]).ticket_number != (#[trigger] p.spec_tickets(round)[j]).ticket_number by {
        assert(ticket_in_place(p.spec_tickets(round)[i], round, i));
        assert(ticket_in_place(p.spec_tickets(round)[j], round, j));
    }
}

/// Single draw: drawing completes the round, and on a completed round no
/// second draw and no further sale is ever ready — whatever the clock says —
/// so `draw_winner` refuses it with `LotteryNotActive` by its contract.
/// The recorded winner survives the only transition that still touches the
/// round, the claim.
pub proof fn lemma_single_draw(l: Lottery, entropy: u64, now1: i64, now2: i64)
    requires
        lottery_wf(l),
        draw_ready(l, now1),
    ensures
        drawn(l, entropy).status == LotteryStatus::Completed,
        !draw_ready(drawn(l, entropy), now2),
        !sale_open(drawn(l, entropy), now2),
        settled(drawn(l, entropy)).winner_ticket == drawn(l, entropy).winner_ticket,
{
}

/// Winner range: the number drawn is always one of the tickets actually
/// sold, from 1 to `tickets_sold` inclusive.
pub proof fn lemma_winner_in_range(l: Lottery, entropy: u64, now: i64)
    requires
        lottery_wf(l),
        draw_ready(l, now),
    ensures
        drawn(l, entropy).winner_ticket matches Some(w) && 1 <= w <= l.tickets_sold,
{
    vstd::arithmetic::div_mod::lemma_mod_bound(entropy as int, l.tickets_sold as int);
}

/// Conservation: at the moment of the one successful claim, the payout to
/// the winner and the platform fee add up to exactly the pool — nothing
/// leaks and nothing is minted — and the settled round admits no second
/// claim, whatever ticket is presented.
pub proof fn lemma_claim_conservation(l: Lottery, ticket_round: u64, ticket_number: u64)
    requires
        lottery_wf(l),
        claim_ready(l, ticket_round, ticket_number),
    ensures
        0 <= fee_amount(l.total_pool, l.fee_bps) <= l.total_pool,
        fee_amount(l.total_pool, l.fee_bps) + payout_amount(l.total_pool, l.fee_bps)
            == l.total_pool,
        settled(l).claimed,
        forall|tr: u64, tn: u64| !claim_ready(settled(l), tr, tn),
{
    vstd::arithmetic::mul::lemma_mul_inequality(
        l.fee_bps as int,
        FEE_DENOMINATOR as int,
        l.total_pool as int,
    );
    vstd::arithmetic::mul::lemma_mul_is_commutative(l.total_pool as int, l.fee_bps as int);
    vstd::arithmetic::mul::lemma_mul_is_commutative(
        l.total_pool as int,
        FEE_DENOMINATOR as int,
    );
    vstd::arithmetic::div_mod::lemma_div_is_ordered(
        l.total_pool * l.fee_bps,
        l.total_pool * (FEE_DENOMINATOR as int),
        FEE_DENOMINATOR as int,
    );
    vstd::arithmetic::div_mod::lemma_div_multiples_vanish(
        l.total_pool as int,
        FEE_DENOMINATOR as int,
    );
    vstd::arithmetic::div_mod::lemma_div_pos_is_pos(
        l.total_pool * l.fee_bps,
        FEE_DENOMINATOR as int,
    );
    vstd::arithmetic::mul::lemma_mul_nonnegative(l.total_pool as int, l.fee_bps as int);
}

} // verus!
