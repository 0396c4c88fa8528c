//! The lottery state machine: the round registry, the ticket ledger and the
//! four lifecycle transitions, executed against the escrow ledger.
//!
//! Each transition reads current state, validates its preconditions, moves
//! funds, mutates state and returns its audit event — or fails with a
//! specific error and no observable effect at all.

use crate::errors::ErrorCode;
use crate::escrow::{AccountId, EscrowLedger};
use crate::state::{
    bought, claim_ready, draw_ready, drawn, entry_wf, fee_amount, issued_ticket, lottery_wf,
    new_lottery, params_ok, payout_amount, sale_open, settled, ticket_in_place, winner_of, Lottery,
    LotteryStatus, RoundEntry, Ticket, FEE_DENOMINATOR,
};
use vstd::prelude::*;

verus! {

/// Emitted when a ticket is sold.
#[derive(Clone, Copy, Debug, PartialEq, Eq)]
pub struct TicketPurchased {
    pub lottery: u64,
    pub buyer: u64,
    pub ticket_number: u64,
    pub price: u64,
}

/// Emitted when the winner is drawn.
#[derive(Clone, Copy, Debug, PartialEq, Eq)]
pub struct WinnerDrawn {
    pub lottery: u64,
    pub winning_ticket: u64,
    pub prize_amount: u64,
}

/// Emitted when the prize is paid out.
#[derive(Clone, Copy, Debug, PartialEq, Eq)]
pub struct PrizeClaimed {
    pub lottery: u64,
    pub winner: u64,
    pub amount: u64,
}

/// The accounts involved in initializing a round.
#[derive(Clone, Copy, Debug, PartialEq, Eq)]
pub struct InitializeLottery {
    /// Identity that will administer the round.
    pub authority: u64,
}

/// The accounts involved in buying a ticket. The payment is debited from the
/// buyer's escrow account and credited to the round's pool account.
#[derive(Clone, Copy, Debug, PartialEq, Eq)]
pub struct BuyTicket {
    /// Identity of the buyer.
    pub buyer: u64,
}

/// The accounts involved in drawing the winner, and the entropy value read
/// from the entropy source at draw time.
#[derive(Clone, Copy, Debug, PartialEq, Eq)]
pub struct DrawWinner {
    /// Identity requesting the draw.
    pub authority: u64,
    /// Fixed-width value from the entropy source, read at draw time so no
    /// buyer can predict it before the deadline.
    pub entropy: u64,
}

/// The accounts involved in claiming the prize: the presented ticket, by its
/// address (round id and ticket number), and the platform's fee account.
#[derive(Clone, Copy, Debug, PartialEq, Eq)]
pub struct ClaimPrize {
    /// Round id the presented ticket claims to belong to.
    pub ticket_round: u64,
    /// Number of the presented ticket.
    pub ticket_number: u64,
    /// Identity whose escrow account receives the platform fee.
    pub platform_vault: u64,
}

/// The whole system state: every round with its tickets, and the escrow
/// ledger holding all balances.
pub struct LotteryProgram {
    rounds: Vec<RoundEntry>,
    escrow: EscrowLedger,
}

impl LotteryProgram {
    /// The round entry under `round` in an association list of entries:
    /// the last entry whose round id matches, if any.
    spec fn lookup(s: Seq<RoundEntry>, round: u64) -> Option<RoundEntry>
        decreases s.len(),
    {
        if s.len() == 0 {
            None
        } else if s.last().lottery.round == round {
            Some(s.last())
        } else {
            Self::lookup(s.drop_last(), round)
        }
    }

    /// The round registered under `round`, if any.
    pub closed spec fn spec_round(self, round: u64) -> Option<Lottery> {
        match Self::lookup(self.rounds@, round) {
            Some(e) => Some(e.lottery),
            None => None,
        }
    }

    /// The tickets sold so far by the round registered under `round`;
    /// empty when no such round exists.
    pub closed spec fn spec_tickets(self, round: u64) -> Seq<Ticket> {
        match Self::lookup(self.rounds@, round) {
            Some(e) => e.tickets@,
            None => Seq::empty(),
        }
    }

    /// Whether a round is registered under `round`.
    pub open spec fn has_round(self, round: u64) -> bool {
        self.spec_round(round) is Some
    }

    /// The balance of escrow account `a`.
    pub closed spec fn balance(self, a: AccountId) -> u64 {
        self.escrow.balance(a)
    }

    /// What the round's pool account holds: the collected pool until the
    /// prize is claimed, nothing afterwards.
    pub open spec fn pool_due(l: Lottery) -> u64 {
        if l.claimed {
            0
        } else {
            l.total_pool
        }
    }

    /// Well-formedness of the whole system: distinct round ids, each round
    /// record well-formed, and the escrow in step with the registry — each
    /// registered round's pool account holds exactly what it is due, and the
    /// pool account of an unregistered round id holds nothing.
    pub closed spec fn wf(self) -> bool {
        &&& self.escrow.wf()
        &&& forall|i: int, j: int|
            0 <= i < j < self.rounds@.len() ==> (#[trigger] self.rounds@[i]).lottery.round != (
            #[trigger] self.rounds@[j]).lottery.round
        &&& forall|i: int| 0 <= i < self.rounds@.len() ==> entry_wf(#[trigger] self.rounds@[i])
        &&& forall|i: int|
            0 <= i < self.rounds@.len() ==> self.escrow.balance(
                AccountId::Pool((#[trigger] self.rounds@[i]).lottery.round),
            ) == Self::pool_due(self.rounds@[i].lottery)
        &&& forall|r2: u64|
            #[trigger] Self::lookup(self.rounds@, r2) is None ==> self.escrow.balance(
                AccountId::Pool(r2),
            ) == 0
    }

    proof fn lemma_lookup_absent(s: Seq<RoundEntry>, round: u64)
        requires
            forall|i: int| 0 <= i < s.len() ==> (#[trigger] s[i]).lottery.round != round,
        ensures
            Self::lookup(s, round) is None,
        decreases s.len(),
    {
        if s.len() > 0 {
            assert(s.last() == s[s.len() - 1]);
            assert(forall|i: int| 0 <= i < s.drop_last().len() ==> (#[trigger] s.drop_last()[i])
                == s[i]);
            Self::lemma_lookup_absent(s.drop_last(), round);
        }
    }

    proof fn lemma_lookup_at(s: Seq<RoundEntry>, round: u64, i: int)
        requires
            forall|p: int, q: int|
                0 <= p < q < s.len() ==> (#[trigger] s[p]).lottery.round != (#[trigger] s[q]).lottery.round,
            0 <= i < s.len(),
            s[i].lottery.round == round,
        ensures
            Self::lookup(s, round) == Some(s[i]),
        decreases s.len(),
    {
        assert(s.last() == s[s.len() - 1]);
        if i == s.len() - 1 {
        } else {
            assert(s[i].lottery.round != s[s.len() - 1].lottery.round);
            assert(forall|k: int| 0 <= k < s.drop_last().len() ==> (#[trigger] s.drop_last()[k])
                == s[k]);
            Self::lemma_lookup_at(s.drop_last(), round, i);
        }
    }

    proof fn lemma_lookup_update(s: Seq<RoundEntry>, i: int, e: RoundEntry, r2: u64)
        requires
            forall|p: int, q: int|
                0 <= p < q < s.len() ==> (#[trigger] s[p]).lottery.round != (#[trigger] s[q]).lottery.round,
            0 <= i < s.len(),
            e.lottery.round == s[i].lottery.round,
        ensures
            Self::lookup(s.update(i, e), r2) == if r2 == s[i].lottery.round {
                Some(e)
            } else {
                Self::lookup(s, r2)
            },
        decreases s.len(),
    {
        let t = s.update(i, e);
        assert(t.len() == s.len());
        assert(s.last() == s[s.len() - 1]);
        assert(t.last() == t[s.len() - 1]);
        if i == s.len() - 1 {
            assert(t.drop_last() =~= s.drop_last());
        } else {
            assert(t[s.len() - 1] == s[s.len() - 1]);
            assert(t.drop_last() =~= s.drop_last().update(i, e));
            assert(forall|k: int| 0 <= k < s.drop_last().len() ==> (#[trigger] s.drop_last()[k])
                == s[k]);
            assert(s.drop_last()[i] == s[i]);
            Self::lemma_lookup_update(s.drop_last(), i, e, r2);
            if r2 == s[i].lottery.round {
                assert(s[i].lottery.round != s[s.len() - 1].lottery.round);
            }
        }
    }

    proof fn lemma_lookup_push(s: Seq<RoundEntry>, e: RoundEntry, r2: u64)
        ensures
            Self::lookup(s.push(e), r2) == if r2 == e.lottery.round {
                Some(e)
            } else {
                Self::lookup(s, r2)
            },
    {
        let t = s.push(e);
        assert(t.last() == e);
        assert(t.drop_last() =~= s);
    }

    proof fn lemma_lookup_member(s: Seq<RoundEntry>, round: u64)
        requires
            Self::lookup(s, round) is Some,
        ensures
            exists|i: int| 0 <= i < s.len() && s[i] == Self::lookup(s, round)->Some_0,
            Self::lookup(s, round)->Some_0.lottery.round == round,
        decreases s.len(),
    {
        if s.last().lottery.round == round {
            assert(s[s.len() - 1] == s.last());
        } else {
            Self::lemma_lookup_member(s.drop_last(), round);
            let i = choose|i: int|
                0 <= i < s.drop_last().len() && s.drop_last()[i] == Self::lookup(
                    s.drop_last(),
                    round,
                )->Some_0;
            assert(s[i] == s.drop_last()[i]);
        }
    }

    /// In a well-formed system, what the registry reports for a registered
    /// round is itself well-formed: the round record satisfies its
    /// invariants, it carries the id it is registered under, and its ticket
    /// ledger holds exactly one ticket per number from 1 to `tickets_sold`.
    pub proof fn lemma_registered_round(self, round: u64)
        requires
            self.wf(),
            self.has_round(round),
        ensures
            lottery_wf(self.spec_round(round)->Some_0),
            self.spec_round(round)->Some_0.round == round,
            self.spec_tickets(round).len() == self.spec_round(round)->Some_0.tickets_sold,
            forall|k: int|
                0 <= k < self.spec_tickets(round).len() ==> ticket_in_place(
                    #[trigger] self.spec_tickets(round)[k],
                    round,
                    k,
                ),
    {
        Self::lemma_lookup_member(self.rounds@, round);
        let i = choose|i: int|
            0 <= i < self.rounds@.len() && self.rounds@[i] == Self::lookup(
                self.rounds@,
                round,
            )->Some_0;
        assert(entry_wf(self.rounds@[i]));
    }

    /// An empty system: no rounds, no tickets, every balance zero.
    pub fn new() -> (r: LotteryProgram)
        ensures
            r.wf(),
            forall|a: AccountId| r.balance(a) == 0,
            forall|round: u64| #[trigger] r.spec_round(round) is None,
    {
        let r = LotteryProgram { rounds: Vec::new(), escrow: EscrowLedger::new() };
        proof {
            assert forall|round: u64| #[trigger] r.spec_round(round) is None by {
                assert(Self::lookup(r.rounds@, round) is None);
            }
            assert forall|r2: u64| #[trigger] Self::lookup(r.rounds@, r2) is None implies r.escrow.balance(
                AccountId::Pool(r2),
            ) == 0 by {}
        }
        r
    }

    /// The position of the round registered under `round`, if any.
    fn find_round(&self, round: u64) -> (r: Option<usize>)
        requires
            self.wf(),
        ensures
            match r {
                Some(i) => {
                    &&& i < self.rounds@.len()
                    &&& self.rounds@[i as int].lottery.round == round
                    &&& Self::lookup(self.rounds@, round) == Some(self.rounds@[i as int])
                },
                None => Self::lookup(self.rounds@, round) is None,
            },
    {
        let mut i: usize = 0;
        while i < self.rounds.len()
            invariant
                self.wf(),
                i <= self.rounds@.len(),
                forall|j: int| 0 <= j < i ==> (#[trigger] self.rounds@[j]).lottery.round != round,
            decreases self.rounds@.len() - i,
        {
            if self.rounds[i].lottery.round == round {
                proof {
                    Self::lemma_lookup_at(self.rounds@, round, i as int);
                }
                return Some(i);
            }
            i = i + 1;
        }
        proof {
            Self::lemma_lookup_absent(self.rounds@, round);
        }
        None
    }

    /// A snapshot of the round registered under `round`.
    pub fn get_round(&self, round: u64) -> (r: Result<Lottery, ErrorCode>)
        requires
            self.wf(),
        ensures
            match r {
                Ok(l) => self.spec_round(round) == Some(l),
                Err(e) => e == ErrorCode::NotFound && self.spec_round(round) is None,
            },
    {
        match self.find_round(round) {
            Some(i) => Ok(self.rounds[i].lottery),
            None => Err(ErrorCode::NotFound),
        }
    }

    /// The ticket issued under `(round, ticket_number)`, if it exists.
    pub fn get_ticket(&self, round: u64, ticket_number: u64) -> (r: Result<Ticket, ErrorCode>)
        requires
            self.wf(),
        ensures
            match r {
                Ok(t) => {
                    &&& 1 <= ticket_number <= self.spec_tickets(round).len()
                    &&& t == self.spec_tickets(round)[ticket_number - 1]
                },
                Err(e) => {
                    &&& e == ErrorCode::NotFound
                    &&& !(1 <= ticket_number <= self.spec_tickets(round).len())
                },
            },
    {
        match self.find_round(round) {
            Some(i) => {
                let n = self.rounds[i].tickets.len();
                if ticket_number >= 1 && ticket_number <= n as u64 {
                    Ok(self.rounds[i].tickets[(ticket_number - 1) as usize])
                } else {
                    Err(ErrorCode::NotFound)
                }
            },
            None => Err(ErrorCode::NotFound),
        }
    }

    /// Read the balance of an escrow account.
    pub fn balance_of(&self, a: AccountId) -> (r: u64)
        requires
            self.wf(),
        ensures
            r == self.balance(a),
    {
        self.escrow.balance_of(a)
    }

    /// Fund a user's escrow account from outside the system. Pool accounts
    /// cannot be funded this way: they change only through the transitions.
    pub fn deposit(&mut self, owner: u64, amount: u64)
        requires
            old(self).wf(),
            old(self).balance(AccountId::User(owner)) + amount <= u64::MAX,
        ensures
            final(self).wf(),
            final(self).balance(AccountId::User(owner)) == old(self).balance(
                AccountId::User(owner),
            ) + amount,
            forall|a: AccountId|
                a != AccountId::User(owner) ==> final(self).balance(a) == old(self).balance(a),
            forall|r2: u64| final(self).spec_round(r2) == old(self).spec_round(r2),
            forall|r2: u64| final(self).spec_tickets(r2) == old(self).spec_tickets(r2),
    {
        self.escrow.credit(AccountId::User(owner), amount);
    }
}

/// Every round other than `round`, and its tickets, reads the same in `post`
/// as in `pre`.
pub open spec fn rounds_unchanged_except(
    pre: LotteryProgram,
    post: LotteryProgram,
    round: u64,
) -> bool {
    forall|r2: u64|
        r2 != round ==> #[trigger] post.spec_round(r2) == pre.spec_round(r2)
            && post.spec_tickets(r2) == pre.spec_tickets(r2)
}

/// Every escrow balance reads the same in `post` as in `pre`.
pub open spec fn balances_unchanged(pre: LotteryProgram, post: LotteryProgram) -> bool {
    forall|a: AccountId| #[trigger] post.balance(a) == pre.balance(a)
}

/// What a committed ticket sale does to the system: the round gains one
/// ticket and one price in its pool, exactly one new ticket is appended to
/// its ledger, exactly the price moves from the buyer's account to the
/// round's pool, and nothing else changes.
pub open spec fn buy_effects(
    pre: LotteryProgram,
    post: LotteryProgram,
    l: Lottery,
    round: u64,
    buyer: u64,
    now: i64,
) -> bool {
    &&& post.spec_round(round) == Some(bought(l))
    &&& post.spec_tickets(round) == pre.spec_tickets(round).push(issued_ticket(l, buyer, now))
    &&& post.balance(AccountId::User(buyer)) == pre.balance(AccountId::User(buyer))
        - l.ticket_price
    &&& post.balance(AccountId::Pool(round)) == pre.balance(AccountId::Pool(round))
        + l.ticket_price
    &&& forall|a: AccountId|
        a != AccountId::User(buyer) && a != AccountId::Pool(round) ==> #[trigger] post.balance(a)
            == pre.balance(a)
    &&& rounds_unchanged_except(pre, post, round)
}

/// Allocate the next ticket of the round — number `tickets_sold + 1`, read
/// from the round snapshot at the start of the same atomic operation — and
/// store it at the address derived from that number.
///
/// Refused with `SlotAlreadyIssued` when that address is already occupied:
/// this is what keeps two purchase attempts for the same computed ticket
/// number from both succeeding. The round's counters are the caller's to
/// update; tickets are immutable once issued.
pub fn issue(entry: &mut RoundEntry, owner: u64, now: i64) -> (r: Result<Ticket, ErrorCode>)
    requires
        old(entry).lottery.tickets_sold < old(entry).lottery.max_tickets,
    ensures
        final(entry).lottery == old(entry).lottery,
        r is Ok <==> old(entry).tickets@.len() == old(entry).lottery.tickets_sold,
        r is Err ==> *final(entry) == *old(entry) && r == Err::<Ticket, ErrorCode>(
            ErrorCode::SlotAlreadyIssued,
        ),
        r matches Ok(t) ==> t == issued_ticket(old(entry).lottery, owner, now)
            && final(entry).tickets@ == old(entry).tickets@.push(t),
{
    if entry.tickets.len() as u64 != entry.lottery.tickets_sold {
        return Err(ErrorCode::SlotAlreadyIssued);
    }
    let t = Ticket {
        lottery: entry.lottery.round,
        owner,
        ticket_number: entry.lottery.tickets_sold + 1,
        purchase_time: now,
    };
    entry.tickets.push(t);
    Ok(t)
}

/// Sell one ticket of the round: debit the buyer's escrow account by the
/// ticket price and credit the round's pool, issue the ticket with the next
/// sequential number, and update the round's counters — all as one atomic
/// unit. Returns the `TicketPurchased` event.
///
/// Refused, with no effect, when the round does not exist (`NotFound`), is
/// not active (`LotteryNotActive`), is sold out (`LotteryFull`), its
/// deadline has passed (`LotteryEnded`), or the buyer cannot pay
/// (`TransferFailed`).
pub fn buy_ticket(program: &mut LotteryProgram, ctx: BuyTicket, round: u64, now: i64) -> (r:
    Result<TicketPurchased, ErrorCode>)
    requires
        old(program).wf(),
    ensures
        final(program).wf(),
        r is Err ==> *final(program) == *old(program),
        match old(program).spec_round(round) {
            None => r == Err::<TicketPurchased, ErrorCode>(ErrorCode::NotFound),
            Some(l) => {
                &&& (l.status != LotteryStatus::Active ==> r == Err::<TicketPurchased, ErrorCode>(
                    ErrorCode::LotteryNotActive,
                ))
                &&& (l.status == LotteryStatus::Active && l.tickets_sold >= l.max_tickets ==> r
                    == Err::<TicketPurchased, ErrorCode>(ErrorCode::LotteryFull))
                &&& (l.status == LotteryStatus::Active && l.tickets_sold < l.max_tickets && now
                    >= l.end_time ==> r == Err::<TicketPurchased, ErrorCode>(
                    ErrorCode::LotteryEnded,
                ))
                &&& (sale_open(l, now) && old(program).balance(AccountId::User(ctx.buyer))
                    < l.ticket_price ==> r == Err::<TicketPurchased, ErrorCode>(
                    ErrorCode::TransferFailed,
                ))
                &&& (sale_open(l, now) && old(program).balance(AccountId::User(ctx.buyer))
                    >= l.ticket_price ==> r == Ok::<TicketPurchased, ErrorCode>(
                    TicketPurchased {
                        lottery: round,
                        buyer: ctx.buyer,
                        ticket_number: (l.tickets_sold + 1) as u64,
                        price: l.ticket_price,
                    },
                ) && buy_effects(*old(program), *final(program), l, round, ctx.buyer, now))
            },
        },
{
    let idx = match program.find_round(round) {
        Some(i) => i,
        None => {
            return Err(ErrorCode::NotFound);
        },
    };
    let l = program.rounds[idx].lottery;
    if l.status != LotteryStatus::Active {
        return Err(ErrorCode::LotteryNotActive);
    }
    if l.tickets_sold >= l.max_tickets {
        return Err(ErrorCode::LotteryFull);
    }
    if now >= l.end_time {
        return Err(ErrorCode::LotteryEnded);
    }
    proof {
        // The pool can absorb one more price: it would then hold
        // (tickets_sold + 1) * ticket_price, which capacity bounds by
        // max_tickets * ticket_price.
        assert(!l.claimed);
        vstd::arithmetic::mul::lemma_mul_is_distributive_add_other_way(
            l.ticket_price as int,
            l.tickets_sold as int,
            1,
        );
        vstd::arithmetic::mul::lemma_mul_inequality(
            l.tickets_sold + 1,
            l.max_tickets as int,
            l.ticket_price as int,
        );
    }
    let ghost s0 = program.rounds@;
    match program.escrow.transfer(AccountId::User(ctx.buyer), AccountId::Pool(round), l.ticket_price) {
        Ok(()) => {},
        Err(e) => {
            return Err(e);
        },
    }
    let mut entry = program.rounds.remove(idx);
    let t = match issue(&mut entry, ctx.buyer, now) {
        Ok(t) => t,
        Err(e) => {
            program.rounds.insert(idx, entry);
            return Err(e);
        },
    };
    entry.lottery.tickets_sold = entry.lottery.tickets_sold + 1;
    entry.lottery.total_pool = entry.lottery.total_pool + l.ticket_price;
    program.rounds.insert(idx, entry);
    proof {
        let ghost e = program.rounds@[idx as int];
        assert(program.rounds@ =~= s0.update(idx as int, e));
        assert(e.lottery == bought(l));
        assert(entry_wf(e)) by {
            assert(entry_wf(s0[idx as int]));
            assert forall|k: int| 0 <= k < e.tickets@.len() implies ticket_in_place(
                #[trigger] e.tickets@[k],
                e.lottery.round,
                k,
            ) by {
                if k < e.tickets@.len() - 1 {
                    assert(e.tickets@[k] == s0[idx as int].tickets@[k]);
                }
            }
        }
        assert forall|r2: u64| true implies #[trigger] LotteryProgram::lookup(program.rounds@, r2)
            == if r2 == round {
            Some(e)
        } else {
            LotteryProgram::lookup(s0, r2)
        } by {
            LotteryProgram::lemma_lookup_update(s0, idx as int, e, r2);
        }
        assert forall|i: int| 0 <= i < program.rounds@.len() implies program.escrow.balance(
            AccountId::Pool((#[trigger] program.rounds@[i]).lottery.round),
        ) == LotteryProgram::pool_due(program.rounds@[i].lottery) by {
            if i != idx as int {
                assert(program.rounds@[i] == s0[i]);
                assert(s0[i].lottery.round != round);
                assert(AccountId::Pool(s0[i].lottery.round) != AccountId::Pool(round));
                assert(AccountId::Pool(s0[i].lottery.round) != AccountId::User(ctx.buyer));
            }
        }
        assert forall|r2: u64| #[trigger] LotteryProgram::lookup(program.rounds@, r2) is None
            implies program.escrow.balance(AccountId::Pool(r2)) == 0 by {
            assert(r2 != round);
            assert(LotteryProgram::lookup(s0, r2) is None);
        }
    }
    Ok(
        TicketPurchased {
            lottery: round,
            buyer: ctx.buyer,
            ticket_number: t.ticket_number,
            price: l.ticket_price,
        },
    )
}

/// The value of a little-endian 64-bit integer laid out in the first eight
/// bytes of `s`.
pub open spec fn le_u64(s: Seq<u8>) -> int {
    s[0] + s[1] * 0x100 + s[2] * 0x10000 + s[3] * 0x1000000 + s[4] * 0x100000000 + s[5]
        * 0x10000000000 + s[6] * 0x1000000000000 + s[7] * 0x100000000000000
}

/// Read the fixed-width entropy value from the raw bytes the entropy source
/// supplies: the first eight bytes, as a little-endian integer.
pub fn entropy_from_bytes(bytes: &Vec<u8>) -> (r: u64)
    requires
        bytes@.len() >= 8,
    ensures
        r == le_u64(bytes@),
{
    let b0 = bytes[0] as u64;
    let b1 = bytes[1] as u64;
    let b2 = bytes[2] as u64;
    let b3 = bytes[3] as u64;
    let b4 = bytes[4] as u64;
    let b5 = bytes[5] as u64;
    let b6 = bytes[6] as u64;
    let b7 = bytes[7] as u64;
    b0 + b1 * 0x100 + b2 * 0x10000 + b3 * 0x1000000 + b4 * 0x100000000 + b5 * 0x10000000000 + b6
        * 0x1000000000000 + b7 * 0x100000000000000
}

/// What a committed draw does to the system: the round is completed with
/// its winner recorded, and nothing else — no ticket, no balance, no other
/// round — changes.
pub open spec fn draw_effects(
    pre: LotteryProgram,
    post: LotteryProgram,
    l: Lottery,
    round: u64,
    entropy: u64,
) -> bool {
    &&& post.spec_round(round) == Some(drawn(l, entropy))
    &&& post.spec_tickets(round) == pre.spec_tickets(round)
    &&& balances_unchanged(pre, post)
    &&& rounds_unchanged_except(pre, post, round)
}

/// Draw the winner of the round: reduce the entropy value modulo the number
/// of tickets sold, add one, record the result as the winning ticket number
/// and complete the round. Returns the `WinnerDrawn` event.
///
/// This is the only place randomness is consumed, and the one-way step from
/// `Active` to `Completed` makes it happen at most once per round: a second
/// draw is refused with `LotteryNotActive` and the recorded winner never
/// changes. Refused, with no effect, when the round does not exist
/// (`NotFound`), is not active (`LotteryNotActive`), sold no tickets
/// (`NoTicketsSold`), or its deadline has not passed yet (`DrawNotReady`).
pub fn draw_winner(program: &mut LotteryProgram, ctx: DrawWinner, round: u64, now: i64) -> (r:
    Result<WinnerDrawn, ErrorCode>)
    requires
        old(program).wf(),
    ensures
        final(program).wf(),
        r is Err ==> *final(program) == *old(program),
        match old(program).spec_round(round) {
            None => r == Err::<WinnerDrawn, ErrorCode>(ErrorCode::NotFound),
            Some(l) => {
                &&& (l.status != LotteryStatus::Active ==> r == Err::<WinnerDrawn, ErrorCode>(
                    ErrorCode::LotteryNotActive,
                ))
                &&& (l.status == LotteryStatus::Active && l.tickets_sold == 0 ==> r == Err::<
                    WinnerDrawn,
                    ErrorCode,
                >(ErrorCode::NoTicketsSold))
                &&& (l.status == LotteryStatus::Active && l.tickets_sold > 0 && now < l.end_time
                    ==> r == Err::<WinnerDrawn, ErrorCode>(ErrorCode::DrawNotReady))
                &&& (draw_ready(l, now) ==> r == Ok::<WinnerDrawn, ErrorCode>(
                    WinnerDrawn {
                        lottery: round,
                        winning_ticket: winner_of(ctx.entropy, l.tickets_sold),
                        prize_amount: l.total_pool,
                    },
                ) && draw_effects(*old(program), *final(program), l, round, ctx.entropy))
            },
        },
{
    let idx = match program.find_round(round) {
        Some(i) => i,
        None => {
            return Err(ErrorCode::NotFound);
        },
    };
    let l = program.rounds[idx].lottery;
    if l.status != LotteryStatus::Active {
        return Err(ErrorCode::LotteryNotActive);
    }
    if l.tickets_sold == 0 {
        return Err(ErrorCode::NoTicketsSold);
    }
    if now < l.end_time {
        return Err(ErrorCode::DrawNotReady);
    }
    let winning_number = ctx.entropy % l.tickets_sold + 1;
    let ghost s0 = program.rounds@;
    let mut entry = program.rounds.remove(idx);
    entry.lottery.status = LotteryStatus::Completed;
    entry.lottery.winner_ticket = Some(winning_number);
    program.rounds.insert(idx, entry);
    proof {
        let ghost e = program.rounds@[idx as int];
        assert(program.rounds@ =~= s0.update(idx as int, e));
        assert(e.lottery == drawn(l, ctx.entropy));
        assert(entry_wf(e)) by {
            assert(entry_wf(s0[idx as int]));
        }
        assert forall|r2: u64| true implies #[trigger] LotteryProgram::lookup(program.rounds@, r2)
            == if r2 == round {
            Some(e)
        } else {
            LotteryProgram::lookup(s0, r2)
        } by {
            LotteryProgram::lemma_lookup_update(s0, idx as int, e, r2);
        }
        assert forall|i: int| 0 <= i < program.rounds@.len() implies program.escrow.balance(
            AccountId::Pool((#[trigger] program.rounds@[i]).lottery.round),
        ) == LotteryProgram::pool_due(program.rounds@[i].lottery) by {
            if i != idx as int {
                assert(program.rounds@[i] == s0[i]);
            }
        }
        assert forall|r2: u64| #[trigger] LotteryProgram::lookup(program.rounds@, r2) is None
            implies program.escrow.balance(AccountId::Pool(r2)) == 0 by {
            assert(r2 != round);
            assert(LotteryProgram::lookup(s0, r2) is None);
        }
    }
    Ok(
        WinnerDrawn {
            lottery: round,
            winning_ticket: winning_number,
            prize_amount: l.total_pool,
        },
    )
}

/// Both payout credits can be represented: neither the winner's account nor
/// the platform's account would be pushed past the largest representable
/// balance by its share of the pool.
pub open spec fn claim_credit_ok(
    pre: LotteryProgram,
    owner: u64,
    platform: u64,
    pool: u64,
    fee_bps: u64,
) -> bool {
    if owner == platform {
        pre.balance(AccountId::User(owner)) + pool <= u64::MAX
    } else {
        &&& pre.balance(AccountId::User(owner)) + payout_amount(pool, fee_bps) <= u64::MAX
        &&& pre.balance(AccountId::User(platform)) + fee_amount(pool, fee_bps) <= u64::MAX
    }
}

/// What a committed claim does to the system: the round is marked claimed,
/// its pool account is drained to zero, the winner's account gains the
/// payout, the platform's account gains the fee — together exactly the pool,
/// so no funds leak — and nothing else changes.
pub open spec fn claim_effects(
    pre: LotteryProgram,
    post: LotteryProgram,
    l: Lottery,
    round: u64,
    owner: u64,
    platform: u64,
) -> bool {
    &&& post.spec_round(round) == Some(settled(l))
    &&& post.spec_tickets(round) == pre.spec_tickets(round)
    &&& post.balance(AccountId::Pool(round)) == 0
    &&& (owner != platform ==> post.balance(AccountId::User(owner)) == pre.balance(
        AccountId::User(owner),
    ) + payout_amount(l.total_pool, l.fee_bps) && post.balance(AccountId::User(platform))
        == pre.balance(AccountId::User(platform)) + fee_amount(l.total_pool, l.fee_bps))
    &&& (owner == platform ==> post.balance(AccountId::User(owner)) == pre.balance(
        AccountId::User(owner),
    ) + l.total_pool)
    &&& forall|a: AccountId|
        a != AccountId::Pool(round) && a != AccountId::User(owner) && a != AccountId::User(
            platform,
        ) ==> #[trigger] post.balance(a) == pre.balance(a)
    &&& rounds_unchanged_except(pre, post, round)
}

/// Pay the round's prize out against the presented ticket: take the platform
/// fee out of the pool, pay the rest to the ticket's owner, drain the pool
/// to zero and mark the round claimed — all as one atomic unit, authorized
/// only by this code path. Returns the `PrizeClaimed` event.
///
/// Refused, with no effect, when the round does not exist (`NotFound`), has
/// no winner drawn yet (`LotteryNotCompleted`), was already paid out
/// (`AlreadyClaimed`), the ticket does not belong to the round or does not
/// exist (`InvalidTicket`), the ticket is not the winning one
/// (`NotWinningTicket`), or a credited balance could not be represented
/// (`TransferFailed`).
pub fn claim_prize(program: &mut LotteryProgram, ctx: ClaimPrize, round: u64) -> (r: Result<
    PrizeClaimed,
    ErrorCode,
>)
    requires
        old(program).wf(),
    ensures
        final(program).wf(),
        r is Err ==> *final(program) == *old(program),
        match old(program).spec_round(round) {
            None => r == Err::<PrizeClaimed, ErrorCode>(ErrorCode::NotFound),
            Some(l) => {
                let owner = old(program).spec_tickets(round)[ctx.ticket_number - 1].owner;
                &&& (l.status != LotteryStatus::Completed ==> r == Err::<PrizeClaimed, ErrorCode>(
                    ErrorCode::LotteryNotCompleted,
                ))
                &&& (l.status == LotteryStatus::Completed && l.claimed ==> r == Err::<
                    PrizeClaimed,
                    ErrorCode,
                >(ErrorCode::AlreadyClaimed))
                &&& (l.status == LotteryStatus::Completed && !l.claimed && (ctx.ticket_round
                    != round || !(1 <= ctx.ticket_number <= l.tickets_sold)) ==> r == Err::<
                    PrizeClaimed,
                    ErrorCode,
                >(ErrorCode::InvalidTicket))
                &&& (l.status == LotteryStatus::Completed && !l.claimed && ctx.ticket_round == round
                    && 1 <= ctx.ticket_number <= l.tickets_sold && Some(ctx.ticket_number)
                    != l.winner_ticket ==> r == Err::<PrizeClaimed, ErrorCode>(
                    ErrorCode::NotWinningTicket,
                ))
                &&& (claim_ready(l, ctx.ticket_round, ctx.ticket_number) && !claim_credit_ok(
                    *old(program),
                    owner,
                    ctx.platform_vault,
                    l.total_pool,
                    l.fee_bps,
                ) ==> r == Err::<PrizeClaimed, ErrorCode>(ErrorCode::TransferFailed))
                &&& (claim_ready(l, ctx.ticket_round, ctx.ticket_number) && claim_credit_ok(
                    *old(program),
                    owner,
                    ctx.platform_vault,
                    l.total_pool,
                    l.fee_bps,
                ) ==> r == Ok::<PrizeClaimed, ErrorCode>(
                    PrizeClaimed {
                        lottery: round,
                        winner: owner,
                        amount: payout_amount(l.total_pool, l.fee_bps) as u64,
                    },
                ) && claim_effects(
                    *old(program),
                    *final(program),
                    l,
                    round,
                    owner,
                    ctx.platform_vault,
                ))
            },
        },
{
    let idx = match program.find_round(round) {
        Some(i) => i,
        None => {
            return Err(ErrorCode::NotFound);
        },
    };
    let l = program.rounds[idx].lottery;
    if l.status != LotteryStatus::Completed {
        return Err(ErrorCode::LotteryNotCompleted);
    }
    if l.claimed {
        return Err(ErrorCode::AlreadyClaimed);
    }
    if ctx.ticket_round != round {
        return Err(ErrorCode::InvalidTicket);
    }
    if ctx.ticket_number < 1 || ctx.ticket_number > l.tickets_sold {
        return Err(ErrorCode::InvalidTicket);
    }
    let w = match l.winner_ticket {
        Some(w) => w,
        None => {
            return Err(ErrorCode::NotWinningTicket);
        },
    };
    if ctx.ticket_number != w {
        return Err(ErrorCode::NotWinningTicket);
    }
    proof {
        assert(entry_wf(program.rounds@[idx as int]));
    }
    let n = program.rounds[idx].tickets.len();
    proof {
        assert(ctx.ticket_number - 1 < n);
    }
    let t = program.rounds[idx].tickets[(ctx.ticket_number - 1) as usize];
    proof {
        assert(t == program.rounds@[idx as int].tickets@[ctx.ticket_number - 1]);
        // The fee is at most the whole pool, so the payout subtraction and
        // the narrowing below cannot lose anything.
        vstd::arithmetic::mul::lemma_mul_inequality(
            l.fee_bps as int,
            FEE_DENOMINATOR as int,
            l.total_pool as int,
        );
        vstd::arithmetic::mul::lemma_mul_is_commutative(l.total_pool as int, l.fee_bps as int);
        vstd::arithmetic::mul::lemma_mul_is_commutative(
            l.total_pool as int,
            FEE_DENOMINATOR as int,
        );
        vstd::arithmetic::div_mod::lemma_div_is_ordered(
            l.total_pool * l.fee_bps,
            l.total_pool * (FEE_DENOMINATOR as int),
            FEE_DENOMINATOR as int,
        );
        vstd::arithmetic::div_mod::lemma_div_multiples_vanish(
            l.total_pool as int,
            FEE_DENOMINATOR as int,
        );
    }
    let fee128 = (l.total_pool as u128) * (l.fee_bps as u128) / (FEE_DENOMINATOR as u128);
    let fee = fee128 as u64;
    let payout = l.total_pool - fee;
    let owner_acct = AccountId::User(t.owner);
    let platform_acct = AccountId::User(ctx.platform_vault);
    if t.owner == ctx.platform_vault {
        let ob = program.escrow.balance_of(owner_acct);
        if l.total_pool > u64::MAX - ob {
            return Err(ErrorCode::TransferFailed);
        }
    } else {
        let ob = program.escrow.balance_of(owner_acct);
        if payout > u64::MAX - ob {
            return Err(ErrorCode::TransferFailed);
        }
        let pb = program.escrow.balance_of(platform_acct);
        if fee > u64::MAX - pb {
            return Err(ErrorCode::TransferFailed);
        }
    }
    let ghost s0 = program.rounds@;
    match program.escrow.transfer(AccountId::Pool(round), owner_acct, payout) {
        Ok(()) => {},
        Err(e) => {
            return Err(e);
        },
    }
    match program.escrow.transfer(AccountId::Pool(round), platform_acct, fee) {
        Ok(()) => {},
        Err(e) => {
            return Err(e);
        },
    }
    let mut entry = program.rounds.remove(idx);
    entry.lottery.claimed = true;
    program.rounds.insert(idx, entry);
    proof {
        let ghost e = program.rounds@[idx as int];
        assert(program.rounds@ =~= s0.update(idx as int, e));
        assert(e.lottery == settled(l));
        assert(entry_wf(e)) by {
            assert(entry_wf(s0[idx as int]));
        }
        assert forall|r2: u64| true implies #[trigger] LotteryProgram::lookup(program.rounds@, r2)
            == if r2 == round {
            Some(e)
        } else {
            LotteryProgram::lookup(s0, r2)
        } by {
            LotteryProgram::lemma_lookup_update(s0, idx as int, e, r2);
        }
        assert forall|i: int| 0 <= i < program.rounds@.len() implies program.escrow.balance(
            AccountId::Pool((#[trigger] program.rounds@[i]).lottery.round),
        ) == LotteryProgram::pool_due(program.rounds@[i].lottery) by {
            if i != idx as int {
                assert(program.rounds@[i] == s0[i]);
                assert(s0[i].lottery.round != round);
            }
        }
        assert forall|r2: u64| #[trigger] LotteryProgram::lookup(program.rounds@, r2) is None
            implies program.escrow.balance(AccountId::Pool(r2)) == 0 by {
            assert(r2 != round);
            assert(LotteryProgram::lookup(s0, r2) is None);
        }
    }
    Ok(PrizeClaimed { lottery: round, winner: t.owner, amount: payout })
}

/// Create a new round in state `Active` with all counters zeroed.
///
/// Refused with `InvalidParameters` when the price or capacity is zero, the
/// fee exceeds the whole pool, the deadline is not strictly in the future,
/// or a full pool would not fit in a balance; and with `DuplicateRound` when
/// a round already exists under `round`. On failure nothing changes.
pub fn initialize_lottery(
    program: &mut LotteryProgram,
    ctx: InitializeLottery,
    round: u64,
    ticket_price: u64,
    max_tickets: u64,
    fee_bps: u64,
    end_time: i64,
    now: i64,
) -> (r: Result<(), ErrorCode>)
    requires
        old(program).wf(),
    ensures
        final(program).wf(),
        r is Err ==> *final(program) == *old(program),
        !params_ok(ticket_price, max_tickets, fee_bps, end_time, now) ==> r == Err::<
            (),
            ErrorCode,
        >(ErrorCode::InvalidParameters),
        params_ok(ticket_price, max_tickets, fee_bps, end_time, now) && old(program).has_round(
            round,
        ) ==> r == Err::<(), ErrorCode>(ErrorCode::DuplicateRound),
        params_ok(ticket_price, max_tickets, fee_bps, end_time, now) && !old(program).has_round(
            round,
        ) ==> {
            &&& r == Ok::<(), ErrorCode>(())
            &&& final(program).spec_round(round) == Some(
                new_lottery(ctx.authority, round, ticket_price, max_tickets, fee_bps, end_time),
            )
            &&& final(program).spec_tickets(round) == Seq::<Ticket>::empty()
            &&& forall|a: AccountId| final(program).balance(a) == old(program).balance(a)
            &&& forall|r2: u64|
                r2 != round ==> final(program).spec_round(r2) == old(program).spec_round(r2)
                    && final(program).spec_tickets(r2) == old(program).spec_tickets(r2)
        },
{
    if ticket_price == 0 || max_tickets == 0 || fee_bps > FEE_DENOMINATOR || end_time <= now
        || ticket_price.checked_mul(max_tickets).is_none() {
        return Err(ErrorCode::InvalidParameters);
    }
    proof {
        vstd::arithmetic::mul::lemma_mul_is_commutative(
            ticket_price as int,
            max_tickets as int,
        );
    }
    if program.find_round(round).is_some() {
        return Err(ErrorCode::DuplicateRound);
    }
    let ghost s0 = program.rounds@;
    let entry = RoundEntry {
        lottery: Lottery {
            authority: ctx.authority,
            round,
            ticket_price,
            max_tickets,
            tickets_sold: 0,
            total_pool: 0,
            end_time,
            fee_bps,
            status: LotteryStatus::Active,
            winner_ticket: None,
            claimed: false,
        },
        tickets: Vec::new(),
    };
    program.rounds.push(entry);
    proof {
        let ghost e = program.rounds@.last();
        assert(e.lottery == new_lottery(ctx.authority, round, ticket_price, max_tickets, fee_bps, end_time));
        assert(e.lottery.total_pool == e.lottery.tickets_sold * e.lottery.ticket_price) by {
            vstd::arithmetic::mul::lemma_mul_basics(e.lottery.ticket_price as int);
        }
        assert(entry_wf(e));
        assert forall|r2: u64| true implies #[trigger] LotteryProgram::lookup(program.rounds@, r2)
            == if r2 == round {
            Some(e)
        } else {
            LotteryProgram::lookup(s0, r2)
        } by {
            LotteryProgram::lemma_lookup_push(s0, e, r2);
        }
        assert forall|i: int, j: int| 0 <= i < j < program.rounds@.len() implies (
        #[trigger] program.rounds@[i]).lottery.round != (#[trigger] program.rounds@[j]).lottery.round by {
            if j == program.rounds@.len() - 1 {
                assert(program.rounds@[i] == s0[i]);
                LotteryProgram::lemma_lookup_at(s0, program.rounds@[i].lottery.round, i);
            }
        }
        assert forall|i: int| 0 <= i < program.rounds@.len() implies program.escrow.balance(
            AccountId::Pool((#[trigger] program.rounds@[i]).lottery.round),
        ) == LotteryProgram::pool_due(program.rounds@[i].lottery) by {
            if i < program.rounds@.len() - 1 {
                assert(program.rounds@[i] == s0[i]);
            }
        }
    }
    Ok(())
}

} // verus!
