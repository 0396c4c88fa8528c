//! Input validation, error taxonomy and the smaller helpers.

use cryptolotto::{
    buy_ticket, claim_prize, draw_winner, entropy_from_bytes, initialize_lottery, issue,
    AccountId, BuyTicket, ClaimPrize, DrawWinner, ErrorCode, InitializeLottery, Lottery,
    LotteryProgram, LotteryStatus, RoundEntry, Ticket,
};

const AUTHORITY: u64 = 1;

fn init_ctx() -> InitializeLottery {
    InitializeLottery { authority: AUTHORITY }
}

#[test]
fn initialize_rejects_bad_parameters() {
    let mut p = LotteryProgram::new();
    let zero_price = initialize_lottery(&mut p, init_ctx(), 1, 0, 3, 1000, 100, 0);
    assert_eq!(zero_price, Err(ErrorCode::InvalidParameters));
    let zero_capacity = initialize_lottery(&mut p, init_ctx(), 1, 10, 0, 1000, 100, 0);
    assert_eq!(zero_capacity, Err(ErrorCode::InvalidParameters));
    let fee_above_pool = initialize_lottery(&mut p, init_ctx(), 1, 10, 3, 10001, 100, 0);
    assert_eq!(fee_above_pool, Err(ErrorCode::InvalidParameters));
    let deadline_now = initialize_lottery(&mut p, init_ctx(), 1, 10, 3, 1000, 100, 100);
    assert_eq!(deadline_now, Err(ErrorCode::InvalidParameters));
    let deadline_past = initialize_lottery(&mut p, init_ctx(), 1, 10, 3, 1000, 100, 101);
    assert_eq!(deadline_past, Err(ErrorCode::InvalidParameters));
    let pool_overflow = initialize_lottery(&mut p, init_ctx(), 1, u64::MAX, 2, 1000, 100, 0);
    assert_eq!(pool_overflow, Err(ErrorCode::InvalidParameters));
    assert_eq!(p.get_round(1), Err(ErrorCode::NotFound));
}

#[test]
fn initialize_rejects_duplicate_round() {
    let mut p = LotteryProgram::new();
    assert_eq!(initialize_lottery(&mut p, init_ctx(), 1, 10, 3, 1000, 100, 0), Ok(()));
    let again = initialize_lottery(&mut p, init_ctx(), 1, 99, 7, 0, 900, 0);
    assert_eq!(again, Err(ErrorCode::DuplicateRound));
    // The existing round is untouched.
    let l = p.get_round(1).unwrap();
    assert_eq!(l.ticket_price, 10);
    assert_eq!(l.max_tickets, 3);
}

#[test]
fn missing_round_is_not_found() {
    let mut p = LotteryProgram::new();
    assert_eq!(p.get_round(5), Err(ErrorCode::NotFound));
    let b = buy_ticket(&mut p, BuyTicket { buyer: 7 }, 5, 0);
    assert_eq!(b, Err(ErrorCode::NotFound));
    let d = draw_winner(&mut p, DrawWinner { authority: AUTHORITY, entropy: 0 }, 5, 0);
    assert_eq!(d, Err(ErrorCode::NotFound));
    let c = claim_prize(
        &mut p,
        ClaimPrize { ticket_round: 5, ticket_number: 1, platform_vault: 2 },
        5,
    );
    assert_eq!(c, Err(ErrorCode::NotFound));
}

#[test]
fn buy_without_funds_fails_and_changes_nothing() {
    let mut p = LotteryProgram::new();
    p.deposit(7, 9);
    initialize_lottery(&mut p, init_ctx(), 1, 10, 3, 1000, 100, 0).unwrap();
    let b = buy_ticket(&mut p, BuyTicket { buyer: 7 }, 1, 5);
    assert_eq!(b, Err(ErrorCode::TransferFailed));
    assert_eq!(p.balance_of(AccountId::User(7)), 9);
    assert_eq!(p.balance_of(AccountId::Pool(1)), 0);
    assert_eq!(p.get_round(1).unwrap().tickets_sold, 0);
}

#[test]
fn buy_on_completed_round_fails() {
    let mut p = LotteryProgram::new();
    p.deposit(7, 100);
    initialize_lottery(&mut p, init_ctx(), 1, 10, 3, 1000, 100, 0).unwrap();
    buy_ticket(&mut p, BuyTicket { buyer: 7 }, 1, 5).unwrap();
    draw_winner(&mut p, DrawWinner { authority: AUTHORITY, entropy: 0 }, 1, 100).unwrap();
    let b = buy_ticket(&mut p, BuyTicket { buyer: 7 }, 1, 5);
    assert_eq!(b, Err(ErrorCode::LotteryNotActive));
}

#[test]
fn claim_before_draw_fails() {
    let mut p = LotteryProgram::new();
    p.deposit(7, 100);
    initialize_lottery(&mut p, init_ctx(), 1, 10, 3, 1000, 100, 0).unwrap();
    buy_ticket(&mut p, BuyTicket { buyer: 7 }, 1, 5).unwrap();
    let c = claim_prize(
        &mut p,
        ClaimPrize { ticket_round: 1, ticket_number: 1, platform_vault: 2 },
        1,
    );
    assert_eq!(c, Err(ErrorCode::LotteryNotCompleted));
}

#[test]
fn claim_with_foreign_or_missing_ticket_fails() {
    let mut p = LotteryProgram::new();
    p.deposit(7, 100);
    initialize_lottery(&mut p, init_ctx(), 1, 10, 3, 1000, 100, 0).unwrap();
    buy_ticket(&mut p, BuyTicket { buyer: 7 }, 1, 5).unwrap();
    draw_winner(&mut p, DrawWinner { authority: AUTHORITY, entropy: 0 }, 1, 100).unwrap();

    // A ticket that refers to another round.
    let foreign = claim_prize(
        &mut p,
        ClaimPrize { ticket_round: 2, ticket_number: 1, platform_vault: 2 },
        1,
    );
    assert_eq!(foreign, Err(ErrorCode::InvalidTicket));
    // Ticket numbers that were never issued.
    let zero = claim_prize(
        &mut p,
        ClaimPrize { ticket_round: 1, ticket_number: 0, platform_vault: 2 },
        1,
    );
    assert_eq!(zero, Err(ErrorCode::InvalidTicket));
    let high = claim_prize(
        &mut p,
        ClaimPrize { ticket_round: 1, ticket_number: 2, platform_vault: 2 },
        1,
    );
    assert_eq!(high, Err(ErrorCode::InvalidTicket));
    assert_eq!(p.balance_of(AccountId::Pool(1)), 10);
}

#[test]
fn tickets_are_recorded_and_readable() {
    let mut p = LotteryProgram::new();
    p.deposit(7, 100);
    p.deposit(8, 100);
    initialize_lottery(&mut p, init_ctx(), 1, 10, 3, 1000, 100, 0).unwrap();
    buy_ticket(&mut p, BuyTicket { buyer: 7 }, 1, 5).unwrap();
    buy_ticket(&mut p, BuyTicket { buyer: 8 }, 1, 6).unwrap();

    let t1 = p.get_ticket(1, 1).unwrap();
    assert_eq!(t1.lottery, 1);
    assert_eq!(t1.owner, 7);
    assert_eq!(t1.ticket_number, 1);
    assert_eq!(t1.purchase_time, 5);
    let t2 = p.get_ticket(1, 2).unwrap();
    assert_eq!(t2.owner, 8);
    assert_eq!(t2.ticket_number, 2);

    assert_eq!(p.get_ticket(1, 0), Err(ErrorCode::NotFound));
    assert_eq!(p.get_ticket(1, 3), Err(ErrorCode::NotFound));
    assert_eq!(p.get_ticket(2, 1), Err(ErrorCode::NotFound));
}

#[test]
fn entropy_reads_first_eight_bytes_little_endian() {
    let bytes = vec![0x78, 0x56, 0x34, 0x12, 0, 0, 0, 0];
    assert_eq!(entropy_from_bytes(&bytes), 0x12345678);

    let zero = vec![0u8; 8];
    assert_eq!(entropy_from_bytes(&zero), 0);

    let one = vec![1, 0, 0, 0, 0, 0, 0, 0];
    assert_eq!(entropy_from_bytes(&one), 1);

    let max = vec![0xff; 8];
    assert_eq!(entropy_from_bytes(&max), u64::MAX);

    // Bytes beyond the fixed width are ignored.
    let longer = vec![2, 0, 0, 0, 0, 0, 0, 0, 0xaa, 0xbb];
    assert_eq!(entropy_from_bytes(&longer), 2);

    let carry = vec![0, 0, 0, 0, 0, 0, 0, 0x80];
    assert_eq!(entropy_from_bytes(&carry), 1u64 << 63);
}

#[test]
fn deposits_accumulate() {
    let mut p = LotteryProgram::new();
    assert_eq!(p.balance_of(AccountId::User(3)), 0);
    p.deposit(3, 5);
    p.deposit(3, 7);
    assert_eq!(p.balance_of(AccountId::User(3)), 12);
    assert_eq!(p.balance_of(AccountId::User(4)), 0);
}

#[test]
fn zero_fee_pays_the_whole_pool() {
    let mut p = LotteryProgram::new();
    p.deposit(7, 10);
    initialize_lottery(&mut p, init_ctx(), 1, 10, 1, 0, 100, 0).unwrap();
    buy_ticket(&mut p, BuyTicket { buyer: 7 }, 1, 5).unwrap();
    draw_winner(&mut p, DrawWinner { authority: AUTHORITY, entropy: 3 }, 1, 100).unwrap();
    let c = claim_prize(
        &mut p,
        ClaimPrize { ticket_round: 1, ticket_number: 1, platform_vault: 2 },
        1,
    );
    assert!(c.is_ok());
    assert_eq!(c.unwrap().amount, 10);
    assert_eq!(p.balance_of(AccountId::User(7)), 10);
    assert_eq!(p.balance_of(AccountId::User(2)), 0);
}

#[test]
fn full_fee_pays_the_platform() {
    let mut p = LotteryProgram::new();
    p.deposit(7, 10);
    initialize_lottery(&mut p, init_ctx(), 1, 10, 1, 10000, 100, 0).unwrap();
    buy_ticket(&mut p, BuyTicket { buyer: 7 }, 1, 5).unwrap();
    draw_winner(&mut p, DrawWinner { authority: AUTHORITY, entropy: 3 }, 1, 100).unwrap();
    let c = claim_prize(
        &mut p,
        ClaimPrize { ticket_round: 1, ticket_number: 1, platform_vault: 2 },
        1,
    );
    assert_eq!(c.unwrap().amount, 0);
    assert_eq!(p.balance_of(AccountId::User(7)), 0);
    assert_eq!(p.balance_of(AccountId::User(2)), 10);
}

#[test]
fn issue_refuses_an_occupied_slot() {
    let lottery = Lottery {
        authority: 1,
        round: 1,
        ticket_price: 10,
        max_tickets: 3,
        tickets_sold: 0,
        total_pool: 0,
        end_time: 100,
        fee_bps: 1000,
        status: LotteryStatus::Active,
        winner_ticket: None,
        claimed: false,
    };
    // The slot for ticket 1 is free: issuing fills it.
    let mut entry = RoundEntry { lottery, tickets: Vec::new() };
    let issued = issue(&mut entry, 7, 5);
    assert_eq!(
        issued,
        Ok(Ticket { lottery: 1, owner: 7, ticket_number: 1, purchase_time: 5 })
    );
    // The counters were not advanced, so the next computed ticket number is
    // still 1 — and that slot is now occupied.
    let occupied = issue(&mut entry, 8, 6);
    assert_eq!(occupied, Err(ErrorCode::SlotAlreadyIssued));
    assert_eq!(entry.tickets.len(), 1);
}

#[test]
fn error_messages_name_the_condition() {
    assert_eq!(ErrorCode::LotteryFull.message(), "Lottery is full");
    assert_eq!(ErrorCode::DrawNotReady.message(), "Draw is not ready yet");
    assert_eq!(ErrorCode::TransferFailed.message(), "Escrow transfer failed");
}
