//! End-to-end lifecycle scenarios: initialization, sales, draw and claim.

use cryptolotto::{
    buy_ticket, claim_prize, draw_winner, initialize_lottery, AccountId, BuyTicket, ClaimPrize,
    DrawWinner, ErrorCode, InitializeLottery, LotteryProgram, LotteryStatus, PrizeClaimed,
    TicketPurchased, WinnerDrawn,
};

const AUTHORITY: u64 = 1;
const PLATFORM: u64 = 2;

fn init_ctx() -> InitializeLottery {
    InitializeLottery { authority: AUTHORITY }
}

#[test]
fn full_lifecycle_single_buyer() {
    let mut p = LotteryProgram::new();
    p.deposit(7, 100);
    assert_eq!(p.balance_of(AccountId::User(7)), 100);

    let r = initialize_lottery(&mut p, init_ctx(), 1, 10, 3, 1000, 100, 0);
    assert_eq!(r, Ok(()));

    let b = buy_ticket(&mut p, BuyTicket { buyer: 7 }, 1, 5);
    assert_eq!(
        b,
        Ok(TicketPurchased { lottery: 1, buyer: 7, ticket_number: 1, price: 10 })
    );
    assert_eq!(p.balance_of(AccountId::User(7)), 90);
    assert_eq!(p.balance_of(AccountId::Pool(1)), 10);

    let d = draw_winner(&mut p, DrawWinner { authority: AUTHORITY, entropy: 5 }, 1, 100);
    assert_eq!(
        d,
        Ok(WinnerDrawn { lottery: 1, winning_ticket: 1, prize_amount: 10 })
    );
    let l = p.get_round(1).unwrap();
    assert_eq!(l.status, LotteryStatus::Completed);
    assert_eq!(l.winner_ticket, Some(1));

    let c = claim_prize(
        &mut p,
        ClaimPrize { ticket_round: 1, ticket_number: 1, platform_vault: PLATFORM },
        1,
    );
    assert_eq!(c, Ok(PrizeClaimed { lottery: 1, winner: 7, amount: 9 }));
    assert_eq!(p.balance_of(AccountId::User(7)), 99);
    assert_eq!(p.balance_of(AccountId::User(PLATFORM)), 1);
    assert_eq!(p.balance_of(AccountId::Pool(1)), 0);
}

#[test]
fn three_tickets_then_full() {
    let mut p = LotteryProgram::new();
    for buyer in [10, 11, 12, 13] {
        p.deposit(buyer, 50);
    }
    let r = initialize_lottery(&mut p, init_ctx(), 1, 10, 3, 1000, 100, 0);
    assert_eq!(r, Ok(()));

    for (k, buyer) in [10, 11, 12].into_iter().enumerate() {
        let b = buy_ticket(&mut p, BuyTicket { buyer }, 1, 5);
        assert_eq!(
            b,
            Ok(TicketPurchased {
                lottery: 1,
                buyer,
                ticket_number: k as u64 + 1,
                price: 10,
            })
        );
    }
    let l = p.get_round(1).unwrap();
    assert_eq!(l.tickets_sold, 3);
    assert_eq!(l.total_pool, 30);

    let b = buy_ticket(&mut p, BuyTicket { buyer: 13 }, 1, 5);
    assert_eq!(b, Err(ErrorCode::LotteryFull));
    assert_eq!(p.balance_of(AccountId::User(13)), 50);
}

#[test]
fn buy_after_deadline_fails_even_with_room() {
    let mut p = LotteryProgram::new();
    p.deposit(7, 100);
    initialize_lottery(&mut p, init_ctx(), 1, 10, 3, 1000, 100, 0).unwrap();

    let at_deadline = buy_ticket(&mut p, BuyTicket { buyer: 7 }, 1, 100);
    assert_eq!(at_deadline, Err(ErrorCode::LotteryEnded));
    let late = buy_ticket(&mut p, BuyTicket { buyer: 7 }, 1, 500);
    assert_eq!(late, Err(ErrorCode::LotteryEnded));

    let l = p.get_round(1).unwrap();
    assert_eq!(l.tickets_sold, 0);
    assert!(l.tickets_sold < l.max_tickets);
    assert_eq!(p.balance_of(AccountId::User(7)), 100);
}

#[test]
fn draw_before_deadline_fails() {
    let mut p = LotteryProgram::new();
    p.deposit(7, 100);
    initialize_lottery(&mut p, init_ctx(), 1, 10, 3, 1000, 100, 0).unwrap();
    buy_ticket(&mut p, BuyTicket { buyer: 7 }, 1, 5).unwrap();

    let d = draw_winner(&mut p, DrawWinner { authority: AUTHORITY, entropy: 42 }, 1, 99);
    assert_eq!(d, Err(ErrorCode::DrawNotReady));
    assert_eq!(p.get_round(1).unwrap().status, LotteryStatus::Active);
}

#[test]
fn draw_with_no_tickets_fails() {
    let mut p = LotteryProgram::new();
    initialize_lottery(&mut p, init_ctx(), 1, 10, 3, 1000, 100, 0).unwrap();

    let d = draw_winner(&mut p, DrawWinner { authority: AUTHORITY, entropy: 42 }, 1, 100);
    assert_eq!(d, Err(ErrorCode::NoTicketsSold));
    assert_eq!(p.get_round(1).unwrap().status, LotteryStatus::Active);
}

#[test]
fn fee_split_and_second_claim_fails() {
    let mut p = LotteryProgram::new();
    for buyer in [20, 21, 22, 23, 24] {
        p.deposit(buyer, 10);
    }
    initialize_lottery(&mut p, init_ctx(), 9, 10, 5, 1000, 1000, 0).unwrap();
    for buyer in [20, 21, 22, 23, 24] {
        buy_ticket(&mut p, BuyTicket { buyer }, 9, 1).unwrap();
    }
    let l = p.get_round(9).unwrap();
    assert_eq!(l.total_pool, 50);

    // entropy 7 over 5 tickets: 7 % 5 + 1 = ticket 3, owned by buyer 22.
    let d = draw_winner(&mut p, DrawWinner { authority: AUTHORITY, entropy: 7 }, 9, 1000);
    assert_eq!(
        d,
        Ok(WinnerDrawn { lottery: 9, winning_ticket: 3, prize_amount: 50 })
    );

    let c = claim_prize(
        &mut p,
        ClaimPrize { ticket_round: 9, ticket_number: 3, platform_vault: PLATFORM },
        9,
    );
    assert_eq!(c, Ok(PrizeClaimed { lottery: 9, winner: 22, amount: 45 }));
    assert_eq!(p.balance_of(AccountId::User(22)), 45);
    assert_eq!(p.balance_of(AccountId::User(PLATFORM)), 5);
    assert_eq!(p.balance_of(AccountId::Pool(9)), 0);

    // A second claim fails, with the winning ticket or any other.
    let again = claim_prize(
        &mut p,
        ClaimPrize { ticket_round: 9, ticket_number: 3, platform_vault: PLATFORM },
        9,
    );
    assert_eq!(again, Err(ErrorCode::AlreadyClaimed));
    let other = claim_prize(
        &mut p,
        ClaimPrize { ticket_round: 9, ticket_number: 1, platform_vault: PLATFORM },
        9,
    );
    assert_eq!(other, Err(ErrorCode::AlreadyClaimed));
    assert_eq!(p.balance_of(AccountId::User(22)), 45);
    assert_eq!(p.balance_of(AccountId::User(PLATFORM)), 5);
}

#[test]
fn non_winning_ticket_claims_nothing() {
    let mut p = LotteryProgram::new();
    for buyer in [30, 31] {
        p.deposit(buyer, 10);
    }
    initialize_lottery(&mut p, init_ctx(), 4, 10, 2, 1000, 100, 0).unwrap();
    buy_ticket(&mut p, BuyTicket { buyer: 30 }, 4, 1).unwrap();
    buy_ticket(&mut p, BuyTicket { buyer: 31 }, 4, 1).unwrap();

    // entropy 4 over 2 tickets: 4 % 2 + 1 = ticket 1.
    draw_winner(&mut p, DrawWinner { authority: AUTHORITY, entropy: 4 }, 4, 100).unwrap();
    assert_eq!(p.get_round(4).unwrap().winner_ticket, Some(1));

    let c = claim_prize(
        &mut p,
        ClaimPrize { ticket_round: 4, ticket_number: 2, platform_vault: PLATFORM },
        4,
    );
    assert_eq!(c, Err(ErrorCode::NotWinningTicket));
    assert_eq!(p.balance_of(AccountId::Pool(4)), 20);
    assert_eq!(p.balance_of(AccountId::User(31)), 0);
    assert_eq!(p.balance_of(AccountId::User(PLATFORM)), 0);
}

#[test]
fn second_draw_fails_and_winner_is_unchanged() {
    let mut p = LotteryProgram::new();
    p.deposit(7, 100);
    initialize_lottery(&mut p, init_ctx(), 1, 10, 3, 1000, 100, 0).unwrap();
    buy_ticket(&mut p, BuyTicket { buyer: 7 }, 1, 5).unwrap();
    buy_ticket(&mut p, BuyTicket { buyer: 7 }, 1, 6).unwrap();

    // entropy 9 over 2 tickets: 9 % 2 + 1 = ticket 2.
    draw_winner(&mut p, DrawWinner { authority: AUTHORITY, entropy: 9 }, 1, 100).unwrap();
    let first = p.get_round(1).unwrap().winner_ticket;
    assert_eq!(first, Some(2));

    let again = draw_winner(&mut p, DrawWinner { authority: AUTHORITY, entropy: 1 }, 1, 200);
    assert_eq!(again, Err(ErrorCode::LotteryNotActive));
    assert_eq!(p.get_round(1).unwrap().winner_ticket, first);
}

#[test]
fn winner_is_always_a_sold_ticket() {
    for entropy in [0, 1, 2, 3, 17, u64::MAX] {
        let mut p = LotteryProgram::new();
        for buyer in [40, 41, 42] {
            p.deposit(buyer, 10);
        }
        initialize_lottery(&mut p, init_ctx(), 1, 10, 3, 1000, 100, 0).unwrap();
        for buyer in [40, 41, 42] {
            buy_ticket(&mut p, BuyTicket { buyer }, 1, 1).unwrap();
        }
        let d = draw_winner(&mut p, DrawWinner { authority: AUTHORITY, entropy }, 1, 100)
            .unwrap();
        assert!(d.winning_ticket >= 1 && d.winning_ticket <= 3);
        assert_eq!(d.winning_ticket, entropy % 3 + 1);
    }
}

#[test]
fn winner_and_platform_can_be_the_same_account() {
    let mut p = LotteryProgram::new();
    p.deposit(7, 10);
    initialize_lottery(&mut p, init_ctx(), 1, 10, 1, 1000, 100, 0).unwrap();
    buy_ticket(&mut p, BuyTicket { buyer: 7 }, 1, 5).unwrap();
    draw_winner(&mut p, DrawWinner { authority: AUTHORITY, entropy: 0 }, 1, 100).unwrap();

    let c = claim_prize(
        &mut p,
        ClaimPrize { ticket_round: 1, ticket_number: 1, platform_vault: 7 },
        1,
    );
    assert_eq!(c, Ok(PrizeClaimed { lottery: 1, winner: 7, amount: 9 }));
    // Payout and fee both land on the same account: the whole pool returns.
    assert_eq!(p.balance_of(AccountId::User(7)), 10);
    assert_eq!(p.balance_of(AccountId::Pool(1)), 0);
}

#[test]
fn rounds_are_independent() {
    let mut p = LotteryProgram::new();
    p.deposit(7, 100);
    initialize_lottery(&mut p, init_ctx(), 1, 10, 3, 1000, 100, 0).unwrap();
    initialize_lottery(&mut p, init_ctx(), 2, 7, 5, 500, 200, 0).unwrap();

    buy_ticket(&mut p, BuyTicket { buyer: 7 }, 1, 5).unwrap();
    buy_ticket(&mut p, BuyTicket { buyer: 7 }, 2, 5).unwrap();

    assert_eq!(p.balance_of(AccountId::Pool(1)), 10);
    assert_eq!(p.balance_of(AccountId::Pool(2)), 7);
    assert_eq!(p.get_round(1).unwrap().tickets_sold, 1);
    assert_eq!(p.get_round(2).unwrap().tickets_sold, 1);
    assert_eq!(p.balance_of(AccountId::User(7)), 83);
}
