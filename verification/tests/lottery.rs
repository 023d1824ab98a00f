use puzzle_contracts::lottery::{
    generate_random, leading_u64, LotteryContract, LotteryError, RoundStatus,
};
use puzzle_contracts::token::TokenTransfer;
use soroban_sdk::{Bytes, Env};

const OWNER: u64 = 1;
const TOKEN: u64 = 2;
const USER: u64 = 3;
const OTHER: u64 = 4;
const CONTRACT: u64 = 99;

fn setup_lottery() -> LotteryContract {
    let mut l = LotteryContract::new();
    l.init(OWNER, TOKEN);
    l
}

#[test]
fn test_init() {
    let l = setup_lottery();
    assert_eq!(l.owner, Some(OWNER));
    assert_eq!(l.token, Some(TOKEN));
    assert_eq!(l.current_round, Some(0));
}

#[test]
fn test_start_round() {
    let mut l = setup_lottery();
    assert_eq!(l.start_round(100, 100, 50), Ok(1));
    let round_id = l.current_round.unwrap();
    let round = l.get_round(round_id).unwrap();
    assert_eq!(round.ticket_price, 100);
    assert_eq!(round.status, RoundStatus::Open);
    assert_eq!(round.end_time, 150);
}

#[test]
fn test_buy_ticket() {
    let mut l = setup_lottery();
    l.start_round(100, 100, 50).unwrap();
    let t = l.buy_ticket(100, CONTRACT, USER).unwrap();
    assert_eq!(t, TokenTransfer { token: TOKEN, from: USER, to: CONTRACT, amount: 100 });
    let round_id = l.current_round.unwrap();
    assert_eq!(l.players.get(&round_id).unwrap().len(), 1);
    assert_eq!(l.get_round(round_id).unwrap().prize_pool, 100);
}

#[test]
fn buy_ticket_after_the_end_is_refused() {
    let mut l = setup_lottery();
    l.start_round(100, 100, 0).unwrap();
    assert_eq!(l.buy_ticket(200, CONTRACT, USER), Err(LotteryError::RoundNotOpen));
}

#[test]
fn test_draw_winner() {
    let env = Env::default();
    let mut l = setup_lottery();
    l.start_round(100, 100, 10).unwrap();
    l.buy_ticket(100, CONTRACT, USER).unwrap();
    assert_eq!(l.draw_winner(&env, 120, 1), Ok(()));
    let round = l.get_round(l.current_round.unwrap()).unwrap();
    assert_eq!(round.status, RoundStatus::Completed);
    assert!(round.winner.is_some());
    assert_eq!(round.winner, Some(USER));
}

#[test]
fn draw_before_the_end_is_refused() {
    let mut l = setup_lottery();
    l.start_round(100, 100, 10).unwrap();
    assert_eq!(l.draw_with_random(105, 7), Err(LotteryError::RoundStillActive));
    assert_eq!(l.draw_with_random(110, 7), Ok(()));
    assert_eq!(l.draw_with_random(120, 7), Err(LotteryError::WinnerAlreadyDrawn));
}

#[test]
fn draw_picks_the_player_at_the_number_modulo_the_count() {
    let mut l = setup_lottery();
    l.start_round(0, 5, 10).unwrap();
    for p in [10u64, 11, 12] {
        l.buy_ticket(1, CONTRACT, p).unwrap();
    }
    l.draw_with_random(10, 7).unwrap();
    assert_eq!(l.get_round(1).unwrap().winner, Some(11));
}

#[test]
fn claim_with_no_players_is_not_winner() {
    let mut l = setup_lottery();
    l.start_round(100, 100, 0).unwrap();
    l.draw_with_random(101, 3).unwrap();
    assert_eq!(l.claim_prize(CONTRACT, USER, 1), Err(LotteryError::NotWinner));
}

#[test]
fn winner_claims_the_pool_once() {
    let mut l = setup_lottery();
    l.start_round(0, 25, 10).unwrap();
    l.buy_ticket(1, CONTRACT, USER).unwrap();
    l.buy_ticket(2, CONTRACT, OTHER).unwrap();
    l.draw_with_random(10, 0).unwrap();
    assert_eq!(l.claim_prize(CONTRACT, OTHER, 1), Err(LotteryError::NotWinner));
    assert_eq!(
        l.claim_prize(CONTRACT, USER, 1),
        Ok(TokenTransfer { token: TOKEN, from: CONTRACT, to: USER, amount: 50 })
    );
    assert_eq!(l.claim_prize(CONTRACT, USER, 1), Err(LotteryError::PrizeAlreadyClaimed));
    assert_eq!(l.get_round(1).unwrap().prize_pool, 0);
}

#[test]
fn test_cancel_round() {
    let mut l = setup_lottery();
    l.start_round(100, 100, 50).unwrap();
    assert_eq!(l.cancel_round(), Ok(()));
    let round = l.get_round(l.current_round.unwrap()).unwrap();
    assert_eq!(round.status, RoundStatus::Cancelled);
    assert_eq!(
        l.refund(CONTRACT, 1, USER),
        Ok(TokenTransfer { token: TOKEN, from: CONTRACT, to: USER, amount: 100 })
    );
}

#[test]
fn refund_without_a_round_is_refused() {
    let l = LotteryContract::new();
    assert_eq!(l.refund(CONTRACT, 1, USER), Err(LotteryError::RoundNotFound));
    let mut l = setup_lottery();
    l.start_round(0, 1, 1).unwrap();
    assert_eq!(l.refund(CONTRACT, 1, USER), Err(LotteryError::RoundNotCancelled));
}

#[test]
fn uninitialized_lottery_refuses_rounds() {
    let mut l = LotteryContract::new();
    assert_eq!(l.start_round(0, 1, 1), Err(LotteryError::NotInitialized));
    assert_eq!(l.buy_ticket(0, CONTRACT, USER), Err(LotteryError::NotInitialized));
    assert_eq!(l.cancel_round(), Err(LotteryError::NotInitialized));
}

#[test]
fn leading_u64_reads_big_endian() {
    let v: Vec<u8> = vec![0, 0, 0, 0, 0, 0, 1, 2, 9, 9];
    assert_eq!(leading_u64(&v), 258);
    let w: Vec<u8> = vec![255; 8];
    assert_eq!(leading_u64(&w), u64::MAX);
}

#[test]
fn random_is_the_hash_of_the_sequence() {
    let env = Env::default();
    let seq: u32 = 7;
    let digest = env.crypto().sha256(&Bytes::from_array(&env, &seq.to_be_bytes())).to_array();
    let expected = u64::from_be_bytes(digest[..8].try_into().unwrap());
    assert_eq!(generate_random(&env, seq), expected);
    assert_ne!(generate_random(&env, seq), seq as u64);
}
