use puzzle_contracts::multiplayer_match::{i128_to_xdr, Error, MultiplayerPuzzleMatch, Status};
use puzzle_contracts::common::Account;
use puzzle_contracts::token::TokenTransfer;
use soroban_sdk::xdr::ToXdr;
use soroban_sdk::{Bytes, Env};

const CONTRACT: u64 = 99;
const TOKEN: u64 = 2;
const CREATOR: u64 = 10;
const PLAYER2: u64 = 11;
const PLAYER3: u64 = 12;

fn commit_for(env: &Env, player_xdr: &[u8], score: i128, secret: &[u8]) -> [u8; 32] {
    let mut input = Bytes::from_slice(env, player_xdr);
    input.append(&score.to_xdr(env));
    input.append(&Bytes::from_slice(env, secret));
    env.crypto().sha256(&input).to_array()
}

fn player(id: u64, xdr: &[u8]) -> Account {
    Account { id, strkey: vec![b'G'; 56], xdr: xdr.to_vec() }
}

fn two_player_match(g: &mut MultiplayerPuzzleMatch) -> u64 {
    let (id, _) = g.create_match(0, CONTRACT, CREATOR, TOKEN, 100, 5, 2, 3600, 1800, 1800);
    g.join_match(0, CONTRACT, id, PLAYER2).unwrap();
    id
}

#[test]
fn test_match_lifecycle() {
    let env = Env::default();
    let mut g = MultiplayerPuzzleMatch::new();
    let (match_id, pay) = g.create_match(0, CONTRACT, CREATOR, TOKEN, 100, 5, 2, 3600, 1800, 1800);
    assert_eq!(match_id, 1);
    assert_eq!(pay, TokenTransfer { token: TOKEN, from: CREATOR, to: CONTRACT, amount: 100 });
    // Join; the minimum of two players starts the match
    let pay2 = g.join_match(0, CONTRACT, match_id, PLAYER2).unwrap();
    assert_eq!(pay2.from, PLAYER2);
    let m = g.get_match(match_id).unwrap();
    assert_eq!(m.status, Status::Submission);
    assert_eq!(m.pot, 200);
    assert_eq!(m.submission_deadline, 1800);
    // Submit commits
    let commit1 = env.crypto().sha256(&Bytes::from_array(&env, &[1; 32])).to_array();
    g.submit_commit(0, match_id, CREATOR, commit1).unwrap();
    let commit2 = env.crypto().sha256(&Bytes::from_array(&env, &[2; 32])).to_array();
    g.submit_commit(0, match_id, PLAYER2, commit2).unwrap();
    assert_eq!(g.get_match(match_id).unwrap().status, Status::Reveal);
    // Reveal after advancing past the reveal deadline
    let r = g.reveal_result(&env, 1900, match_id, &player(CREATOR, &vec![1u8; 40]), 100, &vec![1u8; 10]);
    assert_eq!(r, Err(Error::DeadlinePassed));
    // Evaluate: nobody revealed, so every entry fee goes back
    let payouts = g.evaluate_match(3800, CONTRACT, match_id).unwrap();
    assert_eq!(payouts.len(), 2);
    assert!(payouts.iter().all(|t| t.amount == 100 && t.from == CONTRACT));
    let m = g.get_match(match_id).unwrap();
    assert_eq!(m.status, Status::Abandoned);
    assert_eq!(m.pot, 0);
}

#[test]
fn revealed_best_score_takes_the_pot() {
    let env = Env::default();
    let mut g = MultiplayerPuzzleMatch::new();
    let id = two_player_match(&mut g);
    let x1 = vec![7u8; 40];
    let x2 = vec![8u8; 40];
    g.submit_commit(10, id, CREATOR, commit_for(&env, &x1, 100, &[1; 10])).unwrap();
    g.submit_commit(10, id, PLAYER2, commit_for(&env, &x2, 90, &[2; 10])).unwrap();
    assert_eq!(g.reveal_result(&env, 20, id, &player(CREATOR, &x1), 100, &vec![1u8; 10]), Ok(()));
    // a wrong secret does not open the commit
    assert_eq!(
        g.reveal_result(&env, 20, id, &player(PLAYER2, &x2), 90, &vec![9u8; 10]),
        Err(Error::InvalidReveal)
    );
    assert_eq!(g.reveal_result(&env, 20, id, &player(PLAYER2, &x2), 90, &vec![2u8; 10]), Ok(()));
    assert_eq!(g.evaluate_match(20, CONTRACT, id), Err(Error::DeadlinePassed));
    let payouts = g.evaluate_match(2000, CONTRACT, id).unwrap();
    assert_eq!(payouts, vec![TokenTransfer { token: TOKEN, from: CONTRACT, to: CREATOR, amount: 200 }]);
    assert_eq!(g.get_match(id).unwrap().status, Status::Finished);
}

#[test]
fn tied_scores_split_the_pot() {
    let mut g = MultiplayerPuzzleMatch::new();
    let (id, _) = g.create_match(0, CONTRACT, CREATOR, TOKEN, 100, 5, 3, 3600, 1800, 1800);
    g.join_match(0, CONTRACT, id, PLAYER2).unwrap();
    g.join_match(0, CONTRACT, id, PLAYER3).unwrap();
    for p in [CREATOR, PLAYER2, PLAYER3] {
        g.submit_commit(0, id, p, [p as u8; 32]).unwrap();
    }
    let digest_c = vec![CREATOR as u8; 32];
    let digest_2 = vec![PLAYER2 as u8; 32];
    let digest_3 = vec![PLAYER3 as u8; 32];
    g.record_reveal(5, id, CREATOR, 50, &digest_c).unwrap();
    g.record_reveal(5, id, PLAYER2, 70, &digest_2).unwrap();
    g.record_reveal(5, id, PLAYER3, 70, &digest_3).unwrap();
    let payouts = g.evaluate_match(5000, CONTRACT, id).unwrap();
    assert_eq!(payouts.len(), 2);
    assert!(payouts.iter().all(|t| t.amount == 150));
    assert_eq!(payouts[0].to, PLAYER2);
    assert_eq!(payouts[1].to, PLAYER3);
}

#[test]
fn join_rules() {
    let mut g = MultiplayerPuzzleMatch::new();
    let (id, _) = g.create_match(0, CONTRACT, CREATOR, TOKEN, 100, 2, 3, 100, 10, 10);
    assert_eq!(g.join_match(0, CONTRACT, 7, PLAYER2), Err(Error::MatchNotFound));
    assert_eq!(g.join_match(0, CONTRACT, id, CREATOR), Err(Error::AlreadyJoined));
    assert_eq!(g.join_match(101, CONTRACT, id, PLAYER2), Err(Error::DeadlinePassed));
    g.join_match(50, CONTRACT, id, PLAYER2).unwrap();
    assert_eq!(g.join_match(50, CONTRACT, id, PLAYER3), Err(Error::MaxPlayersReached));
    assert_eq!(g.get_match(id).unwrap().status, Status::Open);
}

#[test]
fn leave_refunds_the_fee() {
    let mut g = MultiplayerPuzzleMatch::new();
    let (id, _) = g.create_match(0, CONTRACT, CREATOR, TOKEN, 100, 5, 3, 100, 10, 10);
    g.join_match(0, CONTRACT, id, PLAYER2).unwrap();
    assert_eq!(g.leave_match(CONTRACT, id, PLAYER3), Err(Error::NotPlayer));
    assert_eq!(
        g.leave_match(CONTRACT, id, PLAYER2),
        Ok(TokenTransfer { token: TOKEN, from: CONTRACT, to: PLAYER2, amount: 100 })
    );
    let m = g.get_match(id).unwrap();
    assert_eq!(m.pot, 100);
    assert_eq!(m.players, vec![CREATOR]);
}

#[test]
fn disputes_and_rulings() {
    let mut g = MultiplayerPuzzleMatch::new();
    let id = two_player_match(&mut g);
    g.submit_commit(0, id, CREATOR, [1; 32]).unwrap();
    g.submit_commit(0, id, PLAYER2, [2; 32]).unwrap();
    g.record_reveal(1, id, CREATOR, 10, &vec![1u8; 32]).unwrap();
    g.record_reveal(1, id, PLAYER2, 20, &vec![2u8; 32]).unwrap();
    assert_eq!(g.raise_dispute(id, CREATOR, CREATOR), Err(Error::InvalidOp));
    assert_eq!(g.raise_dispute(id, CREATOR, PLAYER3), Err(Error::NotPlayer));
    assert_eq!(g.raise_dispute(id, CREATOR, PLAYER2), Ok(()));
    assert_eq!(g.get_match(id).unwrap().status, Status::Disputed);
    assert_eq!(g.resolve_dispute(id, CREATOR, true), Err(Error::DisputeNotFound));
    assert_eq!(g.resolve_dispute(id, PLAYER2, false), Ok(()));
    assert_eq!(g.resolve_dispute(id, PLAYER2, false), Err(Error::InvalidStatus));
    let m = g.get_match(id).unwrap();
    assert_eq!(m.status, Status::Finished);
    assert!(!m.results.contains_key(&PLAYER2));
    let payouts = g.evaluate_match(0, CONTRACT, id).unwrap();
    assert_eq!(payouts, vec![TokenTransfer { token: TOKEN, from: CONTRACT, to: CREATOR, amount: 200 }]);
}

#[test]
fn timeouts_move_the_match_on() {
    let mut g = MultiplayerPuzzleMatch::new();
    let (id, _) = g.create_match(0, CONTRACT, CREATOR, TOKEN, 100, 5, 2, 100, 10, 10);
    assert_eq!(g.handle_timeout(50, CONTRACT, id), Err(Error::InvalidStatus));
    let refunds = g.handle_timeout(101, CONTRACT, id).unwrap();
    assert_eq!(refunds, vec![TokenTransfer { token: TOKEN, from: CONTRACT, to: CREATOR, amount: 100 }]);
    assert_eq!(g.get_match(id).unwrap().status, Status::Abandoned);

    let id2 = two_player_match(&mut g);
    assert_eq!(g.handle_timeout(1801, CONTRACT, id2), Ok(vec![]));
    let m = g.get_match(id2).unwrap();
    assert_eq!(m.status, Status::Reveal);
    assert_eq!(m.reveal_deadline, 1801 + 1800);
    assert_eq!(g.handle_timeout(3602, CONTRACT, id2), Ok(vec![]));
    assert_eq!(g.get_match(id2).unwrap().status, Status::Finished);
}

#[test]
fn score_serialisation_matches_the_host() {
    let env = Env::default();
    for v in [0i128, 1, -1, 90, 1 << 70, -(1 << 100), i128::MAX, i128::MIN] {
        let host = v.to_xdr(&env);
        let mut bytes = vec![0u8; host.len() as usize];
        host.copy_into_slice(&mut bytes);
        assert_eq!(i128_to_xdr(v), bytes);
    }
    assert_eq!(i128_to_xdr(5), vec![0, 0, 0, 10, 0, 0, 0, 0, 0, 0, 0, 0, 0, 0, 0, 0, 0, 0, 0, 5]);
}
