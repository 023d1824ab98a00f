use puzzle_contracts::governance_token::{GovError, GovernanceToken, ProposalStatus, VoteType};

const ADMIN: u64 = 1;
const U1: u64 = 10;
const U2: u64 = 11;
const U3: u64 = 12;
const TARGET: u64 = 50;

fn s(x: &str) -> Vec<u8> {
    x.as_bytes().to_vec()
}

fn setup_gov() -> GovernanceToken {
    let mut g = GovernanceToken::new();
    g.initialize(ADMIN, s("Governance Token"), s("GOV"), 6, 100, 1000, 100, 10, 200, 600).unwrap();
    g
}

fn propose_at_seq1(g: &mut GovernanceToken, proposer: u64, title: &str) -> u64 {
    g.propose(0, 1, proposer, s(title), s("Desc"), TARGET, s("do_something"), 0).unwrap()
}

#[test]
fn test_metadata() {
    let g = setup_gov();
    assert_eq!(g.name(), s("Governance Token"));
    assert_eq!(g.symbol(), s("GOV"));
    assert_eq!(g.decimals(), 6);
    assert_eq!(g.total_supply(), 0);
}

#[test]
fn test_test_mint() {
    let mut g = setup_gov();
    g.mint(0, ADMIN, U1, 1000).unwrap();
    assert_eq!(g.balance(U1), 1000);
    assert_eq!(g.total_supply(), 1000);
    assert_eq!(g.mint(0, U1, U1, 10), Err(GovError::NotAdmin));
}

#[test]
fn test_burn() {
    let mut g = setup_gov();
    g.mint(0, ADMIN, U1, 1000).unwrap();
    g.burn(0, U1, 300).unwrap();
    assert_eq!(g.balance(U1), 700);
    assert_eq!(g.total_supply(), 700);
}

#[test]
fn test_transfer() {
    let mut g = setup_gov();
    g.mint(0, ADMIN, U1, 1000).unwrap();
    g.transfer(0, U1, U2, 400).unwrap();
    assert_eq!(g.balance(U1), 600);
    assert_eq!(g.balance(U2), 400);
    assert_eq!(g.total_supply(), 1000);
}

#[test]
fn transfer_beyond_the_balance_is_refused() {
    let mut g = setup_gov();
    g.mint(0, ADMIN, U1, 100).unwrap();
    assert_eq!(g.transfer(0, U1, U2, 200), Err(GovError::InsufficientBalance));
    assert_eq!(
        g.initialize(ADMIN, s("X"), s("X"), 6, 100, 1000, 100, 10, 200, 600),
        Err(GovError::AlreadyInitialized)
    );
}

#[test]
fn test_approve_and_transfer_from() {
    let mut g = setup_gov();
    g.mint(0, ADMIN, U1, 1000).unwrap();
    g.approve(U1, U2, 500).unwrap();
    assert_eq!(g.allowance(U1, U2), 500);
    g.transfer_from(0, U2, U1, U3, 200).unwrap();
    assert_eq!(g.balance(U1), 800);
    assert_eq!(g.balance(U3), 200);
    assert_eq!(g.allowance(U1, U2), 300);
    assert_eq!(g.transfer_from(0, U2, U1, U3, 400), Err(GovError::InsufficientAllowance));
}

#[test]
fn test_self_delegate() {
    let mut g = setup_gov();
    g.mint(0, ADMIN, U1, 500).unwrap();
    assert_eq!(g.get_voting_power(U1), 500);
    g.delegate(0, U1, U1).unwrap();
    assert_eq!(g.get_voting_power(U1), 500);
}

#[test]
fn test_delegate_to_another() {
    let mut g = setup_gov();
    g.mint(0, ADMIN, U1, 500).unwrap();
    assert_eq!(g.get_voting_power(U1), 500);
    assert_eq!(g.get_voting_power(U2), 0);
    g.delegate(0, U1, U2).unwrap();
    assert_eq!(g.get_voting_power(U1), 0);
    assert_eq!(g.get_voting_power(U2), 500);
    assert_eq!(g.get_delegate(U1), U2);
}

#[test]
fn test_re_delegate() {
    let mut g = setup_gov();
    g.mint(0, ADMIN, U1, 500).unwrap();
    g.delegate(0, U1, U2).unwrap();
    assert_eq!(g.get_voting_power(U2), 500);
    g.delegate(0, U1, U3).unwrap();
    assert_eq!(g.get_voting_power(U2), 0);
    assert_eq!(g.get_voting_power(U3), 500);
}

#[test]
fn test_delegation_with_transfer() {
    let mut g = setup_gov();
    g.mint(0, ADMIN, U1, 1000).unwrap();
    g.delegate(0, U1, U3).unwrap();
    assert_eq!(g.get_voting_power(U3), 1000);
    g.transfer(0, U1, U2, 400).unwrap();
    assert_eq!(g.get_voting_power(U3), 600);
    assert_eq!(g.get_voting_power(U2), 400);
}

#[test]
fn test_mint_after_delegation() {
    let mut g = setup_gov();
    g.delegate(0, U1, U2).unwrap();
    g.mint(0, ADMIN, U1, 300).unwrap();
    assert_eq!(g.balance(U1), 300);
    assert_eq!(g.get_voting_power(U1), 0);
    assert_eq!(g.get_voting_power(U2), 300);
}

#[test]
fn test_checkpoints_written() {
    let mut g = setup_gov();
    g.mint(0, ADMIN, U1, 500).unwrap();
    assert_eq!(g.get_num_checkpoints(U1), 1);
    g.mint(1, ADMIN, U1, 300).unwrap();
    assert_eq!(g.get_num_checkpoints(U1), 2);
    assert_eq!(g.get_voting_power(U1), 800);
}

#[test]
fn test_get_past_votes() {
    let mut g = setup_gov();
    g.mint(0, ADMIN, U1, 500).unwrap();
    g.mint(1, ADMIN, U1, 300).unwrap();
    g.burn(2, U1, 200).unwrap();
    assert_eq!(g.get_past_votes(3, U1, 0), Ok(500));
    assert_eq!(g.get_past_votes(3, U1, 1), Ok(800));
    assert_eq!(g.get_past_votes(3, U1, 2), Ok(600));
    assert_eq!(g.get_past_votes(3, U1, 3), Err(GovError::SequenceNotFinalized));
}

#[test]
fn test_same_block_checkpoint_overwrite() {
    let mut g = setup_gov();
    g.mint(0, ADMIN, U1, 500).unwrap();
    g.mint(0, ADMIN, U1, 300).unwrap();
    assert_eq!(g.get_num_checkpoints(U1), 1);
    assert_eq!(g.get_voting_power(U1), 800);
}

#[test]
fn test_full_proposal_lifecycle() {
    let mut g = setup_gov();
    g.mint(0, ADMIN, U1, 500).unwrap();
    g.mint(0, ADMIN, U2, 200).unwrap();
    let pid = g.propose(0, 1, U1, s("Test Proposal"), s("Do something"), TARGET, s("do_something"), 0).unwrap();
    assert_eq!(g.get_proposal_info(pid).unwrap().status, ProposalStatus::Pending);
    g.vote(200, U1, pid, VoteType::For).unwrap();
    g.vote(200, U2, pid, VoteType::For).unwrap();
    {
        let p = g.get_proposal_info(pid).unwrap();
        assert_eq!(p.for_votes, 700);
        assert_eq!(p.status, ProposalStatus::Active);
    }
    g.queue(1300, pid).unwrap();
    {
        let p = g.get_proposal_info(pid).unwrap();
        assert_eq!(p.status, ProposalStatus::Queued);
        assert!(p.eta > 0);
    }
    assert_eq!(g.execute(1600, pid), Ok((TARGET, s("do_something"))));
    assert_eq!(g.get_proposal_info(pid).unwrap().status, ProposalStatus::Executed);
}

#[test]
fn proposal_without_quorum_is_not_queued() {
    let mut g = setup_gov();
    g.mint(0, ADMIN, U1, 500).unwrap();
    g.mint(0, ADMIN, U2, 10000).unwrap();
    let pid = propose_at_seq1(&mut g, U1, "Low Quorum");
    g.vote(200, U1, pid, VoteType::For).unwrap();
    assert_eq!(g.queue(1300, pid), Err(GovError::QuorumNotReached));
}

#[test]
fn test_cancel_proposal() {
    let mut g = setup_gov();
    g.mint(0, ADMIN, U1, 500).unwrap();
    let pid = propose_at_seq1(&mut g, U1, "Cancel Me");
    assert_eq!(g.cancel(0, U2, pid), Err(GovError::NotProposer));
    g.cancel(0, U1, pid).unwrap();
    assert_eq!(g.get_proposal_info(pid).unwrap().status, ProposalStatus::Canceled);
}

#[test]
fn cancel_after_voting_starts_is_refused() {
    let mut g = setup_gov();
    g.mint(0, ADMIN, U1, 500).unwrap();
    let pid = propose_at_seq1(&mut g, U1, "Late Cancel");
    assert_eq!(g.cancel(200, U1, pid), Err(GovError::VotingAlreadyStarted));
}

#[test]
fn test_vote_receipt() {
    let mut g = setup_gov();
    g.mint(0, ADMIN, U1, 500).unwrap();
    let pid = propose_at_seq1(&mut g, U1, "Receipt Test");
    g.vote(200, U1, pid, VoteType::Against).unwrap();
    let receipt = g.get_vote_receipt(pid, U1).unwrap();
    assert_eq!(receipt.vote_type, VoteType::Against);
    assert_eq!(receipt.weight, 500);
    assert_eq!(g.vote(201, U1, pid, VoteType::For), Err(GovError::AlreadyVoted));
}

#[test]
fn test_delegation_snapshot_voting() {
    let mut g = setup_gov();
    g.mint(0, ADMIN, U1, 500).unwrap();
    g.mint(0, ADMIN, U2, 200).unwrap();
    g.delegate(0, U2, U1).unwrap();
    assert_eq!(g.get_voting_power(U1), 700);
    let pid = propose_at_seq1(&mut g, U1, "Deleg Vote");
    g.vote(200, U1, pid, VoteType::For).unwrap();
    assert_eq!(g.get_proposal_info(pid).unwrap().for_votes, 700);
}

#[test]
fn test_abstain_vote() {
    let mut g = setup_gov();
    g.mint(0, ADMIN, U1, 500).unwrap();
    g.mint(0, ADMIN, U2, 300).unwrap();
    let pid = propose_at_seq1(&mut g, U1, "Abstain Test");
    g.vote(200, U1, pid, VoteType::For).unwrap();
    g.vote(200, U2, pid, VoteType::Abstain).unwrap();
    let p = g.get_proposal_info(pid).unwrap();
    assert_eq!(p.for_votes, 500);
    assert_eq!(p.abstain_votes, 300);
    assert_eq!(p.against_votes, 0);
}

#[test]
fn test_config_readback() {
    let g = setup_gov();
    let config = g.get_config_info().unwrap();
    assert_eq!(config.voting_delay, 100);
    assert_eq!(config.voting_period, 1000);
    assert_eq!(config.proposal_threshold, 100);
    assert_eq!(config.quorum_numerator, 10);
    assert_eq!(config.timelock_delay, 200);
    assert_eq!(config.grace_period, 600);
}

#[test]
fn supply_is_the_sum_of_balances() {
    let mut g = setup_gov();
    g.mint(1, ADMIN, U1, 700).unwrap();
    g.mint(1, ADMIN, U2, 300).unwrap();
    g.transfer(2, U1, U3, 250).unwrap();
    g.transfer(2, U2, U2, 100).unwrap();
    g.burn(3, U3, 50).unwrap();
    assert_eq!(g.balance(U1) + g.balance(U2) + g.balance(U3), g.total_supply());
    assert_eq!(g.total_supply(), 950);
    assert_eq!((g.balance(U1), g.balance(U2), g.balance(U3)), (450, 300, 200));
}

#[test]
fn voting_power_adds_up_to_the_supply() {
    let mut g = setup_gov();
    g.mint(0, ADMIN, U1, 1000).unwrap();
    g.mint(1, ADMIN, U2, 300).unwrap();
    g.delegate(2, U1, U3).unwrap();
    g.transfer(3, U1, U2, 250).unwrap();
    g.burn(4, U2, 50).unwrap();
    g.delegate(5, U2, U3).unwrap();
    let powers = g.get_voting_power(U1) + g.get_voting_power(U2) + g.get_voting_power(U3);
    assert_eq!(g.total_supply(), 1250);
    assert_eq!(powers, 1250);
    assert_eq!((g.get_voting_power(U1), g.get_voting_power(U2), g.get_voting_power(U3)), (0, 0, 1250));
}
