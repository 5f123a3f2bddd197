use contest_ledger::challenge::{Challenge, ChallengeContract, DataKey};
use contest_ledger::host::{Address, Answers, Error, Party, Request, Step, Transfer, Violation};
use std::collections::HashMap;

const ESCROW: &str = "escrow";

/// A host for the tests: who signs, what time it is, and who owns what.
struct Host {
    signers: Vec<String>,
    now: u64,
    balances: HashMap<(String, String), i128>,
    transfers: Vec<Transfer>,
}

impl Host {
    fn new(signers: &[&str], now: u64) -> Host {
        Host {
            signers: signers.iter().map(|s| s.to_string()).collect(),
            now,
            balances: HashMap::new(),
            transfers: Vec::new(),
        }
    }

    fn fund(&mut self, account: &str, asset: &str, amount: i128) {
        self.balances.insert((account.to_string(), asset.to_string()), amount);
    }

    fn balance(&self, account: &str, asset: &str) -> i128 {
        *self.balances.get(&(account.to_string(), asset.to_string())).unwrap_or(&0)
    }

    fn name(party: &Party) -> String {
        match party {
            Party::Contract => ESCROW.to_string(),
            Party::Account(address) => address.key.clone(),
        }
    }

    fn transfer(&mut self, transfer: &Transfer) -> bool {
        let from = (Host::name(&transfer.from), transfer.asset.key.clone());
        let to = (Host::name(&transfer.to), transfer.asset.key.clone());
        let available = *self.balances.get(&from).unwrap_or(&0);
        if transfer.amount < 0 || available < transfer.amount {
            return false;
        }
        self.balances.insert(from, available - transfer.amount);
        let held = *self.balances.get(&to).unwrap_or(&0);
        self.balances.insert(to, held + transfer.amount);
        self.transfers.push(transfer.clone());
        true
    }

    fn perform(&mut self, request: &Request, answers: &mut Answers) {
        match request {
            Request::Authorize(identity) => {
                assert_eq!(answers.authorized, None);
                answers.authorized = Some(self.signers.contains(&identity.key));
            }
            Request::Clock => {
                assert_eq!(answers.now, None);
                answers.now = Some(self.now);
            }
            Request::Transfer(transfer) => {
                assert_eq!(answers.transferred, None);
                answers.transferred = Some(self.transfer(transfer));
            }
        }
    }
}

fn create(
    engine: &mut ChallengeContract,
    host: &mut Host,
    creator: &str,
    prize_pool: i128,
    end_date: u64,
    asset: &str,
) -> Result<u32, Error> {
    let mut answers = Answers::none();
    loop {
        let step = engine.create_challenge(
            &Address::new(creator),
            "Speedrun",
            "Fastest run wins",
            prize_pool,
            end_date,
            &Address::new(asset),
            answers,
        );
        match step {
            Step::Ask(request) => host.perform(&request, &mut answers),
            Step::Done(id) => return Ok(id),
            Step::Failed(error) => return Err(error),
        }
    }
}

fn join(
    engine: &mut ChallengeContract,
    host: &mut Host,
    challenge_id: u32,
    participant: &str,
) -> Result<(), Error> {
    let mut answers = Answers::none();
    loop {
        match engine.join_challenge(challenge_id, &Address::new(participant), answers) {
            Step::Ask(request) => host.perform(&request, &mut answers),
            Step::Done(()) => return Ok(()),
            Step::Failed(error) => return Err(error),
        }
    }
}

fn finish(
    engine: &mut ChallengeContract,
    host: &mut Host,
    challenge_id: u32,
    winner: &str,
    asset: &str,
) -> Result<(), Error> {
    let mut answers = Answers::none();
    loop {
        let step = engine.set_winner(
            challenge_id,
            &Address::new(winner),
            &Address::new(asset),
            answers,
        );
        match step {
            Step::Ask(request) => host.perform(&request, &mut answers),
            Step::Done(()) => return Ok(()),
            Step::Failed(error) => return Err(error),
        }
    }
}

fn roster(challenge: &Challenge) -> Vec<String> {
    challenge.participants.iter().map(|p| p.key.clone()).collect()
}

fn funded_host(now: u64) -> Host {
    let mut host = Host::new(&["alice", "bob", "carol", "dave"], now);
    host.fund("alice", "gold", 5000);
    host
}

#[test]
fn a_new_engine_has_no_challenges() {
    let engine = ChallengeContract::initialize(None);
    assert_eq!(engine.get_challenge_count(), 0);
    assert_eq!(engine.get_challenge(1), Err(Error::NotFound));
    assert_eq!(engine.get_challenge(0), Err(Error::NotFound));
}

#[test]
fn a_created_challenge_is_read_back_as_supplied() {
    let mut engine = ChallengeContract::initialize(None);
    let mut host = funded_host(10);
    let id = create(&mut engine, &mut host, "alice", 1000, 100, "gold").unwrap();
    assert_eq!(id, 1);
    let challenge = engine.get_challenge(id).unwrap();
    assert_eq!(
        challenge,
        Challenge {
            id: 1,
            creator: Address::new("alice"),
            title: "Speedrun".to_string(),
            description: "Fastest run wins".to_string(),
            prize_pool: 1000,
            end_date: 100,
            participants: vec![],
            winner: None,
            is_active: true,
        }
    );
}

#[test]
fn creation_locks_the_prize_in_escrow() {
    let mut engine = ChallengeContract::initialize(None);
    let mut host = funded_host(10);
    create(&mut engine, &mut host, "alice", 1000, 100, "gold").unwrap();
    assert_eq!(host.balance("alice", "gold"), 4000);
    assert_eq!(host.balance(ESCROW, "gold"), 1000);
    assert_eq!(
        host.transfers,
        vec![Transfer {
            from: Party::Account(Address::new("alice")),
            to: Party::Contract,
            asset: Address::new("gold"),
            amount: 1000,
        }]
    );
}

#[test]
fn ids_count_up_from_one() {
    let mut engine = ChallengeContract::initialize(None);
    let mut host = funded_host(10);
    assert_eq!(create(&mut engine, &mut host, "alice", 10, 100, "gold"), Ok(1));
    assert_eq!(create(&mut engine, &mut host, "alice", 20, 200, "gold"), Ok(2));
    assert_eq!(create(&mut engine, &mut host, "alice", 30, 300, "gold"), Ok(3));
    assert_eq!(engine.get_challenge_count(), 3);
    assert_eq!(engine.get_challenge(2).unwrap().prize_pool, 20);
    assert_eq!(engine.get_challenge(3).unwrap().id, 3);
    assert_eq!(engine.get_challenge(4), Err(Error::NotFound));
}

#[test]
fn the_count_is_the_number_of_creations_that_succeeded() {
    let mut engine = ChallengeContract::initialize(None);
    let mut host = funded_host(10);
    assert_eq!(create(&mut engine, &mut host, "alice", 3000, 100, "gold"), Ok(1));
    assert_eq!(engine.get_challenge_count(), 1);
    // alice has 2000 left: the transfer fails and nothing is counted
    assert_eq!(
        create(&mut engine, &mut host, "alice", 2001, 100, "gold"),
        Err(Error::TransferFailure)
    );
    assert_eq!(engine.get_challenge_count(), 1);
    assert_eq!(engine.get_challenge(2), Err(Error::NotFound));
    assert_eq!(host.balance("alice", "gold"), 2000);
    assert_eq!(create(&mut engine, &mut host, "alice", 2000, 100, "gold"), Ok(2));
    assert_eq!(engine.get_challenge_count(), 2);
    // joining and finalizing do not count
    join(&mut engine, &mut host, 1, "bob").unwrap();
    host.now = 101;
    finish(&mut engine, &mut host, 1, "bob", "gold").unwrap();
    assert_eq!(engine.get_challenge_count(), 2);
}

#[test]
fn creation_without_authorization_fails_before_any_transfer() {
    let mut engine = ChallengeContract::initialize(None);
    let mut host = Host::new(&["bob"], 10);
    host.fund("alice", "gold", 5000);
    assert_eq!(
        create(&mut engine, &mut host, "alice", 1000, 100, "gold"),
        Err(Error::AuthFailure)
    );
    assert_eq!(engine.get_challenge_count(), 0);
    assert!(host.transfers.is_empty());
    assert_eq!(host.balance("alice", "gold"), 5000);
}

#[test]
fn creation_asks_for_authorization_then_for_the_deposit() {
    let mut engine = ChallengeContract::initialize(None);
    let alice = Address::new("alice");
    let gold = Address::new("gold");
    let mut answers = Answers::none();
    assert_eq!(
        engine.create_challenge(&alice, "t", "d", 7, 9, &gold, answers),
        Step::Ask(Request::Authorize(Address::new("alice")))
    );
    answers.authorized = Some(true);
    assert_eq!(
        engine.create_challenge(&alice, "t", "d", 7, 9, &gold, answers),
        Step::Ask(Request::Transfer(Transfer {
            from: Party::Account(Address::new("alice")),
            to: Party::Contract,
            asset: Address::new("gold"),
            amount: 7,
        }))
    );
    assert_eq!(engine.get_challenge_count(), 0);
    answers.transferred = Some(true);
    assert_eq!(engine.create_challenge(&alice, "t", "d", 7, 9, &gold, answers), Step::Done(1));
    assert_eq!(engine.get_challenge_count(), 1);
}

#[test]
fn participants_are_appended_in_order() {
    let mut engine = ChallengeContract::initialize(None);
    let mut host = funded_host(10);
    let id = create(&mut engine, &mut host, "alice", 1000, 100, "gold").unwrap();
    join(&mut engine, &mut host, id, "bob").unwrap();
    join(&mut engine, &mut host, id, "carol").unwrap();
    join(&mut engine, &mut host, id, "dave").unwrap();
    assert_eq!(roster(&engine.get_challenge(id).unwrap()), vec!["bob", "carol", "dave"]);
}

#[test]
fn the_same_participant_may_join_twice() {
    let mut engine = ChallengeContract::initialize(None);
    let mut host = funded_host(10);
    let id = create(&mut engine, &mut host, "alice", 1000, 100, "gold").unwrap();
    join(&mut engine, &mut host, id, "bob").unwrap();
    join(&mut engine, &mut host, id, "carol").unwrap();
    join(&mut engine, &mut host, id, "bob").unwrap();
    assert_eq!(roster(&engine.get_challenge(id).unwrap()), vec!["bob", "carol", "bob"]);
}

#[test]
fn joining_changes_no_other_challenge() {
    let mut engine = ChallengeContract::initialize(None);
    let mut host = funded_host(10);
    create(&mut engine, &mut host, "alice", 10, 100, "gold").unwrap();
    create(&mut engine, &mut host, "alice", 20, 100, "gold").unwrap();
    let first = engine.get_challenge(1).unwrap();
    join(&mut engine, &mut host, 2, "bob").unwrap();
    assert_eq!(engine.get_challenge(1).unwrap(), first);
    assert_eq!(roster(&engine.get_challenge(2).unwrap()), vec!["bob"]);
}

#[test]
fn joining_a_missing_challenge_is_not_found() {
    let mut engine = ChallengeContract::initialize(None);
    let mut host = funded_host(10);
    assert_eq!(join(&mut engine, &mut host, 1, "bob"), Err(Error::NotFound));
    create(&mut engine, &mut host, "alice", 1000, 100, "gold").unwrap();
    assert_eq!(join(&mut engine, &mut host, 0, "bob"), Err(Error::NotFound));
    assert_eq!(join(&mut engine, &mut host, 2, "bob"), Err(Error::NotFound));
}

#[test]
fn joining_is_open_until_the_end_date_inclusive() {
    let mut engine = ChallengeContract::initialize(None);
    let mut host = funded_host(10);
    let id = create(&mut engine, &mut host, "alice", 1000, 100, "gold").unwrap();
    host.now = 100;
    assert_eq!(join(&mut engine, &mut host, id, "bob"), Ok(()));
    host.now = 101;
    assert_eq!(
        join(&mut engine, &mut host, id, "carol"),
        Err(Error::InvalidState(Violation::Ended))
    );
    assert_eq!(roster(&engine.get_challenge(id).unwrap()), vec!["bob"]);
}

#[test]
fn joining_without_authorization_fails() {
    let mut engine = ChallengeContract::initialize(None);
    let mut host = funded_host(10);
    let id = create(&mut engine, &mut host, "alice", 1000, 100, "gold").unwrap();
    assert_eq!(join(&mut engine, &mut host, id, "mallory"), Err(Error::AuthFailure));
    assert!(engine.get_challenge(id).unwrap().participants.is_empty());
}

#[test]
fn joining_a_finalized_challenge_is_refused() {
    let mut engine = ChallengeContract::initialize(None);
    let mut host = funded_host(10);
    let id = create(&mut engine, &mut host, "alice", 1000, u64::MAX - 1, "gold").unwrap();
    join(&mut engine, &mut host, id, "bob").unwrap();
    host.now = u64::MAX;
    finish(&mut engine, &mut host, id, "bob", "gold").unwrap();
    let closed = engine.get_challenge(id).unwrap();
    // even at a time before the end date
    host.now = 5;
    assert_eq!(
        join(&mut engine, &mut host, id, "carol"),
        Err(Error::InvalidState(Violation::NotActive))
    );
    assert_eq!(engine.get_challenge(id).unwrap(), closed);
}

#[test]
fn joining_asks_for_the_clock_only_for_an_active_challenge() {
    let mut engine = ChallengeContract::initialize(None);
    let mut host = funded_host(10);
    let id = create(&mut engine, &mut host, "alice", 1000, 100, "gold").unwrap();
    let bob = Address::new("bob");
    let mut answers = Answers::none();
    assert_eq!(
        engine.join_challenge(id, &bob, answers),
        Step::Ask(Request::Authorize(Address::new("bob")))
    );
    answers.authorized = Some(true);
    assert_eq!(engine.join_challenge(id, &bob, answers), Step::Ask(Request::Clock));
    assert_eq!(engine.join_challenge(9, &bob, answers), Step::Failed(Error::NotFound));
    answers.now = Some(100);
    assert_eq!(engine.join_challenge(id, &bob, answers), Step::Done(()));
}

#[test]
fn two_join_then_the_winner_is_paid_after_the_end() {
    let mut engine = ChallengeContract::initialize(None);
    let mut host = funded_host(10);
    let id = create(&mut engine, &mut host, "alice", 1000, 100, "gold").unwrap();
    host.now = 50;
    join(&mut engine, &mut host, id, "bob").unwrap();
    join(&mut engine, &mut host, id, "carol").unwrap();
    assert_eq!(
        finish(&mut engine, &mut host, id, "bob", "gold"),
        Err(Error::InvalidState(Violation::NotEnded))
    );
    assert!(engine.get_challenge(id).unwrap().is_active);
    assert_eq!(host.balance(ESCROW, "gold"), 1000);
    assert_eq!(host.balance("bob", "gold"), 0);

    host.now = 101;
    assert_eq!(finish(&mut engine, &mut host, id, "bob", "gold"), Ok(()));
    assert_eq!(host.balance(ESCROW, "gold"), 0);
    assert_eq!(host.balance("bob", "gold"), 1000);
    let challenge = engine.get_challenge(id).unwrap();
    assert!(!challenge.is_active);
    assert_eq!(challenge.winner, Some(Address::new("bob")));
    assert_eq!(roster(&challenge), vec!["bob", "carol"]);
    assert_eq!(challenge.prize_pool, 1000);
}

#[test]
fn the_winner_cannot_be_set_at_the_end_date_itself() {
    let mut engine = ChallengeContract::initialize(None);
    let mut host = funded_host(10);
    let id = create(&mut engine, &mut host, "alice", 1000, 100, "gold").unwrap();
    host.now = 100;
    assert_eq!(
        finish(&mut engine, &mut host, id, "bob", "gold"),
        Err(Error::InvalidState(Violation::NotEnded))
    );
    host.now = 101;
    assert_eq!(finish(&mut engine, &mut host, id, "bob", "gold"), Ok(()));
}

#[test]
fn only_the_creator_can_set_the_winner() {
    let mut engine = ChallengeContract::initialize(None);
    let mut host = funded_host(10);
    let id = create(&mut engine, &mut host, "alice", 1000, 100, "gold").unwrap();
    host.now = 101;
    // the winner signs, the creator does not
    host.signers = vec!["bob".to_string()];
    assert_eq!(finish(&mut engine, &mut host, id, "bob", "gold"), Err(Error::AuthFailure));
    assert!(engine.get_challenge(id).unwrap().is_active);
    assert_eq!(host.balance(ESCROW, "gold"), 1000);
    // the creator signs, the winner does not
    host.signers = vec!["alice".to_string()];
    assert_eq!(finish(&mut engine, &mut host, id, "bob", "gold"), Ok(()));
}

#[test]
fn setting_the_winner_asks_the_creator_and_pays_from_escrow() {
    let mut engine = ChallengeContract::initialize(None);
    let mut host = funded_host(10);
    let id = create(&mut engine, &mut host, "alice", 1000, 100, "gold").unwrap();
    let bob = Address::new("bob");
    let gold = Address::new("gold");
    let mut answers = Answers::none();
    assert_eq!(
        engine.set_winner(id, &bob, &gold, answers),
        Step::Ask(Request::Authorize(Address::new("alice")))
    );
    answers.authorized = Some(true);
    assert_eq!(engine.set_winner(id, &bob, &gold, answers), Step::Ask(Request::Clock));
    answers.now = Some(101);
    assert_eq!(
        engine.set_winner(id, &bob, &gold, answers),
        Step::Ask(Request::Transfer(Transfer {
            from: Party::Contract,
            to: Party::Account(Address::new("bob")),
            asset: Address::new("gold"),
            amount: 1000,
        }))
    );
    assert!(engine.get_challenge(id).unwrap().is_active);
    answers.transferred = Some(true);
    assert_eq!(engine.set_winner(id, &bob, &gold, answers), Step::Done(()));
    assert!(!engine.get_challenge(id).unwrap().is_active);
}

#[test]
fn setting_the_winner_of_a_missing_challenge_is_not_found() {
    let mut engine = ChallengeContract::initialize(None);
    let mut host = funded_host(500);
    assert_eq!(finish(&mut engine, &mut host, 1, "bob", "gold"), Err(Error::NotFound));
    create(&mut engine, &mut host, "alice", 1000, 100, "gold").unwrap();
    assert_eq!(finish(&mut engine, &mut host, 2, "bob", "gold"), Err(Error::NotFound));
    assert_eq!(finish(&mut engine, &mut host, 0, "bob", "gold"), Err(Error::NotFound));
}

#[test]
fn a_failed_payout_leaves_the_challenge_open() {
    let mut engine = ChallengeContract::initialize(None);
    let mut host = funded_host(10);
    let id = create(&mut engine, &mut host, "alice", 1000, 100, "gold").unwrap();
    host.now = 101;
    // escrow holds no silver
    assert_eq!(
        finish(&mut engine, &mut host, id, "bob", "silver"),
        Err(Error::TransferFailure)
    );
    let challenge = engine.get_challenge(id).unwrap();
    assert!(challenge.is_active);
    assert_eq!(challenge.winner, None);
    assert_eq!(finish(&mut engine, &mut host, id, "bob", "gold"), Ok(()));
}

#[test]
fn the_winner_is_set_only_once() {
    let mut engine = ChallengeContract::initialize(None);
    let mut host = funded_host(10);
    let id = create(&mut engine, &mut host, "alice", 1000, 100, "gold").unwrap();
    create(&mut engine, &mut host, "alice", 1000, 100, "gold").unwrap();
    host.now = 101;
    finish(&mut engine, &mut host, id, "bob", "gold").unwrap();
    // escrow still holds the prize of the second challenge
    assert_eq!(host.balance(ESCROW, "gold"), 1000);
    assert_eq!(
        finish(&mut engine, &mut host, id, "carol", "gold"),
        Err(Error::InvalidState(Violation::NotActive))
    );
    assert_eq!(host.balance(ESCROW, "gold"), 1000);
    assert_eq!(host.balance("carol", "gold"), 0);
    assert_eq!(engine.get_challenge(id).unwrap().winner, Some(Address::new("bob")));
}

#[test]
fn the_engine_tells_which_entries_it_keeps() {
    let mut engine = ChallengeContract::initialize(None);
    let mut host = funded_host(10);
    assert!(engine.has(&DataKey::ChallengeCount));
    assert!(!engine.has(&DataKey::Challenge(1)));
    create(&mut engine, &mut host, "alice", 1000, 100, "gold").unwrap();
    assert!(engine.has(&DataKey::Challenge(1)));
    assert!(!engine.has(&DataKey::Challenge(0)));
    assert!(!engine.has(&DataKey::Challenge(2)));
}

#[test]
fn an_engine_is_rebuilt_from_its_records() {
    let mut engine = ChallengeContract::initialize(None);
    let mut host = funded_host(10);
    create(&mut engine, &mut host, "alice", 10, 100, "gold").unwrap();
    create(&mut engine, &mut host, "alice", 20, 200, "gold").unwrap();
    join(&mut engine, &mut host, 2, "bob").unwrap();
    host.now = 101;
    finish(&mut engine, &mut host, 1, "carol", "gold").unwrap();
    let records = vec![engine.get_challenge(1).unwrap(), engine.get_challenge(2).unwrap()];
    let mut rebuilt = ChallengeContract::restore(records).unwrap();
    assert_eq!(rebuilt.get_challenge_count(), 2);
    assert_eq!(rebuilt.get_challenge(1), engine.get_challenge(1));
    assert_eq!(rebuilt.get_challenge(2), engine.get_challenge(2));
    assert_eq!(create(&mut rebuilt, &mut host, "alice", 30, 300, "gold"), Ok(3));
}

fn record(id: u32, winner: Option<&str>, is_active: bool) -> Challenge {
    Challenge {
        id,
        creator: Address::new("alice"),
        title: String::new(),
        description: String::new(),
        prize_pool: 1,
        end_date: 1,
        participants: vec![],
        winner: winner.map(Address::new),
        is_active,
    }
}

#[test]
fn records_that_no_engine_held_are_refused() {
    assert!(ChallengeContract::restore(vec![]).is_some());
    assert!(ChallengeContract::restore(vec![record(1, None, true)]).is_some());
    assert!(ChallengeContract::restore(vec![record(1, Some("bob"), false)]).is_some());
    // ids with a gap, out of order, or starting at 0
    assert!(ChallengeContract::restore(vec![record(2, None, true)]).is_none());
    assert!(ChallengeContract::restore(vec![record(0, None, true)]).is_none());
    assert!(
        ChallengeContract::restore(vec![record(1, None, true), record(3, None, true)]).is_none()
    );
    assert!(
        ChallengeContract::restore(vec![record(2, None, true), record(1, None, true)]).is_none()
    );
    // active with a winner, or finalized without one
    assert!(ChallengeContract::restore(vec![record(1, Some("bob"), true)]).is_none());
    assert!(ChallengeContract::restore(vec![record(1, None, false)]).is_none());
}

#[test]
fn initializing_again_keeps_count_and_records() {
    let mut engine = ChallengeContract::initialize(None);
    let mut host = funded_host(10);
    create(&mut engine, &mut host, "alice", 10, 100, "gold").unwrap();
    create(&mut engine, &mut host, "alice", 20, 200, "gold").unwrap();
    join(&mut engine, &mut host, 2, "bob").unwrap();
    let first = engine.get_challenge(1).unwrap();
    let second = engine.get_challenge(2).unwrap();

    let mut engine = ChallengeContract::initialize(Some(engine));
    assert_eq!(engine.get_challenge_count(), 2);
    assert_eq!(engine.get_challenge(1), Ok(first));
    assert_eq!(engine.get_challenge(2), Ok(second));
    // no id is handed out twice
    assert_eq!(create(&mut engine, &mut host, "alice", 30, 300, "gold"), Ok(3));
    assert_eq!(engine.get_challenge(1).unwrap().prize_pool, 10);
}

#[test]
fn initializing_an_empty_engine_again_leaves_it_empty() {
    let engine = ChallengeContract::initialize(Some(ChallengeContract::initialize(None)));
    assert_eq!(engine.get_challenge_count(), 0);
    assert_eq!(engine.get_challenge(1), Err(Error::NotFound));
}

#[test]
fn a_challenge_is_read_under_the_id_that_was_asked_for() {
    let mut engine = ChallengeContract::initialize(None);
    let mut host = funded_host(10);
    for _ in 0..4 {
        create(&mut engine, &mut host, "alice", 1, 100, "gold").unwrap();
    }
    for id in 1..=4 {
        assert_eq!(engine.get_challenge(id).unwrap().id, id);
    }
}

#[test]
fn a_refused_creation_leaves_a_restored_engine_as_it_was() {
    let mut engine =
        ChallengeContract::restore(vec![record(1, None, true), record(2, Some("bob"), false)])
            .unwrap();
    let mut host = Host::new(&["alice"], 10);
    // alice owns nothing: the deposit is refused
    assert_eq!(
        create(&mut engine, &mut host, "alice", 1, 100, "gold"),
        Err(Error::TransferFailure)
    );
    // mallory does not sign
    assert_eq!(
        create(&mut engine, &mut host, "mallory", 1, 100, "gold"),
        Err(Error::AuthFailure)
    );
    assert_eq!(engine.get_challenge_count(), 2);
    assert_eq!(engine.get_challenge(3), Err(Error::NotFound));
    assert!(host.transfers.is_empty());
}
