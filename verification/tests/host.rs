use contest_ledger::host::{Address, Answers, Party, Request, Step, Transfer};

#[test]
fn identities_are_equal_when_their_keys_are() {
    assert_eq!(Address::new("alice"), Address::new("alice"));
    assert_ne!(Address::new("alice"), Address::new("Alice"));
    assert_ne!(Address::new("alice"), Address::new(""));
    assert_eq!(Address::new("alice").key, "alice");
}

#[test]
fn a_copy_of_an_identity_is_equal_to_it() {
    let alice = Address::new("alice");
    assert_eq!(alice.clone(), alice);
}

#[test]
fn a_call_starts_without_answers() {
    let answers = Answers::none();
    assert_eq!(answers.authorized, None);
    assert_eq!(answers.now, None);
    assert_eq!(answers.transferred, None);
}

#[test]
fn a_copy_of_a_request_is_equal_to_it() {
    let transfer = Transfer {
        from: Party::Contract,
        to: Party::Account(Address::new("bob")),
        asset: Address::new("gold"),
        amount: -3,
    };
    assert_eq!(transfer.clone(), transfer);
    let requests = vec![
        Request::Authorize(Address::new("alice")),
        Request::Clock,
        Request::Transfer(transfer),
    ];
    for request in &requests {
        assert_eq!(&request.clone(), request);
    }
    assert_ne!(requests[0], requests[1]);
}

#[test]
fn steps_compare_by_what_they_hold() {
    assert_eq!(Step::Done(3u32), Step::Done(3u32));
    assert_ne!(Step::Done(3u32), Step::Done(4u32));
    assert_ne!(Step::<u32>::Ask(Request::Clock), Step::Done(0));
}
