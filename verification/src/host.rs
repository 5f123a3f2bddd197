//! The boundary between the services and the host that runs them.
//!
//! The host owns authorization, the ledger clock and the movement of assets.
//! An entry point never performs any of these. It is called with the
//! [`Answers`] gathered so far; while one is missing it returns
//! [`Step::Ask`] with the [`Request`] to perform, and the driver calls it
//! again with the answer filled in.

use vstd::prelude::*;
use vstd::std_specs::cmp::PartialEqSpecImpl;

verus! {

/// An account identity: the textual key under which the host knows an account.
#[derive(Debug)]
pub struct Address {
    pub key: String,
}

impl View for Address {
    type V = Seq<char>;

    open spec fn view(&self) -> Seq<char> {
        self.key@
    }
}

impl Clone for Address {
    fn clone(&self) -> (copy: Self)
        ensures
            copy@ == self@,
    {
        Address { key: self.key.clone() }
    }
}

impl PartialEq for Address {
    fn eq(&self, other: &Address) -> (equal: bool) {
        self.key == other.key
    }
}

impl Eq for Address {}

impl PartialEqSpecImpl for Address {
    open spec fn obeys_eq_spec() -> bool {
        true
    }

    open spec fn eq_spec(&self, other: &Address) -> bool {
        self@ == other@
    }
}

impl Address {
    /// The identity with the given key.
    pub fn new(key: &str) -> (address: Self)
        ensures
            address@ == key@,
    {
        Address { key: key.to_owned() }
    }
}

/// The keys of a sequence of identities, in the same order.
pub open spec fn keys(addresses: Seq<Address>) -> Seq<Seq<char>> {
    addresses.map_values(|address: Address| address@)
}

/// The key of an identity that may be absent.
pub open spec fn key_of(address: Option<Address>) -> Option<Seq<char>> {
    match address {
        Some(address) => Some(address@),
        None => None,
    }
}

/// A copy of a list of identities.
pub fn clone_addresses(addresses: &Vec<Address>) -> (copy: Vec<Address>)
    ensures
        keys(copy@) == keys(addresses@),
{
    let mut copy: Vec<Address> = Vec::new();
    let mut i: usize = 0;
    while i < addresses.len()
        invariant
            i <= addresses.len(),
            copy.len() == i,
            forall|j: int| 0 <= j < i ==> copy[j]@ == addresses[j]@,
        decreases addresses.len() - i,
    {
        copy.push(addresses[i].clone());
        i = i + 1;
    }
    assert(keys(copy@) =~= keys(addresses@));
    copy
}

/// Why an entry point refused.
#[derive(Clone, Copy, Debug, PartialEq, Eq)]
pub enum Error {
    /// The host did not confirm that the acting identity authorized the call.
    AuthFailure,
    /// No challenge has the given id.
    NotFound,
    /// The challenge is in the wrong state for the call.
    InvalidState(Violation),
    /// The host could not move the asset.
    TransferFailure,
}

/// Which state rule a call broke.
#[derive(Clone, Copy, Debug, PartialEq, Eq)]
pub enum Violation {
    /// The challenge has been finalized.
    NotActive,
    /// The clock is past the end date, so nobody can join any more.
    Ended,
    /// The clock has not passed the end date, so no winner can be set yet.
    NotEnded,
}

/// One side of a transfer.
#[derive(Debug, PartialEq, Eq)]
pub enum Party {
    /// The account of the service itself, where escrowed funds are held.
    Contract,
    /// An account outside the service.
    Account(Address),
}

/// The model of a [`Party`].
pub enum PartyView {
    Contract,
    Account(Seq<char>),
}

impl View for Party {
    type V = PartyView;

    open spec fn view(&self) -> PartyView {
        match self {
            Party::Contract => PartyView::Contract,
            Party::Account(address) => PartyView::Account(address@),
        }
    }
}

impl Clone for Party {
    fn clone(&self) -> (copy: Self)
        ensures
            copy@ == self@,
    {
        match self {
            Party::Contract => Party::Contract,
            Party::Account(address) => Party::Account(address.clone()),
        }
    }
}

/// A movement of `amount` units of `asset` from one party to another.
///
/// The host performs it as a whole or not at all.
#[derive(Debug, PartialEq, Eq)]
pub struct Transfer {
    pub from: Party,
    pub to: Party,
    pub asset: Address,
    pub amount: i128,
}

/// The model of a [`Transfer`].
pub struct TransferView {
    pub from: PartyView,
    pub to: PartyView,
    pub asset: Seq<char>,
    pub amount: i128,
}

impl View for Transfer {
    type V = TransferView;

    open spec fn view(&self) -> TransferView {
        TransferView {
            from: self.from@,
            to: self.to@,
            asset: self.asset@,
            amount: self.amount,
        }
    }
}

impl Clone for Transfer {
    fn clone(&self) -> (copy: Self)
        ensures
            copy@ == self@,
    {
        Transfer {
            from: self.from.clone(),
            to: self.to.clone(),
            asset: self.asset.clone(),
            amount: self.amount,
        }
    }
}

/// What an entry point needs from the host before it can go on.
#[derive(Debug, PartialEq, Eq)]
pub enum Request {
    /// Confirm that this identity authorized the current call.
    Authorize(Address),
    /// Read the ledger clock.
    Clock,
    /// Move an asset.
    Transfer(Transfer),
}

/// The model of a [`Request`].
pub enum RequestView {
    Authorize(Seq<char>),
    Clock,
    Transfer(TransferView),
}

impl View for Request {
    type V = RequestView;

    open spec fn view(&self) -> RequestView {
        match self {
            Request::Authorize(identity) => RequestView::Authorize(identity@),
            Request::Clock => RequestView::Clock,
            Request::Transfer(transfer) => RequestView::Transfer(transfer@),
        }
    }
}

impl Clone for Request {
    fn clone(&self) -> (copy: Self)
        ensures
            copy@ == self@,
    {
        match self {
            Request::Authorize(identity) => Request::Authorize(identity.clone()),
            Request::Clock => Request::Clock,
            Request::Transfer(transfer) => Request::Transfer(transfer.clone()),
        }
    }
}

/// What the host has answered so far during one call of an entry point.
///
/// Every field starts as `None`. The driver fills in `authorized` after an
/// [`Request::Authorize`], `now` after a [`Request::Clock`] and `transferred`
/// after a [`Request::Transfer`], and nothing else.
#[derive(Clone, Copy, Debug, PartialEq, Eq)]
pub struct Answers {
    /// Whether the identity that was asked about authorized the call.
    pub authorized: Option<bool>,
    /// The ledger time.
    pub now: Option<u64>,
    /// Whether the requested transfer went through.
    pub transferred: Option<bool>,
}

impl Answers {
    /// No answer yet: the state in which every call starts.
    pub fn none() -> (answers: Self)
        ensures
            answers == (Answers { authorized: None, now: None, transferred: None }),
    {
        Answers { authorized: None, now: None, transferred: None }
    }
}

/// Whether `request` asks for an answer that `host` does not hold yet.
///
/// Every request of every entry point does, so a driver that fills in what
/// it is asked for is asked at most three times per call, and never twice
/// for a transfer.
pub open spec fn missing(host: Answers, request: RequestView) -> bool {
    match request {
        RequestView::Authorize(_) => host.authorized is None,
        RequestView::Clock => host.now is None,
        RequestView::Transfer(_) => host.transferred is None,
    }
}

/// How far an entry point got with the answers it was given.
#[derive(Debug, PartialEq, Eq)]
pub enum Step<T> {
    /// The host has to perform this request and call again with its answer.
    /// Nothing has changed.
    Ask(Request),
    /// The call is complete and its effects are in place.
    Done(T),
    /// The call was refused. Nothing has changed.
    Failed(Error),
}

/// The model of a [`Step`].
pub enum StepView<T> {
    Ask(RequestView),
    Done(T),
    Failed(Error),
}

impl<T> View for Step<T> {
    type V = StepView<T>;

    open spec fn view(&self) -> StepView<T> {
        match self {
            Step::Ask(request) => StepView::Ask(request@),
            Step::Done(value) => StepView::Done(*value),
            Step::Failed(error) => StepView::Failed(*error),
        }
    }
}

} // verus!
