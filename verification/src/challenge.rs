//! The contest engine: challenges with an escrowed prize, a roster of
//! participants and a single payout to the winner.
//!
//! A challenge is *active* from its creation until a winner is set, and
//! *finalized* ever after. The prize is taken from the creator into the
//! engine's own account when the challenge is created and paid out from there
//! when the winner is set.

use crate::host::{
    clone_addresses, key_of, keys, missing, Address, Answers, Error, Party, PartyView, Request,
    RequestView, Step, StepView, Transfer, TransferView, Violation,
};
use vstd::prelude::*;

verus! {

/// A contest record.
#[derive(Debug, PartialEq, Eq)]
pub struct Challenge {
    /// Assigned by the engine: 1 for the first challenge, 2 for the next.
    pub id: u32,
    /// Who created the challenge and alone may set its winner.
    pub creator: Address,
    pub title: String,
    pub description: String,
    /// The amount held in escrow for the winner.
    pub prize_pool: i128,
    /// The last moment at which a participant may join.
    pub end_date: u64,
    /// Who joined, in the order of joining. An identity may occur twice.
    pub participants: Vec<Address>,
    /// Unset until the challenge is finalized.
    pub winner: Option<Address>,
    /// True from creation until the winner is set.
    pub is_active: bool,
}

/// The model of a [`Challenge`].
pub struct ChallengeView {
    pub id: u32,
    pub creator: Seq<char>,
    pub title: Seq<char>,
    pub description: Seq<char>,
    pub prize_pool: i128,
    pub end_date: u64,
    pub participants: Seq<Seq<char>>,
    pub winner: Option<Seq<char>>,
    pub is_active: bool,
}

impl View for Challenge {
    type V = ChallengeView;

    open spec fn view(&self) -> ChallengeView {
        ChallengeView {
            id: self.id,
            creator: self.creator@,
            title: self.title@,
            description: self.description@,
            prize_pool: self.prize_pool,
            end_date: self.end_date,
            participants: keys(self.participants@),
            winner: key_of(self.winner),
            is_active: self.is_active,
        }
    }
}

impl Clone for Challenge {
    fn clone(&self) -> (copy: Self)
        ensures
            copy@ == self@,
    {
        let winner = match &self.winner {
            Some(winner) => Some(winner.clone()),
            None => None,
        };
        Challenge {
            id: self.id,
            creator: self.creator.clone(),
            title: self.title.clone(),
            description: self.description.clone(),
            prize_pool: self.prize_pool,
            end_date: self.end_date,
            participants: clone_addresses(&self.participants),
            winner,
            is_active: self.is_active,
        }
    }
}

/// The models of a sequence of records, in the same order.
pub open spec fn views(records: Seq<Challenge>) -> Seq<ChallengeView> {
    records.map_values(|record: Challenge| record@)
}

/// Whether the record at position `i` has the id of its position and is
/// active exactly as long as it has no winner.
pub open spec fn valid_at(records: Seq<ChallengeView>, i: int) -> bool {
    &&& records[i].id == i + 1
    &&& records[i].is_active <==> records[i].winner is None
}

/// Whether `records` can be the records of an engine: their ids count up
/// from 1 without a gap, and each is either active without a winner or
/// finalized with one.
pub open spec fn valid(records: Seq<ChallengeView>) -> bool {
    &&& records.len() <= u32::MAX
    &&& forall|i: int| 0 <= i < records.len() ==> #[trigger] valid_at(records, i)
}

/// The record with the given id, if there is one.
pub open spec fn lookup(records: Seq<ChallengeView>, id: u32) -> Option<ChallengeView> {
    if 1 <= id <= records.len() {
        Some(records[id - 1])
    } else {
        None
    }
}

/// A challenge as it is right after its creation.
pub open spec fn opened(
    id: u32,
    creator: Seq<char>,
    title: Seq<char>,
    description: Seq<char>,
    prize_pool: i128,
    end_date: u64,
) -> ChallengeView {
    ChallengeView {
        id,
        creator,
        title,
        description,
        prize_pool,
        end_date,
        participants: Seq::empty(),
        winner: None,
        is_active: true,
    }
}

/// `record` with one more participant at the end of its roster.
pub open spec fn joined(record: ChallengeView, participant: Seq<char>) -> ChallengeView {
    ChallengeView { participants: record.participants.push(participant), ..record }
}

/// `record` finalized with the given winner.
pub open spec fn finalized(record: ChallengeView, winner: Seq<char>) -> ChallengeView {
    ChallengeView { winner: Some(winner), is_active: false, ..record }
}

/// The transfer that locks the prize: from the creator into escrow.
pub open spec fn deposit(creator: Seq<char>, asset: Seq<char>, amount: i128) -> TransferView {
    TransferView { from: PartyView::Account(creator), to: PartyView::Contract, asset, amount }
}

/// The transfer that pays the prize: out of escrow to the winner.
pub open spec fn payout(winner: Seq<char>, asset: Seq<char>, amount: i128) -> TransferView {
    TransferView { from: PartyView::Contract, to: PartyView::Account(winner), asset, amount }
}

/// How far a creation gets: the creator has to authorize it, then the prize
/// has to reach escrow; then the challenge gets the next id.
pub open spec fn create_challenge_step(
    records: Seq<ChallengeView>,
    creator: Seq<char>,
    prize_pool: i128,
    asset: Seq<char>,
    host: Answers,
) -> StepView<u32> {
    match host.authorized {
        None => StepView::Ask(RequestView::Authorize(creator)),
        Some(false) => StepView::Failed(Error::AuthFailure),
        Some(true) => match host.transferred {
            None => StepView::Ask(RequestView::Transfer(deposit(creator, asset, prize_pool))),
            Some(false) => StepView::Failed(Error::TransferFailure),
            Some(true) => StepView::Done((records.len() + 1) as u32),
        },
    }
}

/// The records after a call of `create_challenge`: one more when it is done,
/// the same otherwise.
pub open spec fn create_challenge_records(
    records: Seq<ChallengeView>,
    creator: Seq<char>,
    title: Seq<char>,
    description: Seq<char>,
    prize_pool: i128,
    end_date: u64,
    asset: Seq<char>,
    host: Answers,
) -> Seq<ChallengeView> {
    match create_challenge_step(records, creator, prize_pool, asset, host) {
        StepView::Done(id) => records.push(
            opened(id, creator, title, description, prize_pool, end_date),
        ),
        _ => records,
    }
}

/// How far a participant gets with joining: the participant has to authorize
/// the call, the challenge has to exist and be active, and the clock must not
/// be past its end date.
pub open spec fn join_challenge_step(
    records: Seq<ChallengeView>,
    challenge_id: u32,
    participant: Seq<char>,
    host: Answers,
) -> StepView<()> {
    match host.authorized {
        None => StepView::Ask(RequestView::Authorize(participant)),
        Some(false) => StepView::Failed(Error::AuthFailure),
        Some(true) => match lookup(records, challenge_id) {
            None => StepView::Failed(Error::NotFound),
            Some(record) => if !record.is_active {
                StepView::Failed(Error::InvalidState(Violation::NotActive))
            } else {
                match host.now {
                    None => StepView::Ask(RequestView::Clock),
                    Some(now) => if now > record.end_date {
                        StepView::Failed(Error::InvalidState(Violation::Ended))
                    } else {
                        StepView::Done(())
                    },
                }
            },
        },
    }
}

/// The records after a call of `join_challenge`: the roster of the challenge
/// is one longer when the call is done, and nothing has changed otherwise.
pub open spec fn join_challenge_records(
    records: Seq<ChallengeView>,
    challenge_id: u32,
    participant: Seq<char>,
    host: Answers,
) -> Seq<ChallengeView> {
    match join_challenge_step(records, challenge_id, participant, host) {
        StepView::Done(_) => records.update(
            challenge_id - 1,
            joined(records[challenge_id - 1], participant),
        ),
        _ => records,
    }
}

/// How far the finalization of a challenge gets: the challenge has to exist,
/// its creator has to authorize the call, it must not be finalized already,
/// the clock has to be past its end date, and the prize has to reach the
/// winner.
pub open spec fn set_winner_step(
    records: Seq<ChallengeView>,
    challenge_id: u32,
    winner: Seq<char>,
    asset: Seq<char>,
    host: Answers,
) -> StepView<()> {
    match lookup(records, challenge_id) {
        None => StepView::Failed(Error::NotFound),
        Some(record) => match host.authorized {
            None => StepView::Ask(RequestView::Authorize(record.creator)),
            Some(false) => StepView::Failed(Error::AuthFailure),
            Some(true) => if !record.is_active {
                StepView::Failed(Error::InvalidState(Violation::NotActive))
            } else {
                match host.now {
                    None => StepView::Ask(RequestView::Clock),
                    Some(now) => if now <= record.end_date {
                        StepView::Failed(Error::InvalidState(Violation::NotEnded))
                    } else {
                        match host.transferred {
                            None => StepView::Ask(
                                RequestView::Transfer(payout(winner, asset, record.prize_pool)),
                            ),
                            Some(false) => StepView::Failed(Error::TransferFailure),
                            Some(true) => StepView::Done(()),
                        }
                    },
                }
            },
        },
    }
}

/// The records after a call of `set_winner`: the challenge is finalized when
/// the call is done, and nothing has changed otherwise.
pub open spec fn set_winner_records(
    records: Seq<ChallengeView>,
    challenge_id: u32,
    winner: Seq<char>,
    asset: Seq<char>,
    host: Answers,
) -> Seq<ChallengeView> {
    match set_winner_step(records, challenge_id, winner, asset, host) {
        StepView::Done(_) => records.update(
            challenge_id - 1,
            finalized(records[challenge_id - 1], winner),
        ),
        _ => records,
    }
}

/// The typed key of an entry that the engine keeps.
#[derive(Clone, Copy, Debug, PartialEq, Eq)]
pub enum DataKey {
    /// The record of the challenge with this id.
    Challenge(u32),
    /// The number of challenges created so far.
    ChallengeCount,
}

/// Whether an engine with these records keeps an entry under `key`.
pub open spec fn stored(records: Seq<ChallengeView>, key: DataKey) -> bool {
    match key {
        DataKey::Challenge(id) => lookup(records, id) is Some,
        DataKey::ChallengeCount => true,
    }
}

/// The contest engine: the counter of challenges and their records.
pub struct ChallengeContract {
    count: u32,
    challenges: Vec<Challenge>,
}

impl View for ChallengeContract {
    type V = Seq<ChallengeView>;

    /// The records by ascending id.
    closed spec fn view(&self) -> Seq<ChallengeView> {
        views(self.challenges@)
    }
}

impl ChallengeContract {
    #[verifier::type_invariant]
    spec fn well_formed(&self) -> bool {
        &&& self.count == self.challenges.len()
        &&& valid(self@)
    }

    /// Puts the engine into service.
    ///
    /// Where nothing is stored yet, the engine starts without challenges.
    /// Where an engine is stored already, it is kept as it is: initializing
    /// again never takes the count back or frees an id.
    pub fn initialize(stored: Option<ChallengeContract>) -> (engine: Self)
        ensures
            engine@ == (match stored {
                Some(kept) => kept@,
                None => Seq::<ChallengeView>::empty(),
            }),
            valid(engine@),
    {
        match stored {
            Some(kept) => {
                proof {
                    use_type_invariant(&kept);
                }
                kept
            },
            None => ChallengeContract { count: 0, challenges: Vec::new() },
        }
    }

    /// Rebuilds an engine from the records that an earlier engine held,
    /// given by ascending id. Records that no engine can have held are
    /// refused.
    pub fn restore(records: Vec<Challenge>) -> (engine: Option<Self>)
        ensures
            engine is Some <==> valid(views(records@)),
            engine matches Some(engine) ==> engine@ == views(records@),
    {
        if records.len() > u32::MAX as usize {
            return None;
        }
        let mut i: usize = 0;
        while i < records.len()
            invariant
                i <= records.len() <= u32::MAX,
                forall|j: int| 0 <= j < i ==> #[trigger] valid_at(views(records@), j),
            decreases records.len() - i,
        {
            let record = &records[i];
            let finalized = record.winner.is_some();
            if record.id as usize != i + 1 || record.is_active == finalized {
                assert(!valid_at(views(records@), i as int));
                return None;
            }
            i = i + 1;
        }
        let count: u32 = records.len() as u32;
        Some(ChallengeContract { count, challenges: records })
    }

    /// The number of challenges created so far.
    pub fn get_challenge_count(&self) -> (count: u32)
        ensures
            count == self@.len(),
            valid(self@),
    {
        proof {
            use_type_invariant(self);
        }
        self.count
    }

    /// A copy of the challenge with the given id, or `NotFound`.
    pub fn get_challenge(&self, challenge_id: u32) -> (found: Result<Challenge, Error>)
        ensures
            match lookup(self@, challenge_id) {
                Some(record) => found matches Ok(challenge) && challenge@ == record,
                None => found matches Err(error) && error == Error::NotFound,
            },
            found matches Ok(challenge) ==> challenge.id == challenge_id,
            valid(self@),
    {
        proof {
            use_type_invariant(self);
        }
        if 1 <= challenge_id && challenge_id <= self.count {
            let i: usize = (challenge_id - 1) as usize;
            assert(valid_at(self@, i as int));
            Ok(self.challenges[i].clone())
        } else {
            Err(Error::NotFound)
        }
    }

    /// Takes the counter and the records out and leaves an empty engine.
    fn take(&mut self) -> (parts: (u32, Vec<Challenge>))
        ensures
            parts.0 == parts.1.len(),
            views(parts.1@) == old(self)@,
            valid(old(self)@),
    {
        proof {
            use_type_invariant(&*self);
        }
        let mut taken = ChallengeContract { count: 0, challenges: Vec::new() };
        std::mem::swap(self, &mut taken);
        let ChallengeContract { count, challenges } = taken;
        (count, challenges)
    }

    /// Creates a challenge whose prize is locked in escrow.
    ///
    /// The creator has to authorize the call. Then the prize pool has to be
    /// moved from the creator into escrow. Only when that transfer has gone
    /// through is the challenge recorded, active, with an empty roster and
    /// under the next id, which is returned. Until then, and on every
    /// failure, the engine is unchanged.
    pub fn create_challenge(
        &mut self,
        creator: &Address,
        title: &str,
        description: &str,
        prize_pool: i128,
        end_date: u64,
        asset: &Address,
        host: Answers,
    ) -> (step: Step<u32>)
        requires
            host.authorized == Some(true) && host.transferred == Some(true) ==> old(self)@.len()
                < u32::MAX,
        ensures
            step@ == create_challenge_step(old(self)@, creator@, prize_pool, asset@, host),
            final(self)@ == create_challenge_records(
                old(self)@,
                creator@,
                title@,
                description@,
                prize_pool,
                end_date,
                asset@,
                host,
            ),
            valid(final(self)@),
            step@ matches StepView::Ask(request) ==> missing(host, request),
            step@ is Done <==> host.authorized == Some(true) && host.transferred == Some(true),
            step@ matches StepView::Done(id) ==> ({
                &&& id == old(self)@.len() + 1
                &&& lookup(final(self)@, id) == Some(
                    opened(id, creator@, title@, description@, prize_pool, end_date),
                )
            }),
    {
        proof {
            use_type_invariant(&*self);
        }
        match host.authorized {
            None => {
                return Step::Ask(Request::Authorize(creator.clone()));
            },
            Some(false) => {
                return Step::Failed(Error::AuthFailure);
            },
            Some(true) => {},
        }
        match host.transferred {
            None => {
                return Step::Ask(
                    Request::Transfer(
                        Transfer {
                            from: Party::Account(creator.clone()),
                            to: Party::Contract,
                            asset: asset.clone(),
                            amount: prize_pool,
                        },
                    ),
                );
            },
            Some(false) => {
                return Step::Failed(Error::TransferFailure);
            },
            Some(true) => {},
        }
        let (count, mut challenges) = self.take();
        let id: u32 = count + 1;
        let challenge = Challenge {
            id,
            creator: creator.clone(),
            title: title.to_owned(),
            description: description.to_owned(),
            prize_pool,
            end_date,
            participants: Vec::new(),
            winner: None,
            is_active: true,
        };
        assert(challenge@ == opened(id, creator@, title@, description@, prize_pool, end_date)) by {
            assert(keys(challenge.participants@) =~= Seq::<Seq<char>>::empty());
        }
        challenges.push(challenge);
        proof {
            let before = old(self)@;
            let after = views(challenges@);
            assert(after =~= before.push(challenge@));
            assert forall|i: int| 0 <= i < after.len() implies #[trigger] valid_at(after, i) by {
                if i < before.len() {
                    assert(valid_at(before, i));
                }
            }
        }
        *self = ChallengeContract { count: id, challenges };
        Step::Done(id)
    }

    /// Adds a participant to the roster of a challenge.
    ///
    /// The participant has to authorize the call, the challenge has to exist
    /// and be active, and the clock must not be past its end date. The
    /// participant is then appended to the roster, also when the roster holds
    /// the same identity already. On every failure the engine is unchanged.
    pub fn join_challenge(
        &mut self,
        challenge_id: u32,
        participant: &Address,
        host: Answers,
    ) -> (step: Step<()>)
        ensures
            step@ == join_challenge_step(old(self)@, challenge_id, participant@, host),
            final(self)@ == join_challenge_records(
                old(self)@,
                challenge_id,
                participant@,
                host,
            ),
            valid(final(self)@),
            step@ matches StepView::Ask(request) ==> missing(host, request),
            step@ is Done <==> ({
                &&& host.authorized == Some(true)
                &&& lookup(old(self)@, challenge_id) matches Some(record)
                &&& record.is_active
                &&& host.now matches Some(now)
                &&& now <= record.end_date
            }),
            step@ is Done ==> lookup(final(self)@, challenge_id) == Some(
                joined(old(self)@[challenge_id - 1], participant@),
            ),
    {
        proof {
            use_type_invariant(&*self);
        }
        match host.authorized {
            None => {
                return Step::Ask(Request::Authorize(participant.clone()));
            },
            Some(false) => {
                return Step::Failed(Error::AuthFailure);
            },
            Some(true) => {},
        }
        if !(1 <= challenge_id && challenge_id <= self.count) {
            return Step::Failed(Error::NotFound);
        }
        let i: usize = (challenge_id - 1) as usize;
        if !self.challenges[i].is_active {
            return Step::Failed(Error::InvalidState(Violation::NotActive));
        }
        let now: u64 = match host.now {
            None => {
                return Step::Ask(Request::Clock);
            },
            Some(now) => now,
        };
        if now > self.challenges[i].end_date {
            return Step::Failed(Error::InvalidState(Violation::Ended));
        }
        let (count, mut challenges) = self.take();
        let ghost roster = challenges[i as int].participants@;
        challenges[i].participants.push(participant.clone());
        proof {
            let before = old(self)@;
            let after = views(challenges@);
            assert(keys(challenges[i as int].participants@) =~= keys(roster).push(participant@));
            assert(after =~= before.update(i as int, joined(before[i as int], participant@)));
            assert forall|j: int| 0 <= j < after.len() implies #[trigger] valid_at(after, j) by {
                assert(valid_at(before, j));
            }
        }
        *self = ChallengeContract { count, challenges };
        Step::Done(())
    }

    /// Finalizes a challenge and pays the prize to the winner.
    ///
    /// The challenge has to exist, its creator has to authorize the call, it
    /// must not be finalized already, and the clock has to be past its end
    /// date. Then the prize pool has to be moved out of escrow to the winner.
    /// Only when that transfer has gone through is the winner recorded and
    /// the challenge closed. Until then, and on every failure, the engine is
    /// unchanged.
    pub fn set_winner(
        &mut self,
        challenge_id: u32,
        winner: &Address,
        asset: &Address,
        host: Answers,
    ) -> (step: Step<()>)
        ensures
            step@ == set_winner_step(old(self)@, challenge_id, winner@, asset@, host),
            final(self)@ == set_winner_records(
                old(self)@,
                challenge_id,
                winner@,
                asset@,
                host,
            ),
            valid(final(self)@),
            step@ matches StepView::Ask(request) ==> missing(host, request),
            step@ is Done <==> ({
                &&& lookup(old(self)@, challenge_id) matches Some(record)
                &&& host.authorized == Some(true)
                &&& record.is_active
                &&& host.now matches Some(now)
                &&& now > record.end_date
                &&& host.transferred == Some(true)
            }),
            step@ is Done ==> lookup(final(self)@, challenge_id) == Some(
                finalized(old(self)@[challenge_id - 1], winner@),
            ),
    {
        proof {
            use_type_invariant(&*self);
        }
        if !(1 <= challenge_id && challenge_id <= self.count) {
            return Step::Failed(Error::NotFound);
        }
        let i: usize = (challenge_id - 1) as usize;
        match host.authorized {
            None => {
                return Step::Ask(Request::Authorize(self.challenges[i].creator.clone()));
            },
            Some(false) => {
                return Step::Failed(Error::AuthFailure);
            },
            Some(true) => {},
        }
        if !self.challenges[i].is_active {
            return Step::Failed(Error::InvalidState(Violation::NotActive));
        }
        let now: u64 = match host.now {
            None => {
                return Step::Ask(Request::Clock);
            },
            Some(now) => now,
        };
        if now <= self.challenges[i].end_date {
            return Step::Failed(Error::InvalidState(Violation::NotEnded));
        }
        match host.transferred {
            None => {
                return Step::Ask(
                    Request::Transfer(
                        Transfer {
                            from: Party::Contract,
                            to: Party::Account(winner.clone()),
                            asset: asset.clone(),
                            amount: self.challenges[i].prize_pool,
                        },
                    ),
                );
            },
            Some(false) => {
                return Step::Failed(Error::TransferFailure);
            },
            Some(true) => {},
        }
        let (count, mut challenges) = self.take();
        challenges[i].winner = Some(winner.clone());
        challenges[i].is_active = false;
        proof {
            let before = old(self)@;
            let after = views(challenges@);
            assert(after =~= before.update(i as int, finalized(before[i as int], winner@)));
            assert forall|j: int| 0 <= j < after.len() implies #[trigger] valid_at(after, j) by {
                assert(valid_at(before, j));
            }
        }
        *self = ChallengeContract { count, challenges };
        Step::Done(())
    }

    /// Whether the engine keeps an entry under `key`.
    pub fn has(&self, key: &DataKey) -> (kept: bool)
        ensures
            kept == stored(self@, *key),
    {
        proof {
            use_type_invariant(self);
        }
        match key {
            DataKey::Challenge(id) => 1 <= *id && *id <= self.count,
            DataKey::ChallengeCount => true,
        }
    }
}

} // verus!
