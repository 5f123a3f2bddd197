//! What holds of the contest engine over whole histories of calls.
//!
//! A history is the sequence of calls that an engine has seen, each with the
//! answers of the host that it was given. The theorems here are stated over
//! the same models that the contracts of the entry points use, so they hold
//! of every engine, whatever the host answers.

use crate::challenge::{
    create_challenge_records, create_challenge_step, finalized, join_challenge_records,
    join_challenge_step, joined, lookup, opened, payout, set_winner_records, set_winner_step,
    valid, valid_at, ChallengeView,
};
use crate::host::{Answers, Error, RequestView, StepView, Violation};
use vstd::prelude::*;

verus! {

/// One call of a mutating entry point, with the answers of the host that it
/// was given.
pub enum Call {
    Create {
        creator: Seq<char>,
        title: Seq<char>,
        description: Seq<char>,
        prize_pool: i128,
        end_date: u64,
        asset: Seq<char>,
        host: Answers,
    },
    Join { challenge_id: u32, participant: Seq<char>, host: Answers },
    SetWinner { challenge_id: u32, winner: Seq<char>, asset: Seq<char>, host: Answers },
}

/// Whether `call`, made on an engine with these records, is done.
pub open spec fn succeeds(records: Seq<ChallengeView>, call: Call) -> bool {
    match call {
        Call::Create { creator, prize_pool, asset, host, .. } => {
            &&& records.len() < u32::MAX
            &&& create_challenge_step(records, creator, prize_pool, asset, host) is Done
        },
        Call::Join { challenge_id, participant, host } => join_challenge_step(
            records,
            challenge_id,
            participant,
            host,
        ) is Done,
        Call::SetWinner { challenge_id, winner, asset, host } => set_winner_step(
            records,
            challenge_id,
            winner,
            asset,
            host,
        ) is Done,
    }
}

/// The records after `call` has been made on an engine with these records.
pub open spec fn apply(records: Seq<ChallengeView>, call: Call) -> Seq<ChallengeView> {
    match call {
        Call::Create { creator, title, description, prize_pool, end_date, asset, host } => {
            if records.len() < u32::MAX {
                create_challenge_records(
                    records,
                    creator,
                    title,
                    description,
                    prize_pool,
                    end_date,
                    asset,
                    host,
                )
            } else {
                records
            }
        },
        Call::Join { challenge_id, participant, host } => join_challenge_records(
            records,
            challenge_id,
            participant,
            host,
        ),
        Call::SetWinner { challenge_id, winner, asset, host } => set_winner_records(
            records,
            challenge_id,
            winner,
            asset,
            host,
        ),
    }
}

/// The records of an engine that held `start` and then saw `calls`. For an
/// engine that was initialized and never restored, `start` is empty.
pub open spec fn run(start: Seq<ChallengeView>, calls: Seq<Call>) -> Seq<ChallengeView>
    decreases calls.len(),
{
    if calls.len() == 0 {
        start
    } else {
        apply(run(start, calls.drop_last()), calls.last())
    }
}

/// How many of `calls` were creations that succeeded.
pub open spec fn creations(start: Seq<ChallengeView>, calls: Seq<Call>) -> nat
    decreases calls.len(),
{
    if calls.len() == 0 {
        0
    } else {
        let earlier = calls.drop_last();
        if calls.last() is Create && succeeds(run(start, earlier), calls.last()) {
            creations(start, earlier) + 1
        } else {
            creations(start, earlier)
        }
    }
}

/// A call leaves valid records valid.
pub proof fn lemma_apply_valid(records: Seq<ChallengeView>, call: Call)
    requires
        valid(records),
    ensures
        valid(apply(records, call)),
{
    let after = apply(records, call);
    assert forall|i: int| 0 <= i < after.len() implies #[trigger] valid_at(after, i) by {
        if i < records.len() {
            assert(valid_at(records, i));
        }
    }
}

/// A call that is not done changes nothing.
pub proof fn lemma_failure_changes_nothing(records: Seq<ChallengeView>, call: Call)
    requires
        !succeeds(records, call),
    ensures
        apply(records, call) == records,
{
}

/// Whatever calls an engine sees, its records stay valid: the ids are dense
/// from 1, and a challenge is active exactly as long as it has no winner.
pub proof fn lemma_run_valid(start: Seq<ChallengeView>, calls: Seq<Call>)
    requires
        valid(start),
    ensures
        valid(run(start, calls)),
    decreases calls.len(),
{
    if calls.len() > 0 {
        lemma_run_valid(start, calls.drop_last());
        lemma_apply_valid(run(start, calls.drop_last()), calls.last());
    }
}

/// The challenge count grows by the number of creations that succeeded: a
/// creation that failed, and every other call, leaves it as it was.
pub proof fn lemma_count_grows_by_creations(start: Seq<ChallengeView>, calls: Seq<Call>)
    ensures
        run(start, calls).len() == start.len() + creations(start, calls),
    decreases calls.len(),
{
    if calls.len() > 0 {
        lemma_count_grows_by_creations(start, calls.drop_last());
    }
}

/// In an engine that was initialized, the challenge count is the number of
/// creations that succeeded.
pub proof fn lemma_count_is_number_of_creations(calls: Seq<Call>)
    ensures
        run(Seq::empty(), calls).len() == creations(Seq::empty(), calls),
{
    lemma_count_grows_by_creations(Seq::empty(), calls);
}

/// A creation that the creator did not authorize fails with `AuthFailure`
/// before any transfer is asked for, and one whose deposit the host refused
/// fails with `TransferFailure`. Either way the records and the count stay
/// as they were, however many challenges there are.
pub proof fn lemma_refused_creation_changes_nothing(
    records: Seq<ChallengeView>,
    creator: Seq<char>,
    title: Seq<char>,
    description: Seq<char>,
    prize_pool: i128,
    end_date: u64,
    asset: Seq<char>,
    host: Answers,
)
    requires
        host.authorized == Some(false) || host.transferred == Some(false),
    ensures
        ({
            let step = create_challenge_step(records, creator, prize_pool, asset, host);
            let after = create_challenge_records(
                records,
                creator,
                title,
                description,
                prize_pool,
                end_date,
                asset,
                host,
            );
            &&& after == records
            &&& after.len() == records.len()
            &&& host.authorized == Some(false) ==> step == StepView::<u32>::Failed(
                Error::AuthFailure,
            )
            &&& host.authorized == Some(true) ==> step == StepView::<u32>::Failed(
                Error::TransferFailure,
            )
            &&& !(step matches StepView::Ask(RequestView::Transfer(_)))
            &&& step !is Done
        }),
{
}

/// A challenge that was just created is found under the id that the
/// creation returned: active, without winner, with an empty roster, and with
/// the creator, prize pool and end date that were supplied.
pub proof fn lemma_created_challenge_is_found(
    records: Seq<ChallengeView>,
    creator: Seq<char>,
    title: Seq<char>,
    description: Seq<char>,
    prize_pool: i128,
    end_date: u64,
    asset: Seq<char>,
    host: Answers,
)
    requires
        records.len() < u32::MAX,
        create_challenge_step(records, creator, prize_pool, asset, host) is Done,
    ensures
        ({
            let id = create_challenge_step(records, creator, prize_pool, asset, host)->Done_0;
            let after = create_challenge_records(
                records,
                creator,
                title,
                description,
                prize_pool,
                end_date,
                asset,
                host,
            );
            &&& lookup(after, id) matches Some(found)
            &&& found.is_active
            &&& found.winner is None
            &&& found.participants == Seq::<Seq<char>>::empty()
            &&& found.prize_pool == prize_pool
            &&& found.end_date == end_date
            &&& found.creator == creator
            &&& found == opened(id, creator, title, description, prize_pool, end_date)
        }),
{
}

/// For a participant who authorized the call, and once the host has told
/// the time, a join is done if and only if the challenge exists, is active,
/// and the time is not past its end date.
pub proof fn lemma_join_needs_an_open_challenge(
    records: Seq<ChallengeView>,
    challenge_id: u32,
    participant: Seq<char>,
    host: Answers,
)
    requires
        host.authorized == Some(true),
        host.now is Some,
    ensures
        join_challenge_step(records, challenge_id, participant, host) is Done <==> ({
            &&& lookup(records, challenge_id) matches Some(record)
            &&& record.is_active
            &&& host.now->Some_0 <= record.end_date
        }),
        join_challenge_step(records, challenge_id, participant, host) is Done
            || join_challenge_step(records, challenge_id, participant, host) is Failed,
{
}

/// A join that is done appends the participant to the roster and keeps the
/// order of those who joined before; no other challenge changes.
pub proof fn lemma_join_appends(
    records: Seq<ChallengeView>,
    challenge_id: u32,
    participant: Seq<char>,
    host: Answers,
)
    requires
        join_challenge_step(records, challenge_id, participant, host) is Done,
    ensures
        ({
            let after = join_challenge_records(records, challenge_id, participant, host);
            let before = lookup(records, challenge_id)->Some_0;
            &&& after.len() == records.len()
            &&& lookup(after, challenge_id) == Some(joined(before, participant))
            &&& lookup(after, challenge_id)->Some_0.participants.drop_last()
                == before.participants
            &&& lookup(after, challenge_id)->Some_0.participants.last() == participant
            &&& forall|other: u32|
                other != challenge_id ==> lookup(after, other) == lookup(records, other)
        }),
{
    let before = lookup(records, challenge_id)->Some_0;
    assert(before.participants.push(participant).drop_last() =~= before.participants);
}

/// Joining closes before finalizing opens: if the winner of a challenge can
/// be set at some time, nobody can join it at that time or later, whether
/// the winner has been set meanwhile or not.
pub proof fn lemma_no_join_once_winner_can_be_set(
    records: Seq<ChallengeView>,
    challenge_id: u32,
    winner: Seq<char>,
    asset: Seq<char>,
    host: Answers,
    participant: Seq<char>,
    later: Answers,
)
    requires
        set_winner_step(records, challenge_id, winner, asset, host) is Done,
        later.now is Some ==> later.now->Some_0 >= host.now->Some_0,
    ensures
        join_challenge_step(records, challenge_id, participant, later) !is Done,
        join_challenge_step(
            set_winner_records(records, challenge_id, winner, asset, host),
            challenge_id,
            participant,
            later,
        ) !is Done,
{
}

/// What is fixed at creation stays fixed: no call removes a challenge or
/// changes its id, creator, title, description, prize pool or end date; no
/// call removes or reorders participants; and no call takes a winner back.
pub proof fn lemma_call_keeps_what_is_fixed(
    records: Seq<ChallengeView>,
    call: Call,
    challenge_id: u32,
)
    requires
        valid(records),
        lookup(records, challenge_id) is Some,
    ensures
        ({
            let before = lookup(records, challenge_id)->Some_0;
            &&& lookup(apply(records, call), challenge_id) matches Some(after)
            &&& after.id == before.id
            &&& after.creator == before.creator
            &&& after.title == before.title
            &&& after.description == before.description
            &&& after.prize_pool == before.prize_pool
            &&& after.end_date == before.end_date
            &&& before.participants.is_prefix_of(after.participants)
            &&& before.winner is Some ==> after.winner == before.winner
        }),
{
    let before = lookup(records, challenge_id)->Some_0;
    let after = lookup(apply(records, call), challenge_id)->Some_0;
    assert(valid_at(records, challenge_id - 1));
    assert(after.participants.subrange(0, before.participants.len() as int)
        =~= before.participants);
}

/// A challenge that is finalized stays as it is: no call adds a participant
/// to it, sets a second winner or reopens it.
pub proof fn lemma_finalized_is_terminal(records: Seq<ChallengeView>, challenge_id: u32, call: Call)
    requires
        lookup(records, challenge_id) matches Some(record) && !record.is_active,
    ensures
        lookup(apply(records, call), challenge_id) == lookup(records, challenge_id),
        call matches Call::Join { challenge_id: id, .. } && id == challenge_id ==> !succeeds(
            records,
            call,
        ),
        call matches Call::SetWinner { challenge_id: id, .. } && id == challenge_id ==> !succeeds(
            records,
            call,
        ),
{
}

/// For a challenge that is not finalized yet, and once the host has told
/// the time and moved the prize, setting the winner is done if and only if
/// the challenge exists, its creator authorized the call, and the time is
/// past its end date. The challenge then has that winner and is closed, and
/// the transfer that the host was asked for went out of escrow to the
/// winner, over the prize pool.
pub proof fn lemma_set_winner_needs_creator_and_end(
    records: Seq<ChallengeView>,
    challenge_id: u32,
    winner: Seq<char>,
    asset: Seq<char>,
    host: Answers,
)
    requires
        lookup(records, challenge_id) matches Some(record) ==> record.is_active,
        host.now is Some,
        host.transferred == Some(true),
    ensures
        set_winner_step(records, challenge_id, winner, asset, host) is Done <==> ({
            &&& lookup(records, challenge_id) matches Some(record)
            &&& host.authorized == Some(true)
            &&& host.now->Some_0 > record.end_date
        }),
        set_winner_step(records, challenge_id, winner, asset, host) is Done ==> ({
            let record = lookup(records, challenge_id)->Some_0;
            let after = set_winner_records(records, challenge_id, winner, asset, host);
            &&& lookup(after, challenge_id) matches Some(closed)
            &&& closed.winner == Some(winner)
            &&& !closed.is_active
            &&& set_winner_step(
                records,
                challenge_id,
                winner,
                asset,
                Answers { transferred: None, ..host },
            ) == StepView::<()>::Ask(
                RequestView::Transfer(payout(winner, asset, record.prize_pool)),
            )
        }),
{
}

/// Setting the winner works once: after it is done, no further attempt on
/// the same challenge is ever done, whoever is named and whatever the host
/// answers. Once the host has answered whether the creator authorized it,
/// the attempt fails; where the creator did, it fails because the challenge
/// is not active any more.
pub proof fn lemma_set_winner_only_once(
    records: Seq<ChallengeView>,
    challenge_id: u32,
    winner: Seq<char>,
    asset: Seq<char>,
    host: Answers,
    next_winner: Seq<char>,
    next_asset: Seq<char>,
    next_host: Answers,
)
    requires
        set_winner_step(records, challenge_id, winner, asset, host) is Done,
    ensures
        ({
            let after = set_winner_records(records, challenge_id, winner, asset, host);
            let again = set_winner_step(after, challenge_id, next_winner, next_asset, next_host);
            &&& lookup(after, challenge_id) == Some(
                finalized(lookup(records, challenge_id)->Some_0, winner),
            )
            &&& again !is Done
            &&& next_host.authorized is Some ==> again is Failed
            &&& next_host.authorized == Some(true) ==> again == StepView::<()>::Failed(
                Error::InvalidState(Violation::NotActive),
            )
        }),
{
}

/// What the escrow owes: the prize pools of the challenges that are still
/// active, added up.
pub open spec fn escrowed(records: Seq<ChallengeView>) -> int
    decreases records.len(),
{
    if records.len() == 0 {
        0
    } else if records.last().is_active {
        escrowed(records.drop_last()) + records.last().prize_pool
    } else {
        escrowed(records.drop_last())
    }
}

/// What went into escrow during `calls`: the prize pools of the creations
/// that succeeded, added up.
pub open spec fn deposited(start: Seq<ChallengeView>, calls: Seq<Call>) -> int
    decreases calls.len(),
{
    if calls.len() == 0 {
        0
    } else {
        let earlier = calls.drop_last();
        match calls.last() {
            Call::Create { prize_pool, .. } if succeeds(run(start, earlier), calls.last()) => {
                deposited(start, earlier) + prize_pool
            },
            _ => deposited(start, earlier),
        }
    }
}

/// What left escrow during `calls`: the prize pools of the challenges whose
/// winner was set, added up.
pub open spec fn paid_out(start: Seq<ChallengeView>, calls: Seq<Call>) -> int
    decreases calls.len(),
{
    if calls.len() == 0 {
        0
    } else {
        let earlier = calls.drop_last();
        match calls.last() {
            Call::SetWinner { challenge_id, .. } if succeeds(run(start, earlier), calls.last()) => {
                paid_out(start, earlier) + run(start, earlier)[challenge_id - 1].prize_pool
            },
            _ => paid_out(start, earlier),
        }
    }
}

/// Replacing a record changes what the escrow owes by the difference
/// between what is owed for the new record and for the old one.
proof fn lemma_escrowed_update(records: Seq<ChallengeView>, i: int, record: ChallengeView)
    requires
        0 <= i < records.len(),
    ensures
        escrowed(records.update(i, record)) == escrowed(records) - (if records[i].is_active {
            records[i].prize_pool as int
        } else {
            0
        }) + (if record.is_active {
            record.prize_pool as int
        } else {
            0
        }),
    decreases records.len(),
{
    let updated = records.update(i, record);
    if i == records.len() - 1 {
        assert(updated.drop_last() =~= records.drop_last());
    } else {
        assert(updated.drop_last() =~= records.drop_last().update(i, record));
        lemma_escrowed_update(records.drop_last(), i, record);
    }
}

/// A call changes what the escrow owes by exactly the prize that it took
/// in or paid out.
pub proof fn lemma_apply_escrowed(records: Seq<ChallengeView>, call: Call)
    ensures
        escrowed(apply(records, call)) == escrowed(records) + (match call {
            Call::Create { prize_pool, .. } if succeeds(records, call) => prize_pool as int,
            Call::SetWinner { challenge_id, .. } if succeeds(records, call) => -(
            records[challenge_id - 1].prize_pool as int),
            _ => 0,
        }),
{
    if succeeds(records, call) {
        match call {
            Call::Create { .. } => {
                assert(apply(records, call).drop_last() =~= records);
            },
            Call::Join { challenge_id, participant, .. } => {
                lemma_escrowed_update(
                    records,
                    challenge_id - 1,
                    joined(records[challenge_id - 1], participant),
                );
            },
            Call::SetWinner { challenge_id, winner, .. } => {
                lemma_escrowed_update(
                    records,
                    challenge_id - 1,
                    finalized(records[challenge_id - 1], winner),
                );
            },
        }
    }
}

/// Whatever calls an engine sees, what its escrow owes changes by what it
/// takes in less what it pays out.
pub proof fn lemma_escrow_follows_transfers(start: Seq<ChallengeView>, calls: Seq<Call>)
    ensures
        escrowed(run(start, calls)) == escrowed(start) + deposited(start, calls) - paid_out(
            start,
            calls,
        ),
    decreases calls.len(),
{
    if calls.len() > 0 {
        lemma_escrow_follows_transfers(start, calls.drop_last());
        lemma_apply_escrowed(run(start, calls.drop_last()), calls.last());
    }
}

/// The prizes are in custody from creation to payout: in an engine that was
/// initialized, the prize pools of the active challenges add up to what the
/// engine has taken into escrow less what it has paid out of it.
pub proof fn lemma_escrow_is_backed(calls: Seq<Call>)
    ensures
        escrowed(run(Seq::empty(), calls)) == deposited(Seq::empty(), calls) - paid_out(
            Seq::empty(),
            calls,
        ),
{
    lemma_escrow_follows_transfers(Seq::empty(), calls);
}

} // verus!
