//! What holds of the donation ledger over whole histories of donations.
//!
//! A history is the sequence of calls of `donate` that a ledger has seen,
//! each with the answers of the host that it was given. The theorems are
//! stated over the same models that the contracts of the ledger use.

use crate::donation::{
    direct_transfer, donate_records, donate_step, lookup, received, DonationView,
};
use crate::host::{Answers, Error, RequestView, StepView};
use vstd::prelude::*;

verus! {

/// One call of `donate`, with the answers of the host that it was given.
pub struct Call {
    pub donor: Seq<char>,
    pub recipient: Seq<char>,
    pub amount: i128,
    pub message: Seq<char>,
    pub asset: Seq<char>,
    pub host: Answers,
}

/// Whether `call`, made on a ledger with these records, is done.
pub open spec fn succeeds(records: Seq<DonationView>, call: Call) -> bool {
    &&& records.len() < u32::MAX
    &&& donate_step(records, call.donor, call.recipient, call.amount, call.asset, call.host)
        is Done
}

/// The records after `call` has been made on a ledger with these records.
pub open spec fn apply(records: Seq<DonationView>, call: Call) -> Seq<DonationView> {
    if records.len() < u32::MAX {
        donate_records(
            records,
            call.donor,
            call.recipient,
            call.amount,
            call.message,
            call.asset,
            call.host,
        )
    } else {
        records
    }
}

/// The records of a ledger that held `start` and then saw `calls`. For a
/// ledger that was initialized and never restored, `start` is empty.
pub open spec fn run(start: Seq<DonationView>, calls: Seq<Call>) -> Seq<DonationView>
    decreases calls.len(),
{
    if calls.len() == 0 {
        start
    } else {
        apply(run(start, calls.drop_last()), calls.last())
    }
}

/// How many of `calls` succeeded.
pub open spec fn donations_made(start: Seq<DonationView>, calls: Seq<Call>) -> nat
    decreases calls.len(),
{
    if calls.len() == 0 {
        0
    } else if succeeds(run(start, calls.drop_last()), calls.last()) {
        donations_made(start, calls.drop_last()) + 1
    } else {
        donations_made(start, calls.drop_last())
    }
}

/// Once the host has moved the asset and told the time, a donation is done
/// if and only if the donor authorized it. It then raises the count by
/// exactly one, and the transfer that the host was asked for went from the
/// donor straight to the recipient, over the amount given.
pub proof fn lemma_donate_needs_the_donor(
    records: Seq<DonationView>,
    donor: Seq<char>,
    recipient: Seq<char>,
    amount: i128,
    message: Seq<char>,
    asset: Seq<char>,
    host: Answers,
)
    requires
        host.transferred == Some(true),
        host.now is Some,
    ensures
        donate_step(records, donor, recipient, amount, asset, host) is Done <==> host.authorized
            == Some(true),
        host.authorized == Some(true) ==> donate_records(
            records,
            donor,
            recipient,
            amount,
            message,
            asset,
            host,
        ).len() == records.len() + 1,
        host.authorized == Some(true) ==> donate_step(
            records,
            donor,
            recipient,
            amount,
            asset,
            Answers { transferred: None, ..host },
        ) == StepView::<u32>::Ask(
            RequestView::Transfer(direct_transfer(donor, recipient, asset, amount)),
        ),
        host.authorized != Some(true) ==> donate_records(
            records,
            donor,
            recipient,
            amount,
            message,
            asset,
            host,
        ) == records,
{
}

/// A donation that the donor did not authorize fails with `AuthFailure`
/// before any transfer is asked for, and one whose transfer the host
/// refused fails with `TransferFailure`. Either way the ledger and the count
/// stay as they were, however many donations there are.
pub proof fn lemma_refused_donation_changes_nothing(
    records: Seq<DonationView>,
    donor: Seq<char>,
    recipient: Seq<char>,
    amount: i128,
    message: Seq<char>,
    asset: Seq<char>,
    host: Answers,
)
    requires
        host.authorized == Some(false) || host.transferred == Some(false),
    ensures
        ({
            let step = donate_step(records, donor, recipient, amount, asset, host);
            let after = donate_records(records, donor, recipient, amount, message, asset, host);
            &&& after == records
            &&& after.len() == records.len()
            &&& host.authorized == Some(false) ==> step == StepView::<u32>::Failed(
                Error::AuthFailure,
            )
            &&& host.authorized == Some(true) ==> step == StepView::<u32>::Failed(
                Error::TransferFailure,
            )
            &&& !(step matches StepView::Ask(RequestView::Transfer(_)))
            &&& step !is Done
        }),
{
}

/// The donation count grows by one with every donation that succeeds and
/// not otherwise.
pub proof fn lemma_count_grows_by_donations(start: Seq<DonationView>, calls: Seq<Call>)
    ensures
        run(start, calls).len() == start.len() + donations_made(start, calls),
    decreases calls.len(),
{
    if calls.len() > 0 {
        lemma_count_grows_by_donations(start, calls.drop_last());
    }
}

/// In a ledger that was initialized, the donation count is the number of
/// donations that succeeded.
pub proof fn lemma_count_is_number_of_donations(calls: Seq<Call>)
    ensures
        run(Seq::empty(), calls).len() == donations_made(Seq::empty(), calls),
{
    lemma_count_grows_by_donations(Seq::empty(), calls);
}

/// A record is never changed or removed: what a ledger held before a call
/// it holds after it, under the same numbers.
pub proof fn lemma_records_are_kept(records: Seq<DonationView>, call: Call, number: u32)
    requires
        lookup(records, number) is Some,
    ensures
        lookup(apply(records, call), number) == lookup(records, number),
{
}

/// A donation that is done is found under its recipient, after all earlier
/// donations to the same recipient, and under no other recipient.
pub proof fn lemma_donation_is_received(
    records: Seq<DonationView>,
    call: Call,
    recipient: Seq<char>,
)
    requires
        succeeds(records, call),
    ensures
        received(apply(records, call), recipient) == if recipient == call.recipient {
            received(records, recipient).push(apply(records, call).last())
        } else {
            received(records, recipient)
        },
        apply(records, call).last() == (DonationView {
            donor: call.donor,
            recipient: call.recipient,
            amount: call.amount,
            message: call.message,
            timestamp: call.host.now->Some_0,
        }),
{
    reveal(Seq::filter);
    let after = apply(records, call);
    assert(after.drop_last() =~= records);
}

} // verus!
