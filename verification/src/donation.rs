//! The donation ledger: every donation moves an asset straight from the
//! donor to the recipient and is then kept, with its message and the time,
//! under the next number.

use crate::host::{
    missing, Address, Answers, Error, Party, PartyView, Request, RequestView, Step, StepView,
    Transfer, TransferView,
};
use vstd::prelude::*;

verus! {

/// The record of one donation.
#[derive(Debug, PartialEq, Eq)]
pub struct Donation {
    pub donor: Address,
    pub recipient: Address,
    pub amount: i128,
    pub message: String,
    /// The ledger time at which the donation was recorded.
    pub timestamp: u64,
}

/// The model of a [`Donation`].
pub struct DonationView {
    pub donor: Seq<char>,
    pub recipient: Seq<char>,
    pub amount: i128,
    pub message: Seq<char>,
    pub timestamp: u64,
}

impl View for Donation {
    type V = DonationView;

    open spec fn view(&self) -> DonationView {
        DonationView {
            donor: self.donor@,
            recipient: self.recipient@,
            amount: self.amount,
            message: self.message@,
            timestamp: self.timestamp,
        }
    }
}

impl Clone for Donation {
    fn clone(&self) -> (copy: Self)
        ensures
            copy@ == self@,
    {
        Donation {
            donor: self.donor.clone(),
            recipient: self.recipient.clone(),
            amount: self.amount,
            message: self.message.clone(),
            timestamp: self.timestamp,
        }
    }
}

/// The models of a sequence of records, in the same order.
pub open spec fn views(records: Seq<Donation>) -> Seq<DonationView> {
    records.map_values(|record: Donation| record@)
}

/// The record with the given number, if there is one. The first donation
/// has number 1.
pub open spec fn lookup(records: Seq<DonationView>, number: u32) -> Option<DonationView> {
    if 1 <= number <= records.len() {
        Some(records[number - 1])
    } else {
        None
    }
}

/// The donations among `records` that went to `recipient`, in the order in
/// which they were made.
pub open spec fn received(records: Seq<DonationView>, recipient: Seq<char>) -> Seq<DonationView> {
    records.filter(|record: DonationView| record.recipient == recipient)
}

/// The transfer that a donation asks for: straight from donor to recipient.
pub open spec fn direct_transfer(
    donor: Seq<char>,
    recipient: Seq<char>,
    asset: Seq<char>,
    amount: i128,
) -> TransferView {
    TransferView {
        from: PartyView::Account(donor),
        to: PartyView::Account(recipient),
        asset,
        amount,
    }
}

/// How far a donation gets: the donor has to authorize it, the asset has to
/// reach the recipient, and the clock has to be read for the record; then
/// the donation gets the next number.
pub open spec fn donate_step(
    records: Seq<DonationView>,
    donor: Seq<char>,
    recipient: Seq<char>,
    amount: i128,
    asset: Seq<char>,
    host: Answers,
) -> StepView<u32> {
    match host.authorized {
        None => StepView::Ask(RequestView::Authorize(donor)),
        Some(false) => StepView::Failed(Error::AuthFailure),
        Some(true) => match host.transferred {
            None => StepView::Ask(
                RequestView::Transfer(direct_transfer(donor, recipient, asset, amount)),
            ),
            Some(false) => StepView::Failed(Error::TransferFailure),
            Some(true) => match host.now {
                None => StepView::Ask(RequestView::Clock),
                Some(_) => StepView::Done((records.len() + 1) as u32),
            },
        },
    }
}

/// The records after a call of `donate`: one more when it is done, the same
/// otherwise.
pub open spec fn donate_records(
    records: Seq<DonationView>,
    donor: Seq<char>,
    recipient: Seq<char>,
    amount: i128,
    message: Seq<char>,
    asset: Seq<char>,
    host: Answers,
) -> Seq<DonationView> {
    match donate_step(records, donor, recipient, amount, asset, host) {
        StepView::Done(_) => records.push(
            DonationView { donor, recipient, amount, message, timestamp: host.now->Some_0 },
        ),
        _ => records,
    }
}

/// The typed key of an entry that the ledger keeps.
#[derive(Clone, Copy, Debug, PartialEq, Eq)]
pub enum DataKey {
    /// The record of the donation with this number.
    Donation(u32),
    /// The number of donations made so far.
    DonationCount,
}

/// Whether a ledger with these records keeps an entry under `key`.
pub open spec fn stored(records: Seq<DonationView>, key: DataKey) -> bool {
    match key {
        DataKey::Donation(number) => lookup(records, number) is Some,
        DataKey::DonationCount => true,
    }
}

/// The donation ledger: the counter of donations and their records.
pub struct DonationContract {
    count: u32,
    donations: Vec<Donation>,
}

impl View for DonationContract {
    type V = Seq<DonationView>;

    /// The records in the order in which the donations were made.
    closed spec fn view(&self) -> Seq<DonationView> {
        views(self.donations@)
    }
}

impl DonationContract {
    #[verifier::type_invariant]
    spec fn well_formed(&self) -> bool {
        self.count == self.donations.len()
    }

    /// Puts the ledger into service.
    ///
    /// Where nothing is stored yet, the ledger starts without donations.
    /// Where a ledger is stored already, it is kept as it is: initializing
    /// again never removes a donation or takes the count back.
    pub fn initialize(stored: Option<DonationContract>) -> (ledger: Self)
        ensures
            ledger@ == (match stored {
                Some(kept) => kept@,
                None => Seq::<DonationView>::empty(),
            }),
    {
        match stored {
            Some(kept) => kept,
            None => DonationContract { count: 0, donations: Vec::new() },
        }
    }

    /// Rebuilds a ledger from the records that an earlier ledger held, in
    /// their order. More records than the counter can count are refused.
    pub fn restore(records: Vec<Donation>) -> (ledger: Option<Self>)
        ensures
            ledger is Some <==> records.len() <= u32::MAX,
            ledger matches Some(ledger) ==> ledger@ == views(records@),
    {
        if records.len() > u32::MAX as usize {
            return None;
        }
        let count: u32 = records.len() as u32;
        Some(DonationContract { count, donations: records })
    }

    /// Takes the counter and the records out and leaves an empty ledger.
    fn take(&mut self) -> (parts: (u32, Vec<Donation>))
        ensures
            parts.0 == parts.1.len(),
            views(parts.1@) == old(self)@,
    {
        proof {
            use_type_invariant(&*self);
        }
        let mut taken = DonationContract { count: 0, donations: Vec::new() };
        std::mem::swap(self, &mut taken);
        let DonationContract { count, donations } = taken;
        (count, donations)
    }

    /// Makes a donation.
    ///
    /// The donor has to authorize the call. Then the amount has to be moved
    /// from the donor straight to the recipient. Only when that transfer has
    /// gone through is the donation recorded, with the ledger time, and
    /// counted; the new count is returned. Until then, and on every failure,
    /// the ledger is unchanged.
    pub fn donate(
        &mut self,
        donor: &Address,
        recipient: &Address,
        amount: i128,
        message: &str,
        asset: &Address,
        host: Answers,
    ) -> (step: Step<u32>)
        requires
            host.authorized == Some(true) && host.transferred == Some(true) && host.now is Some
                ==> old(self)@.len() < u32::MAX,
        ensures
            step@ == donate_step(old(self)@, donor@, recipient@, amount, asset@, host),
            final(self)@ == donate_records(
                old(self)@,
                donor@,
                recipient@,
                amount,
                message@,
                asset@,
                host,
            ),
            step@ matches StepView::Ask(request) ==> missing(host, request),
            step@ is Done <==> host.authorized == Some(true) && host.transferred == Some(true)
                && host.now is Some,
            step@ matches StepView::Done(count) ==> count == old(self)@.len() + 1 && count
                == final(self)@.len(),
    {
        proof {
            use_type_invariant(&*self);
        }
        match host.authorized {
            None => {
                return Step::Ask(Request::Authorize(donor.clone()));
            },
            Some(false) => {
                return Step::Failed(Error::AuthFailure);
            },
            Some(true) => {},
        }
        match host.transferred {
            None => {
                return Step::Ask(
                    Request::Transfer(
                        Transfer {
                            from: Party::Account(donor.clone()),
                            to: Party::Account(recipient.clone()),
                            asset: asset.clone(),
                            amount,
                        },
                    ),
                );
            },
            Some(false) => {
                return Step::Failed(Error::TransferFailure);
            },
            Some(true) => {},
        }
        let timestamp: u64 = match host.now {
            None => {
                return Step::Ask(Request::Clock);
            },
            Some(now) => now,
        };
        let donation = Donation {
            donor: donor.clone(),
            recipient: recipient.clone(),
            amount,
            message: message.to_owned(),
            timestamp,
        };
        let (count, mut donations) = self.take();
        donations.push(donation);
        assert(views(donations@) =~= old(self)@.push(donation@));
        let count: u32 = count + 1;
        *self = DonationContract { count, donations };
        Step::Done(count)
    }

    /// The number of donations made so far.
    pub fn get_donation_count(&self) -> (count: u32)
        ensures
            count == self@.len(),
    {
        proof {
            use_type_invariant(self);
        }
        self.count
    }

    /// A copy of the donation with the given number, if there is one.
    pub fn get_donation(&self, number: u32) -> (found: Option<Donation>)
        ensures
            match lookup(self@, number) {
                Some(record) => found matches Some(donation) && donation@ == record,
                None => found is None,
            },
    {
        proof {
            use_type_invariant(self);
        }
        if 1 <= number && number <= self.count {
            let i: usize = (number - 1) as usize;
            Some(self.donations[i].clone())
        } else {
            None
        }
    }

    /// Copies of all donations that went to `recipient`, in the order in
    /// which they were made.
    pub fn get_recipient_donations(&self, recipient: &Address) -> (found: Vec<Donation>)
        ensures
            views(found@) == received(self@, recipient@),
    {
        let ghost wanted = |record: DonationView| record.recipient == recipient@;
        let mut found: Vec<Donation> = Vec::new();
        let mut i: usize = 0;
        assert(self@.take(0) =~= Seq::<DonationView>::empty());
        assert(views(found@) =~= Seq::<DonationView>::empty());
        proof {
            reveal(Seq::filter);
        }
        while i < self.donations.len()
            invariant
                i <= self.donations.len(),
                self@ == views(self.donations@),
                wanted == |record: DonationView| record.recipient == recipient@,
                views(found@) == self@.take(i as int).filter(wanted),
            decreases self.donations.len() - i,
        {
            let donation = &self.donations[i];
            let ghost before = self@.take(i as int);
            let ghost kept = views(found@);
            if donation.recipient == *recipient {
                found.push(donation.clone());
                assert(views(found@) =~= kept.push(donation@));
            }
            i = i + 1;
            proof {
                reveal(Seq::filter);
                let now = self@.take(i as int);
                assert(now.drop_last() =~= before);
                assert(now.last() == donation@);
            }
        }
        assert(self@.take(i as int) =~= self@);
        found
    }

    /// Whether the ledger keeps an entry under `key`.
    pub fn has(&self, key: &DataKey) -> (kept: bool)
        ensures
            kept == stored(self@, *key),
    {
        proof {
            use_type_invariant(self);
        }
        match key {
            DataKey::Donation(number) => 1 <= *number && *number <= self.count,
            DataKey::DonationCount => true,
        }
    }
}

} // verus!
