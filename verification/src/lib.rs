//! A time-boxed contest escrow engine and a donation ledger.
//!
//! [`challenge::ChallengeContract`] runs contests: a creator locks a prize
//! in escrow, participants join until the end date, and after it the creator
//! names the winner, who is paid from escrow exactly once.
//! [`donation::DonationContract`] records donations that go straight from a
//! donor to a recipient.
//!
//! Both services are pure state machines. They never check a signature, read
//! a clock or move an asset themselves. An entry point is called with the
//! answers that the host has given so far ([`host::Answers`]) and returns a
//! [`host::Step`]: it is done, it failed, or it asks for the one thing it
//! needs from the host next. A driver performs the request, fills in the
//! answer and calls again:
//!
//! ```text
//! let mut answers = Answers::none();
//! loop {
//!     match engine.join_challenge(id, &participant, answers) {
//!         Step::Ask(request) => perform(&request, &mut answers),
//!         Step::Done(()) => break,
//!         Step::Failed(error) => return Err(error),
//!     }
//! }
//! ```
//!
//! A service changes its state only in the call that is done, so a call that
//! fails at any point leaves nothing behind.
//!
//! The contracts of the entry points are stated over models of the records
//! ([`challenge::ChallengeView`], [`donation::DonationView`]);
//! [`challenge_history`] and [`donation_history`] prove what follows from
//! them for every sequence of calls.

pub mod challenge;
pub mod challenge_history;
pub mod donation;
pub mod donation_history;
pub mod host;
