//! One round of execution, from the ranked opportunities to the end of the
//! transaction: the state of the round, what the chain client is asked to do
//! next, and the state that its answer leads to.

use crate::execution::{
    Execution, Venue, considered, execution_of, fee_limit_of, fee_limit_within, is_executable,
    is_first_executable, select_execution,
};
use crate::finality::{Outcome, PollAction, PollEvent, Poller};
use crate::scalar::{Scalar, U256};
use crate::scanner::{ArbitrageOpportunity, opportunity_views};
use vstd::prelude::*;

verus! {

/// Why a round ended without a transaction that reached its end on chain.
#[derive(Clone, Copy, Debug, PartialEq, Eq)]
pub enum Stop {
    /// No opportunity could be executed.
    NoOpportunity,
    /// The profit does not exceed the fee limit.
    NonProfitable,
    /// The fee could not be estimated.
    EstimateFailed,
    /// The transaction could not be sent.
    SendFailed,
    /// The node could not be asked for the transaction's status.
    StatusUnavailable,
}

/// What the chain client reports back.
#[derive(Clone, Copy, Debug)]
pub enum RoundEvent {
    /// The fee that the calls are estimated to cost.
    FeeEstimated(Scalar),
    /// The estimate failed.
    EstimateFailed,
    /// The transaction was sent.
    Sent,
    /// Sending failed.
    SendFailed,
    /// An answer to a poll.
    Polled(PollEvent),
}

/// The value of a `RoundEvent`.
pub enum RoundEventView {
    FeeEstimated(nat),
    EstimateFailed,
    Sent,
    SendFailed,
    Polled(PollEvent),
}

impl View for RoundEvent {
    type V = RoundEventView;

    open spec fn view(&self) -> RoundEventView {
        match *self {
            RoundEvent::FeeEstimated(fee) => RoundEventView::FeeEstimated(fee@),
            RoundEvent::EstimateFailed => RoundEventView::EstimateFailed,
            RoundEvent::Sent => RoundEventView::Sent,
            RoundEvent::SendFailed => RoundEventView::SendFailed,
            RoundEvent::Polled(event) => RoundEventView::Polled(event),
        }
    }
}

/// What the chain client is asked to do next.
#[derive(Clone, Copy, Debug)]
pub enum RoundAction {
    /// Estimate the fee of the calls.
    EstimateFee,
    /// Sign the calls and send them, with this fee limit.
    Send { fee_limit: Scalar },
    /// Wait for the poll interval, then ask for the transaction's status.
    QueryStatus,
    /// Fetch the transaction's receipt.
    FetchReceipt,
    /// Nothing: the round is over, or has not begun.
    Rest,
}

/// The value of a `RoundAction`.
pub enum RoundActionView {
    EstimateFee,
    Send { fee_limit: nat },
    QueryStatus,
    FetchReceipt,
    Rest,
}

impl View for RoundAction {
    type V = RoundActionView;

    open spec fn view(&self) -> RoundActionView {
        match *self {
            RoundAction::EstimateFee => RoundActionView::EstimateFee,
            RoundAction::Send { fee_limit } => RoundActionView::Send { fee_limit: fee_limit@ },
            RoundAction::QueryStatus => RoundActionView::QueryStatus,
            RoundAction::FetchReceipt => RoundActionView::FetchReceipt,
            RoundAction::Rest => RoundActionView::Rest,
        }
    }
}

/// Where a round stands.
#[derive(Clone, Copy, Debug)]
pub enum Tracker {
    /// No round is under way.
    Idle,
    /// An opportunity was chosen and its calls built; their fee is being
    /// estimated.
    Evaluating { profit: Scalar },
    /// The profit exceeds the fee limit; the calls are being sent.
    Estimated { fee_limit: Scalar },
    /// The transaction was sent; its status was not seen yet.
    Submitted { retries: u32 },
    /// The transaction's status is being polled.
    Polling { poller: Poller },
    /// The transaction was accepted and its receipt fetched.
    Confirmed,
    /// The transaction was rejected.
    Rejected,
    /// The transaction was not final after the last poll allowed.
    TimedOut,
    /// The round ended otherwise.
    Stopped(Stop),
}

/// The value of a `Tracker`.
pub enum TrackerView {
    Idle,
    Evaluating { profit: nat },
    Estimated { fee_limit: nat },
    Submitted { retries: u32 },
    Polling { poller: Poller },
    Confirmed,
    Rejected,
    TimedOut,
    Stopped(Stop),
}

impl View for Tracker {
    type V = TrackerView;

    open spec fn view(&self) -> TrackerView {
        match *self {
            Tracker::Idle => TrackerView::Idle,
            Tracker::Evaluating { profit } => TrackerView::Evaluating { profit: profit@ },
            Tracker::Estimated { fee_limit } => TrackerView::Estimated { fee_limit: fee_limit@ },
            Tracker::Submitted { retries } => TrackerView::Submitted { retries },
            Tracker::Polling { poller } => TrackerView::Polling { poller },
            Tracker::Confirmed => TrackerView::Confirmed,
            Tracker::Rejected => TrackerView::Rejected,
            Tracker::TimedOut => TrackerView::TimedOut,
            Tracker::Stopped(stop) => TrackerView::Stopped(stop),
        }
    }
}

impl TrackerView {
    /// The state that a poller's state stands for in the round.
    pub open spec fn of_poller(poller: Poller) -> TrackerView {
        match poller {
            Poller::Done(Outcome::Confirmed) => TrackerView::Confirmed,
            Poller::Done(Outcome::Rejected) => TrackerView::Rejected,
            Poller::Done(Outcome::TimedOut) => TrackerView::TimedOut,
            Poller::Done(Outcome::StatusUnavailable) => TrackerView::Stopped(
                Stop::StatusUnavailable,
            ),
            _ => TrackerView::Polling { poller },
        }
    }

    /// Whether the state is in itself sound: a round that polls has a poller
    /// that still waits, with a poll left.
    pub open spec fn wf(self) -> bool {
        self matches TrackerView::Polling { poller } ==> poller.wf() && !(poller is Done)
    }

    /// Whether the round is over.
    pub open spec fn is_over(self) -> bool {
        self is Confirmed || self is Rejected || self is TimedOut || self is Stopped
    }

    /// The state after an event, with `retries` retries allowed to the
    /// polling. An event that answers nothing that was asked leaves the state
    /// as it is.
    pub open spec fn next(self, event: RoundEventView, retries: u32) -> TrackerView {
        match (self, event) {
            (TrackerView::Evaluating { profit }, RoundEventView::FeeEstimated(fee)) => {
                if profit > fee_limit_of(fee) {
                    TrackerView::Estimated { fee_limit: fee_limit_of(fee) }
                } else {
                    TrackerView::Stopped(Stop::NonProfitable)
                }
            },
            (TrackerView::Evaluating { .. }, RoundEventView::EstimateFailed) => {
                TrackerView::Stopped(Stop::EstimateFailed)
            },
            (TrackerView::Estimated { .. }, RoundEventView::Sent) => {
                TrackerView::Submitted { retries }
            },
            (TrackerView::Estimated { .. }, RoundEventView::SendFailed) => {
                TrackerView::Stopped(Stop::SendFailed)
            },
            (TrackerView::Submitted { retries: allowed }, RoundEventView::Polled(answer)) => {
                TrackerView::of_poller(Poller::initial(allowed).next(answer))
            },
            (TrackerView::Polling { poller }, RoundEventView::Polled(answer)) => {
                TrackerView::of_poller(poller.next(answer))
            },
            _ => self,
        }
    }

    /// The state after a script of answers to polls, one after another.
    pub open spec fn after_answers(self, answers: Seq<PollEvent>, retries: u32) -> TrackerView
        decreases answers.len(),
    {
        if answers.len() == 0 {
            self
        } else {
            self.after_answers(answers.drop_last(), retries).next(
                RoundEventView::Polled(answers.last()),
                retries,
            )
        }
    }

    /// What the state asks of the chain client.
    pub open spec fn pending(self) -> RoundActionView {
        match self {
            TrackerView::Evaluating { .. } => RoundActionView::EstimateFee,
            TrackerView::Estimated { fee_limit } => RoundActionView::Send { fee_limit },
            TrackerView::Submitted { .. } => RoundActionView::QueryStatus,
            TrackerView::Polling { poller } => match poller.pending() {
                PollAction::FetchReceipt => RoundActionView::FetchReceipt,
                PollAction::QueryStatus => RoundActionView::QueryStatus,
                PollAction::Finish(_) => RoundActionView::Rest,
            },
            _ => RoundActionView::Rest,
        }
    }
}

/// A round that is over stays as it ended, whatever is reported afterwards,
/// and asks for nothing more.
pub proof fn lemma_over_is_final(state: TrackerView, event: RoundEventView, retries: u32)
    requires
        state.is_over(),
    ensures
        state.next(event, retries) == state,
        state.pending() == RoundActionView::Rest,
{
}

/// A round whose transaction was sent follows the node's answers as the
/// poller does: after any answers, it stands where the poller stands that
/// began with the same retries and took the same answers.
pub proof fn lemma_round_follows_poller(allowed: u32, answers: Seq<PollEvent>, retries: u32)
    requires
        answers.len() > 0,
    ensures
        (TrackerView::Submitted { retries: allowed }).after_answers(answers, retries)
            == TrackerView::of_poller(Poller::initial(allowed).run(answers)),
    decreases answers.len(),
{
    let sent = TrackerView::Submitted { retries: allowed };
    let earlier = answers.drop_last();
    let polled = RoundEventView::Polled(answers.last());
    let poller = Poller::initial(allowed).run(earlier);
    assert(sent.after_answers(answers, retries) == sent.after_answers(earlier, retries).next(
        polled,
        retries,
    ));
    assert(Poller::initial(allowed).run(answers) == poller.next(answers.last()));
    if earlier.len() > 0 {
        lemma_round_follows_poller(allowed, earlier, retries);
        assert(TrackerView::of_poller(poller).next(polled, retries) == TrackerView::of_poller(
            poller.next(answers.last()),
        ));
    } else {
        assert(poller == Poller::initial(allowed));
        assert(sent.after_answers(earlier, retries) == sent);
    }
}

/// A transaction is sent only on a fee estimate whose double the profit
/// exceeds, and the fee limit is then that double.
pub proof fn lemma_sent_only_if_profitable(state: TrackerView, event: RoundEventView, retries: u32)
    requires
        state.next(event, retries) is Estimated,
        !(state is Estimated),
    ensures
        state matches TrackerView::Evaluating { profit } && event matches RoundEventView::FeeEstimated(
            fee,
        ) && profit > 2 * fee && state.next(event, retries) == (TrackerView::Estimated {
            fee_limit: 2 * fee,
        }),
{
}

impl Tracker {
    /// Begins a round: picks the opportunity to execute, as `select_execution`
    /// does, and builds its calls. Where there is one, its fee is to be
    /// estimated next; where there is none, the round is over.
    pub fn begin(
        venue: &Venue,
        opportunities: Vec<ArbitrageOpportunity>,
        balance: &U256,
        top: usize,
    ) -> (r: (Tracker, Option<Execution>))
        ensures
            r.0@.wf(),
            r.1 matches Some(execution) ==> r.0@ == (TrackerView::Evaluating {
                profit: execution@.profit,
            }) && exists|at: int|
                is_first_executable(
                    considered(opportunity_views(opportunities@), top as nat),
                    balance@,
                    at,
                ) && execution@ == execution_of(
                    venue@,
                    #[trigger] opportunity_views(opportunities@)[at],
                ),
            r.1 is None ==> r.0@ == TrackerView::Stopped(Stop::NoOpportunity) && forall|at: int|
                0 <= at < considered(opportunity_views(opportunities@), top as nat).len()
                    ==> !is_executable(
                    #[trigger] considered(opportunity_views(opportunities@), top as nat)[at],
                    balance@,
                ),
    {
        match select_execution(venue, opportunities, balance, top) {
            Some(execution) => (Tracker::Evaluating { profit: execution.profit }, Some(execution)),
            None => (Tracker::Stopped(Stop::NoOpportunity), None),
        }
    }

    /// The state that a poller's state stands for in the round.
    fn from_poller(poller: Poller) -> (r: Tracker)
        ensures
            r@ == TrackerView::of_poller(poller),
            poller.wf() ==> r@.wf(),
    {
        match poller {
            Poller::Done(Outcome::Confirmed) => Tracker::Confirmed,
            Poller::Done(Outcome::Rejected) => Tracker::Rejected,
            Poller::Done(Outcome::TimedOut) => Tracker::TimedOut,
            Poller::Done(Outcome::StatusUnavailable) => Tracker::Stopped(Stop::StatusUnavailable),
            _ => Tracker::Polling { poller },
        }
    }

    /// Takes what the chain client reported and moves to the next state.
    pub fn step(self, event: RoundEvent, retries: u32) -> (r: Tracker)
        ensures
            r@ == self@.next(event@, retries),
            self@.wf() ==> r@.wf(),
    {
        match self {
            Tracker::Evaluating { profit } => match event {
                RoundEvent::FeeEstimated(fee) => match fee_limit_within(profit, fee) {
                    Some(fee_limit) => Tracker::Estimated { fee_limit },
                    None => Tracker::Stopped(Stop::NonProfitable),
                },
                RoundEvent::EstimateFailed => Tracker::Stopped(Stop::EstimateFailed),
                _ => self,
            },
            Tracker::Estimated { .. } => match event {
                RoundEvent::Sent => Tracker::Submitted { retries },
                RoundEvent::SendFailed => Tracker::Stopped(Stop::SendFailed),
                _ => self,
            },
            Tracker::Submitted { retries: allowed } => match event {
                RoundEvent::Polled(answer) => Tracker::from_poller(
                    Poller::start(allowed).step(answer),
                ),
                _ => self,
            },
            Tracker::Polling { poller } => match event {
                RoundEvent::Polled(answer) => Tracker::from_poller(poller.step(answer)),
                _ => self,
            },
            _ => self,
        }
    }

    /// What to ask of the chain client next.
    pub fn action(&self) -> (r: RoundAction)
        ensures
            r@ == self@.pending(),
    {
        match self {
            Tracker::Evaluating { .. } => RoundAction::EstimateFee,
            Tracker::Estimated { fee_limit } => RoundAction::Send { fee_limit: *fee_limit },
            Tracker::Submitted { .. } => RoundAction::QueryStatus,
            Tracker::Polling { poller } => match poller.action() {
                PollAction::FetchReceipt => RoundAction::FetchReceipt,
                PollAction::QueryStatus => RoundAction::QueryStatus,
                PollAction::Finish(_) => RoundAction::Rest,
            },
            _ => RoundAction::Rest,
        }
    }

    /// Whether the round is over.
    pub fn is_over(&self) -> (r: bool)
        ensures
            r == self@.is_over(),
    {
        match self {
            Tracker::Confirmed | Tracker::Rejected | Tracker::TimedOut | Tracker::Stopped(_) => true,
            _ => false,
        }
    }
}

} // verus!
