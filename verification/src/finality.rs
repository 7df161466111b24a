//! Following a sent transaction to its end: what to ask the node next, given
//! what it answered, within a bounded number of polls.

use vstd::prelude::*;

verus! {

/// What the node says of a transaction.
#[derive(Clone, Copy, Debug, PartialEq, Eq)]
pub enum TransactionStatus {
    /// Received and still pending.
    Received,
    /// Rejected.
    Rejected,
    /// Accepted, on the second layer or on the first.
    Accepted,
}

/// What came back from the node.
#[derive(Clone, Copy, Debug, PartialEq, Eq)]
pub enum PollEvent {
    /// The transaction's status.
    Status(TransactionStatus),
    /// The status could not be had.
    StatusFailed,
    /// The receipt was fetched.
    ReceiptFound,
    /// The node has no receipt yet, though it said the transaction was
    /// accepted.
    ReceiptMissing,
}

/// How the wait for a transaction ended.
#[derive(Clone, Copy, Debug, PartialEq, Eq)]
pub enum Outcome {
    /// Accepted, and its receipt is at hand.
    Confirmed,
    /// Rejected by the chain.
    Rejected,
    /// Not final after the last poll allowed.
    TimedOut,
    /// The node could not be asked for the status.
    StatusUnavailable,
}

/// What to do next.
#[derive(Clone, Copy, Debug, PartialEq, Eq)]
pub enum PollAction {
    /// Wait for the poll interval, then ask for the status.
    QueryStatus,
    /// Fetch the receipt.
    FetchReceipt,
    /// Stop: the wait is over.
    Finish(Outcome),
}

/// Where the wait for one transaction stands. `polls_left` counts the status
/// queries still allowed, the one under way included.
#[derive(Clone, Copy, Debug, PartialEq, Eq)]
pub enum Poller {
    /// The status was asked for.
    AwaitingStatus { polls_left: u64 },
    /// The status was `Accepted` and the receipt was asked for.
    AwaitingReceipt { polls_left: u64 },
    /// The wait is over.
    Done(Outcome),
}

impl Poller {
    /// The state when a poll ended without an end to the wait: on to the
    /// next poll while one is left, timed out after the last.
    pub open spec fn after_poll(polls_left: u64) -> Poller {
        if polls_left > 1 {
            Poller::AwaitingStatus { polls_left: (polls_left - 1) as u64 }
        } else {
            Poller::Done(Outcome::TimedOut)
        }
    }

    /// The state at the start of a wait with `retries` retries: the first
    /// status query and `retries` more are allowed.
    pub open spec fn initial(retries: u32) -> Poller {
        Poller::AwaitingStatus { polls_left: (retries + 1) as u64 }
    }

    /// The state after an event. An event that answers nothing that was
    /// asked leaves the state as it is.
    pub open spec fn next(self, event: PollEvent) -> Poller {
        match (self, event) {
            (Poller::AwaitingStatus { polls_left }, PollEvent::Status(TransactionStatus::Received)) => {
                Poller::after_poll(polls_left)
            },
            (Poller::AwaitingStatus { .. }, PollEvent::Status(TransactionStatus::Rejected)) => {
                Poller::Done(Outcome::Rejected)
            },
            (Poller::AwaitingStatus { polls_left }, PollEvent::Status(TransactionStatus::Accepted)) => {
                Poller::AwaitingReceipt { polls_left }
            },
            (Poller::AwaitingStatus { .. }, PollEvent::StatusFailed) => {
                Poller::Done(Outcome::StatusUnavailable)
            },
            (Poller::AwaitingReceipt { .. }, PollEvent::ReceiptFound) => {
                Poller::Done(Outcome::Confirmed)
            },
            (Poller::AwaitingReceipt { polls_left }, PollEvent::ReceiptMissing) => {
                Poller::after_poll(polls_left)
            },
            _ => self,
        }
    }

    /// What the state asks for.
    pub open spec fn pending(self) -> PollAction {
        match self {
            Poller::AwaitingStatus { .. } => PollAction::QueryStatus,
            Poller::AwaitingReceipt { .. } => PollAction::FetchReceipt,
            Poller::Done(outcome) => PollAction::Finish(outcome),
        }
    }

    /// The state after a script of events, one after another.
    pub open spec fn run(self, events: Seq<PollEvent>) -> Poller
        decreases events.len(),
    {
        if events.len() == 0 {
            self
        } else {
            self.run(events.drop_last()).next(events.last())
        }
    }

    /// Whether the state is in itself sound: a state that waits has a poll
    /// left.
    pub open spec fn wf(self) -> bool {
        match self {
            Poller::AwaitingStatus { polls_left } => polls_left >= 1,
            Poller::AwaitingReceipt { polls_left } => polls_left >= 1,
            Poller::Done(_) => true,
        }
    }

    /// Starts the wait for a transaction that was just sent.
    pub fn start(retries: u32) -> (r: Poller)
        ensures
            r == Poller::initial(retries),
            r.wf(),
    {
        Poller::AwaitingStatus { polls_left: retries as u64 + 1 }
    }

    /// Takes an event and moves to the next state.
    pub fn step(self, event: PollEvent) -> (r: Poller)
        ensures
            r == self.next(event),
            self.wf() ==> r.wf(),
    {
        match self {
            Poller::AwaitingStatus { polls_left } => match event {
                PollEvent::Status(TransactionStatus::Received) => Poller::poll_over(polls_left),
                PollEvent::Status(TransactionStatus::Rejected) => Poller::Done(Outcome::Rejected),
                PollEvent::Status(TransactionStatus::Accepted) => Poller::AwaitingReceipt {
                    polls_left,
                },
                PollEvent::StatusFailed => Poller::Done(Outcome::StatusUnavailable),
                _ => self,
            },
            Poller::AwaitingReceipt { polls_left } => match event {
                PollEvent::ReceiptFound => Poller::Done(Outcome::Confirmed),
                PollEvent::ReceiptMissing => Poller::poll_over(polls_left),
                _ => self,
            },
            Poller::Done(_) => self,
        }
    }

    /// The state when a poll ended without an end to the wait.
    fn poll_over(polls_left: u64) -> (r: Poller)
        ensures
            r == Poller::after_poll(polls_left),
            r.wf(),
    {
        if polls_left > 1 {
            Poller::AwaitingStatus { polls_left: polls_left - 1 }
        } else {
            Poller::Done(Outcome::TimedOut)
        }
    }

    /// What to do next.
    pub fn action(&self) -> (r: PollAction)
        ensures
            r == self.pending(),
    {
        match self {
            Poller::AwaitingStatus { .. } => PollAction::QueryStatus,
            Poller::AwaitingReceipt { .. } => PollAction::FetchReceipt,
            Poller::Done(outcome) => PollAction::Finish(*outcome),
        }
    }

    /// How the wait ended, where it is over.
    pub fn outcome(&self) -> (r: Option<Outcome>)
        ensures
            r == match *self {
                Poller::Done(outcome) => Some(outcome),
                _ => None::<Outcome>,
            },
    {
        match self {
            Poller::Done(outcome) => Some(*outcome),
            _ => None,
        }
    }
}

/// A script of `count` answers, each of which says that the transaction is
/// still pending.
pub open spec fn pending_answers(count: nat) -> Seq<PollEvent> {
    Seq::new(count, |i: int| PollEvent::Status(TransactionStatus::Received))
}

/// Running a script and then another is running the two on end.
pub proof fn lemma_run_concat(poller: Poller, first: Seq<PollEvent>, second: Seq<PollEvent>)
    ensures
        poller.run(first + second) == poller.run(first).run(second),
    decreases second.len(),
{
    if second.len() == 0 {
        assert(first + second =~= first);
    } else {
        lemma_run_concat(poller, first, second.drop_last());
        assert((first + second).drop_last() =~= first + second.drop_last());
        assert((first + second).last() == second.last());
    }
}

/// Once the wait is over, no further answer changes how it ended, and
/// nothing more is asked of the node.
pub proof fn lemma_done_is_final(outcome: Outcome, events: Seq<PollEvent>)
    ensures
        Poller::Done(outcome).run(events) == Poller::Done(outcome),
        Poller::Done(outcome).pending() == PollAction::Finish(outcome),
    decreases events.len(),
{
    if events.len() > 0 {
        lemma_done_is_final(outcome, events.drop_last());
    }
}

/// While the transaction stays pending and retries are left, the wait goes
/// on, with one poll fewer for each answer.
pub proof fn lemma_pending_counts_down(retries: u32, pending: nat)
    requires
        pending <= retries,
    ensures
        Poller::initial(retries).run(pending_answers(pending)) == (Poller::AwaitingStatus {
            polls_left: (retries + 1 - pending) as u64,
        }),
    decreases pending,
{
    if pending > 0 {
        lemma_pending_counts_down(retries, (pending - 1) as nat);
        assert(pending_answers(pending).drop_last() =~= pending_answers((pending - 1) as nat));
    }
}

/// A transaction that is pending for a while, within the retries allowed,
/// then accepted, and whose receipt is then fetched, is confirmed.
pub proof fn lemma_accepted_is_confirmed(retries: u32, pending: nat)
    requires
        pending <= retries,
    ensures
        Poller::initial(retries).run(
            pending_answers(pending) + seq![
                PollEvent::Status(TransactionStatus::Accepted),
                PollEvent::ReceiptFound,
            ],
        ) == Poller::Done(Outcome::Confirmed),
{
    let start = Poller::initial(retries);
    let close = seq![PollEvent::Status(TransactionStatus::Accepted), PollEvent::ReceiptFound];
    lemma_pending_counts_down(retries, pending);
    lemma_run_concat(start, pending_answers(pending), close);
    let waiting = start.run(pending_answers(pending));
    assert(close.drop_last() =~= seq![PollEvent::Status(TransactionStatus::Accepted)]);
    assert(close.drop_last().drop_last() =~= Seq::<PollEvent>::empty());
    assert(waiting.run(close.drop_last().drop_last()) == waiting);
    assert(waiting.run(close.drop_last()) == waiting.next(
        PollEvent::Status(TransactionStatus::Accepted),
    ));
}

/// A rejection ends the wait at once, whenever it comes: the transaction is
/// rejected, nothing more is asked of the node, and whatever the node says
/// afterwards changes nothing.
pub proof fn lemma_rejected_at_once(retries: u32, pending: nat, later: Seq<PollEvent>)
    requires
        pending <= retries,
    ensures
        Poller::initial(retries).run(
            pending_answers(pending).push(PollEvent::Status(TransactionStatus::Rejected)),
        ) == Poller::Done(Outcome::Rejected),
        Poller::initial(retries).run(
            pending_answers(pending).push(PollEvent::Status(TransactionStatus::Rejected)) + later,
        ) == Poller::Done(Outcome::Rejected),
        Poller::Done(Outcome::Rejected).pending() == PollAction::Finish(Outcome::Rejected),
{
    let start = Poller::initial(retries);
    let script = pending_answers(pending).push(PollEvent::Status(TransactionStatus::Rejected));
    lemma_pending_counts_down(retries, pending);
    assert(script.drop_last() =~= pending_answers(pending));
    lemma_run_concat(start, script, later);
    lemma_done_is_final(Outcome::Rejected, later);
}

/// A transaction that is still pending at the last poll allowed times out:
/// with `retries` retries, after `retries + 1` answers.
pub proof fn lemma_pending_times_out(retries: u32)
    ensures
        Poller::initial(retries).run(pending_answers((retries + 1) as nat)) == Poller::Done(
            Outcome::TimedOut,
        ),
{
    lemma_pending_counts_down(retries, retries as nat);
    assert(pending_answers((retries + 1) as nat).drop_last() =~= pending_answers(retries as nat));
}

/// Follows a transaction through a script of the node's answers, with
/// `retries` retries allowed: how the wait ends, or `None` where the script
/// runs out before the wait is over. Answers that come after the end are not
/// looked at.
pub fn wait_for_transaction(retries: u32, events: &Vec<PollEvent>) -> (r: Option<Outcome>)
    ensures
        r == match Poller::initial(retries).run(events@) {
            Poller::Done(outcome) => Some(outcome),
            _ => None::<Outcome>,
        },
{
    let mut poller = Poller::start(retries);
    let mut taken: usize = 0;
    while taken < events.len()
        invariant
            taken <= events.len(),
            poller == Poller::initial(retries).run(events@.subrange(0, taken as int)),
        decreases events.len() - taken,
    {
        proof {
            let longer = events@.subrange(0, taken + 1);
            assert(longer.drop_last() =~= events@.subrange(0, taken as int));
            assert(longer.last() == events@[taken as int]);
        }
        poller = poller.step(events[taken]);
        taken = taken + 1;
    }
    assert(events@.subrange(0, taken as int) =~= events@);
    poller.outcome()
}

} // verus!
