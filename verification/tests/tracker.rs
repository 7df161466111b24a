use atomic_arbitrage::execution::{Selectors, Venue};
use atomic_arbitrage::finality::{Outcome, PollEvent, Poller, TransactionStatus};
use atomic_arbitrage::models::{PoolKey, Quote, Quotes, RouteNode};
use atomic_arbitrage::scalar::{Scalar, U256};
use atomic_arbitrage::scanner::{check_arbitrage, ArbitrageOpportunity};
use atomic_arbitrage::tracker::{RoundAction, RoundEvent, Stop, Tracker};

fn t(value: u128) -> Scalar {
    Scalar::from_u128(value)
}

fn round_venue() -> Venue {
    Venue { token_address: t(1), router_address: t(2), selectors: Selectors::new() }
}

fn two_hops(amount: u128, total: u128) -> ArbitrageOpportunity {
    let hop = RouteNode::new(PoolKey::new(t(1), t(2), t(3), 60, t(0)), t(5), t(0));
    let split = Quote::new(t(amount), t(total), vec![hop, hop]);
    check_arbitrage(t(amount), t(0), Quotes::new(t(total), vec![split])).unwrap()
}

fn polled(status: TransactionStatus) -> RoundEvent {
    RoundEvent::Polled(PollEvent::Status(status))
}

fn same(a: &Tracker, b: &Tracker) -> bool {
    format!("{:?}", a) == format!("{:?}", b)
}

#[test]
fn round_with_an_opportunity_asks_for_the_fee() {
    let (state, execution) =
        Tracker::begin(&round_venue(), vec![two_hops(1000, 1050)], &U256::from_words(1000, 0), 3);
    assert!(same(&state, &Tracker::Evaluating { profit: t(50) }));
    assert!(matches!(state.action(), RoundAction::EstimateFee));
    assert_eq!(execution.unwrap().amount, t(1000));
    assert!(!state.is_over());
}

#[test]
fn round_without_an_opportunity_is_over() {
    let (state, execution) =
        Tracker::begin(&round_venue(), vec![two_hops(1000, 1050)], &U256::from_words(999, 0), 3);
    assert!(same(&state, &Tracker::Stopped(Stop::NoOpportunity)));
    assert!(execution.is_none());
    assert!(state.is_over());
    assert!(matches!(state.action(), RoundAction::Rest));
}

#[test]
fn fee_estimate_within_the_profit_is_sent() {
    let state = Tracker::Evaluating { profit: t(50) }.step(RoundEvent::FeeEstimated(t(20)), 200);
    assert!(same(&state, &Tracker::Estimated { fee_limit: t(40) }));
    assert!(matches!(state.action(), RoundAction::Send { fee_limit } if fee_limit == t(40)));
}

#[test]
fn fee_estimate_above_the_profit_ends_the_round() {
    let state = Tracker::Evaluating { profit: t(50) }.step(RoundEvent::FeeEstimated(t(30)), 200);
    assert!(same(&state, &Tracker::Stopped(Stop::NonProfitable)));
    assert!(state.is_over());
    assert!(matches!(state.action(), RoundAction::Rest));
}

#[test]
fn failed_estimate_ends_the_round() {
    let state = Tracker::Evaluating { profit: t(50) }.step(RoundEvent::EstimateFailed, 200);
    assert!(same(&state, &Tracker::Stopped(Stop::EstimateFailed)));
}

#[test]
fn failed_send_ends_the_round() {
    let state = Tracker::Estimated { fee_limit: t(40) }.step(RoundEvent::SendFailed, 200);
    assert!(same(&state, &Tracker::Stopped(Stop::SendFailed)));
}

#[test]
fn whole_round_to_confirmation() {
    let mut state = Tracker::Evaluating { profit: t(50) };
    state = state.step(RoundEvent::FeeEstimated(t(20)), 3);
    state = state.step(RoundEvent::Sent, 3);
    assert!(same(&state, &Tracker::Submitted { retries: 3 }));
    assert!(matches!(state.action(), RoundAction::QueryStatus));
    state = state.step(polled(TransactionStatus::Received), 3);
    assert!(same(&state, &Tracker::Polling { poller: Poller::AwaitingStatus { polls_left: 3 } }));
    assert!(matches!(state.action(), RoundAction::QueryStatus));
    state = state.step(polled(TransactionStatus::Received), 3);
    state = state.step(polled(TransactionStatus::Accepted), 3);
    assert!(matches!(state.action(), RoundAction::FetchReceipt));
    state = state.step(RoundEvent::Polled(PollEvent::ReceiptFound), 3);
    assert!(same(&state, &Tracker::Confirmed));
    assert!(state.is_over());
    assert!(matches!(state.action(), RoundAction::Rest));
}

#[test]
fn round_ends_on_rejection() {
    let state = Tracker::Submitted { retries: 3 }.step(polled(TransactionStatus::Rejected), 3);
    assert!(same(&state, &Tracker::Rejected));
    let later = state.step(polled(TransactionStatus::Accepted), 3);
    assert!(same(&later, &Tracker::Rejected));
}

#[test]
fn round_times_out() {
    let mut state = Tracker::Submitted { retries: 1 };
    state = state.step(polled(TransactionStatus::Received), 1);
    assert!(!state.is_over());
    state = state.step(polled(TransactionStatus::Received), 1);
    assert!(same(&state, &Tracker::TimedOut));
}

#[test]
fn round_stops_where_the_status_cannot_be_had() {
    let state = Tracker::Submitted { retries: 1 }.step(RoundEvent::Polled(PollEvent::StatusFailed), 1);
    assert!(same(&state, &Tracker::Stopped(Stop::StatusUnavailable)));
    let polling = Tracker::Polling { poller: Poller::Done(Outcome::StatusUnavailable) };
    assert!(matches!(polling.action(), RoundAction::Rest));
}

#[test]
fn events_out_of_turn_change_nothing() {
    let idle = Tracker::Idle.step(RoundEvent::Sent, 3);
    assert!(same(&idle, &Tracker::Idle));
    assert!(matches!(idle.action(), RoundAction::Rest));
    let evaluating = Tracker::Evaluating { profit: t(50) }.step(RoundEvent::Sent, 3);
    assert!(same(&evaluating, &Tracker::Evaluating { profit: t(50) }));
    let estimated =
        Tracker::Estimated { fee_limit: t(40) }.step(RoundEvent::FeeEstimated(t(1)), 3);
    assert!(same(&estimated, &Tracker::Estimated { fee_limit: t(40) }));
    let submitted = Tracker::Submitted { retries: 3 }.step(RoundEvent::Sent, 3);
    assert!(same(&submitted, &Tracker::Submitted { retries: 3 }));
}
