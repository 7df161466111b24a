use atomic_arbitrage::calldata::{call_data_for_multisplit, call_data_for_split};
use atomic_arbitrage::execution::{
    balance_call, build_execution, clear_minimum_call, fee_limit_within, get_account_balance,
    select_execution, transfer_call, Call, Selectors, Swap, Venue,
};
use atomic_arbitrage::felt::selector;
use atomic_arbitrage::models::{PoolKey, Quote, Quotes, RouteNode};
use atomic_arbitrage::scalar::{Scalar, U256};
use atomic_arbitrage::scanner::{check_arbitrage, ArbitrageOpportunity};

fn v(value: u128) -> Scalar {
    Scalar::from_u128(value)
}

const TOKEN: u128 = 0x70;
const ROUTER: u128 = 0x80;

fn venue() -> Venue {
    Venue { token_address: v(TOKEN), router_address: v(ROUTER), selectors: Selectors::new() }
}

fn pool_hop(seed: u128) -> RouteNode {
    RouteNode::new(PoolKey::new(v(seed), v(seed + 1), v(3), 60, v(0)), v(seed + 9), v(0))
}

fn split_of(hops: u128, amount: u128) -> Quote {
    Quote::new(v(amount), v(amount), (0..hops).map(|at| pool_hop(at * 10)).collect())
}

fn opportunity_with(amount: u128, total: u128, splits: Vec<Quote>) -> ArbitrageOpportunity {
    check_arbitrage(v(amount), v(0), Quotes::new(v(total), splits)).unwrap()
}

fn balance(value: u128) -> U256 {
    U256::from_words(value, 0)
}

#[test]
fn selectors_are_those_of_the_entry_points() {
    let selectors = Selectors::new();
    assert_eq!(selectors.transfer, selector("transfer").unwrap());
    assert_eq!(selectors.clear_minimum, selector("clear_minimum").unwrap());
    assert_eq!(selectors.multihop_swap, selector("multihop_swap").unwrap());
    assert_eq!(selectors.multi_multihop_swap, selector("multi_multihop_swap").unwrap());
    assert_eq!(selectors.balance_of, selector("balanceOf").unwrap());
    assert!(!selectors.transfer.is_zero());
    assert!(!selectors.multihop_swap.equals(&selectors.multi_multihop_swap));
}

#[test]
fn transfer_pays_the_router() {
    let venue = venue();
    assert_eq!(
        transfer_call(&venue, v(1000)),
        Call {
            to: v(TOKEN),
            selector: venue.selectors.transfer,
            calldata: vec![v(ROUTER), v(1000), v(0)],
        }
    );
}

#[test]
fn clear_minimum_withdraws_the_token() {
    let venue = venue();
    assert_eq!(
        clear_minimum_call(&venue, v(1000)),
        Call {
            to: v(ROUTER),
            selector: venue.selectors.clear_minimum,
            calldata: vec![v(TOKEN), v(1000), v(0)],
        }
    );
}

#[test]
fn one_split_goes_to_the_single_swap() {
    let venue = venue();
    let swap = Swap::resolve(vec![split_of(2, 1000)]).unwrap();
    assert!(matches!(swap, Swap::SingleSplit(_)));
    assert_eq!(
        swap.call(&venue),
        Call {
            to: v(ROUTER),
            selector: venue.selectors.multihop_swap,
            calldata: call_data_for_split(split_of(2, 1000), v(TOKEN)),
        }
    );
}

#[test]
fn several_splits_go_to_the_batch_swap() {
    let venue = venue();
    let swap = Swap::resolve(vec![split_of(2, 600), split_of(1, 400)]).unwrap();
    assert!(matches!(swap, Swap::MultiSplit(_)));
    assert_eq!(
        swap.call(&venue),
        Call {
            to: v(ROUTER),
            selector: venue.selectors.multi_multihop_swap,
            calldata: call_data_for_multisplit(vec![split_of(2, 600), split_of(1, 400)], v(TOKEN)),
        }
    );
}

#[test]
fn single_split_of_a_single_hop_is_rejected() {
    assert!(Swap::resolve(vec![split_of(1, 1000)]).is_none());
    let single = opportunity_with(1000, 1050, vec![split_of(1, 1000)]);
    assert!(build_execution(&venue(), single).is_none());
}

#[test]
fn single_split_without_hops_is_not_a_single_hop() {
    assert!(matches!(Swap::resolve(vec![split_of(0, 1000)]), Some(Swap::SingleSplit(_))));
}

#[test]
fn execution_is_transfer_swap_and_withdrawal() {
    let venue = venue();
    let found = opportunity_with(1000, 1050, vec![split_of(3, 1000)]);
    let execution = build_execution(&venue, found).unwrap();
    assert_eq!(execution.profit, v(50));
    assert_eq!(execution.amount, v(1000));
    assert_eq!(execution.calls[0], transfer_call(&venue, v(1000)));
    assert_eq!(execution.calls[1].selector, venue.selectors.multihop_swap);
    assert_eq!(execution.calls[1].to, v(ROUTER));
    assert_eq!(execution.calls[1].calldata, call_data_for_split(split_of(3, 1000), v(TOKEN)));
    assert_eq!(execution.calls[2], clear_minimum_call(&venue, v(1000)));
}

#[test]
fn selection_takes_the_first_that_can_be_executed() {
    let venue = venue();
    let ranked = vec![
        opportunity_with(8000, 8900, vec![split_of(2, 8000)]),
        opportunity_with(4000, 4500, vec![split_of(1, 4000)]),
        opportunity_with(2000, 2300, vec![split_of(2, 1000), split_of(2, 1000)]),
        opportunity_with(1000, 1100, vec![split_of(2, 1000)]),
    ];
    let execution = select_execution(&venue, ranked, &balance(5000), 10).unwrap();
    assert_eq!(execution.amount, v(2000));
    assert_eq!(execution.profit, v(300));
    assert_eq!(execution.calls[1].selector, venue.selectors.multi_multihop_swap);
}

#[test]
fn selection_looks_at_the_top_only() {
    let venue = venue();
    let ranked = || {
        vec![
            opportunity_with(8000, 8900, vec![split_of(2, 8000)]),
            opportunity_with(4000, 4500, vec![split_of(1, 4000)]),
            opportunity_with(2000, 2300, vec![split_of(2, 2000)]),
        ]
    };
    assert!(select_execution(&venue, ranked(), &balance(5000), 2).is_none());
    assert!(select_execution(&venue, ranked(), &balance(5000), 0).is_none());
    assert_eq!(select_execution(&venue, ranked(), &balance(5000), 3).unwrap().amount, v(2000));
    assert_eq!(select_execution(&venue, ranked(), &balance(8000), 1).unwrap().amount, v(8000));
}

#[test]
fn selection_of_nothing_is_none() {
    assert!(select_execution(&venue(), Vec::new(), &balance(5000), 3).is_none());
    let ranked = vec![opportunity_with(8000, 8900, vec![split_of(2, 8000)])];
    assert!(select_execution(&venue(), ranked, &balance(7999), 3).is_none());
}

#[test]
fn balance_equal_to_the_amount_suffices() {
    let ranked = vec![opportunity_with(8000, 8900, vec![split_of(2, 8000)])];
    assert!(select_execution(&venue(), ranked, &balance(8000), 3).is_some());
}

#[test]
fn profit_above_twice_the_fee_is_sent() {
    assert_eq!(fee_limit_within(v(50), v(20)), Some(v(40)));
}

#[test]
fn profit_below_twice_the_fee_is_skipped() {
    assert_eq!(fee_limit_within(v(50), v(30)), None);
}

#[test]
fn profit_equal_to_twice_the_fee_is_skipped() {
    assert_eq!(fee_limit_within(v(50), v(25)), None);
    assert_eq!(fee_limit_within(v(51), v(25)), Some(v(50)));
    assert_eq!(fee_limit_within(v(1), v(0)), Some(v(0)));
    assert_eq!(fee_limit_within(v(0), v(0)), None);
}

#[test]
fn fee_above_half_the_field_is_never_covered() {
    let huge = Scalar::new(U256::from_words(0, 0x0800_0000_0000_0011_0000_0000_0000_0000)).unwrap();
    assert_eq!(fee_limit_within(huge, huge), None);
}

#[test]
fn balance_request_names_the_account() {
    let venue = venue();
    assert_eq!(
        balance_call(&venue, v(0xacc)),
        Call { to: v(TOKEN), selector: venue.selectors.balance_of, calldata: vec![v(0xacc)] }
    );
}

#[test]
fn balance_is_read_from_two_words() {
    assert_eq!(get_account_balance(&vec![v(5), v(0)]), Some(U256 { high: 0, low: 5 }));
    assert_eq!(get_account_balance(&vec![v(5), v(9), v(1)]), Some(U256 { high: 9, low: 5 }));
    let wide = Scalar::new(U256::from_words(17, 3)).unwrap();
    assert_eq!(get_account_balance(&vec![wide, wide]), Some(U256 { high: 17, low: 17 }));
    assert_eq!(
        get_account_balance(&vec![v(u128::MAX), v(u128::MAX)]),
        Some(U256 { high: u128::MAX, low: u128::MAX })
    );
}

#[test]
fn balance_of_a_short_answer_is_none() {
    assert_eq!(get_account_balance(&Vec::new()), None);
    assert_eq!(get_account_balance(&vec![v(5)]), None);
}
