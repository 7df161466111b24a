use atomic_arbitrage::models::{PoolKey, Quote, Quotes, RouteNode};
use atomic_arbitrage::scalar::{Scalar, U256};
use atomic_arbitrage::client::{Client, QuoteRequest};
use atomic_arbitrage::scanner::{
    affordable_amounts, amounts_to_quote, check_arbitrage, quote_requests, rank, scan, take_top,
    ArbitrageOpportunity, QuotedAmount,
};

fn s(value: u128) -> Scalar {
    Scalar::from_u128(value)
}

fn node_with_extension(extension: u128) -> RouteNode {
    RouteNode::new(PoolKey::new(s(1), s(2), s(3), 60, s(extension)), s(5), s(0))
}

fn plain_split(amount: u128) -> Quote {
    Quote::new(s(amount), s(amount), vec![node_with_extension(0), node_with_extension(0)])
}

fn response(total: u128) -> Quotes {
    Quotes::new(s(total), vec![plain_split(total)])
}

fn opportunity(amount: u128, total: u128) -> ArbitrageOpportunity {
    check_arbitrage(s(amount), s(0), response(total)).unwrap()
}

fn profits(opportunities: &[ArbitrageOpportunity]) -> Vec<Scalar> {
    opportunities.iter().map(|o| o.profit).collect()
}

#[test]
fn profit_above_the_minimum_is_an_opportunity() {
    let found = check_arbitrage(s(1000), s(10), response(1050)).unwrap();
    assert_eq!(found.profit, s(50));
    assert_eq!(found.amount, s(1000));
    assert_eq!(found.quotes, response(1050));
}

#[test]
fn profit_below_the_minimum_is_none() {
    assert!(check_arbitrage(s(1000), s(60), response(1050)).is_none());
}

#[test]
fn profit_equal_to_the_minimum_is_none() {
    assert!(check_arbitrage(s(1000), s(50), response(1050)).is_none());
    assert!(check_arbitrage(s(1000), s(49), response(1050)).is_some());
}

#[test]
fn total_not_above_the_amount_is_none() {
    assert!(check_arbitrage(s(1000), s(0), response(1000)).is_none());
    assert!(check_arbitrage(s(1000), s(0), response(999)).is_none());
    assert!(check_arbitrage(s(1000), s(0), response(0)).is_none());
    assert!(check_arbitrage(s(1000), s(0), response(1001)).is_some());
}

#[test]
fn no_splits_is_none() {
    assert!(check_arbitrage(s(1000), s(10), Quotes::new(s(5000), Vec::new())).is_none());
}

#[test]
fn an_extension_anywhere_is_none() {
    let with_extension = Quotes::new(
        s(9000),
        vec![
            plain_split(4000),
            Quote::new(
                s(5000),
                s(5000),
                vec![node_with_extension(0), node_with_extension(77), node_with_extension(0)],
            ),
        ],
    );
    assert!(check_arbitrage(s(1000), s(10), with_extension).is_none());
    let first_hop = Quotes::new(
        s(9000),
        vec![Quote::new(s(1000), s(9000), vec![node_with_extension(1), node_with_extension(0)])],
    );
    assert!(check_arbitrage(s(1000), s(10), first_hop).is_none());
}

#[test]
fn sums_near_the_prime_do_not_wrap() {
    let huge = Scalar::new(U256::from_words(0, 0x0800_0000_0000_0011_0000_0000_0000_0000)).unwrap();
    let quotes = Quotes::new(s(1050), vec![plain_split(1050)]);
    assert!(check_arbitrage(s(1000), huge, quotes).is_none());
}

#[test]
fn ranking_is_by_falling_profit() {
    let ranked = rank(vec![
        opportunity(1000, 1010),
        opportunity(2000, 2500),
        opportunity(4000, 4020),
        opportunity(8000, 8300),
    ]);
    assert_eq!(profits(&ranked), vec![s(500), s(300), s(20), s(10)]);
    assert_eq!(ranked[0].amount, s(2000));
    assert_eq!(ranked[3].amount, s(1000));
}

#[test]
fn ranking_keeps_every_opportunity() {
    let ranked = rank(vec![
        opportunity(1, 6),
        opportunity(2, 7),
        opportunity(3, 4),
        opportunity(4, 9),
        opportunity(5, 6),
    ]);
    assert_eq!(profits(&ranked), vec![s(5), s(5), s(5), s(1), s(1)]);
    let mut amounts: Vec<Scalar> = ranked.iter().map(|o| o.amount).collect();
    amounts.sort_by_key(|a| a.low128());
    assert_eq!(amounts, vec![s(1), s(2), s(3), s(4), s(5)]);
    for pair in ranked.windows(2) {
        assert!(pair[1].profit.le(&pair[0].profit));
    }
}

#[test]
fn ranking_of_nothing_and_of_one() {
    assert!(rank(Vec::new()).is_empty());
    assert_eq!(profits(&rank(vec![opportunity(10, 15)])), vec![s(5)]);
}

#[test]
fn scan_drops_failures_and_ranks_the_rest() {
    let quoted = vec![
        QuotedAmount { amount: s(1000), response: Some(response(1100)) },
        QuotedAmount { amount: s(2000), response: None },
        QuotedAmount { amount: s(4000), response: Some(response(4000)) },
        QuotedAmount { amount: s(8000), response: Some(response(8400)) },
        QuotedAmount { amount: s(16000), response: Some(Quotes::new(s(20000), Vec::new())) },
        QuotedAmount { amount: s(32000), response: Some(response(32050)) },
    ];
    let found = scan(quoted, s(50));
    assert_eq!(profits(&found), vec![s(400), s(100)]);
    assert_eq!(found[0].amount, s(8000));
    assert_eq!(found[1].amount, s(1000));
}

#[test]
fn scan_of_an_empty_ladder_is_empty() {
    assert!(scan(Vec::new(), s(0)).is_empty());
}

#[test]
fn scan_where_nothing_pays_is_empty() {
    let quoted = vec![
        QuotedAmount { amount: s(1000), response: Some(response(1000)) },
        QuotedAmount { amount: s(2000), response: None },
    ];
    assert!(scan(quoted, s(0)).is_empty());
}

#[test]
fn take_top_keeps_the_first() {
    let ranked = rank(vec![opportunity(1, 10), opportunity(2, 20), opportunity(3, 30)]);
    assert_eq!(profits(&take_top(ranked, 2)), vec![s(27), s(18)]);
    let ranked = rank(vec![opportunity(1, 10), opportunity(2, 20)]);
    assert_eq!(profits(&take_top(ranked, 5)), vec![s(18), s(9)]);
    let ranked = rank(vec![opportunity(1, 10)]);
    assert!(take_top(ranked, 0).is_empty());
}

#[test]
fn ladder_is_powers_of_two() {
    let ladder = amounts_to_quote(32, 36).unwrap();
    assert_eq!(ladder, vec![s(1 << 32), s(1 << 33), s(1 << 34), s(1 << 35)]);
}

#[test]
fn ladder_bounds_are_clamped() {
    let ladder = amounts_to_quote(0, 255).unwrap();
    assert_eq!(ladder.len(), 33);
    assert_eq!(ladder[0], s(1 << 32));
    assert_eq!(ladder[32], s(1 << 64));
    let ladder = amounts_to_quote(40, 10).unwrap();
    assert_eq!(ladder, vec![s(1 << 40)]);
    let ladder = amounts_to_quote(70, 80).unwrap();
    assert_eq!(ladder, vec![s(1 << 70)]);
    let ladder = amounts_to_quote(251, 255).unwrap();
    assert_eq!(ladder.len(), 1);
    assert_eq!(ladder[0].to_u256(), U256 { high: 1 << 123, low: 0 });
    assert!(amounts_to_quote(252, 255).is_none());
    assert!(amounts_to_quote(255, 0).is_none());
}

#[test]
fn affordable_amounts_are_those_the_balance_covers() {
    let ladder = vec![s(1), s(8), s(4), s(9), s(2)];
    assert_eq!(
        affordable_amounts(&ladder, &U256::from_words(4, 0)),
        vec![s(1), s(4), s(2)]
    );
    assert!(affordable_amounts(&ladder, &U256::from_words(0, 0)).is_empty());
    assert_eq!(affordable_amounts(&ladder, &U256::from_words(0, 1)), ladder);
    assert!(affordable_amounts(&Vec::new(), &U256::from_words(4, 0)).is_empty());
}

#[test]
fn one_request_for_each_amount() {
    let client = Client::new("base".to_string(), "agent".to_string());
    let requests = quote_requests(&client, &vec![s(4), s(8)], "0x7", 3, 5);
    assert_eq!(requests.len(), 2);
    for (request, amount) in requests.iter().zip([s(4), s(8)]) {
        assert_eq!(
            *request,
            QuoteRequest {
                amount,
                token: "0x7".to_string(),
                other_token: "0x7".to_string(),
                max_splits: Some(3),
                max_hops: Some(5),
            }
        );
    }
    assert!(quote_requests(&client, &Vec::new(), "0x7", 3, 5).is_empty());
}

#[test]
fn ranking_keeps_the_order_of_equal_profits() {
    let ranked = rank(vec![
        opportunity(1, 6),
        opportunity(2, 7),
        opportunity(3, 4),
        opportunity(4, 9),
        opportunity(5, 6),
        opportunity(6, 16),
    ]);
    assert_eq!(profits(&ranked), vec![s(10), s(5), s(5), s(5), s(1), s(1)]);
    let amounts: Vec<Scalar> = ranked.iter().map(|o| o.amount).collect();
    assert_eq!(amounts, vec![s(6), s(1), s(2), s(4), s(3), s(5)]);
}

#[test]
fn scan_keeps_the_ladder_order_of_equal_profits() {
    let quoted = vec![
        QuotedAmount { amount: s(1000), response: Some(response(1100)) },
        QuotedAmount { amount: s(2000), response: Some(response(2500)) },
        QuotedAmount { amount: s(4000), response: Some(response(4100)) },
        QuotedAmount { amount: s(8000), response: None },
        QuotedAmount { amount: s(16000), response: Some(response(16100)) },
        QuotedAmount { amount: s(32000), response: Some(response(32500)) },
    ];
    let found = scan(quoted, s(0));
    assert_eq!(profits(&found), vec![s(500), s(500), s(100), s(100), s(100)]);
    let amounts: Vec<Scalar> = found.iter().map(|o| o.amount).collect();
    assert_eq!(amounts, vec![s(2000), s(32000), s(1000), s(4000), s(16000)]);
}
