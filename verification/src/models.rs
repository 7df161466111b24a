//! The quote service's data: pools, hops, routes and whole quote responses,
//! each with the mathematical value that the contracts speak of.

use crate::scalar::Scalar;
use vstd::prelude::*;

verus! {

/// The value of a `PoolKey`.
pub struct PoolKeyView {
    pub token0: nat,
    pub token1: nat,
    pub fee: nat,
    pub tick_spacing: int,
    pub extension: nat,
}

/// The value of a `RouteNode`.
pub struct RouteNodeView {
    pub pool_key: PoolKeyView,
    pub sqrt_ratio_limit: nat,
    pub skip_ahead: nat,
}

/// The value of a `Quote`.
pub struct QuoteView {
    pub specified_amount: nat,
    pub amount: nat,
    pub route: Seq<RouteNodeView>,
}

/// The value of a `Quotes`.
pub struct QuotesView {
    pub total: nat,
    pub splits: Seq<QuoteView>,
}

/// The composite key that identifies one liquidity pool.
#[derive(Clone, Copy, Debug, PartialEq, Eq)]
pub struct PoolKey {
    /// Address of the pool's first token.
    pub token0: Scalar,
    /// Address of the pool's second token.
    pub token1: Scalar,
    /// The fee tier.
    pub fee: Scalar,
    pub tick_spacing: i32,
    /// The extension attached to the pool; zero where there is none.
    pub extension: Scalar,
}

impl View for PoolKey {
    type V = PoolKeyView;

    open spec fn view(&self) -> PoolKeyView {
        PoolKeyView {
            token0: self.token0@,
            token1: self.token1@,
            fee: self.fee@,
            tick_spacing: self.tick_spacing as int,
            extension: self.extension@,
        }
    }
}

impl PoolKey {
    pub fn new(token0: Scalar, token1: Scalar, fee: Scalar, tick_spacing: i32, extension: Scalar) -> (r:
        PoolKey)
        ensures
            r@ == (PoolKeyView {
                token0: token0@,
                token1: token1@,
                fee: fee@,
                tick_spacing: tick_spacing as int,
                extension: extension@,
            }),
    {
        PoolKey { token0, token1, fee, tick_spacing, extension }
    }
}

impl Default for PoolKey {
    /// The key whose fields are all zero.
    fn default() -> (r: PoolKey)
        ensures
            r@ == (PoolKeyView { token0: 0, token1: 0, fee: 0, tick_spacing: 0, extension: 0 }),
    {
        PoolKey {
            token0: Scalar::zero(),
            token1: Scalar::zero(),
            fee: Scalar::zero(),
            tick_spacing: 0,
            extension: Scalar::zero(),
        }
    }
}

/// One hop of a route: a swap through one pool.
#[derive(Clone, Copy, Debug, PartialEq, Eq)]
pub struct RouteNode {
    pub pool_key: PoolKey,
    /// How far the price may move in this swap.
    pub sqrt_ratio_limit: Scalar,
    /// A hint that saves gas on large swaps across many uninitialized ticks.
    pub skip_ahead: Scalar,
}

impl View for RouteNode {
    type V = RouteNodeView;

    open spec fn view(&self) -> RouteNodeView {
        RouteNodeView {
            pool_key: self.pool_key@,
            sqrt_ratio_limit: self.sqrt_ratio_limit@,
            skip_ahead: self.skip_ahead@,
        }
    }
}

impl RouteNode {
    pub fn new(pool_key: PoolKey, sqrt_ratio_limit: Scalar, skip_ahead: Scalar) -> (r: RouteNode)
        ensures
            r@ == (RouteNodeView {
                pool_key: pool_key@,
                sqrt_ratio_limit: sqrt_ratio_limit@,
                skip_ahead: skip_ahead@,
            }),
    {
        RouteNode { pool_key, sqrt_ratio_limit, skip_ahead }
    }
}

impl Default for RouteNode {
    /// The hop whose fields are all zero.
    fn default() -> (r: RouteNode)
        ensures
            r@ == (RouteNodeView {
                pool_key: PoolKeyView {
                    token0: 0,
                    token1: 0,
                    fee: 0,
                    tick_spacing: 0,
                    extension: 0,
                },
                sqrt_ratio_limit: 0,
                skip_ahead: 0,
            }),
    {
        RouteNode {
            pool_key: PoolKey::default(),
            sqrt_ratio_limit: Scalar::zero(),
            skip_ahead: Scalar::zero(),
        }
    }
}

/// The values of the hops of a route, in the order of the swaps.
pub open spec fn route_view(route: Seq<RouteNode>) -> Seq<RouteNodeView> {
    route.map_values(|node: RouteNode| node@)
}

/// One route through the pools, with the part of the input that it carries.
#[derive(Clone, Debug, PartialEq, Eq)]
pub struct Quote {
    /// The input amount given to this route.
    pub specified_amount: Scalar,
    /// The output computed for this route.
    pub amount: Scalar,
    /// The hops, in the order in which the swaps run.
    pub route: Vec<RouteNode>,
}

impl View for Quote {
    type V = QuoteView;

    open spec fn view(&self) -> QuoteView {
        QuoteView {
            specified_amount: self.specified_amount@,
            amount: self.amount@,
            route: route_view(self.route@),
        }
    }
}

impl Quote {
    pub fn new(specified_amount: Scalar, amount: Scalar, route: Vec<RouteNode>) -> (r: Quote)
        ensures
            r@ == (QuoteView {
                specified_amount: specified_amount@,
                amount: amount@,
                route: route_view(route@),
            }),
    {
        Quote { specified_amount, amount, route }
    }
}

impl Default for Quote {
    /// The route without hops, of amounts zero.
    fn default() -> (r: Quote)
        ensures
            r@ == (QuoteView { specified_amount: 0, amount: 0, route: Seq::empty() }),
    {
        let route: Vec<RouteNode> = Vec::new();
        assert(route_view(route@) =~= Seq::empty());
        Quote { specified_amount: Scalar::zero(), amount: Scalar::zero(), route }
    }
}

/// The values of the routes of a quote response, in their order.
pub open spec fn splits_view(splits: Seq<Quote>) -> Seq<QuoteView> {
    splits.map_values(|split: Quote| split@)
}

/// A whole quote response for one input amount.
#[derive(Clone, Debug, PartialEq, Eq)]
pub struct Quotes {
    /// The sum of the outputs of all routes.
    pub total: Scalar,
    /// The routes among which the input is split.
    pub splits: Vec<Quote>,
}

impl View for Quotes {
    type V = QuotesView;

    open spec fn view(&self) -> QuotesView {
        QuotesView { total: self.total@, splits: splits_view(self.splits@) }
    }
}

impl Quotes {
    pub fn new(total: Scalar, splits: Vec<Quote>) -> (r: Quotes)
        ensures
            r@ == (QuotesView { total: total@, splits: splits_view(splits@) }),
    {
        Quotes { total, splits }
    }
}

impl Default for Quotes {
    /// The response without routes, of total zero.
    fn default() -> (r: Quotes)
        ensures
            r@ == (QuotesView { total: 0, splits: Seq::empty() }),
    {
        let splits: Vec<Quote> = Vec::new();
        assert(splits_view(splits@) =~= Seq::empty());
        Quotes { total: Scalar::zero(), splits }
    }
}

} // verus!
