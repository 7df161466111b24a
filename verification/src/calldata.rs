//! The router's calldata: one route, or a batch of routes, laid out as the flat
//! sequence of scalars that the router's swap entry points take.

use crate::models::{Quote, QuoteView, RouteNode, RouteNodeView, route_view, splits_view};
use crate::scalar::{Scalar, field_prime, scalar_values, word_base};
use vstd::prelude::*;

verus! {

/// The scalar that stands for a tick spacing: the spacing itself where it is
/// not negative, its negation in the field where it is.
pub open spec fn tick_word(tick_spacing: int) -> nat {
    if tick_spacing >= 0 {
        tick_spacing as nat
    } else {
        (field_prime() + tick_spacing) as nat
    }
}

/// The eight fields of one hop: the pool's two tokens, its fee, its tick
/// spacing and its extension, then the low and the high 128 bits of the price
/// limit, then the skip-ahead hint.
pub open spec fn node_words(node: RouteNodeView) -> Seq<nat> {
    seq![
        node.pool_key.token0,
        node.pool_key.token1,
        node.pool_key.fee,
        tick_word(node.pool_key.tick_spacing),
        node.pool_key.extension,
        node.sqrt_ratio_limit % word_base(),
        node.sqrt_ratio_limit / word_base(),
        node.skip_ahead,
    ]
}

/// The fields of the hops of a route, hop after hop.
pub open spec fn route_words(route: Seq<RouteNodeView>) -> Seq<nat>
    decreases route.len(),
{
    if route.len() == 0 {
        Seq::empty()
    } else {
        route_words(route.drop_last()) + node_words(route.last())
    }
}

/// One route as the router takes it: the number of hops, the hops, the token,
/// the input amount, and a zero that marks the amount as an exact input.
pub open spec fn split_words(split: QuoteView, token: nat) -> Seq<nat> {
    seq![split.route.len()] + route_words(split.route) + seq![token, split.specified_amount, 0nat]
}

/// Several routes, each laid out as `split_words` has it, one after another.
pub open spec fn splits_words(splits: Seq<QuoteView>, token: nat) -> Seq<nat>
    decreases splits.len(),
{
    if splits.len() == 0 {
        Seq::empty()
    } else {
        splits_words(splits.drop_last(), token) + split_words(splits.last(), token)
    }
}

/// A batch of routes as the router takes it: their number, then the routes.
pub open spec fn multisplit_words(splits: Seq<QuoteView>, token: nat) -> Seq<nat> {
    seq![splits.len()] + splits_words(splits, token)
}

/// A route of `n` hops takes `8 * n` fields.
pub proof fn lemma_route_words_len(route: Seq<RouteNodeView>)
    ensures
        route_words(route).len() == 8 * route.len(),
    decreases route.len(),
{
    if route.len() > 0 {
        lemma_route_words_len(route.drop_last());
    }
}

/// The encoding of one route has one field for the hop count, eight for each
/// hop, and three that close it.
pub proof fn lemma_split_words_len(split: QuoteView, token: nat)
    ensures
        split_words(split, token).len() == 1 + 8 * split.route.len() + 3,
{
    lemma_route_words_len(split.route);
}

/// The encoding of a batch of routes begins with the number of routes.
pub proof fn lemma_multisplit_words_count(splits: Seq<QuoteView>, token: nat)
    ensures
        multisplit_words(splits, token).len() >= 1,
        multisplit_words(splits, token)[0] == splits.len(),
{
}

/// A price limit below 2^128 is encoded as itself and a zero high word; one
/// from 2^128 up to 2^192 as its remainder and its quotient by 2^128, and the
/// quotient is then below 2^64.
pub proof fn lemma_price_limit_words(node: RouteNodeView)
    ensures
        node.sqrt_ratio_limit < word_base() ==> node_words(node)[5] == node.sqrt_ratio_limit
            && node_words(node)[6] == 0,
        word_base() <= node.sqrt_ratio_limit
            < 0x1_0000_0000_0000_0000_0000_0000_0000_0000_0000_0000_0000_0000nat ==> {
            &&& node_words(node)[5] == node.sqrt_ratio_limit % word_base()
            &&& node_words(node)[6] == node.sqrt_ratio_limit / word_base()
            &&& 1 <= node_words(node)[6] < 0x1_0000_0000_0000_0000nat
        },
        node_words(node)[5] + node_words(node)[6] * word_base() == node.sqrt_ratio_limit,
{
}

/// The eight fields of one hop.
pub fn node_to_array(node: RouteNode) -> (fields: [Scalar; 8])
    ensures
        scalar_values(fields@) == node_words(node@),
{
    let fields = [
        node.pool_key.token0,
        node.pool_key.token1,
        node.pool_key.fee,
        Scalar::from_i32(node.pool_key.tick_spacing),
        node.pool_key.extension,
        Scalar::from_u128(node.sqrt_ratio_limit.low128()),
        Scalar::from_u128(node.sqrt_ratio_limit.high128()),
        node.skip_ahead,
    ];
    assert(scalar_values(fields@) =~= node_words(node@));
    fields
}

/// Appends the encoding of one route to `out`.
fn extend_with_split(out: &mut Vec<Scalar>, split: &Quote, token_address: Scalar)
    ensures
        scalar_values(final(out)@) == scalar_values(old(out)@) + split_words(
            split@,
            token_address@,
        ),
{
    let ghost before = scalar_values(out@);
    let ghost route = route_view(split.route@);
    let hops: usize = split.route.len();
    out.push(Scalar::from_usize(hops));
    assert(scalar_values(out@) =~= before + seq![hops as nat]);
    let mut hop: usize = 0;
    while hop < hops
        invariant
            hop <= hops,
            hops == split.route.len(),
            route == route_view(split.route@),
            scalar_values(out@) == before + seq![hops as nat] + route_words(
                route.subrange(0, hop as int),
            ),
        decreases hops - hop,
    {
        let fields = node_to_array(split.route[hop]);
        let ghost encoded = scalar_values(out@);
        let ghost words = node_words(split.route[hop as int]@);
        let mut field: usize = 0;
        while field < 8
            invariant
                field <= 8,
                scalar_values(fields@) == words,
                scalar_values(out@) == encoded + words.subrange(0, field as int),
            decreases 8 - field,
        {
            let ghost pushed = scalar_values(out@);
            out.push(fields[field]);
            assert(words[field as int] == scalar_values(fields@)[field as int]);
            assert(scalar_values(out@) =~= pushed.push(words[field as int]));
            assert(words.subrange(0, field + 1) =~= words.subrange(0, field as int).push(
                words[field as int],
            ));
            field = field + 1;
        }
        proof {
            let longer = route.subrange(0, hop + 1);
            assert(words.subrange(0, 8) =~= words);
            assert(longer.drop_last() =~= route.subrange(0, hop as int));
            assert(longer.last() == split.route[hop as int]@);
            assert(scalar_values(out@) =~= before + seq![hops as nat] + route_words(longer));
        }
        hop = hop + 1;
    }
    let ghost hops_encoded = scalar_values(out@);
    out.push(token_address);
    out.push(split.specified_amount);
    out.push(Scalar::zero());
    proof {
        assert(route.subrange(0, hops as int) =~= route);
        assert(scalar_values(out@) =~= hops_encoded + seq![
            token_address@,
            split.specified_amount@,
            0nat,
        ]);
        assert(split@.route == route);
        assert(scalar_values(out@) =~= before + split_words(split@, token_address@));
    }
}

/// The calldata of the router's swap of one route: the number of hops, eight
/// fields for each hop, the token, the input amount and a closing zero.
pub fn call_data_for_split(split: Quote, token_address: Scalar) -> (calldata: Vec<Scalar>)
    ensures
        scalar_values(calldata@) == split_words(split@, token_address@),
        calldata@.len() == 1 + 8 * split.route@.len() + 3,
{
    let mut calldata: Vec<Scalar> = Vec::new();
    extend_with_split(&mut calldata, &split, token_address);
    proof {
        lemma_split_words_len(split@, token_address@);
        assert(scalar_values(calldata@) =~= split_words(split@, token_address@));
    }
    calldata
}

/// The calldata of the router's swap of a batch of routes: the number of
/// routes, then each route as `call_data_for_split` lays it out.
pub fn call_data_for_multisplit(splits: Vec<Quote>, token_address: Scalar) -> (calldata: Vec<Scalar>)
    ensures
        scalar_values(calldata@) == multisplit_words(splits_view(splits@), token_address@),
        calldata@.len() >= 1,
        calldata@[0]@ == splits@.len(),
{
    let ghost views = splits_view(splits@);
    let count: usize = splits.len();
    let mut calldata: Vec<Scalar> = Vec::new();
    calldata.push(Scalar::from_usize(count));
    assert(scalar_values(calldata@) =~= seq![count as nat]);
    let mut done: usize = 0;
    while done < count
        invariant
            done <= count,
            count == splits.len(),
            views == splits_view(splits@),
            scalar_values(calldata@) == seq![count as nat] + splits_words(
                views.subrange(0, done as int),
                token_address@,
            ),
        decreases count - done,
    {
        extend_with_split(&mut calldata, &splits[done], token_address);
        proof {
            let longer = views.subrange(0, done + 1);
            assert(longer.drop_last() =~= views.subrange(0, done as int));
            assert(longer.last() == splits[done as int]@);
            assert(scalar_values(calldata@) =~= seq![count as nat] + splits_words(
                longer,
                token_address@,
            ));
        }
        done = done + 1;
    }
    proof {
        assert(views.subrange(0, count as int) =~= views);
        assert(scalar_values(calldata@)[0] == calldata@[0]@);
    }
    calldata
}

} // verus!
