//! The opportunity scanner: which quote responses are arbitrage opportunities,
//! and in which order they are tried.

use crate::client::{Client, QuoteRequest, QuoteRequestView};
use crate::models::{Quotes, QuotesView, RouteNode, RouteNodeView, route_view};
use crate::scalar::{Scalar, U256, scalar_values};
use vstd::arithmetic::power2::pow2;
use vstd::multiset::Multiset;
use vstd::prelude::*;
use vstd::seq_lib::{to_multiset_build, to_multiset_contains, to_multiset_insert};

verus! {

/// The value of an `ArbitrageOpportunity`.
pub struct OpportunityView {
    pub amount: nat,
    pub quotes: QuotesView,
    pub profit: nat,
}

/// A quote response that pays more than it costs: trading `amount` of the
/// token along `quotes` returns `amount + profit` of the same token.
#[derive(Debug)]
pub struct ArbitrageOpportunity {
    /// The input amount that was quoted.
    pub amount: Scalar,
    /// The quote response for that amount.
    pub quotes: Quotes,
    /// The response's total less the input amount.
    pub profit: Scalar,
}

impl View for ArbitrageOpportunity {
    type V = OpportunityView;

    open spec fn view(&self) -> OpportunityView {
        OpportunityView { amount: self.amount@, quotes: self.quotes@, profit: self.profit@ }
    }
}

/// The values of a sequence of opportunities.
pub open spec fn opportunity_views(opportunities: Seq<ArbitrageOpportunity>) -> Seq<
    OpportunityView,
> {
    opportunities.map_values(|opportunity: ArbitrageOpportunity| opportunity@)
}

/// Whether some hop of a route goes through a pool with an extension.
pub open spec fn route_has_extension(route: Seq<RouteNodeView>) -> bool {
    exists|hop: int| 0 <= hop < route.len() && (#[trigger] route[hop]).pool_key.extension != 0
}

/// Whether some hop of some route of the response goes through a pool with an
/// extension.
pub open spec fn has_extension(quotes: QuotesView) -> bool {
    exists|split: int|
        0 <= split < quotes.splits.len() && route_has_extension(
            (#[trigger] quotes.splits[split]).route,
        )
}

/// Whether a response for `amount` is an opportunity: its total exceeds the
/// amount by more than `min_profit`, it has at least one route, and none of
/// its hops goes through a pool with an extension.
pub open spec fn is_opportunity(amount: nat, min_profit: nat, quotes: QuotesView) -> bool {
    &&& quotes.total > amount + min_profit
    &&& quotes.splits.len() > 0
    &&& !has_extension(quotes)
}

/// The opportunity that a response for `amount` makes.
pub open spec fn opportunity_of(amount: nat, quotes: QuotesView) -> OpportunityView {
    OpportunityView { amount, quotes, profit: (quotes.total - amount) as nat }
}

impl OpportunityView {
    /// What holds of every opportunity that the scanner makes: its response
    /// pays more than its amount, by its profit; it has a route; and none of
    /// its hops goes through a pool with an extension.
    pub open spec fn wf(self) -> bool {
        &&& self.quotes.total > self.amount
        &&& self.profit == self.quotes.total - self.amount
        &&& self.profit > 0
        &&& self.quotes.splits.len() > 0
        &&& !has_extension(self.quotes)
    }
}

/// Whether the profits never rise along the sequence.
pub open spec fn ranked(opportunities: Seq<OpportunityView>) -> bool {
    forall|i: int, j: int|
        0 <= i < j < opportunities.len() ==> (#[trigger] opportunities[i]).profit >= (
        #[trigger] opportunities[j]).profit
}

/// A response whose total does not exceed the amount, or that has no route, is
/// no opportunity, whatever the least profit asked for.
pub proof fn lemma_unprofitable_is_no_opportunity(amount: nat, min_profit: nat, quotes: QuotesView)
    requires
        quotes.total <= amount || quotes.splits.len() == 0,
    ensures
        !is_opportunity(amount, min_profit, quotes),
{
}

/// A response with a hop through a pool with an extension is no opportunity,
/// however much it would pay.
pub proof fn lemma_extension_is_no_opportunity(
    amount: nat,
    min_profit: nat,
    quotes: QuotesView,
    split: int,
    hop: int,
)
    requires
        0 <= split < quotes.splits.len(),
        0 <= hop < quotes.splits[split].route.len(),
        quotes.splits[split].route[hop].pool_key.extension != 0,
    ensures
        !is_opportunity(amount, min_profit, quotes),
{
    assert(route_has_extension(quotes.splits[split].route));
}

/// Whether a hop of the route goes through a pool with an extension.
fn uses_extension(route: &Vec<RouteNode>) -> (r: bool)
    ensures
        r == route_has_extension(route_view(route@)),
{
    let mut hop: usize = 0;
    while hop < route.len()
        invariant
            hop <= route.len(),
            forall|k: int| 0 <= k < hop ==> (#[trigger] route_view(route@)[k]).pool_key.extension == 0,
        decreases route.len() - hop,
    {
        if !route[hop].pool_key.extension.is_zero() {
            assert(route_view(route@)[hop as int].pool_key.extension != 0);
            return true;
        }
        hop = hop + 1;
    }
    false
}

/// Whether a hop of a route of the response goes through a pool with an
/// extension.
fn any_extension(quotes: &Quotes) -> (r: bool)
    ensures
        r == has_extension(quotes@),
{
    let mut split: usize = 0;
    while split < quotes.splits.len()
        invariant
            split <= quotes.splits.len(),
            forall|k: int|
                0 <= k < split ==> !route_has_extension((#[trigger] quotes@.splits[k]).route),
        decreases quotes.splits.len() - split,
    {
        if uses_extension(&quotes.splits[split].route) {
            assert(route_has_extension(quotes@.splits[split as int].route));
            return true;
        }
        split = split + 1;
    }
    false
}

/// Decides whether the response `quotes` for the input `amount` is an
/// opportunity, and if so returns it with its profit.
pub fn check_arbitrage(amount: Scalar, min_profit: Scalar, quotes: Quotes) -> (r: Option<
    ArbitrageOpportunity,
>)
    ensures
        r is Some <==> is_opportunity(amount@, min_profit@, quotes@),
        r matches Some(opportunity) ==> opportunity@ == opportunity_of(amount@, quotes@),
        r matches Some(opportunity) ==> opportunity@.wf() && opportunity@.profit > min_profit@,
{
    if any_extension(&quotes) {
        return None;
    }
    if quotes.splits.len() == 0 {
        return None;
    }
    match quotes.total.checked_sub(&amount) {
        Some(profit) => {
            if min_profit.lt(&profit) {
                Some(ArbitrageOpportunity { amount, quotes, profit })
            } else {
                None
            }
        },
        None => None,
    }
}

/// One rung of the amount ladder with what the quote service answered for it:
/// `None` where the request failed.
#[derive(Debug)]
pub struct QuotedAmount {
    pub amount: Scalar,
    pub response: Option<Quotes>,
}

/// The value of a `QuotedAmount`.
pub struct QuotedAmountView {
    pub amount: nat,
    pub response: Option<QuotesView>,
}

impl View for QuotedAmount {
    type V = QuotedAmountView;

    open spec fn view(&self) -> QuotedAmountView {
        QuotedAmountView {
            amount: self.amount@,
            response: match self.response {
                Some(quotes) => Some(quotes@),
                None => None,
            },
        }
    }
}

/// The values of a sequence of quoted amounts.
pub open spec fn quoted_views(quoted: Seq<QuotedAmount>) -> Seq<QuotedAmountView> {
    quoted.map_values(|rung: QuotedAmount| rung@)
}

/// Whether a quoted amount is an opportunity: the request was answered, and
/// the answer is an opportunity for that amount.
pub open spec fn rung_is_opportunity(rung: QuotedAmountView, min_profit: nat) -> bool {
    rung.response matches Some(quotes) && is_opportunity(rung.amount, min_profit, quotes)
}

/// The opportunities among the quoted amounts, in the order of the ladder.
pub open spec fn candidates(quoted: Seq<QuotedAmountView>, min_profit: nat) -> Seq<
    OpportunityView,
>
    decreases quoted.len(),
{
    if quoted.len() == 0 {
        Seq::empty()
    } else if rung_is_opportunity(quoted.last(), min_profit) {
        candidates(quoted.drop_last(), min_profit).push(
            opportunity_of(quoted.last().amount, quoted.last().response->Some_0),
        )
    } else {
        candidates(quoted.drop_last(), min_profit)
    }
}

/// Whether the rung at index `rung` is an opportunity, and `opportunity` is
/// the one that it makes.
pub open spec fn made_by(
    quoted: Seq<QuotedAmountView>,
    min_profit: nat,
    opportunity: OpportunityView,
    rung: int,
) -> bool {
    &&& 0 <= rung < quoted.len()
    &&& rung_is_opportunity(quoted[rung], min_profit)
    &&& opportunity == opportunity_of(quoted[rung].amount, quoted[rung].response->Some_0)
}

/// The candidates are the opportunities that the answered rungs make, and no
/// others: a rung that failed, that does not pay more than `min_profit`, that
/// has no route or that touches an extension adds nothing.
pub proof fn lemma_candidates_members(
    quoted: Seq<QuotedAmountView>,
    min_profit: nat,
    opportunity: OpportunityView,
)
    ensures
        candidates(quoted, min_profit).contains(opportunity) <==> exists|rung: int|
            made_by(quoted, min_profit, opportunity, rung),
    decreases quoted.len(),
{
    let found = candidates(quoted, min_profit);
    if quoted.len() > 0 {
        let earlier = quoted.drop_last();
        let last = quoted.len() - 1;
        lemma_candidates_members(earlier, min_profit, opportunity);
        let earlier_found = candidates(earlier, min_profit);
        if found.contains(opportunity) {
            let at = choose|at: int| 0 <= at < found.len() && found[at] == opportunity;
            if rung_is_opportunity(quoted.last(), min_profit) && at == found.len() - 1 {
                assert(made_by(quoted, min_profit, opportunity, last));
            } else {
                assert(earlier_found[at] == opportunity);
                assert(earlier_found.contains(opportunity));
                let rung = choose|rung: int| made_by(earlier, min_profit, opportunity, rung);
                assert(quoted[rung] == earlier[rung]);
                assert(made_by(quoted, min_profit, opportunity, rung));
            }
        }
        if exists|rung: int| made_by(quoted, min_profit, opportunity, rung) {
            let rung = choose|rung: int| made_by(quoted, min_profit, opportunity, rung);
            if rung == last {
                assert(found[found.len() - 1] == opportunity);
            } else {
                assert(earlier[rung] == quoted[rung]);
                assert(made_by(earlier, min_profit, opportunity, rung));
                assert(earlier_found.contains(opportunity));
                let at = choose|at: int|
                    0 <= at < earlier_found.len() && earlier_found[at] == opportunity;
                assert(found[at] == opportunity);
            }
        }
    }
}

/// The opportunities of one profit, in the order in which they stand.
pub open spec fn with_profit(opportunities: Seq<OpportunityView>, profit: nat) -> Seq<
    OpportunityView,
>
    decreases opportunities.len(),
{
    if opportunities.len() == 0 {
        Seq::empty()
    } else if opportunities.last().profit == profit {
        with_profit(opportunities.drop_last(), profit).push(opportunities.last())
    } else {
        with_profit(opportunities.drop_last(), profit)
    }
}

/// Whether `ordered` keeps the order of `given` among equal profits: the
/// opportunities of any one profit stand in `ordered` as they stand in
/// `given`.
pub open spec fn keeps_ties(ordered: Seq<OpportunityView>, given: Seq<OpportunityView>) -> bool {
    forall|profit: nat| #[trigger] with_profit(ordered, profit) == with_profit(given, profit)
}

/// The opportunities of one profit in two sequences on end are those of the
/// first, then those of the second.
pub proof fn lemma_with_profit_concat(
    first: Seq<OpportunityView>,
    second: Seq<OpportunityView>,
    profit: nat,
)
    ensures
        with_profit(first + second, profit) == with_profit(first, profit) + with_profit(
            second,
            profit,
        ),
    decreases second.len(),
{
    if second.len() == 0 {
        assert(first + second =~= first);
        assert(with_profit(first, profit) + with_profit(second, profit) =~= with_profit(
            first,
            profit,
        ));
    } else {
        lemma_with_profit_concat(first, second.drop_last(), profit);
        assert((first + second).drop_last() =~= first + second.drop_last());
        assert((first + second).last() == second.last());
        if second.last().profit == profit {
            assert(with_profit(first + second, profit) =~= with_profit(first, profit)
                + with_profit(second, profit));
        }
    }
}

/// Where no opportunity has the profit, there are none of that profit.
pub proof fn lemma_with_profit_none(opportunities: Seq<OpportunityView>, profit: nat)
    requires
        forall|at: int|
            0 <= at < opportunities.len() ==> (#[trigger] opportunities[at]).profit != profit,
    ensures
        with_profit(opportunities, profit) == Seq::<OpportunityView>::empty(),
    decreases opportunities.len(),
{
    if opportunities.len() > 0 {
        let earlier = opportunities.drop_last();
        assert forall|at: int| 0 <= at < earlier.len() implies (#[trigger] earlier[at]).profit
            != profit by {
            assert(earlier[at] == opportunities[at]);
        }
        lemma_with_profit_none(earlier, profit);
        assert(opportunities.last() == opportunities[opportunities.len() - 1]);
    }
}

/// Whether `first` stands somewhere before `second` in the sequence.
pub open spec fn precedes(
    opportunities: Seq<OpportunityView>,
    first: OpportunityView,
    second: OpportunityView,
) -> bool {
    exists|i: int, j: int|
        0 <= i < j < opportunities.len() && #[trigger] opportunities[i] == first
            && #[trigger] opportunities[j] == second
}

/// An opportunity of the profit is among those of that profit.
proof fn lemma_with_profit_holds(opportunities: Seq<OpportunityView>, profit: nat, at: int)
    requires
        0 <= at < opportunities.len(),
        opportunities[at].profit == profit,
    ensures
        with_profit(opportunities, profit).contains(opportunities[at]),
    decreases opportunities.len(),
{
    let chosen = with_profit(opportunities, profit);
    if at == opportunities.len() - 1 {
        assert(chosen[chosen.len() - 1] == opportunities[at]);
    } else {
        let earlier = opportunities.drop_last();
        lemma_with_profit_holds(earlier, profit, at);
        let found = with_profit(earlier, profit);
        let k = choose|k: int| 0 <= k < found.len() && found[k] == earlier[at];
        assert(chosen[k] == opportunities[at]);
    }
}

/// Each of those of one profit is an opportunity of the sequence.
proof fn lemma_with_profit_member(opportunities: Seq<OpportunityView>, profit: nat, at: int)
    requires
        0 <= at < with_profit(opportunities, profit).len(),
    ensures
        opportunities.contains(with_profit(opportunities, profit)[at]),
    decreases opportunities.len(),
{
    let chosen = with_profit(opportunities, profit);
    if opportunities.len() > 0 {
        let earlier = opportunities.drop_last();
        let found = with_profit(earlier, profit);
        if at < found.len() {
            lemma_with_profit_member(earlier, profit, at);
            let i = choose|i: int| 0 <= i < earlier.len() && earlier[i] == found[at];
            assert(opportunities[i] == chosen[at]);
        } else {
            assert(opportunities[opportunities.len() - 1] == chosen[at]);
        }
    }
}

/// Two opportunities of one profit stand among those of that profit in the
/// order in which they stand in the sequence.
proof fn lemma_with_profit_keeps(
    opportunities: Seq<OpportunityView>,
    first: OpportunityView,
    second: OpportunityView,
)
    requires
        precedes(opportunities, first, second),
        first.profit == second.profit,
    ensures
        precedes(with_profit(opportunities, first.profit), first, second),
    decreases opportunities.len(),
{
    let profit = first.profit;
    let chosen = with_profit(opportunities, profit);
    let (i, j) = choose|i: int, j: int|
        0 <= i < j < opportunities.len() && #[trigger] opportunities[i] == first
            && #[trigger] opportunities[j] == second;
    let earlier = opportunities.drop_last();
    let found = with_profit(earlier, profit);
    if j == opportunities.len() - 1 {
        assert(earlier[i] == first);
        lemma_with_profit_holds(earlier, profit, i);
        let k = choose|k: int| 0 <= k < found.len() && found[k] == earlier[i];
        assert(chosen[k] == first && chosen[chosen.len() - 1] == second);
    } else {
        assert(earlier[i] == first && earlier[j] == second);
        lemma_with_profit_keeps(earlier, first, second);
        let (k, l) = choose|k: int, l: int|
            0 <= k < l < found.len() && #[trigger] found[k] == first && #[trigger] found[l]
                == second;
        assert(chosen[k] == first && chosen[l] == second);
    }
}

/// Two opportunities that stand in some order among those of one profit
/// stand in that order in the sequence.
proof fn lemma_with_profit_order(
    opportunities: Seq<OpportunityView>,
    profit: nat,
    first: OpportunityView,
    second: OpportunityView,
)
    requires
        precedes(with_profit(opportunities, profit), first, second),
    ensures
        precedes(opportunities, first, second),
    decreases opportunities.len(),
{
    let chosen = with_profit(opportunities, profit);
    let (k, l) = choose|k: int, l: int|
        0 <= k < l < chosen.len() && #[trigger] chosen[k] == first && #[trigger] chosen[l]
            == second;
    let earlier = opportunities.drop_last();
    let found = with_profit(earlier, profit);
    if l < found.len() {
        assert(found[k] == first && found[l] == second);
        lemma_with_profit_order(earlier, profit, first, second);
        let (i, j) = choose|i: int, j: int|
            0 <= i < j < earlier.len() && #[trigger] earlier[i] == first && #[trigger] earlier[j]
                == second;
        assert(opportunities[i] == first && opportunities[j] == second);
    } else {
        assert(found[k] == first);
        lemma_with_profit_member(earlier, profit, k);
        let i = choose|i: int| 0 <= i < earlier.len() && earlier[i] == found[k];
        assert(opportunities[i] == first && opportunities[opportunities.len() - 1] == second);
    }
}

/// A ranking that keeps ties is stable: of two opportunities of equal
/// profit, the one that was given first stands first in the ranking.
pub proof fn lemma_ties_keep_order(
    ordered: Seq<OpportunityView>,
    given: Seq<OpportunityView>,
    first: OpportunityView,
    second: OpportunityView,
)
    requires
        keeps_ties(ordered, given),
        precedes(given, first, second),
        first.profit == second.profit,
    ensures
        precedes(ordered, first, second),
{
    lemma_with_profit_keeps(given, first, second);
    assert(with_profit(ordered, first.profit) == with_profit(given, first.profit));
    lemma_with_profit_order(ordered, first.profit, first, second);
}

/// Putting an opportunity in after those of greater profit and before all
/// others puts it first among those of its own profit, and leaves those of
/// every other profit as they stood.
proof fn lemma_with_profit_insert(
    ordered: Seq<OpportunityView>,
    place: int,
    next: OpportunityView,
    profit: nat,
)
    requires
        0 <= place <= ordered.len(),
        forall|at: int| 0 <= at < place ==> (#[trigger] ordered[at]).profit > next.profit,
    ensures
        next.profit == profit ==> with_profit(ordered.insert(place, next), profit) == seq![next]
            + with_profit(ordered, profit),
        next.profit != profit ==> with_profit(ordered.insert(place, next), profit) == with_profit(
            ordered,
            profit,
        ),
{
    let before = ordered.subrange(0, place);
    let after = ordered.subrange(place, ordered.len() as int);
    let one = seq![next];
    assert(ordered =~= before + after);
    assert(ordered.insert(place, next) =~= (before + one) + after);
    lemma_with_profit_concat(before, after, profit);
    lemma_with_profit_concat(before + one, after, profit);
    lemma_with_profit_concat(before, one, profit);
    assert(one.drop_last() =~= Seq::<OpportunityView>::empty());
    assert(with_profit(one.drop_last(), profit) =~= Seq::<OpportunityView>::empty());
    if next.profit == profit {
        assert(with_profit(one, profit) =~= one);
        assert forall|at: int| 0 <= at < before.len() implies (#[trigger] before[at]).profit
            != profit by {
            assert(before[at] == ordered[at]);
        }
        lemma_with_profit_none(before, profit);
        assert(with_profit(ordered.insert(place, next), profit) =~= one + with_profit(
            ordered,
            profit,
        ));
    } else {
        assert(with_profit(one, profit) =~= Seq::<OpportunityView>::empty());
        assert(with_profit(ordered.insert(place, next), profit) =~= with_profit(ordered, profit));
    }
}

/// The empty sequence has no elements to count.
proof fn lemma_empty_to_multiset<A>()
    ensures
        Seq::<A>::empty().to_multiset() == Multiset::<A>::empty(),
{
    assert forall|a: A| Seq::<A>::empty().to_multiset().count(a) == 0 by {
        to_multiset_contains(Seq::<A>::empty(), a);
    }
    assert(Seq::<A>::empty().to_multiset() =~= Multiset::<A>::empty());
}

/// Orders opportunities by profit, the most profitable first. The result
/// holds the same opportunities, and those of equal profit keep the order in
/// which they were given.
pub fn rank(opportunities: Vec<ArbitrageOpportunity>) -> (ordered: Vec<ArbitrageOpportunity>)
    ensures
        ranked(opportunity_views(ordered@)),
        keeps_ties(opportunity_views(ordered@), opportunity_views(opportunities@)),
        opportunity_views(ordered@).to_multiset() == opportunity_views(
            opportunities@,
        ).to_multiset(),
        ordered@.len() == opportunities@.len(),
{
    let ghost all = opportunity_views(opportunities@);
    let mut rest = opportunities;
    let mut ordered: Vec<ArbitrageOpportunity> = Vec::new();
    proof {
        lemma_empty_to_multiset::<OpportunityView>();
        assert(opportunity_views(ordered@) =~= Seq::empty());
        assert(all.to_multiset().add(Multiset::empty()) =~= all.to_multiset());
        assert forall|profit: nat|
            #[trigger] with_profit(all, profit) + with_profit(
                opportunity_views(ordered@),
                profit,
            ) == with_profit(all, profit) by {
            assert(with_profit(all, profit) + Seq::<OpportunityView>::empty() =~= with_profit(
                all,
                profit,
            ));
        }
    }
    while rest.len() > 0
        invariant
            ranked(opportunity_views(ordered@)),
            opportunity_views(rest@).to_multiset().add(opportunity_views(ordered@).to_multiset())
                == all.to_multiset(),
            forall|profit: nat|
                #[trigger] with_profit(opportunity_views(rest@), profit) + with_profit(
                    opportunity_views(ordered@),
                    profit,
                ) == with_profit(all, profit),
            rest@.len() + ordered@.len() == all.len(),
        decreases rest.len(),
    {
        let ghost rest_before = opportunity_views(rest@);
        let ghost ordered_before = opportunity_views(ordered@);
        let next = rest.pop().unwrap();
        let mut place: usize = 0;
        while place < ordered.len() && next.profit.lt(&ordered[place].profit)
            invariant
                place <= ordered.len(),
                forall|k: int| 0 <= k < place ==> (#[trigger] ordered@[k]).profit@ > next.profit@,
            decreases ordered.len() - place,
        {
            place = place + 1;
        }
        proof {
            assert forall|k: int| 0 <= k < place implies (#[trigger] ordered_before[k]).profit
                > next@.profit by {
                assert(ordered_before[k] == ordered@[k]@);
            }
        }
        ordered.insert(place, next);
        proof {
            let rest_after = opportunity_views(rest@);
            let after = opportunity_views(ordered@);
            assert(rest_after =~= rest_before.drop_last());
            assert(rest_before =~= rest_after.push(next@));
            assert(rest_before.last() == next@);
            assert(after =~= ordered_before.insert(place as int, next@));
            to_multiset_build(rest_after, next@);
            to_multiset_insert(ordered_before, place as int, next@);
            assert(rest_after.to_multiset().add(after.to_multiset()) =~= all.to_multiset());
            assert forall|profit: nat|
                #[trigger] with_profit(rest_after, profit) + with_profit(after, profit)
                    == with_profit(all, profit) by {
                lemma_with_profit_insert(ordered_before, place as int, next@, profit);
                assert(with_profit(rest_before, profit) + with_profit(ordered_before, profit)
                    == with_profit(all, profit));
                if next@.profit == profit {
                    assert(with_profit(rest_before, profit) == with_profit(rest_after, profit).push(
                        next@,
                    ));
                    assert(with_profit(rest_after, profit) + (seq![next@] + with_profit(
                        ordered_before,
                        profit,
                    )) =~= with_profit(rest_after, profit).push(next@) + with_profit(
                        ordered_before,
                        profit,
                    ));
                } else {
                    assert(with_profit(rest_before, profit) == with_profit(rest_after, profit));
                }
            }
            assert forall|i: int, j: int| 0 <= i < j < after.len() implies (#[trigger] after[i]).profit
                >= (#[trigger] after[j]).profit by {
                if j < place {
                    assert(after[i] == ordered_before[i] && after[j] == ordered_before[j]);
                } else if j == place {
                    assert(after[i] == ordered_before[i]);
                } else if i < place {
                    assert(after[i] == ordered_before[i] && after[j] == ordered_before[j - 1]);
                } else if i == place {
                    assert(after[j] == ordered_before[j - 1]);
                    assert(ordered_before[place as int].profit <= next@.profit);
                    if j - 1 > place {
                        assert(ordered_before[place as int].profit >= ordered_before[j - 1].profit);
                    }
                } else {
                    assert(after[i] == ordered_before[i - 1] && after[j] == ordered_before[j - 1]);
                }
            }
        }
    }
    proof {
        lemma_empty_to_multiset::<OpportunityView>();
        assert(opportunity_views(rest@) =~= Seq::empty());
        assert(Multiset::empty().add(opportunity_views(ordered@).to_multiset())
            =~= opportunity_views(ordered@).to_multiset());
        assert forall|profit: nat|
            #[trigger] with_profit(opportunity_views(ordered@), profit) == with_profit(
                all,
                profit,
            ) by {
            assert(with_profit(opportunity_views(rest@), profit) + with_profit(
                opportunity_views(ordered@),
                profit,
            ) == with_profit(all, profit));
            assert(Seq::<OpportunityView>::empty() + with_profit(
                opportunity_views(ordered@),
                profit,
            ) =~= with_profit(opportunity_views(ordered@), profit));
        }
    }
    ordered
}

/// The candidates among two runs of quoted amounts on end are those of the
/// first, then those of the second.
pub proof fn lemma_candidates_concat(
    first: Seq<QuotedAmountView>,
    second: Seq<QuotedAmountView>,
    min_profit: nat,
)
    ensures
        candidates(first + second, min_profit) == candidates(first, min_profit) + candidates(
            second,
            min_profit,
        ),
    decreases second.len(),
{
    if second.len() == 0 {
        assert(first + second =~= first);
        assert(candidates(first, min_profit) + candidates(second, min_profit) =~= candidates(
            first,
            min_profit,
        ));
    } else {
        lemma_candidates_concat(first, second.drop_last(), min_profit);
        assert((first + second).drop_last() =~= first + second.drop_last());
        assert((first + second).last() == second.last());
        if rung_is_opportunity(second.last(), min_profit) {
            assert(candidates(first + second, min_profit) =~= candidates(first, min_profit)
                + candidates(second, min_profit));
        }
    }
}

/// The opportunity that the rung at index `rung` makes.
pub open spec fn rung_opportunity(quoted: Seq<QuotedAmountView>, rung: int) -> OpportunityView {
    opportunity_of(quoted[rung].amount, quoted[rung].response->Some_0)
}

/// Of two rungs that are opportunities, the earlier one's opportunity stands
/// before the later one's among the candidates.
pub proof fn lemma_candidates_keep_order(
    quoted: Seq<QuotedAmountView>,
    min_profit: nat,
    earlier: int,
    later: int,
)
    requires
        0 <= earlier < later < quoted.len(),
        rung_is_opportunity(quoted[earlier], min_profit),
        rung_is_opportunity(quoted[later], min_profit),
    ensures
        precedes(
            candidates(quoted, min_profit),
            rung_opportunity(quoted, earlier),
            rung_opportunity(quoted, later),
        ),
    decreases quoted.len(),
{
    let found = candidates(quoted, min_profit);
    let first = rung_opportunity(quoted, earlier);
    let second = rung_opportunity(quoted, later);
    let before = quoted.drop_last();
    let found_before = candidates(before, min_profit);
    assert(before[earlier] == quoted[earlier]);
    if later == quoted.len() - 1 {
        assert(made_by(before, min_profit, first, earlier));
        lemma_candidates_members(before, min_profit, first);
        let k = choose|k: int| 0 <= k < found_before.len() && found_before[k] == first;
        assert(found[k] == first && found[found.len() - 1] == second);
    } else {
        assert(before[later] == quoted[later]);
        lemma_candidates_keep_order(before, min_profit, earlier, later);
        let (k, l) = choose|k: int, l: int|
            0 <= k < l < found_before.len() && #[trigger] found_before[k] == first
                && #[trigger] found_before[l] == second;
        assert(found[k] == first && found[l] == second);
    }
}

/// The scan is stable: of two rungs that make opportunities of equal
/// profit, the earlier one's opportunity stands before the later one's in a
/// ranking of the candidates that keeps ties.
pub proof fn lemma_scan_is_stable(
    found: Seq<OpportunityView>,
    quoted: Seq<QuotedAmountView>,
    min_profit: nat,
    earlier: int,
    later: int,
)
    requires
        keeps_ties(found, candidates(quoted, min_profit)),
        0 <= earlier < later < quoted.len(),
        rung_is_opportunity(quoted[earlier], min_profit),
        rung_is_opportunity(quoted[later], min_profit),
        rung_opportunity(quoted, earlier).profit == rung_opportunity(quoted, later).profit,
    ensures
        precedes(found, rung_opportunity(quoted, earlier), rung_opportunity(quoted, later)),
{
    lemma_candidates_keep_order(quoted, min_profit, earlier, later);
    lemma_ties_keep_order(
        found,
        candidates(quoted, min_profit),
        rung_opportunity(quoted, earlier),
        rung_opportunity(quoted, later),
    );
}

/// The scan of one round: among the quoted amounts, those that are
/// opportunities, the most profitable first, and among those of equal profit
/// the one quoted earlier first.
pub fn scan(quoted: Vec<QuotedAmount>, min_profit: Scalar) -> (found: Vec<ArbitrageOpportunity>)
    ensures
        ranked(opportunity_views(found@)),
        keeps_ties(opportunity_views(found@), candidates(quoted_views(quoted@), min_profit@)),
        opportunity_views(found@).to_multiset() == candidates(
            quoted_views(quoted@),
            min_profit@,
        ).to_multiset(),
        forall|at: int|
            0 <= at < found@.len() ==> (#[trigger] opportunity_views(found@)[at]).wf() && exists|
                rung: int,
            |
                made_by(quoted_views(quoted@), min_profit@, opportunity_views(found@)[at], rung),
{
    let ghost all = quoted_views(quoted@);
    let ghost wanted = candidates(all, min_profit@);
    let mut rest = quoted;
    let mut kept: Vec<ArbitrageOpportunity> = Vec::new();
    proof {
        assert(opportunity_views(kept@) =~= Seq::empty());
        assert(Seq::<OpportunityView>::empty() + wanted =~= wanted);
    }
    while rest.len() > 0
        invariant
            wanted == candidates(all, min_profit@),
            opportunity_views(kept@) + candidates(quoted_views(rest@), min_profit@) == wanted,
        decreases rest.len(),
    {
        let ghost rest_before = quoted_views(rest@);
        let ghost kept_before = opportunity_views(kept@);
        let rung = rest.remove(0);
        let ghost one = seq![rung@];
        let ghost later = candidates(quoted_views(rest@), min_profit@);
        proof {
            assert(rest_before =~= one + quoted_views(rest@));
            lemma_candidates_concat(one, quoted_views(rest@), min_profit@);
            assert(one.drop_last() =~= Seq::<QuotedAmountView>::empty());
            assert(candidates(one.drop_last(), min_profit@) =~= Seq::<OpportunityView>::empty());
        }
        match rung.response {
            Some(quotes) => {
                match check_arbitrage(rung.amount, min_profit, quotes) {
                    Some(opportunity) => {
                        kept.push(opportunity);
                        proof {
                            assert(opportunity_views(kept@) =~= kept_before.push(opportunity@));
                            assert(candidates(one, min_profit@) =~= seq![opportunity@]);
                            assert(kept_before.push(opportunity@) + later =~= kept_before + (
                            seq![opportunity@] + later));
                        }
                    },
                    None => {
                        assert(candidates(one, min_profit@) =~= Seq::<OpportunityView>::empty());
                        assert(Seq::<OpportunityView>::empty() + later =~= later);
                    },
                }
            },
            None => {
                assert(candidates(one, min_profit@) =~= Seq::<OpportunityView>::empty());
                assert(Seq::<OpportunityView>::empty() + later =~= later);
            },
        }
    }
    proof {
        assert(quoted_views(rest@) =~= Seq::empty());
        assert(opportunity_views(kept@) + Seq::<OpportunityView>::empty() =~= opportunity_views(
            kept@,
        ));
        assert(opportunity_views(kept@) == wanted);
    }
    let found = rank(kept);
    proof {
        let views = opportunity_views(found@);
        assert forall|at: int| 0 <= at < found@.len() implies (#[trigger] views[at]).wf() && exists|
            rung: int,
        |
            made_by(all, min_profit@, views[at], rung) by {
            assert(views.contains(views[at]));
            to_multiset_contains(views, views[at]);
            to_multiset_contains(wanted, views[at]);
            lemma_candidates_members(all, min_profit@, views[at]);
        }
    }
    found
}

/// No amount below two to this power is quoted.
pub const LEAST_POWER: u8 = 32;

/// No amount from two to this power on is quoted, unless the ladder would
/// otherwise be empty.
pub const POWER_LIMIT: u8 = 65;

/// The exponent of the ladder's first amount: the configured one, but at
/// least `LEAST_POWER`.
pub open spec fn ladder_start(min_power: u8) -> int {
    if min_power > LEAST_POWER {
        min_power as int
    } else {
        LEAST_POWER as int
    }
}

/// The exponent at which the ladder ends, itself left out: the configured
/// one, but at most `POWER_LIMIT` and at least one more than the start.
pub open spec fn ladder_end(min_power: u8, max_power: u8) -> int {
    let capped = if max_power < POWER_LIMIT {
        max_power as int
    } else {
        POWER_LIMIT as int
    };
    if capped > ladder_start(min_power) + 1 {
        capped
    } else {
        ladder_start(min_power) + 1
    }
}

/// The ladder of input amounts: the powers of two from `ladder_start` up to,
/// not including, `ladder_end`. There is none where the start is no value of
/// the scalar field.
pub fn amounts_to_quote(min_power: u8, max_power: u8) -> (r: Option<Vec<Scalar>>)
    ensures
        r is Some <==> ladder_start(min_power) <= 251,
        r matches Some(amounts) ==> {
            &&& amounts@.len() == ladder_end(min_power, max_power) - ladder_start(min_power)
            &&& forall|rung: int|
                0 <= rung < amounts@.len() ==> (#[trigger] amounts@[rung])@ == pow2(
                    (ladder_start(min_power) + rung) as nat,
                )
        },
{
    let start: u8 = if min_power > LEAST_POWER {
        min_power
    } else {
        LEAST_POWER
    };
    if start > 251 {
        return None;
    }
    let capped: u8 = if max_power < POWER_LIMIT {
        max_power
    } else {
        POWER_LIMIT
    };
    let end: u8 = if capped > start + 1 {
        capped
    } else {
        start + 1
    };
    let mut amounts: Vec<Scalar> = Vec::new();
    let mut power: u8 = start;
    while power < end
        invariant
            start <= power <= end <= 252,
            amounts@.len() == power - start,
            forall|rung: int|
                0 <= rung < amounts@.len() ==> (#[trigger] amounts@[rung])@ == pow2(
                    (start + rung) as nat,
                ),
        decreases end - power,
    {
        match Scalar::power_of_two(power) {
            Some(amount) => amounts.push(amount),
            None => unreached(),
        }
        power = power + 1;
    }
    Some(amounts)
}

/// The amounts that a balance covers, in their order.
pub open spec fn affordable(amounts: Seq<nat>, balance: nat) -> Seq<nat>
    decreases amounts.len(),
{
    if amounts.len() == 0 {
        Seq::empty()
    } else if amounts.last() <= balance {
        affordable(amounts.drop_last(), balance).push(amounts.last())
    } else {
        affordable(amounts.drop_last(), balance)
    }
}

/// Keeps the amounts of the ladder that the account's balance covers.
pub fn affordable_amounts(amounts: &Vec<Scalar>, balance: &U256) -> (kept: Vec<Scalar>)
    ensures
        scalar_values(kept@) == affordable(scalar_values(amounts@), balance@),
{
    let ghost all = scalar_values(amounts@);
    let mut kept: Vec<Scalar> = Vec::new();
    let mut rung: usize = 0;
    assert(scalar_values(kept@) =~= Seq::empty());
    while rung < amounts.len()
        invariant
            rung <= amounts.len(),
            all == scalar_values(amounts@),
            scalar_values(kept@) == affordable(all.subrange(0, rung as int), balance@),
        decreases amounts.len() - rung,
    {
        let ghost before = scalar_values(kept@);
        proof {
            let longer = all.subrange(0, rung + 1);
            assert(longer.drop_last() =~= all.subrange(0, rung as int));
            assert(longer.last() == amounts@[rung as int]@);
        }
        if amounts[rung].to_u256().le(balance) {
            kept.push(amounts[rung]);
            assert(scalar_values(kept@) =~= before.push(amounts@[rung as int]@));
        }
        rung = rung + 1;
    }
    assert(all.subrange(0, rung as int) =~= all);
    kept
}

/// The requests of one scan: for each amount of the ladder, a request for
/// routes that trade that amount of the token for the same token, within the
/// limits on splits and hops.
pub fn quote_requests(
    client: &Client,
    amounts: &Vec<Scalar>,
    token_address: &str,
    max_splits: u8,
    max_hops: u8,
) -> (requests: Vec<QuoteRequest>)
    ensures
        requests@.len() == amounts@.len(),
        forall|rung: int|
            0 <= rung < amounts@.len() ==> (#[trigger] requests@[rung])@ == (QuoteRequestView {
                amount: amounts@[rung]@,
                token: token_address@,
                other_token: token_address@,
                max_splits: Some(max_splits),
                max_hops: Some(max_hops),
            }),
{
    let mut requests: Vec<QuoteRequest> = Vec::new();
    let mut rung: usize = 0;
    while rung < amounts.len()
        invariant
            rung <= amounts.len(),
            requests@.len() == rung,
            forall|earlier: int|
                0 <= earlier < rung ==> (#[trigger] requests@[earlier])@ == (QuoteRequestView {
                    amount: amounts@[earlier]@,
                    token: token_address@,
                    other_token: token_address@,
                    max_splits: Some(max_splits),
                    max_hops: Some(max_hops),
                }),
        decreases amounts.len() - rung,
    {
        requests.push(
            client.quotes(amounts[rung], token_address, token_address, max_splits, max_hops),
        );
        rung = rung + 1;
    }
    requests
}

/// Keeps the first `count` opportunities, or all of them where there are
/// fewer.
pub fn take_top(opportunities: Vec<ArbitrageOpportunity>, count: usize) -> (top: Vec<
    ArbitrageOpportunity,
>)
    ensures
        count < opportunities@.len() ==> top@ == opportunities@.subrange(0, count as int),
        count >= opportunities@.len() ==> top@ == opportunities@,
{
    let mut top = opportunities;
    if count < top.len() {
        top.truncate(count);
    }
    top
}

} // verus!
