//! Turning an opportunity into the calls that execute it: the transfer that
//! pays the router, the swap, and the withdrawal that asserts the arbitrage
//! paid; and the tests that an opportunity passes before it is sent.

use crate::calldata::{
    call_data_for_multisplit, call_data_for_split, multisplit_words, split_words,
};
use crate::felt::{selector, selector_of};
use crate::models::{Quote, QuoteView, splits_view};
use crate::scalar::{Scalar, U256, scalar_values, word_base};
use crate::scanner::{ArbitrageOpportunity, OpportunityView, opportunity_views};
use vstd::prelude::*;

verus! {

/// One call of a contract: the contract, the entry point and its arguments.
#[derive(Clone, Debug, PartialEq, Eq)]
pub struct Call {
    pub to: Scalar,
    pub selector: Scalar,
    pub calldata: Vec<Scalar>,
}

/// The value of a `Call`.
pub struct CallView {
    pub to: nat,
    pub selector: nat,
    pub calldata: Seq<nat>,
}

impl View for Call {
    type V = CallView;

    open spec fn view(&self) -> CallView {
        CallView { to: self.to@, selector: self.selector@, calldata: scalar_values(self.calldata@) }
    }
}

/// The selectors of the entry points that this program calls.
#[derive(Clone, Copy, Debug, PartialEq, Eq)]
pub struct Selectors {
    /// The token's `transfer`.
    pub transfer: Scalar,
    /// The router's `clear_minimum`.
    pub clear_minimum: Scalar,
    /// The router's `multihop_swap`, which swaps along one route.
    pub multihop_swap: Scalar,
    /// The router's `multi_multihop_swap`, which swaps along a batch of routes.
    pub multi_multihop_swap: Scalar,
    /// The token's `balanceOf`.
    pub balance_of: Scalar,
}

/// The value of a `Selectors`.
pub struct SelectorsView {
    pub transfer: nat,
    pub clear_minimum: nat,
    pub multihop_swap: nat,
    pub multi_multihop_swap: nat,
    pub balance_of: nat,
}

impl View for Selectors {
    type V = SelectorsView;

    open spec fn view(&self) -> SelectorsView {
        SelectorsView {
            transfer: self.transfer@,
            clear_minimum: self.clear_minimum@,
            multihop_swap: self.multihop_swap@,
            multi_multihop_swap: self.multi_multihop_swap@,
            balance_of: self.balance_of@,
        }
    }
}

/// The selectors of the entry points by their names.
pub open spec fn entry_points() -> SelectorsView {
    SelectorsView {
        transfer: selector_of("transfer"@),
        clear_minimum: selector_of("clear_minimum"@),
        multihop_swap: selector_of("multihop_swap"@),
        multi_multihop_swap: selector_of("multi_multihop_swap"@),
        balance_of: selector_of("balanceOf"@),
    }
}

/// The selector of an entry point whose name is plain ASCII.
fn selector_of_ascii(name: &str) -> (r: Scalar)
    requires
        vstd::utf8::is_ascii_chars(name@),
    ensures
        r@ == selector_of(name@),
{
    match selector(name) {
        Ok(scalar) => scalar,
        Err(_) => unreached(),
    }
}

impl Selectors {
    /// Computes the selectors of the entry points that this program calls.
    pub fn new() -> (r: Selectors)
        ensures
            r@ == entry_points(),
    {
        proof {
            reveal_strlit("transfer");
            reveal_strlit("clear_minimum");
            reveal_strlit("multihop_swap");
            reveal_strlit("multi_multihop_swap");
            reveal_strlit("balanceOf");
        }
        Selectors {
            transfer: selector_of_ascii("transfer"),
            clear_minimum: selector_of_ascii("clear_minimum"),
            multihop_swap: selector_of_ascii("multihop_swap"),
            multi_multihop_swap: selector_of_ascii("multi_multihop_swap"),
            balance_of: selector_of_ascii("balanceOf"),
        }
    }
}

/// The contracts and entry points that the calls of one execution name.
#[derive(Clone, Copy, Debug, PartialEq, Eq)]
pub struct Venue {
    /// The token that is traded for itself.
    pub token_address: Scalar,
    /// The router that performs the swaps.
    pub router_address: Scalar,
    pub selectors: Selectors,
}

/// The value of a `Venue`.
pub struct VenueView {
    pub token_address: nat,
    pub router_address: nat,
    pub selectors: SelectorsView,
}

impl View for Venue {
    type V = VenueView;

    open spec fn view(&self) -> VenueView {
        VenueView {
            token_address: self.token_address@,
            router_address: self.router_address@,
            selectors: self.selectors@,
        }
    }
}

/// The call that pays `amount` of the token to the router. The amount is a
/// 256-bit argument, so it takes two words: itself and a zero high word.
pub open spec fn transfer_call_view(venue: VenueView, amount: nat) -> CallView {
    CallView {
        to: venue.token_address,
        selector: venue.selectors.transfer,
        calldata: seq![venue.router_address, amount, 0nat],
    }
}

/// The call that withdraws the token from the router and fails unless at
/// least `amount` comes out: the guard that makes the arbitrage atomic.
pub open spec fn clear_minimum_call_view(venue: VenueView, amount: nat) -> CallView {
    CallView {
        to: venue.router_address,
        selector: venue.selectors.clear_minimum,
        calldata: seq![venue.token_address, amount, 0nat],
    }
}

/// Whether the routes are a single route of a single hop: no arbitrage, which
/// takes two hops at least to come back to its token.
pub open spec fn is_single_hop(splits: Seq<QuoteView>) -> bool {
    splits.len() == 1 && splits[0].route.len() == 1
}

/// The swap call for the routes: the router's swap of one route where there
/// is exactly one, its swap of a batch of routes otherwise.
pub open spec fn swap_call_view(venue: VenueView, splits: Seq<QuoteView>) -> CallView {
    if splits.len() == 1 {
        CallView {
            to: venue.router_address,
            selector: venue.selectors.multihop_swap,
            calldata: split_words(splits[0], venue.token_address),
        }
    } else {
        CallView {
            to: venue.router_address,
            selector: venue.selectors.multi_multihop_swap,
            calldata: multisplit_words(splits, venue.token_address),
        }
    }
}

/// The three calls that execute an opportunity, in their order: pay the
/// input, swap, withdraw the output.
pub open spec fn bundle_view(venue: VenueView, opportunity: OpportunityView) -> Seq<CallView> {
    seq![
        transfer_call_view(venue, opportunity.amount),
        swap_call_view(venue, opportunity.quotes.splits),
        clear_minimum_call_view(venue, opportunity.amount),
    ]
}

/// The values of a sequence of calls.
pub open spec fn call_views(calls: Seq<Call>) -> Seq<CallView> {
    calls.map_values(|call: Call| call@)
}

/// Which of the router's two swap entry points the routes of an opportunity
/// go to. It is decided once, when the opportunity is executed.
#[derive(Debug)]
pub enum Swap {
    /// One route: the router's swap of one route.
    SingleSplit(Quote),
    /// No route or several: the router's swap of a batch.
    MultiSplit(Vec<Quote>),
}

impl Swap {
    /// The routes that the swap goes along.
    pub open spec fn splits(self) -> Seq<QuoteView> {
        match self {
            Swap::SingleSplit(split) => seq![split@],
            Swap::MultiSplit(batch) => splits_view(batch@),
        }
    }

    /// The call that performs the swap, by the entry point decided.
    pub open spec fn call_view(self, venue: VenueView) -> CallView {
        match self {
            Swap::SingleSplit(split) => CallView {
                to: venue.router_address,
                selector: venue.selectors.multihop_swap,
                calldata: split_words(split@, venue.token_address),
            },
            Swap::MultiSplit(batch) => CallView {
                to: venue.router_address,
                selector: venue.selectors.multi_multihop_swap,
                calldata: multisplit_words(splits_view(batch@), venue.token_address),
            },
        }
    }

    /// Decides the entry point for the routes: the swap of one route where
    /// there is exactly one, the swap of a batch otherwise. A single route of
    /// a single hop has none.
    pub fn resolve(splits: Vec<Quote>) -> (r: Option<Swap>)
        ensures
            r is None <==> is_single_hop(splits_view(splits@)),
            r matches Some(swap) ==> {
                &&& swap.splits() == splits_view(splits@)
                &&& swap is SingleSplit <==> splits@.len() == 1
            },
    {
        let mut splits = splits;
        let ghost views = splits_view(splits@);
        if splits.len() == 1 {
            let split = splits.pop().unwrap();
            assert(split@ == views[0]);
            if split.route.len() == 1 {
                None
            } else {
                assert(seq![split@] =~= views);
                Some(Swap::SingleSplit(split))
            }
        } else {
            Some(Swap::MultiSplit(splits))
        }
    }

    /// The call of the router that performs the swap.
    pub fn call(self, venue: &Venue) -> (r: Call)
        ensures
            r@ == self.call_view(venue@),
    {
        match self {
            Swap::SingleSplit(split) => Call {
                to: venue.router_address,
                selector: venue.selectors.multihop_swap,
                calldata: call_data_for_split(split, venue.token_address),
            },
            Swap::MultiSplit(batch) => Call {
                to: venue.router_address,
                selector: venue.selectors.multi_multihop_swap,
                calldata: call_data_for_multisplit(batch, venue.token_address),
            },
        }
    }
}

/// The call that pays `amount` of the token to the router.
pub fn transfer_call(venue: &Venue, amount: Scalar) -> (r: Call)
    ensures
        r@ == transfer_call_view(venue@, amount@),
{
    let mut calldata: Vec<Scalar> = Vec::new();
    calldata.push(venue.router_address);
    calldata.push(amount);
    calldata.push(Scalar::zero());
    assert(scalar_values(calldata@) =~= seq![venue.router_address@, amount@, 0nat]);
    Call { to: venue.token_address, selector: venue.selectors.transfer, calldata }
}

/// The call that withdraws the output from the router, asserting that it is
/// at least `amount`.
pub fn clear_minimum_call(venue: &Venue, amount: Scalar) -> (r: Call)
    ensures
        r@ == clear_minimum_call_view(venue@, amount@),
{
    let mut calldata: Vec<Scalar> = Vec::new();
    calldata.push(venue.token_address);
    calldata.push(amount);
    calldata.push(Scalar::zero());
    assert(scalar_values(calldata@) =~= seq![venue.token_address@, amount@, 0nat]);
    Call { to: venue.router_address, selector: venue.selectors.clear_minimum, calldata }
}

/// An opportunity made ready to send: its profit, its input amount and the
/// three calls that execute it.
#[derive(Debug)]
pub struct Execution {
    pub profit: Scalar,
    pub amount: Scalar,
    pub calls: [Call; 3],
}

/// The value of an `Execution`.
pub struct ExecutionView {
    pub profit: nat,
    pub amount: nat,
    pub calls: Seq<CallView>,
}

impl View for Execution {
    type V = ExecutionView;

    open spec fn view(&self) -> ExecutionView {
        ExecutionView {
            profit: self.profit@,
            amount: self.amount@,
            calls: call_views(self.calls@),
        }
    }
}

/// The execution that an opportunity makes at a venue.
pub open spec fn execution_of(venue: VenueView, opportunity: OpportunityView) -> ExecutionView {
    ExecutionView {
        profit: opportunity.profit,
        amount: opportunity.amount,
        calls: bundle_view(venue, opportunity),
    }
}

/// Builds the three calls that execute an opportunity. A single route of a
/// single hop is refused: no calls are built for it.
pub fn build_execution(venue: &Venue, opportunity: ArbitrageOpportunity) -> (r: Option<Execution>)
    ensures
        r is None <==> is_single_hop(opportunity@.quotes.splits),
        r matches Some(execution) ==> execution@ == execution_of(venue@, opportunity@),
{
    let ArbitrageOpportunity { amount, quotes, profit } = opportunity;
    let ghost splits = splits_view(quotes.splits@);
    match Swap::resolve(quotes.splits) {
        Some(swap) => {
            let swap_call = swap.call(venue);
            let calls = [transfer_call(venue, amount), swap_call, clear_minimum_call(venue, amount)];
            assert(swap_call@ == swap_call_view(venue@, splits)) by {
                if splits.len() == 1 {
                    assert(swap.splits()[0] == splits[0]);
                }
            }
            assert(call_views(calls@) =~= bundle_view(venue@, opportunity@));
            Some(Execution { profit, amount, calls })
        },
        None => None,
    }
}

/// Whether an opportunity can be executed with the balance at hand: the
/// balance covers its input amount, and it is no single route of a single
/// hop.
pub open spec fn is_executable(opportunity: OpportunityView, balance: nat) -> bool {
    opportunity.amount <= balance && !is_single_hop(opportunity.quotes.splits)
}

/// The opportunities that are looked at: the first `top`, or all of them
/// where there are fewer.
pub open spec fn considered(opportunities: Seq<OpportunityView>, top: nat) -> Seq<OpportunityView> {
    if top < opportunities.len() {
        opportunities.subrange(0, top as int)
    } else {
        opportunities
    }
}

/// Whether the opportunity at index `at` can be executed and none before it
/// can.
pub open spec fn is_first_executable(
    opportunities: Seq<OpportunityView>,
    balance: nat,
    at: int,
) -> bool {
    &&& 0 <= at < opportunities.len()
    &&& is_executable(opportunities[at], balance)
    &&& forall|earlier: int|
        0 <= earlier < at ==> !is_executable(#[trigger] opportunities[earlier], balance)
}

/// Whether the routes of an opportunity are a single route of a single hop.
pub fn single_hop(opportunity: &ArbitrageOpportunity) -> (r: bool)
    ensures
        r == is_single_hop(opportunity@.quotes.splits),
{
    if opportunity.quotes.splits.len() == 1 {
        assert(opportunity@.quotes.splits[0] == opportunity.quotes.splits@[0]@);
        opportunity.quotes.splits[0].route.len() == 1
    } else {
        false
    }
}

/// Whether the balance covers the opportunity and its routes are no single
/// hop.
pub fn can_execute(opportunity: &ArbitrageOpportunity, balance: &U256) -> (r: bool)
    ensures
        r == is_executable(opportunity@, balance@),
{
    opportunity.amount.to_u256().le(balance) && !single_hop(opportunity)
}

/// Picks the opportunity to execute in this round: going through the first
/// `top` opportunities in their order, the first whose input amount the
/// balance covers and whose routes are no single hop. Its calls are built;
/// the opportunities after it are not looked at.
pub fn select_execution(
    venue: &Venue,
    opportunities: Vec<ArbitrageOpportunity>,
    balance: &U256,
    top: usize,
) -> (r: Option<Execution>)
    ensures
        r matches Some(execution) ==> exists|at: int|
            is_first_executable(
                considered(opportunity_views(opportunities@), top as nat),
                balance@,
                at,
            ) && execution@ == execution_of(venue@, #[trigger] opportunity_views(opportunities@)[at]),
        r is None ==> forall|at: int|
            0 <= at < considered(opportunity_views(opportunities@), top as nat).len()
                ==> !is_executable(
                #[trigger] considered(opportunity_views(opportunities@), top as nat)[at],
                balance@,
            ),
{
    let ghost all = opportunity_views(opportunities@);
    let ghost looked_at = considered(all, top as nat);
    let mut rest = opportunities;
    let limit: usize = if top < rest.len() {
        top
    } else {
        rest.len()
    };
    let mut at: usize = 0;
    while at < limit
        invariant
            at <= limit,
            limit == looked_at.len(),
            limit <= rest@.len(),
            rest@ == opportunities@,
            all == opportunity_views(opportunities@),
            looked_at == considered(all, top as nat),
            forall|earlier: int|
                0 <= earlier < at ==> !is_executable(#[trigger] looked_at[earlier], balance@),
        decreases limit - at,
    {
        assert(looked_at[at as int] == rest@[at as int]@);
        if can_execute(&rest[at], balance) {
            let chosen = rest.remove(at);
            let built = build_execution(venue, chosen);
            proof {
                let first = at as int;
                assert(chosen@ == all[first]);
                assert(is_first_executable(looked_at, balance@, first));
                assert(built matches Some(execution) && execution@ == execution_of(
                    venue@,
                    opportunity_views(opportunities@)[first],
                ));
            }
            return built;
        }
        at = at + 1;
    }
    None
}

/// The fee limit for an estimated fee: twice the estimate, a margin against
/// fees that rise between the estimate and the execution.
pub open spec fn fee_limit_of(estimated_fee: nat) -> nat {
    2 * estimated_fee
}

/// Decides whether an execution pays for its fees: it is sent only where its
/// profit exceeds the fee limit. Returns that limit where the profit does,
/// `None` where it does not.
pub fn fee_limit_within(profit: Scalar, estimated_fee: Scalar) -> (r: Option<Scalar>)
    ensures
        r is Some <==> profit@ > fee_limit_of(estimated_fee@),
        r matches Some(limit) ==> limit@ == fee_limit_of(estimated_fee@),
{
    proof {
        use_type_invariant(&profit);
    }
    match estimated_fee.checked_double() {
        Some(limit) => {
            if limit.lt(&profit) {
                Some(limit)
            } else {
                None
            }
        },
        None => None,
    }
}

/// The call that asks the token for the balance of `account`.
pub open spec fn balance_call_view(venue: VenueView, account: nat) -> CallView {
    CallView {
        to: venue.token_address,
        selector: venue.selectors.balance_of,
        calldata: seq![account],
    }
}

/// The call that asks the token for the balance of `account`.
pub fn balance_call(venue: &Venue, account: Scalar) -> (r: Call)
    ensures
        r@ == balance_call_view(venue@, account@),
{
    let mut calldata: Vec<Scalar> = Vec::new();
    calldata.push(account);
    assert(scalar_values(calldata@) =~= seq![account@]);
    Call { to: venue.token_address, selector: venue.selectors.balance_of, calldata }
}

/// The balance that the token's answer spells: a 256-bit integer whose low
/// word is the low 128 bits of the first scalar and whose high word is the
/// low 128 bits of the second.
pub open spec fn balance_of_words(felts: Seq<nat>) -> nat {
    (felts[1] % word_base()) * word_base() + felts[0] % word_base()
}

/// Reads the account's balance off the token's answer. An answer of fewer
/// than two scalars spells none.
pub fn get_account_balance(felts: &Vec<Scalar>) -> (r: Option<U256>)
    ensures
        r is Some <==> felts@.len() >= 2,
        r matches Some(balance) ==> balance@ == balance_of_words(scalar_values(felts@)),
{
    if felts.len() < 2 {
        return None;
    }
    let low: u128 = felts[0].low128();
    let high: u128 = felts[1].low128();
    Some(U256::from_words(low, high))
}

} // verus!
