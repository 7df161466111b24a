//! The quote service's client: how a request for quotes is put, and what is
//! taken from the answer. Sending the request is the caller's part.

use crate::models::{Quote, Quotes};
use crate::scalar::Scalar;
use vstd::prelude::*;

verus! {

/// The address of the quote service and the user agent sent with each request.
#[derive(Clone, Debug, PartialEq, Eq)]
pub struct Client {
    pub base_path: String,
    pub user_agent: String,
}

/// A request for quotes: how much of `token` to sell for `other_token`, and
/// the limits on the routes. Without limits the service answers with a single
/// route; with them, with a split over several.
#[derive(Clone, Debug, PartialEq, Eq)]
pub struct QuoteRequest {
    pub amount: Scalar,
    pub token: String,
    pub other_token: String,
    pub max_splits: Option<u8>,
    pub max_hops: Option<u8>,
}

/// The value of a `QuoteRequest`.
pub struct QuoteRequestView {
    pub amount: nat,
    pub token: Seq<char>,
    pub other_token: Seq<char>,
    pub max_splits: Option<u8>,
    pub max_hops: Option<u8>,
}

impl View for QuoteRequest {
    type V = QuoteRequestView;

    open spec fn view(&self) -> QuoteRequestView {
        QuoteRequestView {
            amount: self.amount@,
            token: self.token@,
            other_token: self.other_token@,
            max_splits: self.max_splits,
            max_hops: self.max_hops,
        }
    }
}

/// What the quote service answers: a single route, or a split over routes.
#[derive(Clone, Debug, PartialEq, Eq)]
pub enum QuoteResponse {
    Quote(Quote),
    Quotes(Quotes),
}

impl QuoteResponse {
    /// The single route of the answer, where it is one.
    pub fn into_quote(self) -> (r: Option<Quote>)
        ensures
            r == match self {
                QuoteResponse::Quote(quote) => Some(quote),
                QuoteResponse::Quotes(_) => None::<Quote>,
            },
    {
        match self {
            QuoteResponse::Quote(quote) => Some(quote),
            QuoteResponse::Quotes(_) => None,
        }
    }

    /// The split of the answer, where it is one.
    pub fn into_quotes(self) -> (r: Option<Quotes>)
        ensures
            r == match self {
                QuoteResponse::Quotes(quotes) => Some(quotes),
                QuoteResponse::Quote(_) => None::<Quotes>,
            },
    {
        match self {
            QuoteResponse::Quotes(quotes) => Some(quotes),
            QuoteResponse::Quote(_) => None,
        }
    }
}

impl Client {
    /// A client for the service at `base_path` that names itself `user_agent`.
    pub fn new(base_path: String, user_agent: String) -> (r: Client)
        ensures
            r.base_path@ == base_path@,
            r.user_agent@ == user_agent@,
    {
        Client { base_path, user_agent }
    }

    /// The request for the single best route that sells `amount` of `token`
    /// for `other_token`.
    pub fn quote(&self, amount: Scalar, token: &str, other_token: &str) -> (r: QuoteRequest)
        ensures
            r@ == (QuoteRequestView {
                amount: amount@,
                token: token@,
                other_token: other_token@,
                max_splits: None,
                max_hops: None,
            }),
    {
        QuoteRequest {
            amount,
            token: token.to_owned(),
            other_token: other_token.to_owned(),
            max_splits: None,
            max_hops: None,
        }
    }

    /// The request for routes that sell `amount` of `token` for `other_token`,
    /// split over at most `max_splits` routes of at most `max_hops` hops each.
    /// The same token on both sides asks for an arbitrage loop.
    pub fn quotes(
        &self,
        amount: Scalar,
        token: &str,
        other_token: &str,
        max_splits: u8,
        max_hops: u8,
    ) -> (r: QuoteRequest)
        ensures
            r@ == (QuoteRequestView {
                amount: amount@,
                token: token@,
                other_token: other_token@,
                max_splits: Some(max_splits),
                max_hops: Some(max_hops),
            }),
    {
        QuoteRequest {
            amount,
            token: token.to_owned(),
            other_token: other_token.to_owned(),
            max_splits: Some(max_splits),
            max_hops: Some(max_hops),
        }
    }
}

} // verus!
