//! Request and response shapes of the exchange's interface, and the
//! validation logic for order placement.
//!
//! The surrounding program parses transport-level input into these types and
//! hands them to the core; identifiers arrive already resolved to integers.

use vstd::prelude::*;

use crate::types::OrderType;

verus! {

/// A request to deposit money into the caller's wallet.
#[derive(Clone, Copy, Debug)]
pub struct AddMoneyRequest {
    pub amount: i64,
}

/// A request to grant the caller an initial holding of a stock.
#[derive(Clone, Copy, Debug)]
pub struct AddStockToUserRequest {
    pub stock_id: i64,
    pub quantity: i64,
}

/// A request to list a new stock.
#[derive(Clone, Debug)]
pub struct CreateStockRequest {
    pub stock_name: String,
}

/// A request to place an order: a market buy (no price) or a limit sell
/// (with an asking price).
#[derive(Clone, Copy, Debug)]
pub struct PlaceStockOrderRequest {
    pub stock_id: i64,
    pub is_buy: bool,
    pub order_type: OrderType,
    pub quantity: i64,
    pub price: Option<i64>,
}

impl PlaceStockOrderRequest {
    /// A placement request is coherent when its three shape fields agree: a
    /// buy is a market order and names no price, a sell is a limit order and
    /// names one.
    pub open spec fn spec_coherent(self) -> bool {
        ||| (self.is_buy && self.order_type == OrderType::Market && self.price is None)
        ||| (!self.is_buy && self.order_type == OrderType::Limit && self.price is Some)
    }

    /// Decides whether the request's shape fields agree; an incoherent
    /// request is rejected before it reaches the ledger.
    pub fn coherent(&self) -> (r: bool)
        ensures
            r == self.spec_coherent(),
    {
        (self.is_buy && self.order_type == OrderType::Market && self.price.is_none()) || (!self.is_buy
            && self.order_type == OrderType::Limit && self.price.is_some())
    }
}

/// A request to cancel a resting sell order by its transaction id.
#[derive(Clone, Copy, Debug)]
pub struct CancelStockTransactionRequest {
    pub stock_tx_id: i64,
}

/// A login request, handled by the authentication collaborator.
#[derive(Clone, Debug)]
pub struct LoginRequest {
    pub user_name: String,
    pub password: String,
}

/// A registration request, handled by the authentication collaborator.
#[derive(Clone, Debug)]
pub struct RegisterRequest {
    pub user_name: String,
    pub password: String,
    pub name: String,
}

/// The token handed back after a successful login.
#[derive(Clone, Debug)]
pub struct TokenResponse {
    pub token: String,
}

/// The resolved identity of an authenticated caller: the only thing the
/// core ever learns about a user.
#[derive(Clone, Copy, Debug)]
pub struct AuthUser(pub i64);

/// The claims carried by an authentication token: the subject's user id and
/// the expiry time in seconds.
#[derive(Clone, Copy, Debug)]
pub struct Jwt {
    pub sub: i64,
    pub exp: u64,
}

/// A caller's session, as the authentication collaborator sees it.
#[derive(Clone, Debug)]
pub struct User {
    pub session_token: String,
}

} // verus!
