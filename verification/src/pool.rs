use vstd::prelude::*;
use crate::token::{Currency, Token};
use crate::price::Price;

verus! {

/// A two-asset liquidity pool: a chain identifier, a fixed ordered token
/// pair, and the exact rational mid price of one unit of `token0` in terms of
/// `token1` (`price_num / price_den` units of `token1` per unit of `token0`).
///
/// The pool's internal liquidity mathematics is out of scope here: the
/// per-pool price is taken as already computed.
#[derive(Clone, Copy, Debug, PartialEq, Eq, Structural)]
pub struct Pool {
    pub chain_id: u32,
    pub token0: Token,
    pub token1: Token,
    pub price_num: u128,
    pub price_den: u128,
}

impl Pool {
    /// A well-formed pool never reports a price with a zero component: both
    /// directional prices are positive rationals.
    pub open spec fn wf(self) -> bool {
        self.price_num >= 1 && self.price_den >= 1
    }

    pub open spec fn spec_involves(self, t: Token) -> bool {
        t == self.token0 || t == self.token1
    }

    /// Whether `t` is one of the pool's two sides.
    pub fn involves_token(&self, t: &Token) -> (r: bool)
        ensures
            r == self.spec_involves(*t),
    {
        t.equals(&self.token0) || t.equals(&self.token1)
    }

    pub fn chain_id(&self) -> (r: u32)
        ensures
            r == self.chain_id,
    {
        self.chain_id
    }

    /// The price of one unit of `token0` in terms of `token1`.
    pub fn token0_price(&self) -> (r: Price)
        ensures
            r.base == (Currency::Erc20 { token: self.token0 }),
            r.quote == (Currency::Erc20 { token: self.token1 }),
            r.numerator == self.price_num,
            r.denominator == self.price_den,
    {
        Price {
            base: Currency::Erc20 { token: self.token0 },
            quote: Currency::Erc20 { token: self.token1 },
            numerator: self.price_num,
            denominator: self.price_den,
        }
    }

    /// The price of one unit of `token1` in terms of `token0`: the reciprocal
    /// of `token0_price`.
    pub fn token1_price(&self) -> (r: Price)
        ensures
            r.base == (Currency::Erc20 { token: self.token1 }),
            r.quote == (Currency::Erc20 { token: self.token0 }),
            r.numerator == self.price_den,
            r.denominator == self.price_num,
    {
        Price {
            base: Currency::Erc20 { token: self.token1 },
            quote: Currency::Erc20 { token: self.token0 },
            numerator: self.price_den,
            denominator: self.price_num,
        }
    }
}

} // verus!
