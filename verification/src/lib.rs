//! A swap route: an ordered chain of two-token liquidity pools connecting an
//! input currency to an output currency, together with the exact rational
//! composite price one input unit commands in output units.

pub mod error;
pub mod token;
pub mod pool;
pub mod price;
pub mod route;

