use vstd::prelude::*;

verus! {

/// The ways constructing a route can fail. All four are detected during
/// construction; the route is simply not built.
#[derive(Clone, Copy, Debug, PartialEq, Eq, Structural)]
pub enum Error {
    /// No pools were supplied.
    IsZero,
    /// The pools do not all report one chain identifier.
    ChainIdIsDifferent,
    /// The last pool does not involve the wrapped form of the output currency.
    InvolvesToken,
    /// Some hop's running path token is on neither side of that hop's pool.
    TokenNotInPool,
}

} // verus!
