use vstd::prelude::*;

verus! {

/// A fungible token, identified by the chain it lives on and its address.
#[derive(Clone, Copy, Debug, PartialEq, Eq, Structural)]
pub struct Token {
    pub chain_id: u32,
    pub address: u64,
}

impl Token {
    /// Two tokens are the same exactly when chain and address agree.
    pub fn equals(&self, other: &Token) -> (r: bool)
        ensures
            r == (*self == *other),
    {
        self.chain_id == other.chain_id && self.address == other.address
    }
}

/// A currency: either a chain's native asset, which appears inside pools only
/// through its canonical wrapped token, or a token itself.
#[derive(Clone, Copy, Debug, PartialEq, Eq, Structural)]
pub enum Currency {
    /// A native asset, carrying the canonical wrapped token it trades as.
    Native { wrapped: Token },
    /// An ordinary token; its wrapped form is itself.
    Erc20 { token: Token },
}

impl Currency {
    /// The token form under which this currency appears inside pools: native
    /// assets map to their canonical wrapped token, tokens map to themselves.
    pub open spec fn spec_wrapped(self) -> Token {
        match self {
            Currency::Native { wrapped } => wrapped,
            Currency::Erc20 { token } => token,
        }
    }

    pub fn wrapped(&self) -> (r: Token)
        ensures
            r == self.spec_wrapped(),
    {
        match self {
            Currency::Native { wrapped } => *wrapped,
            Currency::Erc20 { token } => *token,
        }
    }
}

} // verus!
