use vstd::prelude::*;
use crate::error::Error;
use crate::pool::Pool;
use crate::price::Price;
use crate::token::{Currency, Token};

verus! {

/// All pools report the chain identifier `chain_id`.
pub open spec fn all_on_chain(pools: Seq<Pool>, chain_id: u32) -> bool {
    forall|i: int| 0 <= i < pools.len() ==> (#[trigger] pools[i]).chain_id == chain_id
}

/// Every pool is well formed (reports a positive rational price).
pub open spec fn pools_priced(pools: Seq<Pool>) -> bool {
    forall|i: int| 0 <= i < pools.len() ==> (#[trigger] pools[i]).wf()
}

/// The token reached by crossing pool `p` when entering it with token `t`:
/// the pool's other side.
pub open spec fn pool_exit(t: Token, p: Pool) -> Token {
    if t == p.token0 {
        p.token1
    } else {
        p.token0
    }
}

/// The running path token after the first `i` hops, starting from `start`:
/// each hop advances to the other side of its pool.
pub open spec fn path_token(pools: Seq<Pool>, start: Token, i: int) -> Token
    decreases i,
{
    if i <= 0 {
        start
    } else {
        pool_exit(path_token(pools, start, i - 1), pools[i - 1])
    }
}

/// Walking the pools in order from `start`, every pool contains the running
/// path token on one of its two sides; only then does a continuous token path
/// exist through the whole sequence.
pub open spec fn path_connected(pools: Seq<Pool>, start: Token) -> bool {
    forall|i: int|
        0 <= i < pools.len() ==> pools[i].spec_involves(#[trigger] path_token(pools, start, i))
}

/// The full token path derived by walking the pools from `start`: one entry
/// per hop boundary, `pools.len() + 1` entries in all.
pub open spec fn derived_path(pools: Seq<Pool>, start: Token) -> Seq<Token> {
    Seq::new(pools.len() + 1, |i: int| path_token(pools, start, i))
}

/// An ordered chain of pools from an input currency to an output currency,
/// with the token path it induces and a one-shot cache for the composite mid
/// price.
pub struct Route {
    pub pools: Vec<Pool>,
    pub token_path: Vec<Token>,
    pub input: Currency,
    pub output: Currency,
    pub mid_price: Option<Price>,
}

impl Route {
    /// The invariants construction establishes: at least one pool, one chain,
    /// the wrapped output on a side of the last pool, a connected token path
    /// starting at the wrapped input, the stored path being the derived one,
    /// and the cache holding nothing but the composite mid price.
    pub open spec fn wf(self) -> bool {
        &&& self.pools@.len() >= 1
        &&& all_on_chain(self.pools@, self.pools@[0].chain_id)
        &&& self.pools@.last().spec_involves(self.output.spec_wrapped())
        &&& path_connected(self.pools@, self.input.spec_wrapped())
        &&& self.token_path@ == derived_path(self.pools@, self.input.spec_wrapped())
        &&& (self.mid_price matches Some(p) ==> p == self.spec_mid_price())
    }

    /// The composite mid price this route denotes: the componentwise product
    /// of the per-hop directional prices, tagged with the nominal input and
    /// output currencies. Meaningful only where the products fit `u128`.
    pub open spec fn spec_mid_price(self) -> Price {
        Price {
            base: self.input,
            quote: self.output,
            numerator: route_price_num(
                self.pools@,
                self.input.spec_wrapped(),
                self.pools@.len() as int,
            ) as u128,
            denominator: route_price_den(
                self.pools@,
                self.input.spec_wrapped(),
                self.pools@.len() as int,
            ) as u128,
        }
    }

    /// Validate a candidate pool sequence and derive its token path.
    ///
    /// Succeeds exactly on a non-empty sequence, all on one chain, whose last
    /// pool involves the wrapped output, and through which a continuous token
    /// path runs from the wrapped input; otherwise fails with the first
    /// violated invariant, in that order.
    pub fn new(pools: Vec<Pool>, input: Currency, output: Currency) -> (r: Result<Route, Error>)
        ensures
            pools@.len() == 0 ==> r == Err::<Route, Error>(Error::IsZero),
            pools@.len() >= 1 && !all_on_chain(pools@, pools@[0].chain_id) ==> r == Err::<
                Route,
                Error,
            >(Error::ChainIdIsDifferent),
            pools@.len() >= 1 && all_on_chain(pools@, pools@[0].chain_id) && !pools@.last().spec_involves(
                output.spec_wrapped(),
            ) ==> r == Err::<Route, Error>(Error::InvolvesToken),
            pools@.len() >= 1 && all_on_chain(pools@, pools@[0].chain_id) && pools@.last().spec_involves(
                output.spec_wrapped(),
            ) && !path_connected(pools@, input.spec_wrapped()) ==> r == Err::<Route, Error>(
                Error::TokenNotInPool,
            ),
            pools@.len() >= 1 && all_on_chain(pools@, pools@[0].chain_id) && pools@.last().spec_involves(
                output.spec_wrapped(),
            ) && path_connected(pools@, input.spec_wrapped()) ==> (r matches Ok(route)
                && route.pools@ == pools@ && route.token_path@ == derived_path(
                pools@,
                input.spec_wrapped(),
            ) && route.token_path@.len() == pools@.len() + 1 && route.input == input
                && route.output == output && route.mid_price is None && route.wf()),
    {
        if pools.len() == 0 {
            return Err(Error::IsZero);
        }
        let chain_id = pools[0].chain_id();
        let mut k: usize = 0;
        while k < pools.len()
            invariant
                0 <= k <= pools@.len(),
                chain_id == pools@[0].chain_id,
                forall|i: int| 0 <= i < k ==> (#[trigger] pools@[i]).chain_id == chain_id,
            decreases pools@.len() - k,
        {
            if pools[k].chain_id() != chain_id {
                return Err(Error::ChainIdIsDifferent);
            }
            k += 1;
        }
        let wrapped_input = input.wrapped();
        if !pools[pools.len() - 1].involves_token(&output.wrapped()) {
            return Err(Error::InvolvesToken);
        }
        let mut token_path: Vec<Token> = Vec::new();
        token_path.push(wrapped_input);
        let mut i: usize = 0;
        while i < pools.len()
            invariant
                0 <= i <= pools@.len(),
                pools@.len() >= 1,
                all_on_chain(pools@, pools@[0].chain_id),
                pools@.last().spec_involves(output.spec_wrapped()),
                token_path@.len() == i + 1,
                wrapped_input == input.spec_wrapped(),
                forall|j: int|
                    0 <= j <= i ==> token_path@[j] == #[trigger] path_token(
                        pools@,
                        input.spec_wrapped(),
                        j,
                    ),
                forall|j: int|
                    0 <= j < i ==> pools@[j].spec_involves(
                        #[trigger] path_token(pools@, input.spec_wrapped(), j),
                    ),
            decreases pools@.len() - i,
        {
            let pool = pools[i];
            let current = token_path[i];
            proof {
                assert(token_path@[i as int] == path_token(pools@, input.spec_wrapped(), i as int));
            }
            if !(current.equals(&pool.token0) || current.equals(&pool.token1)) {
                proof {
                    assert(!pools@[i as int].spec_involves(
                        path_token(pools@, input.spec_wrapped(), i as int),
                    ));
                }
                return Err(Error::TokenNotInPool);
            }
            let next = if current.equals(&pool.token0) {
                pool.token1
            } else {
                pool.token0
            };
            proof {
                assert(next == pool_exit(
                    path_token(pools@, input.spec_wrapped(), i as int),
                    pools@[i as int],
                ));
                assert(next == path_token(pools@, input.spec_wrapped(), i as int + 1));
            }
            token_path.push(next);
            i += 1;
        }
        proof {
            assert(token_path@ =~= derived_path(pools@, input.spec_wrapped()));
        }
        Ok(Route { pools, token_path, input, output, mid_price: None })
    }

    /// The chain identifier of the first pool; by the construction invariant
    /// it stands for every pool of the route.
    pub fn chain_id(&self) -> (r: u32)
        requires
            self.pools@.len() >= 1,
        ensures
            r == self.pools@[0].chain_id,
    {
        self.pools[0].chain_id()
    }

    /// The composite mid price from `input` to `output`, computed at most
    /// once per route and cached: a later call returns the cached value
    /// unchanged and leaves the route as it was.
    ///
    /// The result's fraction is exactly the componentwise product of the
    /// per-hop directional prices, rebuilt under the nominal (possibly
    /// native) input and output currencies.
    pub fn mid_price(&mut self) -> (r: Price)
        requires
            old(self).wf(),
            pools_priced(old(self).pools@),
            route_price_num(
                old(self).pools@,
                old(self).input.spec_wrapped(),
                old(self).pools@.len() as int,
            ) <= u128::MAX,
            route_price_den(
                old(self).pools@,
                old(self).input.spec_wrapped(),
                old(self).pools@.len() as int,
            ) <= u128::MAX,
        ensures
            r == old(self).spec_mid_price(),
            r.base == old(self).input,
            r.quote == old(self).output,
            r.numerator as int == route_price_num(
                old(self).pools@,
                old(self).input.spec_wrapped(),
                old(self).pools@.len() as int,
            ),
            r.denominator as int == route_price_den(
                old(self).pools@,
                old(self).input.spec_wrapped(),
                old(self).pools@.len() as int,
            ),
            final(self).pools@ == old(self).pools@,
            final(self).token_path@ == old(self).token_path@,
            final(self).input == old(self).input,
            final(self).output == old(self).output,
            final(self).mid_price == Some(r),
            final(self).wf(),
            old(self).mid_price matches Some(p) ==> r == p && *final(self) == *old(self),
    {
        if self.mid_price.is_none() {
            let ghost s = self.pools@;
            let ghost start = self.input.spec_wrapped();
            let ghost n = self.pools@.len() as int;
            let mut cur: Token = self.input.wrapped();
            let mut acc: Price = Price::new(self.input, self.output, 1, 1);
            let mut i: usize = 0;
            while i < self.pools.len()
                invariant
                    0 <= i <= s.len(),
                    self.pools@ == s,
                    n == s.len() as int,
                    start == self.input.spec_wrapped(),
                    pools_priced(s),
                    route_price_num(s, start, n) <= u128::MAX,
                    route_price_den(s, start, n) <= u128::MAX,
                    cur == path_token(s, start, i as int),
                    acc.numerator as int == route_price_num(s, start, i as int),
                    acc.denominator as int == route_price_den(s, start, i as int),
                decreases s.len() - i,
            {
                let pool = self.pools[i];
                proof {
                    lemma_route_price_bounds(s, start, i as int + 1, n);
                    assert(route_price_num(s, start, i as int + 1) == route_price_num(
                        s,
                        start,
                        i as int,
                    ) * hop_price_num(path_token(s, start, i as int), s[i as int]));
                    assert(route_price_den(s, start, i as int + 1) == route_price_den(
                        s,
                        start,
                        i as int,
                    ) * hop_price_den(path_token(s, start, i as int), s[i as int]));
                    assert(path_token(s, start, i as int + 1) == pool_exit(
                        path_token(s, start, i as int),
                        s[i as int],
                    ));
                }
                if cur.equals(&pool.token0) {
                    acc = acc.multiply(&pool.token0_price());
                    cur = pool.token1;
                } else {
                    acc = acc.multiply(&pool.token1_price());
                    cur = pool.token0;
                }
                i += 1;
            }
            let price = Price::new(self.input, self.output, acc.denominator(), acc.numerator());
            proof {
                lemma_route_price_bounds(s, start, n, n);
            }
            self.mid_price = Some(price);
            price
        } else {
            proof {
                lemma_route_price_bounds(
                    self.pools@,
                    self.input.spec_wrapped(),
                    self.pools@.len() as int,
                    self.pools@.len() as int,
                );
            }
            self.mid_price.unwrap()
        }
    }
}

/// Every composite-product prefix is positive, and no prefix exceeds a later
/// one: each per-hop factor of a priced pool is at least 1, so the running
/// products only grow. This is what lets a bound on the full product cover
/// every intermediate step.
proof fn lemma_route_price_bounds(pools: Seq<Pool>, start: Token, i: int, j: int)
    requires
        pools_priced(pools),
        0 <= i <= j <= pools.len(),
    ensures
        1 <= route_price_num(pools, start, i),
        1 <= route_price_den(pools, start, i),
        route_price_num(pools, start, i) <= route_price_num(pools, start, j),
        route_price_den(pools, start, i) <= route_price_den(pools, start, j),
    decreases j,
{
    if i == j {
        if i > 0 {
            lemma_route_price_bounds(pools, start, i - 1, j - 1);
            let pn = route_price_num(pools, start, i - 1);
            let pd = route_price_den(pools, start, i - 1);
            let hn = hop_price_num(path_token(pools, start, i - 1), pools[i - 1]);
            let hd = hop_price_den(path_token(pools, start, i - 1), pools[i - 1]);
            assert(pools[i - 1].wf());
            assert(1 <= pn * hn && 1 <= pd * hd) by (nonlinear_arith)
                requires
                    1 <= pn && 1 <= pd && 1 <= hn && 1 <= hd,
            ;
        }
    } else {
        lemma_route_price_bounds(pools, start, i, j - 1);
        lemma_route_price_bounds(pools, start, j - 1, j - 1);
        let pn = route_price_num(pools, start, j - 1);
        let pd = route_price_den(pools, start, j - 1);
        let hn = hop_price_num(path_token(pools, start, j - 1), pools[j - 1]);
        let hd = hop_price_den(path_token(pools, start, j - 1), pools[j - 1]);
        assert(pools[j - 1].wf());
        assert(pn <= pn * hn && pd <= pd * hd) by (nonlinear_arith)
            requires
                1 <= pn && 1 <= pd && 1 <= hn && 1 <= hd,
        ;
    }
}

/// Numerator of the composite price over the first `i` hops from `start`: the
/// product of the per-hop directional numerators. Entering a pool on its
/// `token0` side multiplies in its `token0` price; entering on the other side
/// multiplies in the reciprocal.
pub open spec fn route_price_num(pools: Seq<Pool>, start: Token, i: int) -> int
    decreases i,
{
    if i <= 0 {
        1
    } else {
        route_price_num(pools, start, i - 1) * hop_price_num(
            path_token(pools, start, i - 1),
            pools[i - 1],
        )
    }
}

/// Denominator counterpart of `route_price_num`.
pub open spec fn route_price_den(pools: Seq<Pool>, start: Token, i: int) -> int
    decreases i,
{
    if i <= 0 {
        1
    } else {
        route_price_den(pools, start, i - 1) * hop_price_den(
            path_token(pools, start, i - 1),
            pools[i - 1],
        )
    }
}

/// The numerator of the directional price of pool `p` when entered with `t`.
pub open spec fn hop_price_num(t: Token, p: Pool) -> int {
    if t == p.token0 {
        p.price_num as int
    } else {
        p.price_den as int
    }
}

/// The denominator of the directional price of pool `p` when entered with `t`.
pub open spec fn hop_price_den(t: Token, p: Pool) -> int {
    if t == p.token0 {
        p.price_den as int
    } else {
        p.price_num as int
    }
}

/// Law: a two-hop composite price is exact. For a route A -> B -> C crossed
/// in path direction (entering pool `a` at `a.token0` and pool `b` at
/// `b.token0 == a.token1`, so the per-hop prices are `a.price_num /
/// a.price_den` and `b.price_num / b.price_den`), the folded fraction is the
/// componentwise product `(a.price_num * b.price_num) / (a.price_den *
/// b.price_den)` — no rounding, whatever the magnitudes of the components.
pub proof fn lemma_two_hop_price_exact(a: Pool, b: Pool, start: Token)
    requires
        start == a.token0,
        a.token1 == b.token0,
    ensures
        route_price_num(seq![a, b], start, 2) == a.price_num * b.price_num,
        route_price_den(seq![a, b], start, 2) == a.price_den * b.price_den,
{
    let s = seq![a, b];
    assert(s[0] == a && s[1] == b);
    assert(path_token(s, start, 0) == start);
    assert(path_token(s, start, 1) == pool_exit(start, a));
    assert(route_price_num(s, start, 0) == 1);
    assert(route_price_den(s, start, 0) == 1);
    assert(route_price_num(s, start, 1) == 1 * hop_price_num(start, a));
    assert(route_price_den(s, start, 1) == 1 * hop_price_den(start, a));
    assert(route_price_num(s, start, 2) == route_price_num(s, start, 1) * hop_price_num(
        path_token(s, start, 1),
        b,
    ));
    assert(route_price_den(s, start, 2) == route_price_den(s, start, 1) * hop_price_den(
        path_token(s, start, 1),
        b,
    ));
}

} // verus!
