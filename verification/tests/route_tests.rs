use swap_route::error::Error;
use swap_route::pool::Pool;
use swap_route::price::Price;
use swap_route::route::Route;
use swap_route::token::{Currency, Token};

fn token(chain_id: u32, address: u64) -> Token {
    Token { chain_id, address }
}

fn erc20(t: Token) -> Currency {
    Currency::Erc20 { token: t }
}

fn pool(chain_id: u32, token0: Token, token1: Token, price_num: u128, price_den: u128) -> Pool {
    Pool { chain_id, token0, token1, price_num, price_den }
}

/// Round-down fixed-point rendering of `num / den` at 4 decimals.
fn to_fixed4(num: u128, den: u128) -> String {
    let scaled = num * 10_000 / den;
    format!("{}.{:04}", scaled / 10_000, scaled % 10_000)
}

#[test]
fn test_route() {
    let weth = token(1, 9);
    let eth = Currency::Native { wrapped: weth };
    let token0 = token(1, 1);
    let token1 = token(1, 2);

    let pool_0_1 = pool(1, token0, token1, 1, 1);
    let pool_0_weth = pool(1, token0, weth, 1, 1);
    let pool_1_weth = pool(1, token1, weth, 1, 1);

    let route_0_1 = Route::new(vec![pool_0_1], erc20(token0), erc20(token1)).unwrap();

    // it constructs a path from the tokens
    assert_eq!(
        route_0_1.pools,
        vec![pool_0_1],
        "route_0_1.pools should be equal to pool_0_1"
    );
    assert_eq!(
        route_0_1.token_path,
        vec![token0, token1],
        "route.0_1.token_path should be equal to an vec![token0, token1]"
    );
    assert_eq!(
        route_0_1.input,
        erc20(token0),
        "roue_0_1.input should be equal to token0"
    );
    assert_eq!(
        route_0_1.output,
        erc20(token1),
        "route_0_output should be equal to token1"
    );
    assert_eq!(
        route_0_1.chain_id(),
        1,
        "route_0_1.chain_id should be equal to 1"
    );

    assert!(
        Route::new(vec![pool_0_1], erc20(weth), erc20(token1)).is_err(),
        "should fail if token is not present in the first pool"
    );

    assert!(
        Route::new(vec![pool_0_1], erc20(token0), erc20(weth)).is_err(),
        "should fail if token is not present in the first pool"
    );

    // can have a token as both input and output
    let route_0_2 = Route::new(
        vec![pool_0_weth, pool_0_1, pool_1_weth],
        erc20(weth),
        erc20(weth),
    )
    .unwrap();

    assert_eq!(
        route_0_2.pools,
        vec![pool_0_weth, pool_0_1, pool_1_weth],
        "route_0_1.pools should be equal to pool_0_1"
    );
    assert_eq!(
        route_0_2.input,
        erc20(weth),
        "token in input  should be equal to weth"
    );
    assert_eq!(
        route_0_2.output,
        erc20(weth),
        "token in output should be equal to weth"
    );

    // it supports a native input
    let route_0_3 = Route::new(vec![pool_0_weth], eth, erc20(token0)).unwrap();
    assert_eq!(
        route_0_3.pools,
        vec![pool_0_weth],
        "route should be equal to pool_0_1"
    );
    assert_eq!(route_0_3.input, eth, "token in input should be equal to weth");
    assert_eq!(
        route_0_3.output,
        erc20(token0),
        "token in output should be equal to weth"
    );

    // it supports a native output
    let route_0_4 = Route::new(vec![pool_0_weth], erc20(token0), eth).unwrap();
    assert_eq!(
        route_0_4.pools,
        vec![pool_0_weth],
        "route should be equal to pool_0_1"
    );
    assert_eq!(
        route_0_4.input,
        erc20(token0),
        "token in input should be equal to weth"
    );
    assert_eq!(route_0_4.output, eth, "token in output should be equal to weth");
}

#[test]
fn test_mid_price() {
    let token0 = token(1, 1);
    let token1 = token(1, 2);

    // a pool at a 1:5 price ratio: one token1 per five token0
    let pool_0_1 = pool(1, token0, token1, 1, 5);

    // correct for 0 -> 1
    let mut route = Route::new(vec![pool_0_1], erc20(token0), erc20(token1)).unwrap();
    let price = route.mid_price();
    assert_eq!(to_fixed4(price.numerator(), price.denominator()), "0.2000".to_string());
}

#[test]
fn test_empty_route_is_zero() {
    let token0 = token(1, 1);
    let token1 = token(1, 2);
    let r = Route::new(vec![], erc20(token0), erc20(token1));
    assert!(matches!(r, Err(Error::IsZero)));
}

#[test]
fn test_chain_mismatch() {
    let a = token(1, 1);
    let b = token(1, 2);
    let c = token(2, 3);
    let d = token(2, 4);
    let r = Route::new(
        vec![pool(1, a, b, 1, 1), pool(2, c, d, 1, 1)],
        erc20(a),
        erc20(d),
    );
    assert!(matches!(r, Err(Error::ChainIdIsDifferent)));
}

#[test]
fn test_output_not_in_last_pool() {
    let a = token(1, 1);
    let b = token(1, 2);
    let c = token(1, 3);
    let r = Route::new(vec![pool(1, a, b, 1, 1)], erc20(a), erc20(c));
    assert!(matches!(r, Err(Error::InvolvesToken)));
}

#[test]
fn test_broken_path() {
    let a = token(1, 1);
    let b = token(1, 2);
    let c = token(1, 3);
    let d = token(1, 4);
    // the middle pool shares no side with the running path token `b`
    let r = Route::new(
        vec![pool(1, a, b, 1, 1), pool(1, c, d, 1, 1), pool(1, d, a, 1, 1)],
        erc20(a),
        erc20(a),
    );
    assert!(matches!(r, Err(Error::TokenNotInPool)));
}

#[test]
fn test_error_precedence() {
    let a = token(1, 1);
    let b = token(1, 2);
    let c = token(2, 3);
    let d = token(2, 4);
    let e = token(1, 5);
    // both the chain check and the output check would fail: the chain check
    // comes first
    let r = Route::new(
        vec![pool(1, a, b, 1, 1), pool(2, c, d, 1, 1)],
        erc20(a),
        erc20(e),
    );
    assert!(matches!(r, Err(Error::ChainIdIsDifferent)));
    // both the output check and the path walk would fail: the output check
    // comes first
    let r2 = Route::new(
        vec![pool(1, a, b, 1, 1), pool(1, c, e, 1, 1)],
        erc20(a),
        erc20(d),
    );
    assert!(matches!(r2, Err(Error::InvolvesToken)));
}

#[test]
fn test_token_path_derivation() {
    let a = token(1, 1);
    let b = token(1, 2);
    let c = token(1, 3);
    let d = token(1, 4);
    let route = Route::new(
        vec![pool(1, a, b, 1, 1), pool(1, c, b, 1, 1), pool(1, c, d, 1, 1)],
        erc20(a),
        erc20(d),
    )
    .unwrap();
    assert_eq!(route.token_path.len(), route.pools.len() + 1);
    assert_eq!(route.token_path, vec![a, b, c, d]);
}

#[test]
fn test_two_hop_price_exact() {
    let a = token(1, 1);
    let b = token(1, 2);
    let c = token(1, 3);
    let mut route = Route::new(
        vec![pool(1, a, b, 3, 7), pool(1, b, c, 11, 13)],
        erc20(a),
        erc20(c),
    )
    .unwrap();
    let price = route.mid_price();
    assert_eq!(price.numerator(), 3 * 11);
    assert_eq!(price.denominator(), 7 * 13);
    assert_eq!(price.base, erc20(a));
    assert_eq!(price.quote, erc20(c));
}

#[test]
fn test_two_hop_price_large_components() {
    let a = token(1, 1);
    let b = token(1, 2);
    let c = token(1, 3);
    let n: u128 = 1_000_000_007;
    let d: u128 = 999_999_937;
    let mut route = Route::new(
        vec![pool(1, a, b, n, d), pool(1, b, c, n, d)],
        erc20(a),
        erc20(c),
    )
    .unwrap();
    let price = route.mid_price();
    assert_eq!(price.numerator(), n * n);
    assert_eq!(price.denominator(), d * d);
}

#[test]
fn test_mid_price_idempotent() {
    let a = token(1, 1);
    let b = token(1, 2);
    let mut route = Route::new(vec![pool(1, a, b, 2, 3)], erc20(a), erc20(b)).unwrap();
    let first = route.mid_price();
    let second = route.mid_price();
    assert_eq!(first, second);
    assert_eq!(route.mid_price, Some(first));
}

#[test]
fn test_mid_price_direction_flip() {
    let a = token(1, 1);
    let b = token(1, 2);
    // entering the pool on its token1 side multiplies in the reciprocal price
    let mut route = Route::new(vec![pool(1, a, b, 2, 3)], erc20(b), erc20(a)).unwrap();
    let price = route.mid_price();
    assert_eq!(price.numerator(), 3);
    assert_eq!(price.denominator(), 2);
    assert_eq!(price.base, erc20(b));
    assert_eq!(price.quote, erc20(a));
}

#[test]
fn test_mid_price_native_input_output() {
    let weth = token(1, 9);
    let eth = Currency::Native { wrapped: weth };
    let token0 = token(1, 1);
    let token1 = token(1, 2);
    let mut route = Route::new(
        vec![
            pool(1, token0, weth, 1, 1),
            pool(1, token0, token1, 1, 1),
            pool(1, token1, weth, 1, 1),
        ],
        eth,
        eth,
    )
    .unwrap();
    assert_eq!(route.input, route.output);
    assert_eq!(route.input.wrapped(), route.output.wrapped());
    let price = route.mid_price();
    assert_eq!(price.numerator(), 1);
    assert_eq!(price.denominator(), 1);
    assert_eq!(price.base, eth);
    assert_eq!(price.quote, eth);
}

#[test]
fn test_chain_id_accessor() {
    let a = token(7, 1);
    let b = token(7, 2);
    let c = token(7, 3);
    let route = Route::new(
        vec![pool(7, a, b, 1, 1), pool(7, b, c, 1, 1)],
        erc20(a),
        erc20(c),
    )
    .unwrap();
    assert_eq!(route.chain_id(), 7);
}

#[test]
fn test_price_multiply_exact() {
    let a = token(1, 1);
    let b = token(1, 2);
    let c = token(1, 3);
    let p1 = Price::new(erc20(a), erc20(b), 7, 3);
    let p2 = Price::new(erc20(b), erc20(c), 13, 11);
    let product = p1.multiply(&p2);
    assert_eq!(product.numerator(), 33);
    assert_eq!(product.denominator(), 91);
    assert_eq!(product.base, erc20(a));
    assert_eq!(product.quote, erc20(c));
}

#[test]
fn test_pool_accessors() {
    let a = token(1, 1);
    let b = token(1, 2);
    let c = token(1, 3);
    let p = pool(1, a, b, 2, 5);
    assert!(p.involves_token(&a));
    assert!(p.involves_token(&b));
    assert!(!p.involves_token(&c));
    assert_eq!(p.chain_id(), 1);
    let p0 = p.token0_price();
    assert_eq!(p0.numerator(), 2);
    assert_eq!(p0.denominator(), 5);
    let p1 = p.token1_price();
    assert_eq!(p1.numerator(), 5);
    assert_eq!(p1.denominator(), 2);
}

#[test]
fn test_currency_wrapped() {
    let weth = token(1, 9);
    let t = token(1, 4);
    assert_eq!(Currency::Native { wrapped: weth }.wrapped(), weth);
    assert_eq!(erc20(t).wrapped(), t);
}
