//! The pools that price impact is paid into and paid out of: one for the swaps
//! of each token of a market, one for the positions of a market.

use crate::data_store::{DataStore, Key, Store};
use crate::failure::Failure;
use crate::math;
use crate::math::TOKEN_PRECISION;
use crate::types::{Address, MarketProps};
use vstd::prelude::*;

verus! {

/// The key of the pool that swaps into a token pay into and are paid from.
pub open spec fn swap_impact_key(market: MarketProps, token: Address) -> Key {
    Key::SwapImpactPoolAmount { market: market.market_token, token }
}

/// The key of the pool that position changes pay into and are paid from, in
/// index tokens.
pub open spec fn position_impact_key(market: MarketProps) -> Key {
    Key::PositionImpactPoolAmount { market: market.market_token }
}

/// What an impact comes to in tokens: a charge is rounded up, a rebate down.
pub open spec fn impact_tokens(impact_usd: int, price: int) -> int {
    if impact_usd < 0 {
        math::ceil_div((-impact_usd) * TOKEN_PRECISION, price)
    } else {
        math::trunc_div(impact_usd * TOKEN_PRECISION, price)
    }
}

/// What an impact makes of a pool: a negative impact is charged into it, a
/// positive one is paid out of it as far as it reaches.
pub open spec fn pool_after(pool: int, impact_usd: int, price: int) -> int {
    if impact_usd < 0 {
        pool + impact_tokens(impact_usd, price)
    } else {
        math::at_least_zero(pool - impact_tokens(impact_usd, price))
    }
}

/// What booking an impact makes of the store; without a price, or without an
/// impact, nothing.
pub open spec fn impact_booked(s: Store, key: Key, impact_usd: int, price: int) -> Result<
    Store,
    Failure,
> {
    let after = pool_after(s.u128_at(key) as int, impact_usd, price);
    if impact_usd == 0 || price <= 0 {
        Ok(s)
    } else if !math::fits(impact_tokens(impact_usd, price)) || !math::fits_unsigned(after) {
        Err(Failure::Overflow)
    } else {
        Ok(s.with_u128(key, after as u128))
    }
}

/// Books an impact in a pool.
fn book_impact(ds: &mut DataStore, key: Key, impact_usd: i128, price: i128) -> (r: Result<
    (),
    Failure,
>)
    ensures
        match impact_booked(old(ds)@, key, impact_usd as int, price as int) {
            Ok(s) => r == Ok::<(), Failure>(()) && final(ds)@ == s,
            Err(e) => r == Err::<(), Failure>(e) && final(ds)@ == old(ds)@,
        },
{
    if impact_usd == 0 || price <= 0 {
        return Ok(());
    }
    let pool: u128 = ds.get_u128(&key);
    if impact_usd < 0 {
        assert(impact_usd * -TOKEN_PRECISION == (-impact_usd) * TOKEN_PRECISION
            && (-impact_usd) * TOKEN_PRECISION >= 0) by (nonlinear_arith)
            requires
                impact_usd < 0,
                TOKEN_PRECISION > 0,
        ;
        proof {
            math::ceil_div_is_ceiling((-impact_usd) * TOKEN_PRECISION, price as int);
        }
        let charge: i128 = math::mul_div_wide_up(impact_usd, -TOKEN_PRECISION, price)?;
        let after: u128 = math::plus_signed(pool, charge)?;
        ds.put_u128(key, after);
    } else {
        assert(impact_usd * TOKEN_PRECISION >= 0) by (nonlinear_arith)
            requires
                impact_usd >= 0,
                TOKEN_PRECISION > 0,
        ;
        proof {
            math::trunc_div_is_floor(impact_usd * TOKEN_PRECISION, price as int);
        }
        let rebate: i128 = math::mul_div_wide(impact_usd, TOKEN_PRECISION, price)?;
        let paid: u128 = rebate as u128;
        ds.put_u128(
            key,
            if paid < pool {
                pool - paid
            } else {
                0
            },
        );
    }
    Ok(())
}

/// Books the price impact of a swap in the pool of the token that comes out.
pub fn apply_swap_impact_value(
    ds: &mut DataStore,
    market: &MarketProps,
    token: &Address,
    price: i128,
    impact_usd: i128,
) -> (r: Result<(), Failure>)
    ensures
        match impact_booked(
            old(ds)@,
            swap_impact_key(*market, *token),
            impact_usd as int,
            price as int,
        ) {
            Ok(s) => r == Ok::<(), Failure>(()) && final(ds)@ == s,
            Err(e) => r == Err::<(), Failure>(e) && final(ds)@ == old(ds)@,
        },
{
    book_impact(
        ds,
        Key::SwapImpactPoolAmount { market: market.market_token, token: *token },
        impact_usd,
        price,
    )
}

/// Books the price impact of a position change in the market's pool.
pub fn apply_position_impact_value(
    ds: &mut DataStore,
    market: &MarketProps,
    impact_usd: i128,
    index_price: i128,
) -> (r: Result<(), Failure>)
    ensures
        match impact_booked(
            old(ds)@,
            position_impact_key(*market),
            impact_usd as int,
            index_price as int,
        ) {
            Ok(s) => r == Ok::<(), Failure>(()) && final(ds)@ == s,
            Err(e) => r == Err::<(), Failure>(e) && final(ds)@ == old(ds)@,
        },
{
    book_impact(
        ds,
        Key::PositionImpactPoolAmount { market: market.market_token },
        impact_usd,
        index_price,
    )
}

// ---------------------------------------------------------------------------
// Laws
// ---------------------------------------------------------------------------

/// A negative impact always adds to the pool, and covers the impact in full.
pub proof fn charges_grow_the_pool(s: Store, key: Key, impact_usd: int, price: int)
    requires
        impact_usd < 0,
        price > 0,
    ensures
        impact_booked(s, key, impact_usd, price) matches Ok(t) ==> {
            let charged = t.u128_at(key) - s.u128_at(key);
            &&& charged > 0
            &&& charged * price >= (-impact_usd) * TOKEN_PRECISION
        },
{
    let owed = (-impact_usd) * TOKEN_PRECISION;
    assert(owed > 0) by (nonlinear_arith)
        requires
            owed == (-impact_usd) * TOKEN_PRECISION,
            impact_usd < 0,
            TOKEN_PRECISION > 0,
    ;
    math::ceil_div_is_ceiling(owed, price);
    let charge = math::ceil_div(owed, price);
    assert(charge > 0) by (nonlinear_arith)
        requires
            owed <= charge * price,
            owed > 0,
            price > 0,
    ;
}

/// A positive impact takes no more out of the pool than it is worth and than the
/// pool holds; where the pool does not reach, it is left empty.
pub proof fn rebates_are_capped_at_the_pool(s: Store, key: Key, impact_usd: int, price: int)
    requires
        impact_usd >= 0,
        price > 0,
    ensures
        impact_booked(s, key, impact_usd, price) matches Ok(t) ==> {
            let rebate = impact_tokens(impact_usd, price);
            let paid = s.u128_at(key) - t.u128_at(key);
            &&& 0 <= paid <= s.u128_at(key)
            &&& paid * price <= impact_usd * TOKEN_PRECISION
            &&& rebate <= s.u128_at(key) ==> paid == rebate
            &&& rebate >= s.u128_at(key) ==> t.u128_at(key) == 0
        },
{
    let due = impact_usd * TOKEN_PRECISION;
    assert(due >= 0) by (nonlinear_arith)
        requires
            due == impact_usd * TOKEN_PRECISION,
            impact_usd >= 0,
            TOKEN_PRECISION > 0,
    ;
    math::trunc_div_is_floor(due, price);
    if impact_usd == 0 {
        math::zero_divided(price);
    }
    if let Ok(t) = impact_booked(s, key, impact_usd, price) {
        let rebate = impact_tokens(impact_usd, price);
        let paid = s.u128_at(key) - t.u128_at(key);
        assert(paid * price <= due) by (nonlinear_arith)
            requires
                paid <= rebate,
                rebate * price <= due,
                price > 0,
        ;
    }
}

/// Booking an impact changes nothing but its pool.
pub proof fn impact_touches_one_pool(
    s: Store,
    key: Key,
    impact_usd: int,
    price: int,
    other: Key,
)
    requires
        other != key,
    ensures
        impact_booked(s, key, impact_usd, price) matches Ok(t) ==> {
            &&& t.u128_at(other) == s.u128_at(other)
            &&& t == (Store { words: t.words, ..s })
        },
{
}

} // verus!
