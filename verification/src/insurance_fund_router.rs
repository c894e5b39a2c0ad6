//! Routing of liquidation penalties to a market's insurance fund, and coverage
//! of shortfalls out of it.

use crate::actions::{Action, Event};
use crate::crypto;
use crate::data_store;
use crate::data_store::{DataStore, Key, Store};
use crate::failure::Failure;
use crate::ledger::Ledger;
use crate::math;
use crate::role_store::RoleStore;
use crate::types::Address;
use soroban_sdk::Env;
use vstd::prelude::*;

verus! {

/// One hundred per cent in basis points.
pub const BPS_DIVISOR: u128 = 10_000;

/// Why the router rejects a call.
#[derive(Clone, Copy, Debug, PartialEq, Eq, Structural)]
pub enum Error {
    AllocationTooHigh,
    MissingInsuranceFund,
}

/// A market's insurance fund was configured.
#[derive(Clone, Copy, Debug, PartialEq, Eq, Structural)]
pub struct InsuranceFundConfigured {
    pub market: Address,
    pub fund: Address,
    pub allocation_bps: u32,
}

/// A liquidation penalty was routed.
#[derive(Clone, Copy, Debug, PartialEq, Eq, Structural)]
pub struct InsurancePenaltyRouted {
    pub market: Address,
    pub token: Address,
    pub fund: Address,
    pub insurance_share: u128,
    pub treasury_share: u128,
}

/// A shortfall was covered, as far as the fund went.
#[derive(Clone, Copy, Debug, PartialEq, Eq, Structural)]
pub struct InsuranceShortfallCovered {
    pub market: Address,
    pub token: Address,
    pub fund: Address,
    pub requested_shortfall: u128,
    pub covered_by_fund: u128,
    pub pool_remainder: u128,
}

/// How a penalty is split.
#[derive(Clone, Copy, Debug, PartialEq, Eq, Structural)]
pub struct PenaltySplit {
    pub insurance_share: u128,
    pub treasury_share: u128,
}

/// How a shortfall is covered.
#[derive(Clone, Copy, Debug, PartialEq, Eq, Structural)]
pub struct ShortfallCoverage {
    pub covered_by_fund: u128,
    pub pool_remainder: u128,
}

/// The router.
pub struct InsuranceFundRouter;

/// The key of a market's insurance fund.
pub open spec fn fund_key(market: Address) -> Key {
    Key::Hashed(crypto::hash32(crypto::keyed_message(crypto::fund_address_tag(), market)))
}

/// The key of the part of a market's penalties that its insurance fund gets.
pub open spec fn allocation_key(market: Address) -> Key {
    Key::Hashed(crypto::hash32(crypto::keyed_message(crypto::fund_allocation_tag(), market)))
}

/// The key of a market's insurance fund.
pub fn insurance_fund_address_key(env: &Env, market: &Address) -> (r: Key)
    ensures
        r == fund_key(*market),
{
    Key::Hashed(crypto::fund_address_hash(env, market))
}

/// The key of the part of a market's penalties that its insurance fund gets.
pub fn insurance_fund_allocation_bps_key(env: &Env, market: &Address) -> (r: Key)
    ensures
        r == allocation_key(*market),
{
    Key::Hashed(crypto::fund_allocation_hash(env, market))
}

// ---------------------------------------------------------------------------
// Amounts
// ---------------------------------------------------------------------------

/// The fund's part of a penalty: the allocated basis points, with the fraction
/// dropped.
pub open spec fn insurance_share(penalty: u128, allocation_bps: u128) -> u128 {
    math::saturated(penalty * allocation_bps) / BPS_DIVISOR
}

/// How a penalty is split.
pub open spec fn split_of(penalty: u128, allocation_bps: u128) -> PenaltySplit {
    let share = insurance_share(penalty, allocation_bps);
    PenaltySplit {
        insurance_share: share,
        treasury_share: math::at_least_zero(penalty - share) as u128,
    }
}

/// Splits a penalty between the insurance fund and the treasury.
pub fn split_penalty(penalty: u128, allocation_bps: u128) -> (r: PenaltySplit)
    ensures
        r == split_of(penalty, allocation_bps),
{
    let insurance_share: u128 = math::saturating_mul(penalty, allocation_bps) / BPS_DIVISOR;
    let treasury_share: u128 = if insurance_share < penalty {
        penalty - insurance_share
    } else {
        0
    };
    PenaltySplit { insurance_share, treasury_share }
}

/// How a shortfall is covered out of a fund with a balance: the fund first, the
/// pool for the rest.
pub open spec fn coverage_of(shortfall: u128, fund_balance: i128) -> ShortfallCoverage {
    let available = math::at_least_zero(fund_balance as int);
    let covered = if available < shortfall {
        available as u128
    } else {
        shortfall
    };
    ShortfallCoverage { covered_by_fund: covered, pool_remainder: (shortfall - covered) as u128 }
}

/// Covers a shortfall out of a fund with a balance.
pub fn cover(shortfall: u128, fund_balance: i128) -> (r: ShortfallCoverage)
    ensures
        r == coverage_of(shortfall, fund_balance),
        r.covered_by_fund <= i128::MAX,
{
    let available: u128 = if fund_balance <= 0 {
        0
    } else {
        fund_balance as u128
    };
    let covered_by_fund: u128 = if available < shortfall {
        available
    } else {
        shortfall
    };
    ShortfallCoverage { covered_by_fund, pool_remainder: shortfall - covered_by_fund }
}

// ---------------------------------------------------------------------------
// What the calls do
// ---------------------------------------------------------------------------

/// What routing a penalty does.
pub struct Routing {
    pub split: PenaltySplit,
    pub actions: Seq<Action>,
}

/// The payment of the treasury's part.
pub open spec fn treasury_payment(
    token: Address,
    source: Address,
    treasury: Address,
    split: PenaltySplit,
) -> Seq<Action> {
    if split.treasury_share > 0 {
        seq![
            Action::TokenTransfer {
                token,
                from: source,
                to: treasury,
                amount: math::signed(split.treasury_share),
            },
        ]
    } else {
        Seq::empty()
    }
}

/// The payment of the fund's part, and its event.
pub open spec fn fund_payment(
    market: Address,
    token: Address,
    source: Address,
    fund: Address,
    split: PenaltySplit,
) -> Seq<Action> {
    seq![
        Action::TokenTransfer {
            token,
            from: source,
            to: fund,
            amount: math::signed(split.insurance_share),
        },
        Action::Publish(
            Event::InsurancePenaltyRouted(
                InsurancePenaltyRouted {
                    market,
                    token,
                    fund,
                    insurance_share: split.insurance_share,
                    treasury_share: split.treasury_share,
                },
            ),
        ),
    ]
}

/// What `route_liquidation_penalty` does, or why it is rejected.
pub open spec fn routing(
    s: Store,
    ledger: Ledger,
    market: Address,
    token: Address,
    source: Address,
    treasury: Address,
    penalty: u128,
) -> Result<Routing, Failure> {
    let split = split_of(penalty, s.u128_at(allocation_key(market)));
    if !ledger.authorised(source) {
        Err(Failure::MissingAuthorisation)
    } else if split.insurance_share == 0 {
        Ok(Routing { split, actions: treasury_payment(token, source, treasury, split) })
    } else {
        match s.address_at(fund_key(market)) {
            None => Err(Failure::Insurance(Error::MissingInsuranceFund)),
            Some(fund) => Ok(
                Routing {
                    split,
                    actions: fund_payment(market, token, source, fund, split) + treasury_payment(
                        token,
                        source,
                        treasury,
                        split,
                    ),
                },
            ),
        }
    }
}

/// What covering a shortfall asks of the world outside.
pub open spec fn coverage_actions(
    market: Address,
    token: Address,
    pool: Address,
    fund: Address,
    shortfall: u128,
    c: ShortfallCoverage,
) -> Seq<Action> {
    let covered = Action::Publish(
        Event::InsuranceShortfallCovered(
            InsuranceShortfallCovered {
                market,
                token,
                fund,
                requested_shortfall: shortfall,
                covered_by_fund: c.covered_by_fund,
                pool_remainder: c.pool_remainder,
            },
        ),
    );
    if c.covered_by_fund > 0 {
        seq![
            Action::TokenTransfer {
                token,
                from: fund,
                to: pool,
                amount: c.covered_by_fund as i128,
            },
            covered,
        ]
    } else {
        seq![covered]
    }
}

impl InsuranceFundRouter {
    /// Names a market's insurance fund and the part of its penalties that the
    /// fund gets, at most all of them.  Only a controller may.
    pub fn configure_insurance_fund(
        env: &Env,
        ledger: &Ledger,
        roles: &RoleStore,
        ds: &mut DataStore,
        out: &mut Vec<Action>,
        caller: Address,
        market: Address,
        fund: Address,
        allocation_bps: u32,
    ) -> (r: Result<(), Failure>)
        ensures
            r == if !ledger.authorised(caller) {
                Err::<(), Failure>(Failure::MissingAuthorisation)
            } else if allocation_bps > BPS_DIVISOR {
                Err(Failure::Insurance(Error::AllocationTooHigh))
            } else {
                data_store::write_check(roles@, *ledger, caller)
            },
            final(ds)@ == if r is Ok {
                old(ds)@.with_address(fund_key(market), fund).with_u128(
                    allocation_key(market),
                    allocation_bps as u128,
                )
            } else {
                old(ds)@
            },
            final(out)@ == if r is Ok {
                old(out)@.push(
                    Action::Publish(
                        Event::InsuranceFundConfigured(
                            InsuranceFundConfigured { market, fund, allocation_bps },
                        ),
                    ),
                )
            } else {
                old(out)@
            },
    {
        ledger.require_auth(&caller)?;
        if allocation_bps as u128 > BPS_DIVISOR {
            return Err(Failure::Insurance(Error::AllocationTooHigh));
        }
        ds.set_address(ledger, roles, caller, insurance_fund_address_key(env, &market), fund)?;
        ds.set_u128(
            ledger,
            roles,
            caller,
            insurance_fund_allocation_bps_key(env, &market),
            allocation_bps as u128,
        )?;
        out.push(
            Action::Publish(
                Event::InsuranceFundConfigured(
                    InsuranceFundConfigured { market, fund, allocation_bps },
                ),
            ),
        );
        Ok(())
    }

    /// The insurance fund of a market.
    pub fn get_insurance_fund(env: &Env, ds: &DataStore, market: &Address) -> (r: Option<Address>)
        ensures
            r == ds@.address_at(fund_key(*market)),
    {
        ds.get_address(&insurance_fund_address_key(env, market))
    }

    /// Splits a liquidation penalty and asks for the transfers to the insurance
    /// fund and the treasury.
    pub fn route_liquidation_penalty(
        env: &Env,
        ledger: &Ledger,
        ds: &DataStore,
        out: &mut Vec<Action>,
        market: Address,
        token: Address,
        source: Address,
        treasury: Address,
        liquidation_penalty: u128,
    ) -> (r: Result<PenaltySplit, Failure>)
        ensures
            match routing(
                ds@,
                *ledger,
                market,
                token,
                source,
                treasury,
                liquidation_penalty,
            ) {
                Ok(x) => r == Ok::<PenaltySplit, Failure>(x.split) && final(out)@ == old(out)@
                    + x.actions,
                Err(e) => r == Err::<PenaltySplit, Failure>(e) && final(out)@ == old(out)@,
            },
    {
        ledger.require_auth(&source)?;
        let split = Self::preview_penalty_split(env, ds, market, liquidation_penalty);
        let ghost planned = routing(
            ds@,
            *ledger,
            market,
            token,
            source,
            treasury,
            liquidation_penalty,
        );
        if split.insurance_share > 0 {
            let fund = match Self::get_insurance_fund(env, ds, &market) {
                Some(fund) => fund,
                None => {
                    return Err(Failure::Insurance(Error::MissingInsuranceFund));
                },
            };
            out.push(
                Action::TokenTransfer {
                    token,
                    from: source,
                    to: fund,
                    amount: math::to_signed(split.insurance_share),
                },
            );
            out.push(
                Action::Publish(
                    Event::InsurancePenaltyRouted(
                        InsurancePenaltyRouted {
                            market,
                            token,
                            fund,
                            insurance_share: split.insurance_share,
                            treasury_share: split.treasury_share,
                        },
                    ),
                ),
            );
        }
        if split.treasury_share > 0 {
            out.push(
                Action::TokenTransfer {
                    token,
                    from: source,
                    to: treasury,
                    amount: math::to_signed(split.treasury_share),
                },
            );
        }
        assert(out@ =~= old(out)@ + planned->Ok_0.actions);
        Ok(split)
    }

    /// Covers a shortfall of a market out of its insurance fund, as far as the
    /// fund's balance goes; the rest is the pool's.
    pub fn cover_shortfall(
        env: &Env,
        ds: &DataStore,
        out: &mut Vec<Action>,
        market: Address,
        token: Address,
        pool: Address,
        shortfall_amount: u128,
        fund_balance: i128,
    ) -> (r: Result<ShortfallCoverage, Failure>)
        ensures
            match ds@.address_at(fund_key(market)) {
                None => {
                    &&& r == Err::<ShortfallCoverage, Failure>(
                        Failure::Insurance(Error::MissingInsuranceFund),
                    )
                    &&& final(out)@ == old(out)@
                },
                Some(fund) => {
                    let c = coverage_of(shortfall_amount, fund_balance);
                    &&& r == Ok::<ShortfallCoverage, Failure>(c)
                    &&& final(out)@ == old(out)@ + coverage_actions(
                        market,
                        token,
                        pool,
                        fund,
                        shortfall_amount,
                        c,
                    )
                },
            },
    {
        let fund = match Self::get_insurance_fund(env, ds, &market) {
            Some(fund) => fund,
            None => {
                return Err(Failure::Insurance(Error::MissingInsuranceFund));
            },
        };
        let c = cover(shortfall_amount, fund_balance);
        if c.covered_by_fund > 0 {
            out.push(
                Action::TokenTransfer {
                    token,
                    from: fund,
                    to: pool,
                    amount: c.covered_by_fund as i128,
                },
            );
        }
        out.push(
            Action::Publish(
                Event::InsuranceShortfallCovered(
                    InsuranceShortfallCovered {
                        market,
                        token,
                        fund,
                        requested_shortfall: shortfall_amount,
                        covered_by_fund: c.covered_by_fund,
                        pool_remainder: c.pool_remainder,
                    },
                ),
            ),
        );
        assert(out@ =~= old(out)@ + coverage_actions(
            market,
            token,
            pool,
            fund,
            shortfall_amount,
            c,
        ));
        Ok(c)
    }

    /// How a penalty of a market would be split.
    pub fn preview_penalty_split(
        env: &Env,
        ds: &DataStore,
        market: Address,
        liquidation_penalty: u128,
    ) -> (r: PenaltySplit)
        ensures
            r == split_of(liquidation_penalty, ds@.u128_at(allocation_key(market))),
    {
        let allocation_bps: u128 = ds.get_u128(&insurance_fund_allocation_bps_key(env, &market));
        split_penalty(liquidation_penalty, allocation_bps)
    }
}

// ---------------------------------------------------------------------------
// Laws
// ---------------------------------------------------------------------------

/// With an allocation of at most all of it, a penalty is handed out exactly: the
/// two parts add up to it.
pub proof fn penalty_is_split_exactly(penalty: u128, allocation_bps: u128)
    requires
        allocation_bps <= BPS_DIVISOR,
    ensures
        ({
            let x = split_of(penalty, allocation_bps);
            x.insurance_share + x.treasury_share == penalty
        }),
{
    let product = penalty * allocation_bps;
    assert(product <= penalty * 10_000) by (nonlinear_arith)
        requires
            product == penalty * allocation_bps,
            allocation_bps <= 10_000,
    ;
    assert(insurance_share(penalty, allocation_bps) <= penalty);
}

/// An allocation of nothing sends the whole penalty to the treasury.
pub proof fn no_allocation_sends_all_to_the_treasury(penalty: u128)
    ensures
        split_of(penalty, 0) == (PenaltySplit { insurance_share: 0, treasury_share: penalty }),
{
    assert(penalty * 0 == 0) by (nonlinear_arith);
}

/// The fund pays first and the pool takes only the rest; the fund never pays
/// more than it has.
pub proof fn shortfall_is_covered_exactly(shortfall: u128, fund_balance: i128)
    ensures
        ({
            let c = coverage_of(shortfall, fund_balance);
            &&& c.covered_by_fund + c.pool_remainder == shortfall
            &&& c.covered_by_fund <= math::at_least_zero(fund_balance as int)
            &&& fund_balance >= shortfall ==> c.pool_remainder == 0
            &&& 0 <= fund_balance < shortfall ==> c.covered_by_fund == fund_balance
        }),
{
}

} // verus!
