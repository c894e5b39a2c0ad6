//! The values that the contracts exchange.

use crate::failure::Failure;
use crate::math;
use crate::table::{Table, TableKey};
use vstd::prelude::*;

verus! {

// ---------------------------------------------------------------------------
// Identifiers
// ---------------------------------------------------------------------------

/// The address of an account or a contract: the 56 characters of its text key,
/// packed most significant byte first into three words and a half-word.
#[derive(Clone, Copy, Debug, PartialEq, Eq, Structural)]
pub struct Address {
    pub head: u128,
    pub body: u128,
    pub tail: u128,
    pub last: u64,
}

/// Thirty-two bytes: a hash, a salt or a discriminant, most significant byte
/// first.
#[derive(Clone, Copy, Debug, PartialEq, Eq, Structural)]
pub struct Bytes32 {
    pub hi: u128,
    pub lo: u128,
}

/// Names an order: the number under which it was created.
#[derive(Clone, Copy, Debug, PartialEq, Eq, Structural)]
pub struct OrderKey {
    pub nonce: u64,
}

/// Names a position: an account has at most one for each market, collateral
/// token and direction.
#[derive(Clone, Copy, Debug, PartialEq, Eq, Structural)]
pub struct PositionKey {
    pub account: Address,
    pub market: Address,
    pub collateral_token: Address,
    pub is_long: bool,
}

/// The storage key of a position.
#[derive(Clone, Copy, Debug, PartialEq, Eq, Structural)]
pub enum PositionStorageKey {
    Position(PositionKey),
}

/// The storage keys of an order: the order itself and its frozen flag.
#[derive(Clone, Copy, Debug, PartialEq, Eq, Structural)]
pub enum OrderStorageKey {
    Order(OrderKey),
    OrderFrozen(OrderKey),
}

impl TableKey for Address {
    type Id = Address;

    open spec fn id(&self) -> Address {
        *self
    }

    fn same(&self, other: &Self) -> (r: bool) {
        *self == *other
    }
}

impl TableKey for PositionStorageKey {
    type Id = PositionStorageKey;

    open spec fn id(&self) -> PositionStorageKey {
        *self
    }

    fn same(&self, other: &Self) -> (r: bool) {
        *self == *other
    }
}

impl TableKey for OrderStorageKey {
    type Id = OrderStorageKey;

    open spec fn id(&self) -> OrderStorageKey {
        *self
    }

    fn same(&self, other: &Self) -> (r: bool) {
        *self == *other
    }
}

// ---------------------------------------------------------------------------
// Markets and prices
// ---------------------------------------------------------------------------

/// A market: its pool-share token, the token whose price it tracks and the two
/// tokens that back it.
#[derive(Clone, Copy, Debug, PartialEq, Eq, Structural)]
pub struct MarketProps {
    pub market_token: Address,
    pub index_token: Address,
    pub long_token: Address,
    pub short_token: Address,
}

/// A price band, at thirty decimals.
#[derive(Clone, Copy, Debug, PartialEq, Eq, Structural)]
pub struct PriceProps {
    pub min: i128,
    pub max: i128,
}

impl PriceProps {
    /// The middle of the band, with the fraction dropped.
    pub open spec fn mid(self) -> int {
        math::trunc_div(self.min + self.max, 2)
    }

    /// The price that favours the trader (`maximize`) or disfavours them.
    pub open spec fn for_pnl(self, is_long: bool, maximize: bool) -> i128 {
        if is_long == maximize {
            self.max
        } else {
            self.min
        }
    }

    /// The middle of the band.
    pub fn mid_price(&self) -> (r: Result<i128, Failure>)
        ensures
            r == if math::fits(self.min + self.max) {
                Ok::<i128, Failure>(self.mid() as i128)
            } else {
                Err(Failure::Overflow)
            },
            r is Ok ==> math::fits(self.mid()),
    {
        reveal(math::trunc_div);
        match math::plus(self.min, self.max) {
            Ok(sum) => {
                assert(sum * 1 == sum);
                assert(math::fits(self.mid()));
                math::mul_div_wide(sum, 1, 2)
            },
            Err(e) => Err(e),
        }
    }

    /// The price that favours the trader (`maximize`) or disfavours them: the
    /// higher one for a long in profit, the lower one for a short.
    pub fn pick_price_for_pnl(&self, is_long: bool, maximize: bool) -> (r: i128)
        ensures
            r == self.for_pnl(is_long, maximize),
    {
        if is_long == maximize {
            self.max
        } else {
            self.min
        }
    }
}

/// The prices that the oracle holds for the current ledger.
pub struct PriceBoard {
    prices: Table<Address, PriceProps>,
}

impl View for PriceBoard {
    type V = Map<Address, PriceProps>;

    closed spec fn view(&self) -> Map<Address, PriceProps> {
        self.prices@
    }
}

/// The price of a token on a board, or its absence.
pub open spec fn price_of(board: Map<Address, PriceProps>, token: Address) -> Result<
    PriceProps,
    Failure,
> {
    if board.dom().contains(token) {
        Ok(board[token])
    } else {
        Err(Failure::PriceUnavailable)
    }
}

/// The middle price of a token on a board.
pub open spec fn mid_price_of(board: Map<Address, PriceProps>, token: Address) -> Result<
    i128,
    Failure,
> {
    match price_of(board, token) {
        Ok(p) => if math::fits(p.min + p.max) {
            Ok(p.mid() as i128)
        } else {
            Err(Failure::Overflow)
        },
        Err(e) => Err(e),
    }
}

impl PriceBoard {
    /// A board without prices.
    pub fn new() -> (r: Self)
        ensures
            r@ == Map::<Address, PriceProps>::empty(),
    {
        PriceBoard { prices: Table::new() }
    }

    /// Posts a price.
    pub fn post(&mut self, token: Address, price: PriceProps)
        ensures
            final(self)@ == old(self)@.insert(token, price),
    {
        self.prices.set(token, price);
    }

    /// The price of a token.
    pub fn get_primary_price(&self, token: &Address) -> (r: Result<PriceProps, Failure>)
        ensures
            r == price_of(self@, *token),
    {
        match self.prices.get(token) {
            Some(p) => Ok(*p),
            None => Err(Failure::PriceUnavailable),
        }
    }

    /// The middle price of a token.
    pub fn get_mid_price(&self, token: &Address) -> (r: Result<i128, Failure>)
        ensures
            r == mid_price_of(self@, *token),
    {
        match self.get_primary_price(token) {
            Ok(p) => p.mid_price(),
            Err(e) => Err(e),
        }
    }
}

// ---------------------------------------------------------------------------
// Positions
// ---------------------------------------------------------------------------

/// An open position.
#[derive(Clone, Copy, Debug, PartialEq, Eq, Structural)]
pub struct PositionProps {
    pub account: Address,
    pub market: Address,
    pub collateral_token: Address,
    pub size_in_usd: i128,
    pub size_in_tokens: i128,
    pub collateral_amount: i128,
    pub pending_impact_amount: i128,
    pub borrowing_factor: i128,
    pub funding_fee_amount_per_size: i128,
    pub long_claim_fnd_per_size: i128,
    pub short_claim_fnd_per_size: i128,
    pub increased_at_time: u64,
    pub decreased_at_time: u64,
    pub is_long: bool,
}

/// What a position owes, in collateral tokens.
#[derive(Clone, Copy, Debug, PartialEq, Eq, Structural)]
pub struct PositionFees {
    pub borrowing_fee_amount: i128,
    pub funding_fee_amount: i128,
    pub position_fee_amount: i128,
    pub total_cost_amount: i128,
}

/// What closing a position, or a slice of it, came to.
#[derive(Clone, Copy, Debug, PartialEq, Eq, Structural)]
pub struct DecreasePositionResult {
    pub execution_price: i128,
    pub pnl_usd: i128,
    pub output_amount: i128,
    pub secondary_output_amount: i128,
    pub remaining_collateral: i128,
    pub is_fully_closed: bool,
}

/// A position with what it is worth now.
#[derive(Clone, Copy, Debug, PartialEq, Eq, Structural)]
pub struct PositionInfo {
    pub position: PositionProps,
    pub pnl_usd: i128,
    pub uncapped_pnl_usd: i128,
    pub borrowing_fee_usd: i128,
    pub funding_fee_usd: i128,
    pub position_fee_usd: i128,
    pub liquidation_price: i128,
}

// ---------------------------------------------------------------------------
// Orders
// ---------------------------------------------------------------------------

/// What an order asks for.
#[derive(Clone, Copy, Debug, PartialEq, Eq, Structural)]
pub enum OrderType {
    MarketSwap,
    LimitSwap,
    MarketIncrease,
    LimitIncrease,
    MarketDecrease,
    LimitDecrease,
    StopLossDecrease,
    Liquidation,
    StopIncrease,
}

/// A stored order.
#[derive(Debug)]
pub struct OrderProps {
    pub account: Address,
    pub receiver: Address,
    pub market: Address,
    pub initial_collateral_token: Address,
    pub swap_path: Vec<Address>,
    pub size_delta_usd: i128,
    pub collateral_delta_amount: i128,
    pub trigger_price: i128,
    pub acceptable_price: i128,
    pub execution_fee: i128,
    pub min_output_amount: i128,
    pub order_type: OrderType,
    pub is_long: bool,
    pub updated_at_time: u64,
}

/// What a trader hands over to create an order.
#[derive(Debug)]
pub struct CreateOrderParams {
    pub receiver: Address,
    pub market: Address,
    pub initial_collateral_token: Address,
    pub swap_path: Vec<Address>,
    pub size_delta_usd: i128,
    pub collateral_delta_amount: i128,
    pub trigger_price: i128,
    pub acceptable_price: i128,
    pub execution_fee: i128,
    pub min_output_amount: i128,
    pub order_type: OrderType,
    pub is_long: bool,
}

// ---------------------------------------------------------------------------
// Views
// ---------------------------------------------------------------------------

/// What a pool is worth.
#[derive(Clone, Copy, Debug, PartialEq, Eq, Structural)]
pub struct PoolValueInfo {
    pub pool_value: i128,
    pub long_token_usd: i128,
    pub short_token_usd: i128,
    pub impact_pool_usd: i128,
    pub long_pnl: i128,
    pub short_pnl: i128,
    pub net_pnl: i128,
    pub total_borrowing_fees: i128,
}

/// The funding state of a market.
#[derive(Clone, Copy, Debug, PartialEq, Eq, Structural)]
pub struct FundingInfo {
    pub funding_factor_per_second: i128,
    pub long_funding_amount_per_size: i128,
    pub short_funding_amount_per_size: i128,
}

/// A position that auto-deleveraging may reduce.
#[derive(Clone, Copy, Debug, PartialEq, Eq, Structural)]
pub struct AdlCandidate {
    pub key: PositionKey,
    pub owner: Address,
    pub size_usd: u128,
    pub unrealised_pnl_usd: u128,
    pub pnl_to_size_ratio_bps: u32,
}

/// What a swap would come to.
#[derive(Clone, Copy, Debug, PartialEq, Eq, Structural)]
pub struct SwapEstimate {
    pub token_out: Address,
    pub amount_out: u128,
    pub price_impact_usd: i128,
    pub execution_price: u128,
    pub reverts_if_executed: bool,
}

} // verus!
