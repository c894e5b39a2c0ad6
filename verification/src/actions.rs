//! What a call asks of the world outside, in order: transfers, calls of other
//! contracts and the events it publishes.

use crate::fee_handler::{
    FeeClaimed, FundingFeeClaimed, UiFeeAccrued, UiFeeClaimed, UiFeeFactorSet,
};
use crate::insurance_fund_router::{
    InsuranceFundConfigured, InsurancePenaltyRouted, InsuranceShortfallCovered,
};
use crate::order_cleanup::ExpiredOrderCancelled;
use crate::order_handler::{
    PositionClosedEvent, PositionDecreasedEvent, PositionIncreasedEvent, PositionLiquidatedEvent,
    PositionOpenedEvent,
};
use crate::referral_storage::{CodeOwnershipTransferred, CodeRegistered, TraderCodeSet};
use crate::test_faucet::FaucetEvent;
use crate::test_token::TokenEvent;
use crate::types::{Address, Bytes32, MarketProps, OrderKey, PositionKey};
use vstd::prelude::*;

verus! {

/// A published event.
#[derive(Debug, PartialEq, Eq)]
pub enum Event {
    /// A position grew.
    PositionIncrease {
        position: PositionKey,
        account: Address,
        size_delta_usd: i128,
        execution_price: i128,
    },
    /// A position shrank or closed.
    PositionDecrease {
        position: PositionKey,
        account: Address,
        size_delta_usd: i128,
        execution_price: i128,
        pnl_usd: i128,
    },
    PositionOpened(PositionOpenedEvent),
    PositionIncreased(PositionIncreasedEvent),
    PositionDecreased(PositionDecreasedEvent),
    PositionClosed(PositionClosedEvent),
    PositionLiquidated(PositionLiquidatedEvent),
    OrderCreated { key: OrderKey, account: Address, market: Address },
    OrderExecuted { key: OrderKey, account: Address },
    OrderCancelled { key: OrderKey, account: Address },
    OrderUpdated { key: OrderKey, account: Address },
    OrderFrozen { key: OrderKey },
    AdlExecuted { account: Address, market: Address, size_delta_usd: i128, pnl_usd: i128 },
    /// A keeper liquidated a position.
    LiquidationDone { position: PositionKey, keeper: Address },
    /// A keeper deleveraged a position.
    AdlRequested { position: PositionKey, size_delta_usd: i128, pnl_usd: i128 },
    FeeClaimed(FeeClaimed),
    FundingFeeClaimed(FundingFeeClaimed),
    UiFeeAccrued(UiFeeAccrued),
    UiFeeClaimed(UiFeeClaimed),
    UiFeeFactorSet(UiFeeFactorSet),
    InsuranceFundConfigured(InsuranceFundConfigured),
    InsurancePenaltyRouted(InsurancePenaltyRouted),
    InsuranceShortfallCovered(InsuranceShortfallCovered),
    ExpiredOrderCancelled(ExpiredOrderCancelled),
    /// A refund was made by hand.
    ManualRefund {
        admin: Address,
        token: Address,
        receiver: Address,
        amount: i128,
        reason: Bytes32,
    },
    MarketCreated(MarketProps),
    /// The code of the pool-share token was named.
    WasmHashSet { wasm_hash: Bytes32 },
    CodeRegistered(CodeRegistered),
    TraderCodeSet(TraderCodeSet),
    CodeOwnershipTransferred(CodeOwnershipTransferred),
    Token(TokenEvent),
    Faucet(FaucetEvent),
    /// The order keepers have been silent for longer than the store allows.
    KeeperStale { last_activity: u64, timestamp: u64 },
}

/// Something to be done outside.
#[derive(Debug, PartialEq, Eq)]
pub enum Action {
    /// Publish an event.
    Publish(Event),
    /// Let a market's pool pay out tokens.
    WithdrawFromPool { market: Address, token: Address, receiver: Address, amount: i128 },
    /// Let the order vault pay out tokens.
    VaultTransferOut { vault: Address, token: Address, receiver: Address, amount: i128 },
    /// Mint test tokens.
    TokenMint { token: Address, minter: Address, account: Address, amount: i128 },
    /// Transfer tokens between accounts.
    TokenTransfer { token: Address, from: Address, to: Address, amount: i128 },
    /// Deploy a pool-share token from a factory.
    DeployMarketToken { factory: Address, salt: Bytes32, wasm_hash: Bytes32 },
    /// Set up a deployed pool-share token.
    InitializeMarketToken {
        market_token: Address,
        admin: Address,
        role_store: Address,
        decimals: u32,
        name: &'static str,
        symbol: &'static str,
    },
    /// Replace the code of the contract that is called.
    UpdateCurrentContract { wasm_hash: Bytes32 },
    /// Tell the referral storage what a trader has traded.
    IncrementReferrerVolume { referral_storage: Address, trader: Address, volume_usd: u128 },
}

} // verus!
