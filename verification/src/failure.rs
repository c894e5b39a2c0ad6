//! What a call is rejected with.

use crate::adl_handler;
use crate::data_store;
use crate::decrease_position_utils::DecreasePositionError;
use crate::fee_handler;
use crate::increase_position_utils::IncreasePositionError;
use crate::insurance_fund_router;
use crate::liquidation_handler;
use crate::market_factory;
use crate::order_cleanup;
use crate::order_handler;
use crate::position_utils::PositionError;
use crate::referral_storage;
use crate::role_store;
use crate::swap_utils::SwapError;
use crate::test_faucet;
use crate::test_token;
use vstd::prelude::*;

verus! {

/// The reason a call is rejected.  A rejected call leaves no trace: every
/// public operation hands back its state as it was.
#[derive(Clone, Copy, Debug, PartialEq, Eq, Structural)]
pub enum Failure {
    /// A value left the range of its machine type.
    Overflow,
    /// A division by zero.
    DivisionByZero,
    /// An address that must authorise the call did not.
    MissingAuthorisation,
    /// The oracle has no price for a token.
    PriceUnavailable,
    /// A market is not registered.
    MarketNotFound,
    /// A position breaks a limit of its market.
    Position(PositionError),
    /// A position cannot grow as asked.
    Increase(IncreasePositionError),
    /// A position cannot shrink as asked.
    Decrease(DecreasePositionError),
    /// A swap cannot be done as asked.
    Swap(SwapError),
    /// The order handler rejects the call.
    Order(order_handler::Error),
    /// The liquidation handler rejects the call.
    Liquidation(liquidation_handler::Error),
    /// The auto-deleveraging handler rejects the call.
    Adl(adl_handler::Error),
    /// The fee handler rejects the call.
    Fee(fee_handler::Error),
    /// The insurance fund router rejects the call.
    Insurance(insurance_fund_router::Error),
    /// The order cleanup rejects the call.
    Cleanup(order_cleanup::Error),
    /// The market factory rejects the call.
    Factory(market_factory::Error),
    /// The token rejects the call.
    Token(test_token::Error),
    /// The faucet rejects the call.
    Faucet(test_faucet::Error),
    /// The referral storage rejects the call.
    Referral(referral_storage::Error),
    /// The store rejects the call.
    Store(data_store::Error),
    /// The store of roles rejects the call.
    Roles(role_store::Error),
    /// There is no such position.
    PositionNotFound,
}

/// The number under which a rejection is reported, told apart from the others of
/// the same contract; zero for what no contract numbers.
pub open spec fn code_of(failure: Failure) -> u32 {
    match failure {
        Failure::Overflow
        | Failure::DivisionByZero
        | Failure::MissingAuthorisation
        | Failure::PriceUnavailable
        | Failure::MarketNotFound
        | Failure::Store(_)
        | Failure::Roles(_)
        | Failure::PositionNotFound => 0,
        Failure::Position(e) => match e {
            PositionError::BelowMinCollateral => 1,
            PositionError::ExceedsMaxLeverage => 2,
            PositionError::ExceedsMaxOI => 3,
        },
        Failure::Increase(e) => match e {
            IncreasePositionError::PriceTooHigh => 1,
            IncreasePositionError::PriceTooLow => 2,
            IncreasePositionError::InsufficientCollateral => 3,
        },
        Failure::Decrease(e) => match e {
            DecreasePositionError::PriceTooLow => 1,
            DecreasePositionError::PriceTooHigh => 2,
        },
        Failure::Swap(e) => match e {
            SwapError::InvalidTokenIn => 1,
            SwapError::PathTooLong => 2,
            SwapError::DuplicateMarket => 3,
            SwapError::MissingQuote => 4,
            SwapError::NegativeOutput => 5,
        },
        Failure::Order(e) => match e {
            order_handler::Error::AlreadyInitialized => 1,
            order_handler::Error::NotInitialized => 2,
            order_handler::Error::Unauthorized => 3,
            order_handler::Error::OrderNotFound => 4,
            order_handler::Error::InvalidOrderType => 5,
            order_handler::Error::UnsatisfiedTrigger => 6,
            order_handler::Error::PriceTooHigh => 7,
            order_handler::Error::PriceTooLow => 8,
            order_handler::Error::OrderFrozen => 9,
            order_handler::Error::MaxLeverageExceeded => 10,
            order_handler::Error::ZeroCollateral => 11,
            order_handler::Error::SwapPathTooLong => 12,
            order_handler::Error::DuplicateMarketInPath => 13,
            order_handler::Error::InsufficientExecutionFee => 14,
        },
        Failure::Liquidation(e) => match e {
            liquidation_handler::Error::AlreadyInitialized => 1,
            liquidation_handler::Error::NotInitialized => 2,
            liquidation_handler::Error::Unauthorized => 3,
            liquidation_handler::Error::NotLiquidatable => 5,
        },
        Failure::Adl(e) => match e {
            adl_handler::Error::AlreadyInitialized => 1,
            adl_handler::Error::NotInitialized => 2,
            adl_handler::Error::Unauthorized => 3,
            adl_handler::Error::AdlNotRequired => 4,
            adl_handler::Error::InvalidInput => 5,
            adl_handler::Error::NotProfitable => 6,
            adl_handler::Error::PositionNotFound => 7,
        },
        Failure::Fee(e) => match e {
            fee_handler::Error::AlreadyInitialized => 1,
            fee_handler::Error::NotInitialized => 2,
            fee_handler::Error::Unauthorized => 3,
            fee_handler::Error::NothingToClaim => 4,
            fee_handler::Error::InvalidAmount => 5,
        },
        Failure::Insurance(e) => match e {
            insurance_fund_router::Error::AllocationTooHigh => 1,
            insurance_fund_router::Error::MissingInsuranceFund => 2,
        },
        Failure::Cleanup(e) => match e {
            order_cleanup::Error::OrderNotFound => 1,
            order_cleanup::Error::NotYetExpired => 2,
        },
        Failure::Factory(e) => match e {
            market_factory::Error::NotInitialized => 1,
            market_factory::Error::AlreadyInitialized => 2,
            market_factory::Error::Unauthorized => 3,
            market_factory::Error::MarketAlreadyExists => 4,
            market_factory::Error::WasmHashNotSet => 5,
            market_factory::Error::SingleTokenPoolNotSupported => 6,
        },
        Failure::Token(e) => match e {
            test_token::Error::AlreadyInitialized => 1,
            test_token::Error::NotInitialized => 2,
            test_token::Error::Unauthorized => 3,
            test_token::Error::InsufficientBalance => 4,
            test_token::Error::InsufficientAllowance => 5,
            test_token::Error::NegativeAmount => 6,
            test_token::Error::AllowanceExpired => 7,
            test_token::Error::Paused => 8,
        },
        Failure::Faucet(e) => match e {
            test_faucet::Error::AlreadyInitialized => 1,
            test_faucet::Error::NotInitialized => 2,
            test_faucet::Error::Unauthorized => 3,
            test_faucet::Error::TokenNotEnabled => 4,
            test_faucet::Error::InvalidAmount => 5,
            test_faucet::Error::ClaimTooSoon => 6,
        },
        Failure::Referral(e) => match e {
            referral_storage::Error::NotInitialized => 1,
            referral_storage::Error::AlreadyInitialized => 2,
            referral_storage::Error::Unauthorized => 3,
            referral_storage::Error::CodeAlreadyTaken => 4,
            referral_storage::Error::CodeNotFound => 5,
            referral_storage::Error::InvalidTier => 6,
            referral_storage::Error::InvalidInput => 7,
            referral_storage::Error::NotCodeOwner => 8,
            referral_storage::Error::CodeTooLong => 9,
            referral_storage::Error::InvalidCodeCharacters => 10,
            referral_storage::Error::EmptyCode => 11,
        },
    }
}

impl Failure {
    /// The number under which the rejection is reported.
    pub fn code(&self) -> (r: u32)
        ensures
            r == code_of(*self),
    {
        match *self {
            Failure::Overflow
            | Failure::DivisionByZero
            | Failure::MissingAuthorisation
            | Failure::PriceUnavailable
            | Failure::MarketNotFound
            | Failure::Store(_)
            | Failure::Roles(_)
            | Failure::PositionNotFound => 0,
            Failure::Position(e) => match e {
                PositionError::BelowMinCollateral => 1,
                PositionError::ExceedsMaxLeverage => 2,
                PositionError::ExceedsMaxOI => 3,
            },
            Failure::Increase(e) => match e {
                IncreasePositionError::PriceTooHigh => 1,
                IncreasePositionError::PriceTooLow => 2,
                IncreasePositionError::InsufficientCollateral => 3,
            },
            Failure::Decrease(e) => match e {
                DecreasePositionError::PriceTooLow => 1,
                DecreasePositionError::PriceTooHigh => 2,
            },
            Failure::Swap(e) => match e {
                SwapError::InvalidTokenIn => 1,
                SwapError::PathTooLong => 2,
                SwapError::DuplicateMarket => 3,
                SwapError::MissingQuote => 4,
                SwapError::NegativeOutput => 5,
            },
            Failure::Order(e) => match e {
                order_handler::Error::AlreadyInitialized => 1,
                order_handler::Error::NotInitialized => 2,
                order_handler::Error::Unauthorized => 3,
                order_handler::Error::OrderNotFound => 4,
                order_handler::Error::InvalidOrderType => 5,
                order_handler::Error::UnsatisfiedTrigger => 6,
                order_handler::Error::PriceTooHigh => 7,
                order_handler::Error::PriceTooLow => 8,
                order_handler::Error::OrderFrozen => 9,
                order_handler::Error::MaxLeverageExceeded => 10,
                order_handler::Error::ZeroCollateral => 11,
                order_handler::Error::SwapPathTooLong => 12,
                order_handler::Error::DuplicateMarketInPath => 13,
                order_handler::Error::InsufficientExecutionFee => 14,
            },
            Failure::Liquidation(e) => match e {
                liquidation_handler::Error::AlreadyInitialized => 1,
                liquidation_handler::Error::NotInitialized => 2,
                liquidation_handler::Error::Unauthorized => 3,
                liquidation_handler::Error::NotLiquidatable => 5,
            },
            Failure::Adl(e) => match e {
                adl_handler::Error::AlreadyInitialized => 1,
                adl_handler::Error::NotInitialized => 2,
                adl_handler::Error::Unauthorized => 3,
                adl_handler::Error::AdlNotRequired => 4,
                adl_handler::Error::InvalidInput => 5,
                adl_handler::Error::NotProfitable => 6,
                adl_handler::Error::PositionNotFound => 7,
            },
            Failure::Fee(e) => match e {
                fee_handler::Error::AlreadyInitialized => 1,
                fee_handler::Error::NotInitialized => 2,
                fee_handler::Error::Unauthorized => 3,
                fee_handler::Error::NothingToClaim => 4,
                fee_handler::Error::InvalidAmount => 5,
            },
            Failure::Insurance(e) => match e {
                insurance_fund_router::Error::AllocationTooHigh => 1,
                insurance_fund_router::Error::MissingInsuranceFund => 2,
            },
            Failure::Cleanup(e) => match e {
                order_cleanup::Error::OrderNotFound => 1,
                order_cleanup::Error::NotYetExpired => 2,
            },
            Failure::Factory(e) => match e {
                market_factory::Error::NotInitialized => 1,
                market_factory::Error::AlreadyInitialized => 2,
                market_factory::Error::Unauthorized => 3,
                market_factory::Error::MarketAlreadyExists => 4,
                market_factory::Error::WasmHashNotSet => 5,
                market_factory::Error::SingleTokenPoolNotSupported => 6,
            },
            Failure::Token(e) => match e {
                test_token::Error::AlreadyInitialized => 1,
                test_token::Error::NotInitialized => 2,
                test_token::Error::Unauthorized => 3,
                test_token::Error::InsufficientBalance => 4,
                test_token::Error::InsufficientAllowance => 5,
                test_token::Error::NegativeAmount => 6,
                test_token::Error::AllowanceExpired => 7,
                test_token::Error::Paused => 8,
            },
            Failure::Faucet(e) => match e {
                test_faucet::Error::AlreadyInitialized => 1,
                test_faucet::Error::NotInitialized => 2,
                test_faucet::Error::Unauthorized => 3,
                test_faucet::Error::TokenNotEnabled => 4,
                test_faucet::Error::InvalidAmount => 5,
                test_faucet::Error::ClaimTooSoon => 6,
            },
            Failure::Referral(e) => match e {
                referral_storage::Error::NotInitialized => 1,
                referral_storage::Error::AlreadyInitialized => 2,
                referral_storage::Error::Unauthorized => 3,
                referral_storage::Error::CodeAlreadyTaken => 4,
                referral_storage::Error::CodeNotFound => 5,
                referral_storage::Error::InvalidTier => 6,
                referral_storage::Error::InvalidInput => 7,
                referral_storage::Error::NotCodeOwner => 8,
                referral_storage::Error::CodeTooLong => 9,
                referral_storage::Error::InvalidCodeCharacters => 10,
                referral_storage::Error::EmptyCode => 11,
            },
        }
    }
}

/// The numbers tell the rejections of one contract apart.
pub proof fn codes_tell_rejections_apart(a: Failure, b: Failure)
    requires
        code_of(a) == code_of(b),
    ensures
        a is Position && b is Position ==> a == b,
        a is Increase && b is Increase ==> a == b,
        a is Decrease && b is Decrease ==> a == b,
        a is Swap && b is Swap ==> a == b,
        a is Order && b is Order ==> a == b,
        a is Liquidation && b is Liquidation ==> a == b,
        a is Adl && b is Adl ==> a == b,
        a is Fee && b is Fee ==> a == b,
        a is Insurance && b is Insurance ==> a == b,
        a is Cleanup && b is Cleanup ==> a == b,
        a is Factory && b is Factory ==> a == b,
        a is Token && b is Token ==> a == b,
        a is Faucet && b is Faucet ==> a == b,
        a is Referral && b is Referral ==> a == b,
{
}

/// The numbers are those under which the contracts report their rejections.
pub proof fn codes_are_the_published_ones()
    ensures
        code_of(Failure::Order(order_handler::Error::AlreadyInitialized)) == 1,
        code_of(Failure::Order(order_handler::Error::NotInitialized)) == 2,
        code_of(Failure::Order(order_handler::Error::Unauthorized)) == 3,
        code_of(Failure::Order(order_handler::Error::OrderNotFound)) == 4,
        code_of(Failure::Order(order_handler::Error::InvalidOrderType)) == 5,
        code_of(Failure::Order(order_handler::Error::UnsatisfiedTrigger)) == 6,
        code_of(Failure::Order(order_handler::Error::PriceTooHigh)) == 7,
        code_of(Failure::Order(order_handler::Error::PriceTooLow)) == 8,
        code_of(Failure::Order(order_handler::Error::OrderFrozen)) == 9,
        code_of(Failure::Order(order_handler::Error::MaxLeverageExceeded)) == 10,
        code_of(Failure::Liquidation(liquidation_handler::Error::AlreadyInitialized)) == 1,
        code_of(Failure::Liquidation(liquidation_handler::Error::NotInitialized)) == 2,
        code_of(Failure::Liquidation(liquidation_handler::Error::Unauthorized)) == 3,
        code_of(Failure::Liquidation(liquidation_handler::Error::NotLiquidatable)) == 5,
        code_of(Failure::Adl(adl_handler::Error::AlreadyInitialized)) == 1,
        code_of(Failure::Adl(adl_handler::Error::NotInitialized)) == 2,
        code_of(Failure::Adl(adl_handler::Error::Unauthorized)) == 3,
        code_of(Failure::Adl(adl_handler::Error::AdlNotRequired)) == 4,
        code_of(Failure::Adl(adl_handler::Error::InvalidInput)) == 5,
        code_of(Failure::Adl(adl_handler::Error::NotProfitable)) == 6,
        code_of(Failure::Adl(adl_handler::Error::PositionNotFound)) == 7,
        code_of(Failure::Fee(fee_handler::Error::AlreadyInitialized)) == 1,
        code_of(Failure::Fee(fee_handler::Error::NotInitialized)) == 2,
        code_of(Failure::Fee(fee_handler::Error::Unauthorized)) == 3,
        code_of(Failure::Fee(fee_handler::Error::NothingToClaim)) == 4,
        code_of(Failure::Fee(fee_handler::Error::InvalidAmount)) == 5,
        code_of(Failure::Insurance(insurance_fund_router::Error::AllocationTooHigh)) == 1,
        code_of(Failure::Insurance(insurance_fund_router::Error::MissingInsuranceFund)) == 2,
        code_of(Failure::Cleanup(order_cleanup::Error::OrderNotFound)) == 1,
        code_of(Failure::Cleanup(order_cleanup::Error::NotYetExpired)) == 2,
        code_of(Failure::Factory(market_factory::Error::NotInitialized)) == 1,
        code_of(Failure::Factory(market_factory::Error::AlreadyInitialized)) == 2,
        code_of(Failure::Factory(market_factory::Error::Unauthorized)) == 3,
        code_of(Failure::Factory(market_factory::Error::MarketAlreadyExists)) == 4,
        code_of(Failure::Factory(market_factory::Error::WasmHashNotSet)) == 5,
        code_of(Failure::Factory(market_factory::Error::SingleTokenPoolNotSupported)) == 6,
        code_of(Failure::Token(test_token::Error::AlreadyInitialized)) == 1,
        code_of(Failure::Token(test_token::Error::NotInitialized)) == 2,
        code_of(Failure::Token(test_token::Error::Unauthorized)) == 3,
        code_of(Failure::Token(test_token::Error::InsufficientBalance)) == 4,
        code_of(Failure::Token(test_token::Error::InsufficientAllowance)) == 5,
        code_of(Failure::Token(test_token::Error::NegativeAmount)) == 6,
        code_of(Failure::Token(test_token::Error::AllowanceExpired)) == 7,
        code_of(Failure::Token(test_token::Error::Paused)) == 8,
        code_of(Failure::Faucet(test_faucet::Error::AlreadyInitialized)) == 1,
        code_of(Failure::Faucet(test_faucet::Error::NotInitialized)) == 2,
        code_of(Failure::Faucet(test_faucet::Error::Unauthorized)) == 3,
        code_of(Failure::Faucet(test_faucet::Error::TokenNotEnabled)) == 4,
        code_of(Failure::Faucet(test_faucet::Error::InvalidAmount)) == 5,
        code_of(Failure::Faucet(test_faucet::Error::ClaimTooSoon)) == 6,
        code_of(Failure::Referral(referral_storage::Error::NotInitialized)) == 1,
        code_of(Failure::Referral(referral_storage::Error::AlreadyInitialized)) == 2,
        code_of(Failure::Referral(referral_storage::Error::Unauthorized)) == 3,
        code_of(Failure::Referral(referral_storage::Error::CodeAlreadyTaken)) == 4,
        code_of(Failure::Referral(referral_storage::Error::CodeNotFound)) == 5,
        code_of(Failure::Referral(referral_storage::Error::InvalidTier)) == 6,
        code_of(Failure::Referral(referral_storage::Error::InvalidInput)) == 7,
        code_of(Failure::Referral(referral_storage::Error::NotCodeOwner)) == 8,
        code_of(Failure::Referral(referral_storage::Error::CodeTooLong)) == 9,
        code_of(Failure::Referral(referral_storage::Error::InvalidCodeCharacters)) == 10,
        code_of(Failure::Referral(referral_storage::Error::EmptyCode)) == 11,
        code_of(Failure::Position(PositionError::BelowMinCollateral)) == 1,
        code_of(Failure::Position(PositionError::ExceedsMaxLeverage)) == 2,
        code_of(Failure::Position(PositionError::ExceedsMaxOI)) == 3,
        code_of(Failure::Increase(IncreasePositionError::PriceTooHigh)) == 1,
        code_of(Failure::Increase(IncreasePositionError::PriceTooLow)) == 2,
        code_of(Failure::Increase(IncreasePositionError::InsufficientCollateral)) == 3,
        code_of(Failure::Decrease(DecreasePositionError::PriceTooLow)) == 1,
        code_of(Failure::Decrease(DecreasePositionError::PriceTooHigh)) == 2,
{
}

} // verus!
