//! Verified core of a perpetuals exchange: fixed-point arithmetic, the keyed
//! store, positions, orders, swaps, fees and the contracts built on them.

pub mod actions;
pub mod adl_handler;
pub mod asset_laws;
pub mod books;
pub mod crypto;
pub mod data_store;
pub mod decrease_position_utils;
pub mod failure;
pub mod fee_handler;
pub mod impact_pools;
pub mod increase_position_utils;
pub mod insurance_fund_router;
pub mod ledger;
pub mod liquidation_handler;
pub mod market_factory;
pub mod market_laws;
pub mod market_util_reader;
pub mod market_utils;
pub mod math;
pub mod order_cleanup;
pub mod order_handler;
pub mod order_laws;
pub mod position_laws;
pub mod position_utils;
pub mod reader;
pub mod referral_storage;
pub mod role_store;
pub mod service_laws;
pub mod success_laws;
pub mod swap_utils;
pub mod table;
pub mod test_faucet;
pub mod test_token;
pub mod types;
