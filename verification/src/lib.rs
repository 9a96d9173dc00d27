//! Core logic of a cross-chain asset bridge: the deposit/withdraw state
//! machine, its wire-message codec, network-address handling, protocol
//! authorization and withdrawal rate limiting.
//!
//! Outside work stays outside: token and router queries enter the state
//! machines as plain arguments, and what they decide leaves as plain
//! message values for the surrounding contract to dispatch.
pub mod asset_manager;
pub mod errors;
pub mod ledger;
pub mod network_address;
pub mod rate_limit;
pub mod rlp;
pub mod strings;
pub mod xcall_data_types;
pub mod xcall_manager;
pub mod xcall_manager_msg;
