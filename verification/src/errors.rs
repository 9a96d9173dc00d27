//! Error taxonomy of the asset-manager core: validation, authorization,
//! wire-protocol, state and configuration failures.
use vstd::prelude::*;

verus! {

/// Everything an asset-manager operation can refuse.
#[derive(Debug, Clone, PartialEq, Eq)]
pub enum ContractError {
    /// The payload handed to the decoder is not a wire list.
    NotAList,
    /// The wire list is damaged: truncated, non-minimal, or a field of the
    /// wrong kind.
    InvalidEncoding,
    /// The wire tag names no recognized method.
    UnknownMethod,
    /// The wire list holds the wrong number of fields for its tag.
    InvalidFieldCount,
    /// A deposit of zero was asked for.
    InvalidAmount,
    /// The token address is not a valid local account.
    InvalidTokenAddress,
    /// The given recipient is not a well-formed network address.
    InvalidRecipientAddress,
    /// The token contract allows this contract less than the deposit amount.
    InsufficientTokenAllowance,
    /// The ledger holds less than the amount asked for.
    InsufficientTokenBalance,
    /// Only the stored owner may do this.
    OnlyOwner,
    /// Only the configured router contract may deliver inbound calls.
    OnlyXcallService,
    /// The router reported no network address of its own.
    RouterAddressNotFound,
    /// The router's reported network address names another contract.
    RouterAddressMismatch,
    /// The remote asset-manager address is not a well-formed network address.
    InvalidNetworkAddressFormat,
    /// A deposit revert must come from the router's own network address.
    FailedXcallNetworkMatch,
    /// A withdrawal instruction must come from the remote asset manager.
    OnlyIconAssetManager,
    /// The operation needs the configuration that no one has stored yet.
    NotConfigured,
    /// A dispatched sub-operation reported failure.
    SubcallFailed,
    /// A completion notice carried a correlation id this contract never used.
    UnknownReplyId,
}

} // verus!
