//! The asset-manager state machine: configuration, the deposit ledger, and
//! the dispatch and authentication of cross-chain deposit and withdrawal
//! messages.
//!
//! Every operation is a pure transition: outside work (token queries, the
//! router) enters as plain arguments and leaves as `SubMsg` values that the
//! surrounding contract dispatches.  Ledger updates are optimistic: they are
//! applied when the sub-operations are dispatched, and a failed
//! sub-operation aborts its whole invocation through `reply`, with no
//! automatic compensation here.
use vstd::prelude::*;
use crate::errors::ContractError;
use crate::ledger::Ledger;
use crate::network_address::{
    account_part, chain_part, has_slash, spec_validate, NetId, NetworkAddress,
};
use crate::xcall_data_types::{
    enc_deposit, enc_deposit_revert, enc_withdraw_request, err_of, spec_decode, DecodedStruct,
    DecodedStructV, Deposit, DepositRevert, DepositRevertV, DepositV, WithdrawRequest,
    WithdrawRequestV,
};
use vstd::string::StringExecFns;

verus! {

/// The one correlation id this contract tags its sub-operations with.
pub const SUCCESS_REPLY_MSG: u64 = 1;

/// A message for the surrounding contract to dispatch.
#[derive(Debug, Clone, PartialEq, Eq)]
pub enum AmMsg {
    /// Pull `amount` of `token` from `owner` into `recipient`.
    TransferFrom { token: String, owner: String, recipient: String, amount: u128 },
    /// Pay `amount` of `token` out to `recipient`.
    Transfer { token: String, recipient: String, amount: u128 },
    /// Hand `data` to the router, addressed to `to` on the remote chain.
    SendCallMessage { xcall: String, to: String, data: Vec<u8>, rollback: Option<Vec<u8>> },
}

/// A dispatched sub-operation with its correlation id.
#[derive(Debug, Clone, PartialEq, Eq)]
pub struct SubMsg {
    pub id: u64,
    pub msg: AmMsg,
}

/// The event a deposit emits.
#[derive(Debug, Clone, PartialEq, Eq)]
pub struct DepositEvent {
    pub token: String,
    pub to: String,
    pub amount: u128,
}

/// What an accepted operation hands back for dispatch.
#[derive(Debug, Clone, PartialEq, Eq)]
pub struct Response {
    pub sub_msgs: Vec<SubMsg>,
    pub event: Option<DepositEvent>,
}

/// The configuration an owner stores through `configure_network`.
#[derive(Debug, Clone, PartialEq, Eq)]
pub struct Config {
    /// The local router contract.
    pub source_xcall: String,
    /// The router's self-reported network address.
    pub x_network_address: NetworkAddress,
    /// The local network id, from the router's reported address.
    pub nid: NetId,
    /// The remote asset manager's full network address.
    pub icon_asset_manager: NetworkAddress,
    /// The remote asset manager's chain id.
    pub icon_net_id: NetId,
}

/// The asset manager's persistent state.
#[derive(Debug, Clone, PartialEq, Eq)]
pub struct AssetManager {
    pub owner: String,
    /// None until the owner configures the router; queries and operations
    /// that need it refuse until then.
    pub config: Option<Config>,
    pub deposits: Ledger,
}

/// Query responses.
#[derive(Debug, Clone, PartialEq, Eq)]
pub struct OwnerResponse {
    pub owner: String,
}

#[derive(Debug, Clone, PartialEq, Eq)]
pub struct ConfigureResponse {
    pub source_xcall: String,
    pub icon_asset_manager: String,
}

#[derive(Debug, Clone, PartialEq, Eq)]
pub struct NetIdResponse {
    pub x_call_nid: String,
    pub icon_nid: String,
}

/// Whether a given recipient passes: absent means the depositor itself,
/// present means a validated network address.
pub open spec fn recipient_ok(to: Option<String>) -> bool {
    match to {
        Some(t) => spec_validate(t@),
        None => true,
    }
}

/// The network address a deposit is credited to.
pub open spec fn recipient_view(to: Option<String>, nid: Seq<char>, sender: Seq<char>) -> Seq<
    char,
> {
    match to {
        Some(t) => t@,
        None => nid + seq!['/'] + sender,
    }
}

pub open spec fn data_view(data: Option<Vec<u8>>) -> Seq<u8> {
    match data {
        Some(d) => d@,
        None => Seq::empty(),
    }
}

impl AssetManager {
    pub open spec fn configured(&self) -> bool {
        self.config is Some
    }

    pub open spec fn cfg(&self) -> Config {
        self.config->Some_0
    }

    /// The recorded deposit of `account` in `token`.
    pub open spec fn balance(&self, account: Seq<char>, token: Seq<char>) -> u128 {
        self.deposits.balance(account, token)
    }

    /// Initial state: the instantiating identity owns the contract, nothing
    /// is configured, the ledger is empty.
    pub fn instantiate(owner: String) -> (r: AssetManager)
        ensures
            r.owner == owner,
            !r.configured(),
            forall|a: Seq<char>, t: Seq<char>| r.balance(a, t) == 0,
    {
        AssetManager { owner, config: None, deposits: Ledger::new() }
    }

    /// Stores the router configuration.  Only the owner may; the router's
    /// self-reported network address must be non-empty and must name the
    /// router contract itself; the remote asset manager must be a
    /// well-formed network address.
    pub fn configure_network(
        &mut self,
        sender: &str,
        source_xcall: String,
        destination_asset_manager: String,
        x_network_address: NetworkAddress,
    ) -> (r: Result<(), ContractError>)
        ensures
            sender@ != old(self).owner@ ==> r == Err::<(), _>(ContractError::OnlyOwner) && *final(self) == *old(self),
            sender@ == old(self).owner@ && x_network_address@.len() == 0 ==> r == Err::<(), _>(
                ContractError::RouterAddressNotFound,
            ) && *final(self) == *old(self),
            sender@ == old(self).owner@ && x_network_address@.len() != 0 && !(has_slash(
                x_network_address@,
            ) && account_part(x_network_address@) == source_xcall@) ==> r == Err::<(), _>(
                ContractError::RouterAddressMismatch,
            ) && *final(self) == *old(self),
            sender@ == old(self).owner@ && x_network_address@.len() != 0 && has_slash(
                x_network_address@,
            ) && account_part(x_network_address@) == source_xcall@ && !spec_validate(
                destination_asset_manager@,
            ) ==> r == Err::<(), _>(ContractError::InvalidNetworkAddressFormat) && *final(self)
                == *old(self),
            sender@ == old(self).owner@ && x_network_address@.len() != 0 && has_slash(
                x_network_address@,
            ) && account_part(x_network_address@) == source_xcall@ && spec_validate(
                destination_asset_manager@,
            ) ==> r == Ok::<_, ContractError>(()) && final(self).configured() && final(self).cfg().source_xcall == source_xcall && final(self).cfg().x_network_address
                == x_network_address && final(self).cfg().nid@ == chain_part(x_network_address@)
                && final(self).cfg().icon_asset_manager@ == destination_asset_manager@ && final(self).cfg().icon_net_id@ == chain_part(destination_asset_manager@) && final(self).owner
                == old(self).owner && final(self).deposits == old(self).deposits,
    {
        if !crate::strings::str_eq(sender, self.owner.as_str()) {
            return Err(ContractError::OnlyOwner);
        }
        if x_network_address.is_empty() {
            return Err(ContractError::RouterAddressNotFound);
        }
        let (nid, x_account) = match x_network_address.split() {
            None => {
                return Err(ContractError::RouterAddressMismatch);
            },
            Some(p) => p,
        };
        if !crate::strings::str_eq(x_account.as_str(), source_xcall.as_str()) {
            return Err(ContractError::RouterAddressMismatch);
        }
        let dest = NetworkAddress(destination_asset_manager);
        if !dest.validate() {
            return Err(ContractError::InvalidNetworkAddressFormat);
        }
        let (icon_net_id, _icon_account) = match dest.split() {
            None => {
                proof {
                    assert(false);
                }
                return Err(ContractError::InvalidNetworkAddressFormat);
            },
            Some(p) => p,
        };
        self.config = Some(
            Config {
                source_xcall,
                x_network_address,
                nid,
                icon_asset_manager: dest,
                icon_net_id,
            },
        );
        Ok(())
    }

    /// A user locks `amount` of `token_address` for the remote side.
    /// Refuses a zero amount, an invalid token account, a malformed
    /// recipient, and an allowance under `amount`; otherwise credits the
    /// ledger optimistically and dispatches the token pull and the
    /// cross-chain notice, the latter carrying a revert payload.
    ///
    /// `token_is_valid` carries the platform's verdict on the token address;
    /// `allowance` the token contract's answer for `(sender, this
    /// contract)`; `contract_address` is this contract's own account.
    pub fn deposit_cw20_tokens(
        &mut self,
        sender: &str,
        contract_address: &str,
        token_address: String,
        amount: u128,
        to: Option<String>,
        data: Option<Vec<u8>>,
        token_is_valid: bool,
        allowance: u128,
    ) -> (r: Result<Response, ContractError>)
        requires
            old(self).balance(sender@, token_address@) + amount <= u128::MAX,
        ensures
            !old(self).configured() ==> r == Err::<Response, _>(ContractError::NotConfigured)
                && *final(self) == *old(self),
            old(self).configured() && amount == 0 ==> r == Err::<Response, _>(
                ContractError::InvalidAmount,
            ) && *final(self) == *old(self),
            old(self).configured() && amount != 0 && !token_is_valid ==> r == Err::<Response, _>(
                ContractError::InvalidTokenAddress,
            ) && *final(self) == *old(self),
            old(self).configured() && amount != 0 && token_is_valid && !recipient_ok(to) ==> r
                == Err::<Response, _>(ContractError::InvalidRecipientAddress) && *final(self)
                == *old(self),
            old(self).configured() && amount != 0 && token_is_valid && recipient_ok(to)
                && allowance < amount ==> r == Err::<Response, _>(
                ContractError::InsufficientTokenAllowance,
            ) && *final(self) == *old(self),
            old(self).configured() && amount != 0 && token_is_valid && recipient_ok(to)
                && allowance >= amount ==> ({
                let cfg = old(self).cfg();
                let rcp = recipient_view(to, cfg.nid@, sender@);
                &&& r matches Ok(resp)
                &&& resp.sub_msgs@.len() == 2
                &&& resp.sub_msgs@[0].id == SUCCESS_REPLY_MSG
                &&& (resp.sub_msgs@[0].msg matches AmMsg::TransferFrom {
                    token,
                    owner,
                    recipient,
                    amount: am,
                } && token@ == token_address@ && owner@ == sender@ && recipient@
                    == contract_address@ && am == amount)
                &&& resp.sub_msgs@[1].id == SUCCESS_REPLY_MSG
                &&& (resp.sub_msgs@[1].msg matches AmMsg::SendCallMessage {
                    xcall,
                    to: sto,
                    data: wire,
                    rollback,
                } && xcall@ == cfg.source_xcall@ && sto@ == cfg.icon_asset_manager@ && wire@
                    == enc_deposit(
                    (DepositV {
                        token_address: token_address@,
                        from: sender@,
                        to: rcp,
                        amount,
                        data: data_view(data),
                    }),
                ) && (rollback matches Some(rb) && rb@ == enc_deposit_revert(
                    (DepositRevertV {
                        token_address: token_address@,
                        account: sender@,
                        amount,
                    }),
                )))
                &&& (resp.event matches Some(ev) && ev.token@ == token_address@ && ev.to@ == rcp
                    && ev.amount == amount)
                &&& final(self).balance(sender@, token_address@) == old(self).balance(
                    sender@,
                    token_address@,
                ) + amount
                &&& forall|a: Seq<char>, t: Seq<char>|
                    !(a == sender@ && t == token_address@) ==> final(self).balance(a, t) == old(self).balance(a, t)
                &&& final(self).config == old(self).config
                &&& final(self).owner == old(self).owner
            }),
    {
        let cfg_nid: String = match &self.config {
            None => {
                return Err(ContractError::NotConfigured);
            },
            Some(cfg) => String::from_str(cfg.nid.as_str()),
        };
        if amount == 0 {
            return Err(ContractError::InvalidAmount);
        }
        if !token_is_valid {
            return Err(ContractError::InvalidTokenAddress);
        }
        let recipient: String = match &to {
            Some(t) => {
                let nw = NetworkAddress(String::from_str(t.as_str()));
                if !nw.validate() {
                    return Err(ContractError::InvalidRecipientAddress);
                }
                String::from_str(t.as_str())
            },
            None => NetworkAddress::new(cfg_nid.as_str(), sender).0,
        };
        if allowance < amount {
            return Err(ContractError::InsufficientTokenAllowance);
        }
        let wire_data: Vec<u8> = match data {
            Some(d) => d,
            None => Vec::new(),
        };
        let deposit_msg = Deposit {
            token_address: String::from_str(token_address.as_str()),
            from: String::from_str(sender),
            to: String::from_str(recipient.as_str()),
            amount,
            data: wire_data,
        };
        let revert_msg = DepositRevert {
            token_address: String::from_str(token_address.as_str()),
            account: String::from_str(sender),
            amount,
        };
        let (source_xcall, icon_am): (String, String) = match &self.config {
            None => {
                proof {
                    assert(false);
                }
                return Err(ContractError::NotConfigured);
            },
            Some(cfg) => (
                String::from_str(cfg.source_xcall.as_str()),
                String::from_str(cfg.icon_asset_manager.0.as_str()),
            ),
        };
        let bal = self.deposits.get(sender, token_address.as_str());
        self.deposits.set(sender, token_address.as_str(), bal + amount);
        let mut sub_msgs: Vec<SubMsg> = Vec::new();
        sub_msgs.push(
            SubMsg {
                id: SUCCESS_REPLY_MSG,
                msg: AmMsg::TransferFrom {
                    token: String::from_str(token_address.as_str()),
                    owner: String::from_str(sender),
                    recipient: String::from_str(contract_address),
                    amount,
                },
            },
        );
        sub_msgs.push(
            SubMsg {
                id: SUCCESS_REPLY_MSG,
                msg: AmMsg::SendCallMessage {
                    xcall: source_xcall,
                    to: icon_am,
                    data: deposit_msg.rlp_bytes(),
                    rollback: Some(revert_msg.rlp_bytes()),
                },
            },
        );
        let event = DepositEvent {
            token: String::from_str(token_address.as_str()),
            to: recipient,
            amount,
        };
        Ok(Response { sub_msgs, event: Some(event) })
    }

    /// Asks the remote side to release `amount` of `token_address`.  The
    /// ledger must record at least that much for the caller, and records
    /// nothing new: the funds move only when the remote side answers with a
    /// withdrawal instruction.
    pub fn withdraw_request(&self, sender: &str, token_address: String, amount: u128) -> (r:
        Result<Response, ContractError>)
        ensures
            !self.configured() ==> r == Err::<Response, _>(ContractError::NotConfigured),
            self.configured() && (self.balance(sender@, token_address@) == 0 || self.balance(
                sender@,
                token_address@,
            ) < amount) ==> r == Err::<Response, _>(ContractError::InsufficientTokenBalance),
            self.configured() && self.balance(sender@, token_address@) != 0 && self.balance(
                sender@,
                token_address@,
            ) >= amount ==> ({
                let cfg = self.cfg();
                &&& r matches Ok(resp)
                &&& resp.sub_msgs@.len() == 1
                &&& resp.sub_msgs@[0].id == SUCCESS_REPLY_MSG
                &&& (resp.sub_msgs@[0].msg matches AmMsg::SendCallMessage {
                    xcall,
                    to: sto,
                    data: wire,
                    rollback,
                } && xcall@ == cfg.source_xcall@ && sto@ == cfg.icon_asset_manager@ && wire@
                    == enc_withdraw_request(
                    (WithdrawRequestV {
                        token_address: token_address@,
                        from_address: sender@,
                        amount,
                    }),
                ) && rollback is None)
                &&& resp.event is None
            }),
    {
        let (source_xcall, icon_am): (String, String) = match &self.config {
            None => {
                return Err(ContractError::NotConfigured);
            },
            Some(cfg) => (
                String::from_str(cfg.source_xcall.as_str()),
                String::from_str(cfg.icon_asset_manager.0.as_str()),
            ),
        };
        let bal = self.deposits.get(sender, token_address.as_str());
        if bal == 0 || bal < amount {
            return Err(ContractError::InsufficientTokenBalance);
        }
        let msg = WithdrawRequest {
            token_address: String::from_str(token_address.as_str()),
            from_address: String::from_str(sender),
            amount,
        };
        let mut sub_msgs: Vec<SubMsg> = Vec::new();
        sub_msgs.push(
            SubMsg {
                id: SUCCESS_REPLY_MSG,
                msg: AmMsg::SendCallMessage {
                    xcall: source_xcall,
                    to: icon_am,
                    data: msg.rlp_bytes(),
                    rollback: None,
                },
            },
        );
        Ok(Response { sub_msgs, event: None })
    }

    /// Applies an inbound router-delivered call.  Only the configured router
    /// may deliver it; the payload must decode; a deposit revert must come
    /// from the router's own network address and a withdrawal instruction
    /// from the remote asset manager; each pays out through a dispatched
    /// transfer and debits the ledger.
    pub fn handle_xcall_msg(&mut self, sender: &str, from: &str, data: &[u8]) -> (r: Result<
        Vec<SubMsg>,
        ContractError,
    >)
        ensures
            !old(self).configured() ==> r == Err::<Vec<SubMsg>, _>(ContractError::NotConfigured)
                && *final(self) == *old(self),
            old(self).configured() && sender@ != old(self).cfg().source_xcall@ ==> r == Err::<
                Vec<SubMsg>,
                _,
            >(ContractError::OnlyXcallService) && *final(self) == *old(self),
            old(self).configured() && sender@ == old(self).cfg().source_xcall@ ==> (spec_decode(
                data@,
            ) matches Err(e) ==> r == Err::<Vec<SubMsg>, _>(err_of(e)) && *final(self) == *old(self)),
            old(self).configured() && sender@ == old(self).cfg().source_xcall@ ==> (spec_decode(
                data@,
            ) matches Ok(p) ==> (p.1 matches DecodedStructV::DepositRevert(d) ==> ({
                let cfg = old(self).cfg();
                if from@ != cfg.x_network_address@ {
                    r == Err::<Vec<SubMsg>, _>(ContractError::FailedXcallNetworkMatch) && *final(self) == *old(self)
                } else if old(self).balance(d.account, d.token_address) < d.amount {
                    r == Err::<Vec<SubMsg>, _>(ContractError::InsufficientTokenBalance) && *final(self) == *old(self)
                } else {
                    &&& r matches Ok(msgs)
                    &&& msgs@.len() == 1
                    &&& msgs@[0].id == SUCCESS_REPLY_MSG
                    &&& (msgs@[0].msg matches AmMsg::Transfer { token, recipient, amount }
                        && token@ == d.token_address && recipient@ == d.account && amount
                        == d.amount)
                    &&& final(self).balance(d.account, d.token_address) == old(self).balance(
                        d.account,
                        d.token_address,
                    ) - d.amount
                    &&& forall|a: Seq<char>, t: Seq<char>|
                        !(a == d.account && t == d.token_address) ==> final(self).balance(a, t)
                            == old(self).balance(a, t)
                    &&& final(self).config == old(self).config
                    &&& final(self).owner == old(self).owner
                }
            }))),
            old(self).configured() && sender@ == old(self).cfg().source_xcall@ ==> (spec_decode(
                data@,
            ) matches Ok(p) ==> (p.1 matches DecodedStructV::WithdrawTo(w) ==> ({
                let cfg = old(self).cfg();
                if from@ != cfg.icon_asset_manager@ {
                    r == Err::<Vec<SubMsg>, _>(ContractError::OnlyIconAssetManager) && *final(self)
                        == *old(self)
                } else if old(self).balance(w.user_address, w.token_address) < w.amount {
                    r == Err::<Vec<SubMsg>, _>(ContractError::InsufficientTokenBalance) && *final(self) == *old(self)
                } else {
                    &&& r matches Ok(msgs)
                    &&& msgs@.len() == 1
                    &&& msgs@[0].id == SUCCESS_REPLY_MSG
                    &&& (msgs@[0].msg matches AmMsg::Transfer { token, recipient, amount }
                        && token@ == w.token_address && recipient@ == w.user_address && amount
                        == w.amount)
                    &&& final(self).balance(w.user_address, w.token_address) == old(self).balance(
                        w.user_address,
                        w.token_address,
                    ) - w.amount
                    &&& forall|a: Seq<char>, t: Seq<char>|
                        !(a == w.user_address && t == w.token_address) ==> final(self).balance(
                            a,
                            t,
                        ) == old(self).balance(a, t)
                    &&& final(self).config == old(self).config
                    &&& final(self).owner == old(self).owner
                }
            }))),
    {
        let (source_xcall, x_network, icon_am): (String, String, String) = match &self.config {
            None => {
                return Err(ContractError::NotConfigured);
            },
            Some(cfg) => (
                String::from_str(cfg.source_xcall.as_str()),
                String::from_str(cfg.x_network_address.0.as_str()),
                String::from_str(cfg.icon_asset_manager.0.as_str()),
            ),
        };
        if !crate::strings::str_eq(sender, source_xcall.as_str()) {
            return Err(ContractError::OnlyXcallService);
        }
        let decoded = match crate::xcall_data_types::decode_encoded_bytes(data) {
            Err(e) => {
                return Err(e);
            },
            Ok((_, d)) => d,
        };
        match decoded {
            DecodedStruct::DepositRevert(d) => {
                if !crate::strings::str_eq(from, x_network.as_str()) {
                    return Err(ContractError::FailedXcallNetworkMatch);
                }
                let bal = self.deposits.get(d.account.as_str(), d.token_address.as_str());
                if bal < d.amount {
                    return Err(ContractError::InsufficientTokenBalance);
                }
                self.deposits.set(d.account.as_str(), d.token_address.as_str(), bal - d.amount);
                let msg = transfer_tokens(d.account.as_str(), d.token_address.as_str(), d.amount);
                let mut msgs: Vec<SubMsg> = Vec::new();
                msgs.push(msg);
                Ok(msgs)
            },
            DecodedStruct::WithdrawTo(w) => {
                if !crate::strings::str_eq(from, icon_am.as_str()) {
                    return Err(ContractError::OnlyIconAssetManager);
                }
                let bal = self.deposits.get(w.user_address.as_str(), w.token_address.as_str());
                if bal < w.amount {
                    return Err(ContractError::InsufficientTokenBalance);
                }
                self.deposits.set(
                    w.user_address.as_str(),
                    w.token_address.as_str(),
                    bal - w.amount,
                );
                let msg = transfer_tokens(
                    w.user_address.as_str(),
                    w.token_address.as_str(),
                    w.amount,
                );
                let mut msgs: Vec<SubMsg> = Vec::new();
                msgs.push(msg);
                Ok(msgs)
            },
        }
    }

    /// The `GetOwner` query.
    pub fn query_get_owner(&self) -> (r: OwnerResponse)
        ensures
            r.owner@ == self.owner@,
    {
        OwnerResponse { owner: String::from_str(self.owner.as_str()) }
    }

    /// The `GetConfiguration` query.
    pub fn query_conifg(&self) -> (r: Result<ConfigureResponse, ContractError>)
        ensures
            !self.configured() ==> r == Err::<ConfigureResponse, _>(ContractError::NotConfigured),
            self.configured() ==> (r matches Ok(c) && c.source_xcall@ == self.cfg().source_xcall@
                && c.icon_asset_manager@ == self.cfg().icon_asset_manager@),
    {
        match &self.config {
            None => Err(ContractError::NotConfigured),
            Some(cfg) => Ok(
                ConfigureResponse {
                    source_xcall: String::from_str(cfg.source_xcall.as_str()),
                    icon_asset_manager: String::from_str(cfg.icon_asset_manager.0.as_str()),
                },
            ),
        }
    }

    /// The `GetNetIds` query.
    pub fn query_nid(&self) -> (r: Result<NetIdResponse, ContractError>)
        ensures
            !self.configured() ==> r == Err::<NetIdResponse, _>(ContractError::NotConfigured),
            self.configured() ==> (r matches Ok(n) && n.x_call_nid@ == self.cfg().nid@
                && n.icon_nid@ == self.cfg().icon_net_id@),
    {
        match &self.config {
            None => Err(ContractError::NotConfigured),
            Some(cfg) => Ok(
                NetIdResponse {
                    x_call_nid: String::from_str(cfg.nid.as_str()),
                    icon_nid: String::from_str(cfg.icon_net_id.as_str()),
                },
            ),
        }
    }
}

/// Builds the dispatched transfer that pays `amount` of `token_address` out
/// to `account`.
pub fn transfer_tokens(account: &str, token_address: &str, amount: u128) -> (r: SubMsg)
    ensures
        r.id == SUCCESS_REPLY_MSG,
        (r.msg matches AmMsg::Transfer { token, recipient, amount: am } && token@
            == token_address@ && recipient@ == account@ && am == amount),
{
    SubMsg {
        id: SUCCESS_REPLY_MSG,
        msg: AmMsg::Transfer {
            token: String::from_str(token_address),
            recipient: String::from_str(account),
            amount,
        },
    }
}

/// Settles one sub-operation's completion notice: success is a no-op, and a
/// failure aborts the invocation, so the platform rolls the whole
/// transaction back.
pub fn reply_handler(success: bool) -> (r: Result<(), ContractError>)
    ensures
        success ==> r == Ok::<_, ContractError>(()),
        !success ==> r == Err::<(), _>(ContractError::SubcallFailed),
{
    if success {
        Ok(())
    } else {
        Err(ContractError::SubcallFailed)
    }
}

/// Routes a completion notice by its correlation id.
pub fn reply(id: u64, success: bool) -> (r: Result<(), ContractError>)
    ensures
        id != SUCCESS_REPLY_MSG ==> r == Err::<(), _>(ContractError::UnknownReplyId),
        id == SUCCESS_REPLY_MSG && success ==> r == Ok::<_, ContractError>(()),
        id == SUCCESS_REPLY_MSG && !success ==> r == Err::<(), _>(ContractError::SubcallFailed),
{
    if id == SUCCESS_REPLY_MSG {
        reply_handler(success)
    } else {
        Err(ContractError::UnknownReplyId)
    }
}

} // verus!
