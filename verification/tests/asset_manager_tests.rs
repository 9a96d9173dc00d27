//! The deposit/withdraw state machine.
use cw_asset_manager::asset_manager::{AmMsg, AssetManager, SubMsg, SUCCESS_REPLY_MSG};
use cw_asset_manager::errors::ContractError;
use cw_asset_manager::network_address::NetworkAddress;
use cw_asset_manager::xcall_data_types::{Deposit, DepositRevert, WithdrawTo};

const ICON_AM: &str = "0x01.icon/cxc2d01de5013778d71d99f985e4e2ff3a9b48a66c";
const CONTRACT: &str = "contract0";

/// Common fixture: an instantiated contract whose owner "user" has
/// configured the router "xcall", which reports the network address
/// "0x44.archway/xcall".
fn test_setup() -> AssetManager {
    let mut am = AssetManager::instantiate("user".to_string());
    am.configure_network(
        "user",
        "xcall".to_string(),
        ICON_AM.to_string(),
        NetworkAddress("0x44.archway/xcall".to_string()),
    )
    .unwrap();
    am
}

fn deposit_100(am: &mut AssetManager, sender: &str, amount: u128) {
    am.deposit_cw20_tokens(
        sender,
        CONTRACT,
        "token1".to_string(),
        amount,
        None,
        None,
        true,
        amount,
    )
    .unwrap();
}

#[test]
fn test_instantiate() {
    let am = test_setup();
    assert_eq!(am.query_get_owner().owner, "user");
    let cfg = am.query_conifg().unwrap();
    assert_eq!(cfg.source_xcall, "xcall");
    assert_eq!(cfg.icon_asset_manager, ICON_AM);
}

#[test]
fn test_deposit_for_sufficient_allowance() {
    let mut am = test_setup();

    let cfg = am.query_conifg().unwrap();
    assert_eq!(cfg.icon_asset_manager, ICON_AM.to_string());

    let response = am
        .deposit_cw20_tokens(
            "user",
            CONTRACT,
            "token1".to_string(),
            100,
            None,
            None,
            true,
            1000,
        )
        .unwrap();

    // Exactly two dispatched sub-operations: the token pull and the
    // cross-chain send.
    assert_eq!(response.sub_msgs.len(), 2);
    match &response.sub_msgs[0] {
        SubMsg { id, msg: AmMsg::TransferFrom { token, owner, recipient, amount } } => {
            assert_eq!(*id, SUCCESS_REPLY_MSG);
            assert_eq!(token, "token1");
            assert_eq!(owner, "user");
            assert_eq!(recipient, CONTRACT);
            assert_eq!(*amount, 100);
        },
        other => panic!("expected a token pull, got {:?}", other),
    }
    match &response.sub_msgs[1] {
        SubMsg { id, msg: AmMsg::SendCallMessage { xcall, to, data, rollback } } => {
            assert_eq!(*id, SUCCESS_REPLY_MSG);
            assert_eq!(xcall, "xcall");
            assert_eq!(to, ICON_AM);
            let expected = Deposit {
                token_address: "token1".to_string(),
                from: "user".to_string(),
                to: "0x44.archway/user".to_string(),
                amount: 100,
                data: vec![],
            };
            assert_eq!(*data, expected.rlp_bytes());
            let expected_revert = DepositRevert {
                token_address: "token1".to_string(),
                account: "user".to_string(),
                amount: 100,
            };
            assert_eq!(rollback.as_ref().unwrap(), &expected_revert.rlp_bytes());
        },
        other => panic!("expected a cross-chain send, got {:?}", other),
    }

    // The event records token, recipient and amount.
    let event = response.event.unwrap();
    assert_eq!(event.token, "token1");
    assert_eq!(event.to, "0x44.archway/user");
    assert_eq!(event.amount, 100);

    // The optimistic ledger update took effect.
    assert_eq!(am.deposits.get("user", "token1"), 100);

    // A given recipient must be a recognized network address.
    let result = am.deposit_cw20_tokens(
        "user",
        CONTRACT,
        "token1".to_string(),
        100,
        Some("0x01.icon/cx9876543210fedcba9876543210fedcba98765432".to_string()),
        None,
        true,
        1000,
    );
    let response = result.unwrap();
    let event = response.event.unwrap();
    assert_eq!(event.token, "token1");
    assert_eq!(event.to, "0x01.icon/cx9876543210fedcba9876543210fedcba98765432");
    assert_eq!(event.amount, 100);
}

#[test]
fn test_deposit_for_insufficient_allowance() {
    let mut am = test_setup();

    let cfg = am.query_conifg().unwrap();
    assert_eq!(cfg.icon_asset_manager, ICON_AM.to_string());

    let result = am.deposit_cw20_tokens(
        "user",
        CONTRACT,
        "token1".to_string(),
        1500,
        None,
        None,
        true,
        1000,
    );
    assert!(result.is_err());
    assert_eq!(result.unwrap_err(), ContractError::InsufficientTokenAllowance);

    // The ledger is untouched.
    assert_eq!(am.deposits.get("user", "token1"), 0);
}

#[test]
#[should_panic]
fn test_deposit_for_invalid_zero_amount() {
    let mut am = test_setup();

    let cfg = am.query_conifg().unwrap();
    assert_eq!(cfg.icon_asset_manager, ICON_AM.to_string());

    am.deposit_cw20_tokens(
        "user",
        CONTRACT,
        "token1".to_string(),
        0,
        None,
        None,
        true,
        1000,
    )
    .unwrap();
}

#[test]
fn zero_amount_deposit_reports_invalid_amount() {
    let mut am = test_setup();
    let result = am.deposit_cw20_tokens(
        "user",
        CONTRACT,
        "token1".to_string(),
        0,
        None,
        None,
        true,
        1000,
    );
    assert_eq!(result.unwrap_err(), ContractError::InvalidAmount);
    assert_eq!(am.deposits.get("user", "token1"), 0);
}

#[test]
fn invalid_token_and_recipient_are_refused() {
    let mut am = test_setup();
    let result =
        am.deposit_cw20_tokens("user", CONTRACT, "token1".to_string(), 5, None, None, false, 10);
    assert_eq!(result.unwrap_err(), ContractError::InvalidTokenAddress);

    let result = am.deposit_cw20_tokens(
        "user",
        CONTRACT,
        "token1".to_string(),
        5,
        Some("not-a-network-address".to_string()),
        None,
        true,
        10,
    );
    assert_eq!(result.unwrap_err(), ContractError::InvalidRecipientAddress);
}

#[test]
fn test_handle_xcall() {
    let mut am = test_setup();

    let xcall_nw = "0x44.archway/xcall";
    let token = "token1";
    let account = "account1";

    // The ledger must already hold what the messages give back.
    deposit_100(&mut am, account, 1100);

    let x_deposit_revert = DepositRevert {
        token_address: token.to_string(),
        account: account.to_string(),
        amount: 100,
    };

    let result = am.handle_xcall_msg("xcall", xcall_nw, &x_deposit_revert.rlp_bytes());
    assert!(result.is_ok());
    let msgs = result.unwrap();
    assert_eq!(msgs.len(), 1);
    match &msgs[0].msg {
        AmMsg::Transfer { token: t, recipient, amount } => {
            assert_eq!(t, token);
            assert_eq!(recipient, account);
            assert_eq!(*amount, 100);
        },
        other => panic!("expected a transfer, got {:?}", other),
    }
    assert_eq!(am.deposits.get(account, token), 1000);

    // A withdrawal instruction must come from the remote asset manager.
    let withdraw_msg = WithdrawTo {
        token_address: token.to_string(),
        amount: 1000,
        user_address: account.to_string(),
    };
    let resp = am.handle_xcall_msg("xcall", ICON_AM, &withdraw_msg.rlp_bytes());
    assert!(resp.is_ok());
    assert_eq!(am.deposits.get(account, token), 0);

    // An unrecognized method changes nothing and is refused.
    let x_msg = Deposit {
        token_address: String::from("token1"),
        from: String::from("userrrr"),
        amount: 100,
        to: String::from("account1"),
        data: vec![],
    };
    let result = am.handle_xcall_msg("xcall", xcall_nw, &x_msg.rlp_bytes());
    assert!(result.is_err());
    assert_eq!(result.unwrap_err(), ContractError::UnknownMethod);
    assert_eq!(am.deposits.get(account, token), 0);
}

#[test]
fn handle_xcall_refuses_other_senders() {
    let mut am = test_setup();
    deposit_100(&mut am, "account1", 100);

    let msg = DepositRevert {
        token_address: "token1".to_string(),
        account: "account1".to_string(),
        amount: 100,
    };
    // Whatever the payload, a sender other than the router is refused.
    let result = am.handle_xcall_msg("not_xcall", "0x44.archway/xcall", &msg.rlp_bytes());
    assert_eq!(result.unwrap_err(), ContractError::OnlyXcallService);
    let result = am.handle_xcall_msg("user", "0x44.archway/xcall", &[1, 2, 3]);
    assert_eq!(result.unwrap_err(), ContractError::OnlyXcallService);
    assert_eq!(am.deposits.get("account1", "token1"), 100);

    // The revert's origin must be the router's own network address.
    let result = am.handle_xcall_msg("xcall", ICON_AM, &msg.rlp_bytes());
    assert_eq!(result.unwrap_err(), ContractError::FailedXcallNetworkMatch);
}

#[test]
fn withdraw_request_needs_a_funded_ledger() {
    let mut am = test_setup();
    deposit_100(&mut am, "user", 100);

    // More than the recorded balance is refused, and nothing changes.
    let result = am.withdraw_request("user", "token1".to_string(), 150);
    assert_eq!(result.unwrap_err(), ContractError::InsufficientTokenBalance);
    assert_eq!(am.deposits.get("user", "token1"), 100);

    // A stranger with no balance is refused too.
    let result = am.withdraw_request("other", "token1".to_string(), 1);
    assert_eq!(result.unwrap_err(), ContractError::InsufficientTokenBalance);

    // Within the balance the request goes out, and the ledger waits for the
    // remote side's answer.
    let response = am.withdraw_request("user", "token1".to_string(), 60).unwrap();
    assert_eq!(response.sub_msgs.len(), 1);
    match &response.sub_msgs[0].msg {
        AmMsg::SendCallMessage { xcall, to, rollback, .. } => {
            assert_eq!(xcall, "xcall");
            assert_eq!(to, ICON_AM);
            assert!(rollback.is_none());
        },
        other => panic!("expected a cross-chain send, got {:?}", other),
    }
    assert_eq!(am.deposits.get("user", "token1"), 100);
}

#[test]
fn test_configure_network() {
    let mut am = test_setup();

    let source_xcall = "xcall".to_string();
    let destination_asset_manager =
        "0x01.icon/hx9876543210fedcba9876543210fedcba98765432".to_string();

    let res = am.configure_network(
        "user",
        source_xcall.clone(),
        destination_asset_manager.clone(),
        NetworkAddress("0x44.archway/xcall".to_string()),
    );
    assert!(res.is_ok());

    let cfg = am.query_conifg().unwrap();
    assert_eq!(cfg.source_xcall, source_xcall);
    assert_eq!(cfg.icon_asset_manager, destination_asset_manager);

    let nids = am.query_nid().unwrap();
    assert_eq!(nids.x_call_nid, "0x44.archway");
    assert_eq!(nids.icon_nid, "0x01.icon");

    // Only the owner can configure; the stored configuration stands.
    let res = am.configure_network(
        "other_sender",
        source_xcall,
        destination_asset_manager.clone(),
        NetworkAddress("0x44.archway/xcall".to_string()),
    );
    assert!(res.is_err());
    let err = res.unwrap_err();
    assert_eq!(err, ContractError::OnlyOwner);
    let cfg = am.query_conifg().unwrap();
    assert_eq!(cfg.icon_asset_manager, destination_asset_manager);
}

#[test]
fn configure_network_validates_the_router_report() {
    let mut am = AssetManager::instantiate("user".to_string());

    // An empty self-reported address means the router cannot be found.
    let res = am.configure_network(
        "user",
        "xcall".to_string(),
        ICON_AM.to_string(),
        NetworkAddress(String::new()),
    );
    assert_eq!(res.unwrap_err(), ContractError::RouterAddressNotFound);

    // A report naming another contract is refused.
    let res = am.configure_network(
        "user",
        "xcall".to_string(),
        ICON_AM.to_string(),
        NetworkAddress("0x44.archway/othercontract".to_string()),
    );
    assert_eq!(res.unwrap_err(), ContractError::RouterAddressMismatch);

    // A malformed remote asset manager is refused.
    let res = am.configure_network(
        "user",
        "xcall".to_string(),
        "0x01.icon/nothex".to_string(),
        NetworkAddress("0x44.archway/xcall".to_string()),
    );
    assert_eq!(res.unwrap_err(), ContractError::InvalidNetworkAddressFormat);

    // Until a configuration is stored, operations refuse to run.
    let res = am.withdraw_request("user", "token1".to_string(), 1);
    assert_eq!(res.unwrap_err(), ContractError::NotConfigured);
}

#[test]
fn reply_routes_by_correlation_id() {
    assert!(cw_asset_manager::asset_manager::reply(SUCCESS_REPLY_MSG, true).is_ok());
    assert_eq!(
        cw_asset_manager::asset_manager::reply(SUCCESS_REPLY_MSG, false).unwrap_err(),
        ContractError::SubcallFailed
    );
    assert_eq!(
        cw_asset_manager::asset_manager::reply(7, true).unwrap_err(),
        ContractError::UnknownReplyId
    );
}
