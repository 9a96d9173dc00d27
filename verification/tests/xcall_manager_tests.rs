//! The protocol verifier and its governance workflow.
use cw_asset_manager::xcall_manager::{ContractError, GovAction, XcallManager};
use cw_asset_manager::xcall_manager_msg::{
    ConfigureProtocols, Execute, Migrate, ProtocolConfig, UpdateAdmin,
};

pub const XCALL_ADDR: &str = "xcall";
pub const GOVERNANCE: &str = "icon/governance";
pub const PROPOSER: &str = "proposer";

fn setup(protocols: Vec<String>) -> XcallManager {
    XcallManager::instantiate(
        PROPOSER.to_string(),
        XCALL_ADDR.to_string(),
        GOVERNANCE.to_string(),
        ProtocolConfig { sources: protocols.clone(), destinations: protocols },
    )
}

fn verify_protocol(mgr: &XcallManager, protocols: Vec<String>, valid: bool) {
    assert_eq!(mgr.query_verify_protocols(&protocols), valid);
    if !valid {
        return;
    }
    let current_protocols = mgr.get_protocols().unwrap();
    assert!(current_protocols.sources == protocols);
}

#[test]
fn verify_protocol_empty() {
    let mgr = setup(vec![]);
    verify_protocol(&mgr, vec![], true);
}

#[test]
fn verify_protocol_base() {
    let protocols = vec!["Protocol1".to_string(), "Protocol2".to_string()];
    let mgr = setup(protocols.clone());
    verify_protocol(&mgr, protocols, true);
}

#[test]
fn verify_protocol_invalid() {
    let protocols = vec!["Protocol1".to_string(), "Protocol2".to_string()];
    let invalid_protocols = vec!["Protocol3".to_string(), "Protocol2".to_string()];
    let mgr = setup(protocols);
    verify_protocol(&mgr, invalid_protocols, false);
}

#[test]
fn verify_protocol_invalid_empty() {
    let protocols = vec!["Protocol1".to_string()];
    let mgr = setup(vec![]);
    verify_protocol(&mgr, protocols, false);
}

#[test]
fn verify_only_xcall() {
    let mgr = setup(vec![]);
    let res = mgr.handle_call_message("not_xcall", GOVERNANCE, &[], None);
    assert!(res.is_err() && res.unwrap_err() == ContractError::OnlyXCall);
}

#[test]
fn verify_only_governance() {
    let mgr = setup(vec![]);
    let non_governance = "icon/fake_governance";
    let res = mgr.handle_call_message(XCALL_ADDR, non_governance, &[], None);
    assert!(res.is_err() && res.unwrap_err() == ContractError::OnlyGovernance);
}

#[test]
fn configure_protocol() {
    let protocols = vec!["Protocol1".to_string()];
    let new_sources = vec!["Protocol2".to_string()];
    let new_destination = vec!["icon/dst".to_string()];
    let mut mgr = setup(protocols.clone());

    let xcall_message = ConfigureProtocols {
        sources: new_sources.clone(),
        destinations: new_destination.clone(),
    };
    let encoded_message = xcall_message.rlp_bytes();

    let res = mgr.handle_call_message(XCALL_ADDR, GOVERNANCE, &encoded_message, Some(protocols.clone()));
    assert!(res.is_ok());
    match res.unwrap() {
        GovAction::ConfigureProtocols(cp) => {
            assert_eq!(cp, xcall_message);
            // Every source is a live contract, so the change is applied.
            mgr.apply_configure_protocols(cp, true).unwrap();
        },
        other => panic!("expected a protocol configuration, got {:?}", other),
    }

    verify_protocol(&mgr, protocols, false);
    verify_protocol(&mgr, new_sources.clone(), true);
    let current_protocols = mgr.get_protocols().unwrap();
    assert!(current_protocols.sources == new_sources);
    assert!(current_protocols.destinations == new_destination);
}

#[test]
fn execute_message() {
    let protocols = vec!["Protocol1".to_string()];
    let mgr = setup(protocols.clone());

    let to = "contract".to_string();
    let xcall_message = Execute { contract_addr: to.clone(), message: "bXNn".to_string() };
    let encoded_message = xcall_message.rlp_bytes();

    let res = mgr.handle_call_message(XCALL_ADDR, GOVERNANCE, &encoded_message, Some(protocols));
    assert!(res.is_ok());
    match res.unwrap() {
        GovAction::Execute(e) => {
            assert_eq!(e.contract_addr, to);
            assert_eq!(e.message, "bXNn");
        },
        other => panic!("expected an execute action, got {:?}", other),
    }
}

#[test]
fn migrate_message() {
    let protocols = vec!["Protocol1".to_string()];
    let mgr = setup(protocols.clone());

    let to = "contract".to_string();
    let code_id = 2;
    let xcall_message =
        Migrate { contract_addr: to.clone(), code_id, message: "bXNn".to_string() };
    let encoded_message = xcall_message.rlp_bytes();

    let res = mgr.handle_call_message(XCALL_ADDR, GOVERNANCE, &encoded_message, Some(protocols));
    assert!(res.is_ok());
    match res.unwrap() {
        GovAction::Migrate(m) => {
            assert_eq!(m.contract_addr, to);
            assert_eq!(m.code_id, code_id);
            assert_eq!(m.message, "bXNn");
        },
        other => panic!("expected a migrate action, got {:?}", other),
    }
}

#[test]
fn update_admin() {
    let protocols = vec!["Protocol1".to_string()];
    let mgr = setup(protocols.clone());

    let to = "contract".to_string();
    let admin = "admin".to_string();
    let xcall_message = UpdateAdmin { contract_addr: to.clone(), admin: admin.clone() };
    let encoded_message = xcall_message.rlp_bytes();

    let res = mgr.handle_call_message(XCALL_ADDR, GOVERNANCE, &encoded_message, Some(protocols));
    assert!(res.is_ok());
    match res.unwrap() {
        GovAction::UpdateAdmin(u) => {
            assert_eq!(u.contract_addr, to);
            assert_eq!(u.admin, admin);
        },
        other => panic!("expected an admin update, got {:?}", other),
    }
}

#[test]
fn only_proposer() {
    let mut mgr = setup(vec![]);

    let res = mgr.propose_change("not_proposer", "a".to_string());
    assert!(res.is_err() && res.unwrap_err() == ContractError::OnlyProposer);

    let res = mgr.remove_proposal("not_proposer");
    assert!(res.is_err() && res.unwrap_err() == ContractError::OnlyProposer);

    let res = mgr.change_proposer("not_proposer", "a".to_string());
    assert!(res.is_err() && res.unwrap_err() == ContractError::OnlyProposer);
}

#[test]
fn propose_and_enact_removal() {
    let protocols = vec!["Protocol1".to_string(), "Protocol2".to_string()];
    let new_protocols = vec!["Protocol2".to_string()];
    let mut mgr = setup(protocols.clone());

    let res = mgr.propose_change(PROPOSER, protocols[0].clone());
    assert!(res.is_ok());

    let xcall_message = ConfigureProtocols {
        sources: new_protocols.clone(),
        destinations: new_protocols.clone(),
    };
    let encoded_message = xcall_message.rlp_bytes();
    let res = mgr.handle_call_message(
        XCALL_ADDR,
        GOVERNANCE,
        &encoded_message,
        Some(new_protocols.clone()),
    );
    assert!(res.is_ok());
    match res.unwrap() {
        GovAction::ConfigureProtocols(cp) => mgr.apply_configure_protocols(cp, true).unwrap(),
        other => panic!("expected a protocol configuration, got {:?}", other),
    }

    verify_protocol(&mgr, protocols, false);
    verify_protocol(&mgr, new_protocols, true)
}

#[test]
fn invalid_proposal() {
    let protocols = vec!["Protocol1".to_string(), "Protocol2".to_string()];
    let new_protocols = vec!["Protocol2".to_string()];
    let mut mgr = setup(protocols);

    let res = mgr.propose_change(PROPOSER, "Protocol3".to_string());
    assert!(res.is_ok());

    let xcall_message = ConfigureProtocols {
        sources: new_protocols.clone(),
        destinations: new_protocols.clone(),
    };
    let encoded_message = xcall_message.rlp_bytes();
    let res =
        mgr.handle_call_message(XCALL_ADDR, GOVERNANCE, &encoded_message, Some(new_protocols));
    assert!(res.is_err() && res.unwrap_err() == ContractError::InvalidProtocol);
}

#[test]
fn change_proposer() {
    let mut mgr = setup(vec![]);
    let new_proposer = "new proposer".to_string();

    let res = mgr.change_proposer(PROPOSER, new_proposer.clone());
    assert!(res.is_ok());

    let res = mgr.propose_change(new_proposer.as_str(), "Protocol1".to_string());
    assert!(res.is_ok());
}

#[test]
fn unconfigured_manager_refuses_verification() {
    let mut mgr = setup(vec![]);
    mgr.protocols = None;
    let res = mgr.verify_protocols(&vec![], "AnyMethod");
    assert_eq!(res.unwrap_err(), ContractError::NetworkNotConfigured);
    assert!(!mgr.query_verify_protocols(&vec![]));
    assert!(mgr.get_protocols().is_none());
}

#[test]
fn unknown_governance_method_is_refused() {
    let mgr = setup(vec![]);
    // A well-formed list whose tag names no governance method.
    let msg = cw_asset_manager::xcall_data_types::WithdrawTo {
        token_address: "t".to_string(),
        user_address: "u".to_string(),
        amount: 1,
    };
    let res = mgr.handle_call_message(XCALL_ADDR, GOVERNANCE, &msg.rlp_bytes(), None);
    assert_eq!(res.unwrap_err(), ContractError::InvalidMethod);
}
