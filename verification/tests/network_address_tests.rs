//! Network address parsing, construction and validation.
use cw_asset_manager::network_address::{NetId, NetworkAddress};

#[test]
fn test_parse_btp_address() {
    let btp_address =
        NetworkAddress("0x38.bsc/0x034AaDE86BF402F023Aa17E5725fABC4ab9E9798".to_string());
    let (network, account) = btp_address.parse_parts();
    assert_eq!(network, NetId::from("0x38.bsc".to_string()));
    assert_eq!(account, "0x034AaDE86BF402F023Aa17E5725fABC4ab9E9798");
}

/// Splitting what `new` joined gives the parts back whenever neither part
/// holds a slash.
#[test]
fn parse_parts_undoes_new() {
    let addr = NetworkAddress::new("0x01.icon", "hx9876543210fedcba9876543210fedcba98765432");
    assert_eq!(addr.as_str(), "0x01.icon/hx9876543210fedcba9876543210fedcba98765432");
    let (network, account) = addr.parse_parts();
    assert_eq!(network.as_str(), "0x01.icon");
    assert_eq!(account, "hx9876543210fedcba9876543210fedcba98765432");
}

#[test]
fn parse_splits_at_first_slash() {
    let addr = NetworkAddress("net/acc/extra".to_string());
    let (network, account) = addr.parse_parts();
    assert_eq!(network.as_str(), "net");
    assert_eq!(account, "acc/extra");

    let parts = addr.get_parts();
    assert_eq!(parts, vec!["net".to_string(), "acc".to_string(), "extra".to_string()]);
}

#[test]
fn nid_and_is_empty() {
    let addr = NetworkAddress("0x44.archway/xcall".to_string());
    assert_eq!(addr.nid().as_str(), "0x44.archway");
    assert!(!addr.is_empty());
    assert!(NetworkAddress(String::new()).is_empty());
}

#[test]
fn validate_accepts_recognized_accounts() {
    let ok = [
        "0x01.icon/cxc2d01de5013778d71d99f985e4e2ff3a9b48a66c",
        "0x01.icon/hx9876543210fedcba9876543210fedcba98765432",
        "0x01.icon/CXC2D01DE5013778D71D99F985E4E2FF3A9B48A66C",
        "net/Hx9876543210FEDCBA9876543210fedcba98765432",
    ];
    for a in ok {
        assert!(NetworkAddress(a.to_string()).validate(), "{}", a);
    }
}

#[test]
fn validate_rejects_malformed_accounts() {
    let bad = [
        // no separator at all
        "cxc2d01de5013778d71d99f985e4e2ff3a9b48a66c",
        // wrong prefix
        "0x01.icon/zxc2d01de5013778d71d99f985e4e2ff3a9b48a66c",
        // 39 hex digits
        "0x01.icon/cxc2d01de5013778d71d99f985e4e2ff3a9b48a66",
        // 41 hex digits
        "0x01.icon/cxc2d01de5013778d71d99f985e4e2ff3a9b48a66cc",
        // a non-hex character in the body
        "0x01.icon/cxc2d01de5013778d71d99f985e4e2ffza9b48a66",
        // an account holding a second separator
        "0x01.icon/cxc2d01de5013778d71d99f985e4e2ff3a9b48a6/c",
        // empty account
        "0x01.icon/",
    ];
    for a in bad {
        assert!(!NetworkAddress(a.to_string()).validate(), "{}", a);
    }
}
