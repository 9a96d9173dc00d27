//! The wire codec, held against the reference RLP implementation.
use cw_asset_manager::errors::ContractError;
use cw_asset_manager::xcall_data_types::{
    decode_encoded_bytes, DecodedStruct, Deposit, DepositRevert, WithdrawRequest, WithdrawTo,
};
use rlp::RlpStream;

#[test]
fn test_encode_decode_withdraw_to() {
    let withdraw_to = WithdrawTo {
        token_address: String::from("token"),
        user_address: String::from("user"),
        amount: 1000,
    };

    let encoded_withdraw_to = withdraw_to.rlp_bytes();
    let (method, decoded_struct) = decode_encoded_bytes(&encoded_withdraw_to).unwrap();
    assert_eq!(method, "WithdrawTo");

    if let DecodedStruct::WithdrawTo(decoded_withdraw_to) = decoded_struct {
        assert_eq!(decoded_withdraw_to, withdraw_to);
    } else {
        panic!("Expected DecodedStruct::WithdrawTo variant");
    }
}

#[test]
fn test_encode_decode_incoming_msg() {
    let deposit_revert = DepositRevert {
        token_address: String::from("token"),
        account: String::from("account"),
        amount: 2000,
    };

    let encoded_deposit_revert = deposit_revert.rlp_bytes();
    let (method, decoded_struct) = decode_encoded_bytes(&encoded_deposit_revert).unwrap();
    assert_eq!(method, "DepositRevert");

    if let DecodedStruct::DepositRevert(decoded_deposit_revert) = decoded_struct {
        assert_eq!(decoded_deposit_revert, deposit_revert);
    } else {
        panic!("Expected DecodedStruct::DepositRevert variant");
    }
}

#[test]
fn test_uhandled_incoming_msg() {
    let unknown_method = Deposit {
        token_address: String::from("token"),
        from: String::from("user"),
        to: String::from("anotheruser"),
        amount: 1000,
        data: vec![],
    };

    let encoded_bytes = unknown_method.rlp_bytes();

    let result = decode_encoded_bytes(&encoded_bytes);

    assert!(result.is_err());
    assert_eq!(result.unwrap_err(), ContractError::UnknownMethod);
}

/// The deposit notice must carry the same bytes the reference RLP
/// implementation writes for the same five-field list.
#[test]
fn deposit_bytes_match_reference_rlp() {
    let msg = Deposit {
        token_address: String::from("token1"),
        from: String::from("user"),
        to: String::from("0x01.icon/cx9876543210fedcba9876543210fedcba98765432"),
        amount: 100,
        data: vec![1, 2, 3],
    };

    let mut stream = RlpStream::new();
    stream.begin_list(5);
    stream.append(&"Deposit");
    stream.append(&msg.token_address);
    stream.append(&msg.from);
    stream.append(&msg.to);
    stream.append(&msg.amount);

    assert_eq!(msg.rlp_bytes(), stream.out().to_vec());
}

#[test]
fn deposit_revert_bytes_match_reference_rlp() {
    let msg = DepositRevert {
        token_address: String::from("token1"),
        account: String::from("account1"),
        amount: u128::MAX,
    };

    let mut stream = RlpStream::new();
    stream.begin_list(4);
    stream.append(&"DepositRevert");
    stream.append(&msg.token_address);
    stream.append(&msg.account);
    stream.append(&msg.amount);

    assert_eq!(msg.rlp_bytes(), stream.out().to_vec());
}

#[test]
fn withdraw_to_bytes_match_reference_rlp() {
    let msg = WithdrawTo {
        token_address: String::from("t"),
        user_address: String::new(),
        amount: 0,
    };

    let mut stream = RlpStream::new();
    stream.begin_list(4);
    stream.append(&"WithdrawTo");
    stream.append(&msg.token_address);
    stream.append(&msg.user_address);
    stream.append(&msg.amount);

    assert_eq!(msg.rlp_bytes(), stream.out().to_vec());
}

#[test]
fn withdraw_request_bytes_match_reference_rlp() {
    let msg = WithdrawRequest {
        token_address: String::from("token1"),
        from_address: String::from("0x44.archway/archway1user"),
        amount: 77,
    };

    let mut stream = RlpStream::new();
    stream.begin_list(4);
    stream.append(&"WithdrawRequest");
    stream.append(&msg.token_address);
    stream.append(&msg.from_address);
    stream.append(&msg.amount);

    assert_eq!(msg.rlp_bytes(), stream.out().to_vec());
}

/// A payload long enough for the long-form list and string headers still
/// matches the reference and still round-trips.
#[test]
fn long_fields_round_trip_and_match_reference_rlp() {
    let long_account = "a".repeat(120);
    let msg = WithdrawTo {
        token_address: String::from("token1"),
        user_address: long_account,
        amount: 123456789,
    };

    let mut stream = RlpStream::new();
    stream.begin_list(4);
    stream.append(&"WithdrawTo");
    stream.append(&msg.token_address);
    stream.append(&msg.user_address);
    stream.append(&msg.amount);

    let bytes = msg.rlp_bytes();
    assert_eq!(bytes, stream.out().to_vec());

    let (method, decoded) = decode_encoded_bytes(&bytes).unwrap();
    assert_eq!(method, "WithdrawTo");
    assert_eq!(decoded, DecodedStruct::WithdrawTo(msg));
}

/// Payloads decoded by the remote side only are refused here with
/// `UnknownMethod`, as is any unrecognized tag.
#[test]
fn unknown_tags_are_refused() {
    let msg = WithdrawRequest {
        token_address: String::from("token1"),
        from_address: String::from("user"),
        amount: 5,
    };
    assert_eq!(
        decode_encoded_bytes(&msg.rlp_bytes()).unwrap_err(),
        ContractError::UnknownMethod
    );

    let mut stream = RlpStream::new();
    stream.begin_list(4);
    stream.append(&"Mint");
    stream.append(&"token");
    stream.append(&"account");
    stream.append(&9u128);
    assert_eq!(
        decode_encoded_bytes(&stream.out()).unwrap_err(),
        ContractError::UnknownMethod
    );
}

#[test]
fn non_list_payloads_are_refused() {
    assert_eq!(decode_encoded_bytes(&[]).unwrap_err(), ContractError::NotAList);

    let mut stream = RlpStream::new();
    stream.append(&"WithdrawTo");
    assert_eq!(
        decode_encoded_bytes(&stream.out()).unwrap_err(),
        ContractError::NotAList
    );
}

#[test]
fn wrong_arity_is_refused() {
    // Three fields where WithdrawTo asks for four.
    let mut stream = RlpStream::new();
    stream.begin_list(3);
    stream.append(&"WithdrawTo");
    stream.append(&"token");
    stream.append(&"user");
    assert_eq!(
        decode_encoded_bytes(&stream.out()).unwrap_err(),
        ContractError::InvalidFieldCount
    );

    // Five fields where DepositRevert asks for four.
    let mut stream = RlpStream::new();
    stream.begin_list(5);
    stream.append(&"DepositRevert");
    stream.append(&"token");
    stream.append(&"account");
    stream.append(&1u128);
    stream.append(&2u128);
    assert_eq!(
        decode_encoded_bytes(&stream.out()).unwrap_err(),
        ContractError::InvalidFieldCount
    );
}

#[test]
fn damaged_encodings_are_refused() {
    let msg = DepositRevert {
        token_address: String::from("token"),
        account: String::from("account"),
        amount: 2000,
    };
    let mut bytes = msg.rlp_bytes();
    // Truncating the list leaves its header promising more than is there.
    bytes.pop();
    assert_eq!(
        decode_encoded_bytes(&bytes).unwrap_err(),
        ContractError::InvalidEncoding
    );
}
