//! The cross-chain payloads: a closed set of tagged wire lists.  Each message
//! travels as a list whose first element is its UTF-8 method name, followed by
//! a fixed number of positional fields.
use vstd::prelude::*;
use vstd::utf8::{decode_utf8, encode_utf8, is_ascii_chars, is_ascii_chars_encode_utf8, valid_utf8};
use crate::errors::ContractError;
use crate::rlp::{
    append_str, append_uint, be_bytes, be_val, bytes_eq, enc_list, enc_str, enc_uint,
    is_canonical_u128, pow256, read_header, read_uint, spec_header, wrap_list,
};
use vstd::slice::{slice_subrange, slice_to_vec};
use vstd::string::StringExecFns;

verus! {

// ---------------------------------------------------------------------------
// Message structs and their mathematical views
// ---------------------------------------------------------------------------

/// Outbound notice of a lock: tells the remote side to credit `to`.
#[derive(Debug, Clone, PartialEq, Eq)]
pub struct Deposit {
    pub token_address: String,
    /// Network address of the caller.
    pub from: String,
    /// Network address that receives the hub token.
    pub to: String,
    pub amount: u128,
    /// Carried beside the wire list; the list itself holds five fields.
    pub data: Vec<u8>,
}

/// Inbound rollback of a failed deposit: returns the locked funds.
#[derive(Debug, Clone, PartialEq, Eq)]
pub struct DepositRevert {
    pub token_address: String,
    pub account: String,
    pub amount: u128,
}

/// Inbound instruction to pay out locked funds to a local account.
#[derive(Debug, Clone, PartialEq, Eq)]
pub struct WithdrawTo {
    pub token_address: String,
    pub user_address: String,
    pub amount: u128,
}

/// Outbound request to release funds recorded on the remote side.
#[derive(Debug, Clone, PartialEq, Eq)]
pub struct WithdrawRequest {
    pub token_address: String,
    pub from_address: String,
    pub amount: u128,
}

pub ghost struct DepositV {
    pub token_address: Seq<char>,
    pub from: Seq<char>,
    pub to: Seq<char>,
    pub amount: u128,
    pub data: Seq<u8>,
}

pub ghost struct DepositRevertV {
    pub token_address: Seq<char>,
    pub account: Seq<char>,
    pub amount: u128,
}

pub ghost struct WithdrawToV {
    pub token_address: Seq<char>,
    pub user_address: Seq<char>,
    pub amount: u128,
}

pub ghost struct WithdrawRequestV {
    pub token_address: Seq<char>,
    pub from_address: Seq<char>,
    pub amount: u128,
}

impl View for Deposit {
    type V = DepositV;

    open spec fn view(&self) -> DepositV {
        DepositV {
            token_address: self.token_address@,
            from: self.from@,
            to: self.to@,
            amount: self.amount,
            data: self.data@,
        }
    }
}

impl View for DepositRevert {
    type V = DepositRevertV;

    open spec fn view(&self) -> DepositRevertV {
        DepositRevertV {
            token_address: self.token_address@,
            account: self.account@,
            amount: self.amount,
        }
    }
}

impl View for WithdrawTo {
    type V = WithdrawToV;

    open spec fn view(&self) -> WithdrawToV {
        WithdrawToV {
            token_address: self.token_address@,
            user_address: self.user_address@,
            amount: self.amount,
        }
    }
}

impl View for WithdrawRequest {
    type V = WithdrawRequestV;

    open spec fn view(&self) -> WithdrawRequestV {
        WithdrawRequestV {
            token_address: self.token_address@,
            from_address: self.from_address@,
            amount: self.amount,
        }
    }
}

// ---------------------------------------------------------------------------
// Canonical encodings
// ---------------------------------------------------------------------------

pub open spec fn tag_deposit() -> Seq<u8> {
    encode_utf8("Deposit"@)
}

pub open spec fn tag_deposit_revert() -> Seq<u8> {
    encode_utf8("DepositRevert"@)
}

pub open spec fn tag_withdraw_to() -> Seq<u8> {
    encode_utf8("WithdrawTo"@)
}

pub open spec fn tag_withdraw_request() -> Seq<u8> {
    encode_utf8("WithdrawRequest"@)
}

pub open spec fn enc_deposit(m: DepositV) -> Seq<u8> {
    enc_list(
        enc_str(tag_deposit()) + enc_str(encode_utf8(m.token_address)) + enc_str(
            encode_utf8(m.from),
        ) + enc_str(encode_utf8(m.to)) + enc_uint(m.amount as nat),
    )
}

pub open spec fn enc_deposit_revert(m: DepositRevertV) -> Seq<u8> {
    enc_list(
        enc_str(tag_deposit_revert()) + enc_str(encode_utf8(m.token_address)) + enc_str(
            encode_utf8(m.account),
        ) + enc_uint(m.amount as nat),
    )
}

pub open spec fn enc_withdraw_to(m: WithdrawToV) -> Seq<u8> {
    enc_list(
        enc_str(tag_withdraw_to()) + enc_str(encode_utf8(m.token_address)) + enc_str(
            encode_utf8(m.user_address),
        ) + enc_uint(m.amount as nat),
    )
}

pub open spec fn enc_withdraw_request(m: WithdrawRequestV) -> Seq<u8> {
    enc_list(
        enc_str(tag_withdraw_request()) + enc_str(encode_utf8(m.token_address)) + enc_str(
            encode_utf8(m.from_address),
        ) + enc_uint(m.amount as nat),
    )
}

impl Deposit {
    /// Wire form: `[tag, token_address, from, to, amount]`.
    pub fn rlp_bytes(&self) -> (r: Vec<u8>)
        ensures
            r@ == enc_deposit(self@),
    {
        let mut payload: Vec<u8> = Vec::new();
        append_str(&mut payload, "Deposit".as_bytes());
        append_str(&mut payload, self.token_address.as_str().as_bytes());
        append_str(&mut payload, self.from.as_str().as_bytes());
        append_str(&mut payload, self.to.as_str().as_bytes());
        append_uint(&mut payload, self.amount);
        proof {
            assert(payload@ =~= enc_str(tag_deposit()) + enc_str(encode_utf8(self@.token_address))
                + enc_str(encode_utf8(self@.from)) + enc_str(encode_utf8(self@.to)) + enc_uint(
                self@.amount as nat,
            ));
        }
        wrap_list(payload)
    }
}

impl DepositRevert {
    /// Wire form: `[tag, token_address, account, amount]`.
    pub fn rlp_bytes(&self) -> (r: Vec<u8>)
        ensures
            r@ == enc_deposit_revert(self@),
    {
        let mut payload: Vec<u8> = Vec::new();
        append_str(&mut payload, "DepositRevert".as_bytes());
        append_str(&mut payload, self.token_address.as_str().as_bytes());
        append_str(&mut payload, self.account.as_str().as_bytes());
        append_uint(&mut payload, self.amount);
        proof {
            assert(payload@ =~= enc_str(tag_deposit_revert()) + enc_str(
                encode_utf8(self@.token_address),
            ) + enc_str(encode_utf8(self@.account)) + enc_uint(self@.amount as nat));
        }
        wrap_list(payload)
    }
}

impl WithdrawTo {
    /// Wire form: `[tag, token_address, user_address, amount]`.
    pub fn rlp_bytes(&self) -> (r: Vec<u8>)
        ensures
            r@ == enc_withdraw_to(self@),
    {
        let mut payload: Vec<u8> = Vec::new();
        append_str(&mut payload, "WithdrawTo".as_bytes());
        append_str(&mut payload, self.token_address.as_str().as_bytes());
        append_str(&mut payload, self.user_address.as_str().as_bytes());
        append_uint(&mut payload, self.amount);
        proof {
            assert(payload@ =~= enc_str(tag_withdraw_to()) + enc_str(
                encode_utf8(self@.token_address),
            ) + enc_str(encode_utf8(self@.user_address)) + enc_uint(self@.amount as nat));
        }
        wrap_list(payload)
    }
}

impl WithdrawRequest {
    /// Wire form: `[tag, token_address, from_address, amount]`.
    pub fn rlp_bytes(&self) -> (r: Vec<u8>)
        ensures
            r@ == enc_withdraw_request(self@),
    {
        let mut payload: Vec<u8> = Vec::new();
        append_str(&mut payload, "WithdrawRequest".as_bytes());
        append_str(&mut payload, self.token_address.as_str().as_bytes());
        append_str(&mut payload, self.from_address.as_str().as_bytes());
        append_uint(&mut payload, self.amount);
        proof {
            assert(payload@ =~= enc_str(tag_withdraw_request()) + enc_str(
                encode_utf8(self@.token_address),
            ) + enc_str(encode_utf8(self@.from_address)) + enc_uint(self@.amount as nat));
        }
        wrap_list(payload)
    }
}

// ---------------------------------------------------------------------------
// Decoding
// ---------------------------------------------------------------------------

/// Decode failures, mirrored by `ContractError` through `err_of`.
pub ghost enum DecodeErr {
    NotAList,
    InvalidEncoding,
    UnknownMethod,
    InvalidFieldCount,
}

pub open spec fn err_of(e: DecodeErr) -> ContractError {
    match e {
        DecodeErr::NotAList => ContractError::NotAList,
        DecodeErr::InvalidEncoding => ContractError::InvalidEncoding,
        DecodeErr::UnknownMethod => ContractError::UnknownMethod,
        DecodeErr::InvalidFieldCount => ContractError::InvalidFieldCount,
    }
}

/// The string item starting at `pos` of `b`: its payload and the position
/// right after it.
pub open spec fn parse_str_item(b: Seq<u8>, pos: int) -> Option<(Seq<u8>, int)> {
    match spec_header(b.skip(pos)) {
        Some((is_list, h, l)) => if is_list {
            None
        } else {
            Some((b.subrange(pos + h, pos + h + l), pos + h + l))
        },
        None => None,
    }
}

/// The integer item starting at `pos`: a string item holding a minimal
/// big-endian number that fits 128 bits.
pub open spec fn parse_uint_item(b: Seq<u8>, pos: int) -> Option<(u128, int)> {
    match parse_str_item(b, pos) {
        Some((seg, np)) => if is_canonical_u128(seg) {
            Some((be_val(seg) as u128, np))
        } else {
            None
        },
        None => None,
    }
}

/// The tail of every recognized inbound variant: two strings and an integer,
/// ending exactly at the end of the list.
pub open spec fn parse_tail_ssu(b: Seq<u8>, pos: int) -> Result<(Seq<u8>, Seq<u8>, u128), DecodeErr> {
    if pos == b.len() {
        Err(DecodeErr::InvalidFieldCount)
    } else {
        match parse_str_item(b, pos) {
            None => Err(DecodeErr::InvalidEncoding),
            Some((f1, p2)) => if p2 == b.len() {
                Err(DecodeErr::InvalidFieldCount)
            } else {
                match parse_str_item(b, p2) {
                    None => Err(DecodeErr::InvalidEncoding),
                    Some((f2, p3)) => if p3 == b.len() {
                        Err(DecodeErr::InvalidFieldCount)
                    } else {
                        match parse_uint_item(b, p3) {
                            None => Err(DecodeErr::InvalidEncoding),
                            Some((v, p4)) => if p4 != b.len() {
                                Err(DecodeErr::InvalidFieldCount)
                            } else {
                                Ok((f1, f2, v))
                            },
                        }
                    },
                }
            },
        }
    }
}

/// A successfully decoded inbound message.
pub ghost enum DecodedStructV {
    WithdrawTo(WithdrawToV),
    DepositRevert(DepositRevertV),
}

/// What `decode_encoded_bytes` makes of a buffer: the method tag and the
/// typed variant, or the reason the buffer is refused.
pub open spec fn spec_decode(b: Seq<u8>) -> Result<(Seq<char>, DecodedStructV), DecodeErr> {
    if b.len() == 0 || b[0] < 0xc0 {
        Err(DecodeErr::NotAList)
    } else {
        match spec_header(b) {
            None => Err(DecodeErr::InvalidEncoding),
            Some((is_list, h, l)) => {
                if h + l != b.len() {
                    Err(DecodeErr::InvalidEncoding)
                } else {
                    match parse_str_item(b, h as int) {
                        None => Err(DecodeErr::InvalidEncoding),
                        Some((tag, p1)) => {
                            if tag == tag_withdraw_to() {
                                match parse_tail_ssu(b, p1) {
                                    Err(e) => Err(e),
                                    Ok((f1, f2, v)) => if valid_utf8(f1) && valid_utf8(f2) {
                                        Ok(
                                            (
                                                "WithdrawTo"@,
                                                DecodedStructV::WithdrawTo(
                                                    WithdrawToV {
                                                        token_address: decode_utf8(f1),
                                                        user_address: decode_utf8(f2),
                                                        amount: v,
                                                    },
                                                ),
                                            ),
                                        )
                                    } else {
                                        Err(DecodeErr::InvalidEncoding)
                                    },
                                }
                            } else if tag == tag_deposit_revert() {
                                match parse_tail_ssu(b, p1) {
                                    Err(e) => Err(e),
                                    Ok((f1, f2, v)) => if valid_utf8(f1) && valid_utf8(f2) {
                                        Ok(
                                            (
                                                "DepositRevert"@,
                                                DecodedStructV::DepositRevert(
                                                    DepositRevertV {
                                                        token_address: decode_utf8(f1),
                                                        account: decode_utf8(f2),
                                                        amount: v,
                                                    },
                                                ),
                                            ),
                                        )
                                    } else {
                                        Err(DecodeErr::InvalidEncoding)
                                    },
                                }
                            } else {
                                Err(DecodeErr::UnknownMethod)
                            }
                        },
                    }
                }
            },
        }
    }
}

/// The typed form of a recognized inbound payload.
#[derive(Debug, Clone, PartialEq, Eq)]
pub enum DecodedStruct {
    WithdrawTo(WithdrawTo),
    DepositRevert(DepositRevert),
}

impl View for DecodedStruct {
    type V = DecodedStructV;

    open spec fn view(&self) -> DecodedStructV {
        match self {
            DecodedStruct::WithdrawTo(w) => DecodedStructV::WithdrawTo(w@),
            DecodedStruct::DepositRevert(d) => DecodedStructV::DepositRevert(d@),
        }
    }
}

/// Reads the string item at `pos`: payload bounds and the next position.
pub(crate) fn read_str_item(data: &[u8], pos: usize) -> (r: Option<(usize, usize, usize)>)
    requires
        pos <= data.len(),
    ensures
        ({
            let pi = parse_str_item(data@, pos as int);
            match r {
                Some((ps, pe, np)) => pi == Some((data@.subrange(ps as int, pe as int), np as int))
                    && pos <= ps <= pe <= data.len() && pos < np <= data.len() && pe <= np,
                None => pi is None,
            }
        }),
{
    match read_header(data, pos) {
        None => None,
        Some((is_list, h, l)) => {
            if is_list {
                None
            } else {
                proof {
                    assert(data@.skip(pos as int).subrange(h as int, (h + l) as int)
                        =~= data@.subrange((pos + h) as int, (pos + h + l) as int));
                }
                Some((pos + h, pos + h + l, pos + h + l))
            }
        },
    }
}

/// Reads the two-strings-and-an-integer tail shared by the inbound variants.
fn read_tail_ssu(data: &[u8], pos: usize) -> (r: Result<(Vec<u8>, Vec<u8>, u128), ContractError>)
    requires
        pos <= data.len(),
    ensures
        ({
            let st = parse_tail_ssu(data@, pos as int);
            match r {
                Ok((f1, f2, v)) => st == Ok::<_, DecodeErr>((f1@, f2@, v)),
                Err(e) => st matches Err(se) && e == err_of(se),
            }
        }),
{
    if pos == data.len() {
        return Err(ContractError::InvalidFieldCount);
    }
    let (s1, e1, p2) = match read_str_item(data, pos) {
        None => {
            return Err(ContractError::InvalidEncoding);
        },
        Some(t) => t,
    };
    if p2 == data.len() {
        return Err(ContractError::InvalidFieldCount);
    }
    let (s2, e2, p3) = match read_str_item(data, p2) {
        None => {
            return Err(ContractError::InvalidEncoding);
        },
        Some(t) => t,
    };
    if p3 == data.len() {
        return Err(ContractError::InvalidFieldCount);
    }
    let (s3, e3, p4) = match read_str_item(data, p3) {
        None => {
            return Err(ContractError::InvalidEncoding);
        },
        Some(t) => t,
    };
    let v = match read_uint(data, s3, e3) {
        None => {
            return Err(ContractError::InvalidEncoding);
        },
        Some(v) => v,
    };
    proof {
        crate::rlp::lemma_be_val_of_be_bytes(v as nat);
    }
    if p4 != data.len() {
        return Err(ContractError::InvalidFieldCount);
    }
    let f1 = slice_to_vec(slice_subrange(data, s1, e1));
    let f2 = slice_to_vec(slice_subrange(data, s2, e2));
    Ok((f1, f2, v))
}

/// Decodes an inbound payload: a wire list whose first element is the method
/// tag, followed by that method's fields.  Returns the tag and the typed
/// variant; refuses non-lists, unknown tags, wrong arities and damaged
/// encodings, exactly as `spec_decode` lays down.
pub fn decode_encoded_bytes(data: &[u8]) -> (r: Result<(String, DecodedStruct), ContractError>)
    ensures
        ({
            let sd = spec_decode(data@);
            match r {
                Ok((tag, ds)) => sd == Ok::<_, DecodeErr>((tag@, ds@)),
                Err(e) => sd matches Err(se) && e == err_of(se),
            }
        }),
{
    let n = data.len();
    if n == 0 {
        return Err(ContractError::NotAList);
    }
    if data[0] < 0xc0 {
        return Err(ContractError::NotAList);
    }
    proof {
        assert(data@.skip(0) =~= data@);
    }
    let (h, l) = match read_header(data, 0) {
        None => {
            return Err(ContractError::InvalidEncoding);
        },
        Some((is_list, h, l)) => (h, l),
    };
    if h + l != n {
        return Err(ContractError::InvalidEncoding);
    }
    let (ts, te, p1) = match read_str_item(data, h) {
        None => {
            return Err(ContractError::InvalidEncoding);
        },
        Some(t) => t,
    };
    if bytes_eq(slice_subrange(data, ts, te), "WithdrawTo".as_bytes()) {
        let (f1, f2, v) = match read_tail_ssu(data, p1) {
            Err(e) => {
                return Err(e);
            },
            Ok(t) => t,
        };
        let token_address = match crate::strings::string_from_utf8(f1) {
            None => {
                return Err(ContractError::InvalidEncoding);
            },
            Some(s) => s,
        };
        let user_address = match crate::strings::string_from_utf8(f2) {
            None => {
                return Err(ContractError::InvalidEncoding);
            },
            Some(s) => s,
        };
        proof {
            broadcast use vstd::utf8::encode_utf8_decode_utf8;

        }
        Ok(
            (
                String::from_str("WithdrawTo"),
                DecodedStruct::WithdrawTo(WithdrawTo { token_address, user_address, amount: v }),
            ),
        )
    } else if bytes_eq(slice_subrange(data, ts, te), "DepositRevert".as_bytes()) {
        let (f1, f2, v) = match read_tail_ssu(data, p1) {
            Err(e) => {
                return Err(e);
            },
            Ok(t) => t,
        };
        let token_address = match crate::strings::string_from_utf8(f1) {
            None => {
                return Err(ContractError::InvalidEncoding);
            },
            Some(s) => s,
        };
        let account = match crate::strings::string_from_utf8(f2) {
            None => {
                return Err(ContractError::InvalidEncoding);
            },
            Some(s) => s,
        };
        proof {
            broadcast use vstd::utf8::encode_utf8_decode_utf8;

        }
        Ok(
            (
                String::from_str("DepositRevert"),
                DecodedStruct::DepositRevert(DepositRevert { token_address, account, amount: v }),
            ),
        )
    } else {
        Err(ContractError::UnknownMethod)
    }
}

// ---------------------------------------------------------------------------
// Laws: encoding and decoding are inverse on the recognized variants
// ---------------------------------------------------------------------------

/// An encoded string item at `pos` parses back to its payload.
pub proof fn lemma_parse_str_item_prefix(b: Seq<u8>, pos: int, s: Seq<u8>, rest: Seq<u8>)
    requires
        0 <= pos <= b.len(),
        b.skip(pos) == enc_str(s) + rest,
        s.len() < pow256(8),
    ensures
        parse_str_item(b, pos) == Some((s, pos + enc_str(s).len())),
{
    crate::rlp::lemma_header_enc_str(s, rest);
    crate::rlp::lemma_enc_str_len(s);
    let h = (enc_str(s).len() - s.len()) as nat;
    assert(spec_header(b.skip(pos)) == Some((false, h, s.len())));
    assert((enc_str(s) + rest).subrange(h as int, h + s.len() as int) =~= s);
    assert(b.subrange(pos + h, pos + h + s.len() as int) =~= (enc_str(s) + rest).subrange(
        h as int,
        h + s.len() as int,
    ));
}

/// An encoded integer item at `pos` parses back to its value.
pub proof fn lemma_parse_uint_item_prefix(b: Seq<u8>, pos: int, n: u128, rest: Seq<u8>)
    requires
        0 <= pos <= b.len(),
        b.skip(pos) == enc_uint(n as nat) + rest,
    ensures
        parse_uint_item(b, pos) == Some((n, pos + enc_uint(n as nat).len())),
{
    crate::rlp::lemma_pow256_8();
    crate::rlp::lemma_be_bytes_len(n as nat, 16);
    crate::rlp::lemma_be_bytes_no_leading_zero(n as nat);
    crate::rlp::lemma_be_val_of_be_bytes(n as nat);
    lemma_parse_str_item_prefix(b, pos, be_bytes(n as nat), rest);
}

/// Lengths of the method tags, and so their distinctness.
pub proof fn lemma_tag_facts()
    ensures
        tag_deposit().len() == 7,
        tag_deposit_revert().len() == 13,
        tag_withdraw_to().len() == 10,
        tag_withdraw_request().len() == 15,
{
    reveal_strlit("Deposit");
    reveal_strlit("DepositRevert");
    reveal_strlit("WithdrawTo");
    reveal_strlit("WithdrawRequest");
    assert(is_ascii_chars("Deposit"@));
    assert(is_ascii_chars("DepositRevert"@));
    assert(is_ascii_chars("WithdrawTo"@));
    assert(is_ascii_chars("WithdrawRequest"@));
    is_ascii_chars_encode_utf8("Deposit"@);
    is_ascii_chars_encode_utf8("DepositRevert"@);
    is_ascii_chars_encode_utf8("WithdrawTo"@);
    is_ascii_chars_encode_utf8("WithdrawRequest"@);
}

/// After a known item, parsing continues in the remainder.
proof fn lemma_skip_shift(b: Seq<u8>, pos: int, front: Seq<u8>, back: Seq<u8>)
    requires
        0 <= pos <= b.len(),
        b.skip(pos) == front + back,
    ensures
        b.skip(pos + front.len()) =~= back,
{
    assert(b.skip(pos).len() == b.len() - pos);
    assert(b.skip(pos).len() == front.len() + back.len());
    assert(pos + front.len() <= b.len());
    assert forall|i: int| 0 <= i < back.len() implies b.skip(pos + front.len() as int)[i]
        == back[i] by {
        assert(b.skip(pos)[front.len() + i] == (front + back)[front.len() + i]);
        assert((front + back)[front.len() + i] == back[i]);
        assert(b.skip(pos)[front.len() + i] == b[pos + front.len() + i]);
        assert(b.skip(pos + front.len() as int)[i] == b[pos + front.len() + i]);
    }
}

/// Parsing an encoded `string, string, integer` tail that reaches exactly to
/// the end of the buffer recovers each field.
proof fn lemma_tail_ssu_exact(b: Seq<u8>, pos: int, b1: Seq<u8>, b2: Seq<u8>, n: u128)
    requires
        0 <= pos <= b.len(),
        b.skip(pos) == enc_str(b1) + enc_str(b2) + enc_uint(n as nat),
        b1.len() < pow256(8),
        b2.len() < pow256(8),
    ensures
        parse_tail_ssu(b, pos) == Ok::<_, DecodeErr>((b1, b2, n)),
{
    crate::rlp::lemma_pow256_8();
    crate::rlp::lemma_be_bytes_len(n as nat, 16);
    let e1 = enc_str(b1);
    let e2 = enc_str(b2);
    let e3 = enc_uint(n as nat);
    crate::rlp::lemma_enc_str_len(b1);
    crate::rlp::lemma_enc_str_len(b2);
    crate::rlp::lemma_enc_str_len(be_bytes(n as nat));
    assert(b.len() - pos == e1.len() + e2.len() + e3.len());
    assert(b.skip(pos) =~= e1 + (e2 + e3));
    lemma_parse_str_item_prefix(b, pos, b1, e2 + e3);
    let p2 = pos + e1.len();
    lemma_skip_shift(b, pos, e1, e2 + e3);
    assert(b.skip(p2 as int) =~= e2 + e3);
    lemma_parse_str_item_prefix(b, p2 as int, b2, e3);
    let p3 = p2 + e2.len();
    lemma_skip_shift(b, p2 as int, e2, e3);
    assert(b.skip(p3 as int) =~= e3 + Seq::<u8>::empty());
    lemma_parse_uint_item_prefix(b, p3 as int, n, Seq::<u8>::empty());
    assert(p3 + e3.len() == b.len());
}

/// Parsing an encoded `[tag, string, string, integer]` list recovers each
/// part.
#[verifier::rlimit(100)]
#[verifier::spinoff_prover]
proof fn lemma_parse_tagged_ssu(tagb: Seq<u8>, b1: Seq<u8>, b2: Seq<u8>, amount: u128)
    requires
        tagb.len() <= 55,
        b1.len() + b2.len() + 120 < pow256(8),
    ensures
        ({
            let payload = enc_str(tagb) + enc_str(b1) + enc_str(b2) + enc_uint(amount as nat);
            let b = enc_list(payload);
            let h = (b.len() - payload.len()) as nat;
            b.len() > 0 && b[0] >= 0xc0 && spec_header(b) == Some((true, h, payload.len()))
                && parse_str_item(b, h as int) == Some((tagb, h + enc_str(tagb).len() as int))
                && parse_tail_ssu(b, h + enc_str(tagb).len() as int) == Ok::<_, DecodeErr>(
                (b1, b2, amount),
            )
        }),
{
    crate::rlp::lemma_pow256_8();
    crate::rlp::lemma_be_bytes_len(amount as nat, 16);
    let e0 = enc_str(tagb);
    let e1 = enc_str(b1);
    let e2 = enc_str(b2);
    let e3 = enc_uint(amount as nat);
    crate::rlp::lemma_enc_str_len(tagb);
    crate::rlp::lemma_enc_str_len(b1);
    crate::rlp::lemma_enc_str_len(b2);
    crate::rlp::lemma_enc_str_len(be_bytes(amount as nat));
    let payload = e0 + e1 + e2 + e3;
    assert(payload.len() < pow256(8));
    let b = enc_list(payload);
    crate::rlp::lemma_enc_list_len(payload);
    crate::rlp::lemma_enc_list_first_byte(payload);
    crate::rlp::lemma_header_enc_list(payload, Seq::<u8>::empty());
    assert(enc_list(payload) + Seq::<u8>::empty() =~= b);
    let h = (b.len() - payload.len()) as nat;
    assert(spec_header(b) == Some((true, h, payload.len())));
    assert(crate::rlp::spec_payload_of(b, h, payload.len()) =~= payload);
    assert(b.skip(h as int) =~= payload) by {
        assert(b.skip(h as int).len() == payload.len());
        assert(forall|j: int|
            0 <= j < payload.len() ==> b.skip(h as int)[j] == crate::rlp::spec_payload_of(
                b,
                h,
                payload.len(),
            )[j]);
    }
    assert(b.skip(h as int) =~= e0 + (e1 + e2 + e3));
    lemma_parse_str_item_prefix(b, h as int, tagb, e1 + e2 + e3);
    lemma_skip_shift(b, h as int, e0, e1 + e2 + e3);
    let p1 = h + e0.len();
    assert(b.skip(p1 as int) =~= e1 + e2 + e3);
    lemma_tail_ssu_exact(b, p1 as int, b1, b2, amount);
}

/// Round trip: a `WithdrawTo` notice decodes back to its tag and fields.
///
/// The length bound keeps the whole list addressable; every value a program
/// can hold satisfies it.
pub proof fn lemma_round_trip_withdraw_to(m: WithdrawToV)
    requires
        encode_utf8(m.token_address).len() + encode_utf8(m.user_address).len() + 120 < pow256(8),
    ensures
        spec_decode(enc_withdraw_to(m)) == Ok::<_, DecodeErr>(
            ("WithdrawTo"@, DecodedStructV::WithdrawTo(m)),
        ),
{
    broadcast use vstd::utf8::encode_utf8_valid_utf8;
    broadcast use vstd::utf8::encode_utf8_decode_utf8;

    lemma_tag_facts();
    lemma_parse_tagged_ssu(
        tag_withdraw_to(),
        encode_utf8(m.token_address),
        encode_utf8(m.user_address),
        m.amount,
    );
}

/// Round trip: a `DepositRevert` notice decodes back to its tag and fields.
///
/// The length bound keeps the whole list addressable; every value a program
/// can hold satisfies it.
pub proof fn lemma_round_trip_deposit_revert(m: DepositRevertV)
    requires
        encode_utf8(m.token_address).len() + encode_utf8(m.account).len() + 120 < pow256(8),
    ensures
        spec_decode(enc_deposit_revert(m)) == Ok::<_, DecodeErr>(
            ("DepositRevert"@, DecodedStructV::DepositRevert(m)),
        ),
{
    broadcast use vstd::utf8::encode_utf8_valid_utf8;
    broadcast use vstd::utf8::encode_utf8_decode_utf8;

    lemma_tag_facts();
    lemma_parse_tagged_ssu(
        tag_deposit_revert(),
        encode_utf8(m.token_address),
        encode_utf8(m.account),
        m.amount,
    );
}

/// Any well-formed wire list whose tag is neither recognized method is
/// refused as `UnknownMethod`, whatever its fields hold.
pub proof fn lemma_unknown_tag(b: Seq<u8>)
    requires
        b.len() > 0,
        b[0] >= 0xc0,
        spec_header(b) matches Some((is_list, h, l)) && h + l == b.len(),
        ({
            let (is_list, h, l) = spec_header(b)->Some_0;
            parse_str_item(b, h as int) matches Some((tag, p)) && tag != tag_withdraw_to() && tag
                != tag_deposit_revert()
        }),
    ensures
        spec_decode(b) == Err::<(Seq<char>, DecodedStructV), _>(DecodeErr::UnknownMethod),
{
}

/// A `Deposit` notice is outbound only: the inbound decoder refuses its tag.
pub proof fn lemma_decode_deposit_unknown(m: DepositV)
    requires
        encode_utf8(m.token_address).len() + encode_utf8(m.from).len() + encode_utf8(m.to).len()
            + 150 < pow256(8),
    ensures
        spec_decode(enc_deposit(m)) == Err::<(Seq<char>, DecodedStructV), _>(
            DecodeErr::UnknownMethod,
        ),
{
    crate::rlp::lemma_pow256_8();
    crate::rlp::lemma_be_bytes_len(m.amount as nat, 16);
    lemma_tag_facts();
    let e0 = enc_str(tag_deposit());
    let e1 = enc_str(encode_utf8(m.token_address));
    let e2 = enc_str(encode_utf8(m.from));
    let e3 = enc_str(encode_utf8(m.to));
    let e4 = enc_uint(m.amount as nat);
    crate::rlp::lemma_enc_str_len(tag_deposit());
    crate::rlp::lemma_enc_str_len(encode_utf8(m.token_address));
    crate::rlp::lemma_enc_str_len(encode_utf8(m.from));
    crate::rlp::lemma_enc_str_len(encode_utf8(m.to));
    crate::rlp::lemma_enc_str_len(be_bytes(m.amount as nat));
    let payload = e0 + e1 + e2 + e3 + e4;
    assert(payload.len() < pow256(8));
    let b = enc_list(payload);
    crate::rlp::lemma_enc_list_len(payload);
    crate::rlp::lemma_enc_list_first_byte(payload);
    crate::rlp::lemma_header_enc_list(payload, Seq::<u8>::empty());
    assert(enc_list(payload) + Seq::<u8>::empty() =~= b);
    let h = (b.len() - payload.len()) as nat;
    assert(spec_header(b) == Some((true, h, payload.len())));
    assert(crate::rlp::spec_payload_of(b, h, payload.len()) =~= payload);
    assert(b.skip(h as int) =~= e0 + (e1 + e2 + e3 + e4));
    lemma_parse_str_item_prefix(b, h as int, tag_deposit(), e1 + e2 + e3 + e4);
}

/// A `WithdrawRequest` is outbound only: the inbound decoder refuses its
/// tag.
pub proof fn lemma_decode_withdraw_request_unknown(m: WithdrawRequestV)
    requires
        encode_utf8(m.token_address).len() + encode_utf8(m.from_address).len() + 120 < pow256(8),
    ensures
        spec_decode(enc_withdraw_request(m)) == Err::<(Seq<char>, DecodedStructV), _>(
            DecodeErr::UnknownMethod,
        ),
{
    lemma_tag_facts();
    lemma_parse_tagged_ssu(
        tag_withdraw_request(),
        encode_utf8(m.token_address),
        encode_utf8(m.from_address),
        m.amount,
    );
}

} // verus!
