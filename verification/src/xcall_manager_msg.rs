//! Governance payloads of the protocol verifier: trusted-relay configuration
//! and pass-through administration calls, each a tagged wire list.
use vstd::prelude::*;
use vstd::utf8::{decode_utf8, encode_utf8, valid_utf8};
use crate::rlp::{
    append_bytes, append_str, append_uint, be_val, bytes_eq, enc_list, enc_str, enc_uint,
    lemma_header_bounds, pow256, read_header, read_uint, spec_header, wrap_list,
};
use crate::strings::string_from_utf8;
use crate::xcall_data_types::{parse_str_item, parse_uint_item, read_str_item};
use vstd::slice::{slice_subrange, slice_to_vec};
use vstd::string::StringExecFns;

verus! {

// ---------------------------------------------------------------------------
// Message structs and views
// ---------------------------------------------------------------------------

/// The trusted relay identifiers for inbound and outbound routing.
#[derive(Debug, Clone, PartialEq, Eq)]
pub struct ProtocolConfig {
    pub sources: Vec<String>,
    pub destinations: Vec<String>,
}

/// Governance instruction to replace the trusted relay set.
#[derive(Debug, Clone, PartialEq, Eq)]
pub struct ConfigureProtocols {
    pub sources: Vec<String>,
    pub destinations: Vec<String>,
}

/// Governance pass-through: execute a message on a contract.
#[derive(Debug, Clone, PartialEq, Eq)]
pub struct Execute {
    pub contract_addr: String,
    /// Base64-encoded call data, forwarded untouched.
    pub message: String,
}

/// Governance pass-through: migrate a contract to a new code id.
#[derive(Debug, Clone, PartialEq, Eq)]
pub struct Migrate {
    pub contract_addr: String,
    pub code_id: u64,
    pub message: String,
}

/// Governance pass-through: set a contract's admin.
#[derive(Debug, Clone, PartialEq, Eq)]
pub struct UpdateAdmin {
    pub contract_addr: String,
    pub admin: String,
}

pub ghost struct ProtocolConfigV {
    pub sources: Seq<Seq<char>>,
    pub destinations: Seq<Seq<char>>,
}

pub ghost struct ConfigureProtocolsV {
    pub sources: Seq<Seq<char>>,
    pub destinations: Seq<Seq<char>>,
}

pub ghost struct ExecuteV {
    pub contract_addr: Seq<char>,
    pub message: Seq<char>,
}

pub ghost struct MigrateV {
    pub contract_addr: Seq<char>,
    pub code_id: u64,
    pub message: Seq<char>,
}

pub ghost struct UpdateAdminV {
    pub contract_addr: Seq<char>,
    pub admin: Seq<char>,
}

pub open spec fn views_of(xs: Seq<String>) -> Seq<Seq<char>> {
    xs.map_values(|s: String| s@)
}

impl View for ProtocolConfig {
    type V = ProtocolConfigV;

    open spec fn view(&self) -> ProtocolConfigV {
        ProtocolConfigV { sources: views_of(self.sources@), destinations: views_of(self.destinations@) }
    }
}

impl View for ConfigureProtocols {
    type V = ConfigureProtocolsV;

    open spec fn view(&self) -> ConfigureProtocolsV {
        ConfigureProtocolsV {
            sources: views_of(self.sources@),
            destinations: views_of(self.destinations@),
        }
    }
}

impl View for Execute {
    type V = ExecuteV;

    open spec fn view(&self) -> ExecuteV {
        ExecuteV { contract_addr: self.contract_addr@, message: self.message@ }
    }
}

impl View for Migrate {
    type V = MigrateV;

    open spec fn view(&self) -> MigrateV {
        MigrateV {
            contract_addr: self.contract_addr@,
            code_id: self.code_id,
            message: self.message@,
        }
    }
}

impl View for UpdateAdmin {
    type V = UpdateAdminV;

    open spec fn view(&self) -> UpdateAdminV {
        UpdateAdminV { contract_addr: self.contract_addr@, admin: self.admin@ }
    }
}

// ---------------------------------------------------------------------------
// Canonical encodings
// ---------------------------------------------------------------------------

pub open spec fn tag_configure_protocols() -> Seq<u8> {
    encode_utf8("ConfigureProtocols"@)
}

pub open spec fn tag_execute() -> Seq<u8> {
    encode_utf8("Execute"@)
}

pub open spec fn tag_migrate() -> Seq<u8> {
    encode_utf8("Migrate"@)
}

pub open spec fn tag_update_admin() -> Seq<u8> {
    encode_utf8("UpdateAdmin"@)
}

/// Concatenation of encoded strings: the payload of a list of strings.
pub open spec fn enc_str_seq(xs: Seq<Seq<u8>>) -> Seq<u8>
    decreases xs.len(),
{
    if xs.len() == 0 {
        Seq::empty()
    } else {
        enc_str(xs[0]) + enc_str_seq(xs.drop_first())
    }
}

pub open spec fn utf8_of(xs: Seq<Seq<char>>) -> Seq<Seq<u8>> {
    xs.map_values(|s: Seq<char>| encode_utf8(s))
}

pub open spec fn enc_configure_protocols(v: ConfigureProtocolsV) -> Seq<u8> {
    enc_list(
        enc_str(tag_configure_protocols()) + enc_list(enc_str_seq(utf8_of(v.sources)))
            + enc_list(enc_str_seq(utf8_of(v.destinations))),
    )
}

pub open spec fn enc_execute(v: ExecuteV) -> Seq<u8> {
    enc_list(
        enc_str(tag_execute()) + enc_str(encode_utf8(v.contract_addr)) + enc_str(
            encode_utf8(v.message),
        ),
    )
}

pub open spec fn enc_migrate(v: MigrateV) -> Seq<u8> {
    enc_list(
        enc_str(tag_migrate()) + enc_str(encode_utf8(v.contract_addr)) + enc_uint(
            v.code_id as nat,
        ) + enc_str(encode_utf8(v.message)),
    )
}

pub open spec fn enc_update_admin(v: UpdateAdminV) -> Seq<u8> {
    enc_list(
        enc_str(tag_update_admin()) + enc_str(encode_utf8(v.contract_addr)) + enc_str(
            encode_utf8(v.admin),
        ),
    )
}

proof fn lemma_enc_str_seq_snoc(xs: Seq<Seq<u8>>, x: Seq<u8>)
    ensures
        enc_str_seq(xs.push(x)) == enc_str_seq(xs) + enc_str(x),
    decreases xs.len(),
{
    let p = xs.push(x);
    if xs.len() == 0 {
        assert(p.len() == 1);
        assert(p[0] == x);
        assert(p.drop_first() =~= Seq::<Seq<u8>>::empty());
        assert(enc_str_seq(p) == enc_str(p[0]) + enc_str_seq(p.drop_first()));
        assert(enc_str_seq(p.drop_first()) == Seq::<u8>::empty());
        assert(enc_str_seq(xs) == Seq::<u8>::empty());
        assert(enc_str_seq(p) =~= enc_str_seq(xs) + enc_str(x));
    } else {
        assert(p.drop_first() =~= xs.drop_first().push(x));
        assert(p[0] == xs[0]);
        lemma_enc_str_seq_snoc(xs.drop_first(), x);
        assert(enc_str_seq(p) == enc_str(p[0]) + enc_str_seq(p.drop_first()));
        assert(enc_str_seq(p.drop_first()) == enc_str_seq(xs.drop_first()) + enc_str(x));
        assert(enc_str_seq(xs) == enc_str(xs[0]) + enc_str_seq(xs.drop_first()));
        assert(enc_str_seq(p) =~= enc_str_seq(xs) + enc_str(x));
    }
}

/// Encodes a vector of strings as a list item.
fn append_str_list(out: &mut Vec<u8>, xs: &Vec<String>)
    ensures
        final(out)@ == old(out)@ + enc_list(enc_str_seq(utf8_of(views_of(xs@)))),
{
    let mut payload: Vec<u8> = Vec::new();
    let mut i: usize = 0;
    while i < xs.len()
        invariant
            i <= xs@.len(),
            payload@ == enc_str_seq(utf8_of(views_of(xs@)).take(i as int)),
        decreases xs@.len() - i,
    {
        let ghost pre = utf8_of(views_of(xs@)).take(i as int);
        append_str(&mut payload, xs[i].as_str().as_bytes());
        proof {
            assert(utf8_of(views_of(xs@)).take(i + 1) =~= pre.push(
                utf8_of(views_of(xs@))[i as int],
            ));
            lemma_enc_str_seq_snoc(pre, utf8_of(views_of(xs@))[i as int]);
        }
        i = i + 1;
    }
    proof {
        assert(utf8_of(views_of(xs@)).take(xs@.len() as int) =~= utf8_of(views_of(xs@)));
    }
    let wrapped = wrap_list(payload);
    append_bytes(out, wrapped.as_slice());
}

impl ConfigureProtocols {
    /// Wire form: `[tag, [sources...], [destinations...]]`.
    pub fn rlp_bytes(&self) -> (r: Vec<u8>)
        ensures
            r@ == enc_configure_protocols(self@),
    {
        let mut payload: Vec<u8> = Vec::new();
        append_str(&mut payload, "ConfigureProtocols".as_bytes());
        append_str_list(&mut payload, &self.sources);
        append_str_list(&mut payload, &self.destinations);
        proof {
            assert(payload@ =~= enc_str(tag_configure_protocols()) + enc_list(
                enc_str_seq(utf8_of(self@.sources)),
            ) + enc_list(enc_str_seq(utf8_of(self@.destinations))));
        }
        wrap_list(payload)
    }
}

impl Execute {
    /// Wire form: `[tag, contract_addr, message]`.
    pub fn rlp_bytes(&self) -> (r: Vec<u8>)
        ensures
            r@ == enc_execute(self@),
    {
        let mut payload: Vec<u8> = Vec::new();
        append_str(&mut payload, "Execute".as_bytes());
        append_str(&mut payload, self.contract_addr.as_str().as_bytes());
        append_str(&mut payload, self.message.as_str().as_bytes());
        proof {
            assert(payload@ =~= enc_str(tag_execute()) + enc_str(encode_utf8(self@.contract_addr))
                + enc_str(encode_utf8(self@.message)));
        }
        wrap_list(payload)
    }
}

impl Migrate {
    /// Wire form: `[tag, contract_addr, code_id, message]`.
    pub fn rlp_bytes(&self) -> (r: Vec<u8>)
        ensures
            r@ == enc_migrate(self@),
    {
        let mut payload: Vec<u8> = Vec::new();
        append_str(&mut payload, "Migrate".as_bytes());
        append_str(&mut payload, self.contract_addr.as_str().as_bytes());
        append_uint(&mut payload, self.code_id as u128);
        append_str(&mut payload, self.message.as_str().as_bytes());
        proof {
            assert(payload@ =~= enc_str(tag_migrate()) + enc_str(encode_utf8(self@.contract_addr))
                + enc_uint(self@.code_id as nat) + enc_str(encode_utf8(self@.message)));
        }
        wrap_list(payload)
    }
}

impl UpdateAdmin {
    /// Wire form: `[tag, contract_addr, admin]`.
    pub fn rlp_bytes(&self) -> (r: Vec<u8>)
        ensures
            r@ == enc_update_admin(self@),
    {
        let mut payload: Vec<u8> = Vec::new();
        append_str(&mut payload, "UpdateAdmin".as_bytes());
        append_str(&mut payload, self.contract_addr.as_str().as_bytes());
        append_str(&mut payload, self.admin.as_str().as_bytes());
        proof {
            assert(payload@ =~= enc_str(tag_update_admin()) + enc_str(
                encode_utf8(self@.contract_addr),
            ) + enc_str(encode_utf8(self@.admin)));
        }
        wrap_list(payload)
    }
}

// ---------------------------------------------------------------------------
// Decoding
// ---------------------------------------------------------------------------

/// The whole buffer as one list: header position and payload length.
pub open spec fn top_list(b: Seq<u8>) -> Option<(nat, nat)> {
    match spec_header(b) {
        Some((is_list, h, l)) => if is_list && h + l == b.len() {
            Some((h, l))
        } else {
            None
        },
        None => None,
    }
}

/// The strings a list payload holds, in order; `None` when an item is not a
/// string or not UTF-8.
pub open spec fn parse_utf8_strs(p: Seq<u8>) -> Option<Seq<Seq<char>>>
    decreases p.len(),
{
    if p.len() == 0 {
        Some(Seq::empty())
    } else {
        match spec_header(p) {
            Some((is_list, h, l)) => if is_list {
                None
            } else {
                let item = p.subrange(h as int, (h + l) as int);
                if valid_utf8(item) {
                    proof {
                        lemma_header_bounds(p);
                    }
                    match parse_utf8_strs(p.skip((h + l) as int)) {
                        Some(xs) => Some(seq![decode_utf8(item)] + xs),
                        None => None,
                    }
                } else {
                    None
                }
            },
            None => None,
        }
    }
}

/// The list-of-strings item starting at `pos`.
pub open spec fn parse_str_list_item(b: Seq<u8>, pos: int) -> Option<(Seq<Seq<char>>, int)> {
    match spec_header(b.skip(pos)) {
        Some((is_list, h, l)) => if !is_list {
            None
        } else {
            match parse_utf8_strs(b.subrange(pos + h, pos + h + l)) {
                Some(xs) => Some((xs, pos + h + l)),
                None => None,
            }
        },
        None => None,
    }
}

/// The method tag of a governance payload: the first element of the list.
pub open spec fn spec_gov_method(b: Seq<u8>) -> Option<Seq<char>> {
    match top_list(b) {
        None => None,
        Some((h, l)) => match parse_str_item(b, h as int) {
            None => None,
            Some((tag, p1)) => if valid_utf8(tag) {
                Some(decode_utf8(tag))
            } else {
                None
            },
        },
    }
}

pub open spec fn spec_decode_execute(b: Seq<u8>) -> Option<ExecuteV> {
    match top_list(b) {
        None => None,
        Some((h, l)) => match parse_str_item(b, h as int) {
            None => None,
            Some((tag, p1)) => match parse_str_item(b, p1) {
                None => None,
                Some((f1, p2)) => match parse_str_item(b, p2) {
                    None => None,
                    Some((f2, p3)) => if p3 == b.len() && valid_utf8(f1) && valid_utf8(f2) {
                        Some(ExecuteV { contract_addr: decode_utf8(f1), message: decode_utf8(f2) })
                    } else {
                        None
                    },
                },
            },
        },
    }
}

pub open spec fn spec_decode_update_admin(b: Seq<u8>) -> Option<UpdateAdminV> {
    match top_list(b) {
        None => None,
        Some((h, l)) => match parse_str_item(b, h as int) {
            None => None,
            Some((tag, p1)) => match parse_str_item(b, p1) {
                None => None,
                Some((f1, p2)) => match parse_str_item(b, p2) {
                    None => None,
                    Some((f2, p3)) => if p3 == b.len() && valid_utf8(f1) && valid_utf8(f2) {
                        Some(UpdateAdminV { contract_addr: decode_utf8(f1), admin: decode_utf8(f2) })
                    } else {
                        None
                    },
                },
            },
        },
    }
}

pub open spec fn spec_decode_migrate(b: Seq<u8>) -> Option<MigrateV> {
    match top_list(b) {
        None => None,
        Some((h, l)) => match parse_str_item(b, h as int) {
            None => None,
            Some((tag, p1)) => match parse_str_item(b, p1) {
                None => None,
                Some((f1, p2)) => match parse_uint_item(b, p2) {
                    None => None,
                    Some((v, p3)) => match parse_str_item(b, p3) {
                        None => None,
                        Some((f2, p4)) => if p4 == b.len() && valid_utf8(f1) && valid_utf8(f2) && v
                            <= u64::MAX {
                            Some(
                                MigrateV {
                                    contract_addr: decode_utf8(f1),
                                    code_id: v as u64,
                                    message: decode_utf8(f2),
                                },
                            )
                        } else {
                            None
                        },
                    },
                },
            },
        },
    }
}

pub open spec fn spec_decode_configure_protocols(b: Seq<u8>) -> Option<ConfigureProtocolsV> {
    match top_list(b) {
        None => None,
        Some((h, l)) => match parse_str_item(b, h as int) {
            None => None,
            Some((tag, p1)) => match parse_str_list_item(b, p1) {
                None => None,
                Some((srcs, p2)) => match parse_str_list_item(b, p2) {
                    None => None,
                    Some((dsts, p3)) => if p3 == b.len() {
                        Some(ConfigureProtocolsV { sources: srcs, destinations: dsts })
                    } else {
                        None
                    },
                },
            },
        },
    }
}

/// Reads the whole buffer's list header.
fn read_top_list(data: &[u8]) -> (r: Option<(usize, usize)>)
    ensures
        match r {
            Some((h, l)) => top_list(data@) == Some((h as nat, l as nat)) && h + l == data.len(),
            None => top_list(data@) is None,
        },
{
    proof {
        assert(data@.skip(0) =~= data@);
    }
    match read_header(data, 0) {
        None => None,
        Some((is_list, h, l)) => {
            if is_list && h + l == data.len() {
                Some((h, l))
            } else {
                None
            }
        },
    }
}

/// Reads the list-of-strings item at `pos`.
#[verifier::rlimit(100)]
#[verifier::spinoff_prover]
fn read_str_list_item(data: &[u8], pos: usize) -> (r: Option<(Vec<String>, usize)>)
    requires
        pos <= data.len(),
    ensures
        match r {
            Some((xs, np)) => parse_str_list_item(data@, pos as int) == Some(
                (views_of(xs@), np as int),
            ) && pos < np <= data.len(),
            None => parse_str_list_item(data@, pos as int) is None,
        },
{
    let (h, l) = match read_header(data, pos) {
        None => {
            return None;
        },
        Some((is_list, h, l)) => {
            if !is_list {
                return None;
            }
            (h, l)
        },
    };
    let s = pos + h;
    let e = pos + h + l;
    let sub: Vec<u8> = slice_to_vec(slice_subrange(data, s, e));
    proof {
        assert(sub@ =~= data@.skip(pos as int).subrange(h as int, (h + l) as int));
        assert(sub@ =~= data@.subrange(s as int, e as int));
    }
    proof {
        lemma_header_bounds(data@.skip(pos as int));
        assert(sub@.skip(0int) =~= sub@);
    }
    let mut out: Vec<String> = Vec::new();
    proof {
        assert(views_of(out@) =~= Seq::<Seq<char>>::empty());
        if parse_utf8_strs(sub@) is Some {
            let xs0 = parse_utf8_strs(sub@)->Some_0;
            assert(views_of(out@) + xs0 =~= xs0);
        }
    }
    let mut q: usize = 0;
    #[verifier::loop_isolation(false)]
    while q < sub.len()
        invariant
            q <= sub@.len(),
            ({
                let total = parse_utf8_strs(sub@);
                match parse_utf8_strs(sub@.skip(q as int)) {
                    Some(xs) => total == Some(views_of(out@) + xs),
                    None => total is None,
                }
            }),
        decreases sub@.len() - q,
    {
        let ghost rem = sub@.skip(q as int);
        proof {
            assert(rem.len() > 0);
        }
        let (ps, pe, np) = match read_str_item(sub.as_slice(), q) {
            None => {
                proof {
                    assert(parse_utf8_strs(rem) is None);
                }
                return None;
            },
            Some(t) => t,
        };
        let ghost item = sub@.subrange(ps as int, pe as int);
        proof {
            let (is_list2, h2, l2) = spec_header(rem)->Some_0;
            assert(item =~= rem.subrange(h2 as int, (h2 + l2) as int));
        }
        let sv = match string_from_utf8(slice_to_vec(slice_subrange(sub.as_slice(), ps, pe))) {
            None => {
                proof {
                    assert(parse_utf8_strs(rem) is None);
                }
                return None;
            },
            Some(s) => s,
        };
        proof {
            broadcast use vstd::utf8::encode_utf8_decode_utf8;

            let (is_list2, h2, l2) = spec_header(rem)->Some_0;
            assert(rem.skip((h2 + l2) as int) =~= sub@.skip(np as int));
            assert(parse_utf8_strs(rem) == match parse_utf8_strs(sub@.skip(np as int)) {
                Some(xs) => Some(seq![decode_utf8(item)] + xs),
                None => None::<Seq<Seq<char>>>,
            });
            assert(sv@ == decode_utf8(item));
        }
        let ghost pre_out = out@;
        out.push(sv);
        proof {
            assert(views_of(out@) =~= views_of(pre_out).push(sv@));
            assert forall|xs: Seq<Seq<char>>|
                views_of(pre_out) + (seq![sv@] + xs) =~= views_of(out@) + xs by {}
        }
        q = np;
    }
    proof {
        assert(sub@.skip(q as int) =~= Seq::<u8>::empty());
        assert(parse_utf8_strs(sub@.skip(q as int)) == Some(Seq::<Seq<char>>::empty()));
        assert(views_of(out@) + Seq::<Seq<char>>::empty() =~= views_of(out@));
    }
    Some((out, e))
}

/// The method tag of a governance payload, or `None` when the payload is not
/// a list fronted by a UTF-8 string.
pub fn read_gov_method(data: &[u8]) -> (r: Option<String>)
    ensures
        match r {
            Some(m) => spec_gov_method(data@) == Some(m@),
            None => spec_gov_method(data@) is None,
        },
{
    let (h, l) = match read_top_list(data) {
        None => {
            return None;
        },
        Some(t) => t,
    };
    let (ts, te, _p1) = match read_str_item(data, h) {
        None => {
            return None;
        },
        Some(t) => t,
    };
    match string_from_utf8(slice_to_vec(slice_subrange(data, ts, te))) {
        None => None,
        Some(m) => {
            proof {
                broadcast use vstd::utf8::encode_utf8_decode_utf8;

            }
            Some(m)
        },
    }
}

impl Execute {
    /// Decodes `[tag, contract_addr, message]`; the tag itself is not
    /// checked here, the caller dispatches on it.
    pub fn decode(data: &[u8]) -> (r: Option<Execute>)
        ensures
            match r {
                Some(m) => spec_decode_execute(data@) == Some(m@),
                None => spec_decode_execute(data@) is None,
            },
    {
        let (h, l) = match read_top_list(data) {
            None => {
                return None;
            },
            Some(t) => t,
        };
        let p1 = match read_str_item(data, h) {
            None => {
                return None;
            },
            Some((_, _, p1)) => p1,
        };
        let (s1, e1, p2) = match read_str_item(data, p1) {
            None => {
                return None;
            },
            Some(t) => t,
        };
        let (s2, e2, p3) = match read_str_item(data, p2) {
            None => {
                return None;
            },
            Some(t) => t,
        };
        if p3 != data.len() {
            return None;
        }
        let contract_addr = match string_from_utf8(slice_to_vec(slice_subrange(data, s1, e1))) {
            None => {
                return None;
            },
            Some(s) => s,
        };
        let message = match string_from_utf8(slice_to_vec(slice_subrange(data, s2, e2))) {
            None => {
                return None;
            },
            Some(s) => s,
        };
        proof {
            broadcast use vstd::utf8::encode_utf8_decode_utf8;

        }
        Some(Execute { contract_addr, message })
    }
}

impl UpdateAdmin {
    /// Decodes `[tag, contract_addr, admin]`.
    pub fn decode(data: &[u8]) -> (r: Option<UpdateAdmin>)
        ensures
            match r {
                Some(m) => spec_decode_update_admin(data@) == Some(m@),
                None => spec_decode_update_admin(data@) is None,
            },
    {
        let (h, l) = match read_top_list(data) {
            None => {
                return None;
            },
            Some(t) => t,
        };
        let p1 = match read_str_item(data, h) {
            None => {
                return None;
            },
            Some((_, _, p1)) => p1,
        };
        let (s1, e1, p2) = match read_str_item(data, p1) {
            None => {
                return None;
            },
            Some(t) => t,
        };
        let (s2, e2, p3) = match read_str_item(data, p2) {
            None => {
                return None;
            },
            Some(t) => t,
        };
        if p3 != data.len() {
            return None;
        }
        let contract_addr = match string_from_utf8(slice_to_vec(slice_subrange(data, s1, e1))) {
            None => {
                return None;
            },
            Some(s) => s,
        };
        let admin = match string_from_utf8(slice_to_vec(slice_subrange(data, s2, e2))) {
            None => {
                return None;
            },
            Some(s) => s,
        };
        proof {
            broadcast use vstd::utf8::encode_utf8_decode_utf8;

        }
        Some(UpdateAdmin { contract_addr, admin })
    }
}

impl Migrate {
    /// Decodes `[tag, contract_addr, code_id, message]`.
    pub fn decode(data: &[u8]) -> (r: Option<Migrate>)
        ensures
            match r {
                Some(m) => spec_decode_migrate(data@) == Some(m@),
                None => spec_decode_migrate(data@) is None,
            },
    {
        let (h, l) = match read_top_list(data) {
            None => {
                return None;
            },
            Some(t) => t,
        };
        let p1 = match read_str_item(data, h) {
            None => {
                return None;
            },
            Some((_, _, p1)) => p1,
        };
        let (s1, e1, p2) = match read_str_item(data, p1) {
            None => {
                return None;
            },
            Some(t) => t,
        };
        let (s3, e3, p3) = match read_str_item(data, p2) {
            None => {
                return None;
            },
            Some(t) => t,
        };
        let v = match read_uint(data, s3, e3) {
            None => {
                return None;
            },
            Some(v) => v,
        };
        proof {
            crate::rlp::lemma_be_val_of_be_bytes(v as nat);
        }
        if v > u64::MAX as u128 {
            return None;
        }
        let (s2, e2, p4) = match read_str_item(data, p3) {
            None => {
                return None;
            },
            Some(t) => t,
        };
        if p4 != data.len() {
            return None;
        }
        let contract_addr = match string_from_utf8(slice_to_vec(slice_subrange(data, s1, e1))) {
            None => {
                return None;
            },
            Some(s) => s,
        };
        let message = match string_from_utf8(slice_to_vec(slice_subrange(data, s2, e2))) {
            None => {
                return None;
            },
            Some(s) => s,
        };
        proof {
            broadcast use vstd::utf8::encode_utf8_decode_utf8;

        }
        Some(Migrate { contract_addr, code_id: v as u64, message })
    }
}

impl ConfigureProtocols {
    /// Decodes `[tag, [sources...], [destinations...]]`.
    pub fn decode(data: &[u8]) -> (r: Option<ConfigureProtocols>)
        ensures
            match r {
                Some(m) => spec_decode_configure_protocols(data@) == Some(m@),
                None => spec_decode_configure_protocols(data@) is None,
            },
    {
        let (h, l) = match read_top_list(data) {
            None => {
                return None;
            },
            Some(t) => t,
        };
        let p1 = match read_str_item(data, h) {
            None => {
                return None;
            },
            Some((_, _, p1)) => p1,
        };
        let (sources, p2) = match read_str_list_item(data, p1) {
            None => {
                return None;
            },
            Some(t) => t,
        };
        let (destinations, p3) = match read_str_list_item(data, p2) {
            None => {
                return None;
            },
            Some(t) => t,
        };
        if p3 != data.len() {
            return None;
        }
        Some(ConfigureProtocols { sources, destinations })
    }
}

} // verus!
