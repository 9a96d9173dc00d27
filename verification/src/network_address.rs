//! `"chain-id/account"` identifiers that address accounts across chains.
use vstd::prelude::*;
use vstd::string::{StrSliceExecFns, StringExecFns};

verus! {

// ---------------------------------------------------------------------------
// Splitting at slashes
// ---------------------------------------------------------------------------

/// Index of the first `'/'`, or `-1` when there is none.
pub open spec fn slash_idx(s: Seq<char>) -> int
    decreases s.len(),
{
    if s.len() == 0 {
        -1
    } else if s[0] == '/' {
        0
    } else {
        let r = slash_idx(s.drop_first());
        if r < 0 {
            -1
        } else {
            r + 1
        }
    }
}

pub open spec fn has_slash(s: Seq<char>) -> bool {
    slash_idx(s) >= 0
}

/// What stands before the first `'/'`.
pub open spec fn chain_part(s: Seq<char>) -> Seq<char> {
    s.take(slash_idx(s))
}

/// What stands after the first `'/'`.
pub open spec fn account_part(s: Seq<char>) -> Seq<char> {
    s.skip(slash_idx(s) + 1)
}

/// `slash_idx` names the first slash: in range, a slash, nothing before it.
pub proof fn lemma_slash_idx(s: Seq<char>)
    ensures
        has_slash(s) ==> 0 <= slash_idx(s) < s.len() && s[slash_idx(s)] == '/',
        has_slash(s) ==> forall|j: int| 0 <= j < slash_idx(s) ==> s[j] != '/',
        !has_slash(s) ==> forall|j: int| 0 <= j < s.len() ==> s[j] != '/',
    decreases s.len(),
{
    if s.len() > 0 && s[0] != '/' {
        let d = s.drop_first();
        lemma_slash_idx(d);
        assert(forall|j: int| 0 <= j < d.len() ==> d[j] == s[j + 1]);
        if has_slash(s) {
            assert forall|j: int| 0 <= j < slash_idx(s) implies s[j] != '/' by {
                if j > 0 {
                    assert(d[j - 1] == s[j]);
                    assert(d[j - 1] != '/');
                }
            }
        } else {
            assert forall|j: int| 0 <= j < s.len() implies s[j] != '/' by {
                if j > 0 {
                    assert(d[j - 1] == s[j]);
                }
            }
        }
    }
}

/// Conversely, the first slash determines `slash_idx`.
pub proof fn lemma_slash_idx_at(s: Seq<char>, i: int)
    requires
        0 <= i < s.len(),
        s[i] == '/',
        forall|j: int| 0 <= j < i ==> s[j] != '/',
    ensures
        slash_idx(s) == i,
    decreases s.len(),
{
    if i > 0 {
        assert(forall|j: int| 0 <= j < s.len() - 1 ==> s.drop_first()[j] == s[j + 1]);
        lemma_slash_idx_at(s.drop_first(), i - 1);
    }
}

/// The parts of `s`, split at every `'/'`.
pub open spec fn split_slashes(s: Seq<char>) -> Seq<Seq<char>>
    decreases s.len(),
{
    if !has_slash(s) {
        seq![s]
    } else {
        proof {
            lemma_slash_idx(s);
        }
        seq![chain_part(s)] + split_slashes(account_part(s))
    }
}

// ---------------------------------------------------------------------------
// NetId
// ---------------------------------------------------------------------------

/// A chain identifier: the part of a network address before the slash.
#[derive(Debug, Clone, PartialEq, Eq)]
pub struct NetId(pub String);

impl View for NetId {
    type V = Seq<char>;

    open spec fn view(&self) -> Seq<char> {
        self.0@
    }
}

impl NetId {
    pub fn as_str(&self) -> (r: &str)
        ensures
            r@ == self@,
    {
        self.0.as_str()
    }
}

impl From<String> for NetId {
    fn from(value: String) -> (r: Self) {
        NetId(value)
    }
}

impl vstd::std_specs::convert::FromSpecImpl<String> for NetId {
    open spec fn obeys_from_spec() -> bool {
        true
    }

    open spec fn from_spec(t: String) -> Self {
        NetId(t)
    }
}

// ---------------------------------------------------------------------------
// NetworkAddress
// ---------------------------------------------------------------------------

/// Whether `acc` is a recognized account: a case-insensitive `hx` or `cx`
/// prefix followed by exactly forty hexadecimal digits, all ASCII.
pub open spec fn valid_account(acc: Seq<char>) -> bool {
    &&& acc.len() == 42
    &&& vstd::utf8::is_ascii_chars(acc)
    &&& (acc[0] == 'h' || acc[0] == 'H' || acc[0] == 'c' || acc[0] == 'C')
    &&& (acc[1] == 'x' || acc[1] == 'X')
    &&& forall|i: int| 2 <= i < 42 ==> is_hex_char(#[trigger] acc[i])
}

pub open spec fn is_hex_char(c: char) -> bool {
    ('0' <= c <= '9') || ('a' <= c <= 'f') || ('A' <= c <= 'F')
}

/// A well-formed, validated network address: it has a slash, and what follows
/// the first slash is a recognized account.
pub open spec fn spec_validate(s: Seq<char>) -> bool {
    has_slash(s) && valid_account(account_part(s))
}

/// A `"chain-id/account"` pair in its canonical string form.  Construction
/// does not enforce validity; `validate` checks it at the point of use.
#[derive(Debug, Clone, PartialEq, Eq)]
pub struct NetworkAddress(pub String);

impl View for NetworkAddress {
    type V = Seq<char>;

    open spec fn view(&self) -> Seq<char> {
        self.0@
    }
}

/// Finds the first `'/'` at or after `from`, scanning a string whose earlier
/// characters hold none.
fn find_slash(s: &str, from: usize, len: usize) -> (r: Option<usize>)
    requires
        from <= len,
        len == s@.len(),
        forall|j: int| 0 <= j < from ==> s@[j] != '/',
    ensures
        match r {
            Some(i) => slash_idx(s@) == i && from <= i < len,
            None => !has_slash(s@),
        },
{
    let mut i = from;
    while i < len
        invariant
            from <= i <= len,
            len == s@.len(),
            forall|j: int| 0 <= j < i ==> s@[j] != '/',
        decreases len - i,
    {
        if s.get_char(i) == '/' {
            proof {
                lemma_slash_idx_at(s@, i as int);
            }
            return Some(i);
        }
        i = i + 1;
    }
    proof {
        lemma_slash_idx(s@);
        if has_slash(s@) {
            assert(s@[slash_idx(s@)] == '/');
        }
    }
    None
}

impl NetworkAddress {
    /// Joins a chain id and an account with the `'/'` separator.
    pub fn new(nid: &str, address: &str) -> (r: Self)
        ensures
            r@ == nid@ + seq!['/'] + address@,
    {
        let s = String::from_str(nid).concat("/").concat(address);
        proof {
            reveal_strlit("/");
            assert("/"@ =~= seq!['/']);
            assert(s@ =~= nid@ + seq!['/'] + address@);
        }
        NetworkAddress(s)
    }

    /// The whole address as a string slice.
    pub fn as_str(&self) -> (r: &str)
        ensures
            r@ == self@,
    {
        self.0.as_str()
    }

    pub fn is_empty(&self) -> (r: bool)
        ensures
            r == (self@.len() == 0),
    {
        self.0.as_str().is_empty()
    }

    /// The chain id: what stands before the first slash.
    pub fn nid(&self) -> (r: NetId)
        requires
            has_slash(self@),
        ensures
            r@ == chain_part(self@),
    {
        let s = self.0.as_str();
        let len = s.unicode_len();
        let i = match find_slash(s, 0, len) {
            Some(i) => i,
            None => {
                proof {
                    assert(false);
                }
                0
            },
        };
        let part = s.substring_char(0, i);
        proof {
            assert(part@ =~= chain_part(self@));
        }
        NetId(String::from_str(part))
    }

    /// The account: what stands after the first slash.
    pub fn account(&self) -> (r: String)
        requires
            has_slash(self@),
        ensures
            r@ == account_part(self@),
    {
        let s = self.0.as_str();
        let len = s.unicode_len();
        let i = match find_slash(s, 0, len) {
            Some(i) => i,
            None => {
                proof {
                    assert(false);
                }
                0
            },
        };
        proof {
            lemma_slash_idx(self@);
        }
        let part = s.substring_char(i + 1, len);
        proof {
            assert(part@ =~= account_part(self@));
        }
        String::from_str(part)
    }

    /// Splits at the first slash when there is one.
    pub fn split(&self) -> (r: Option<(NetId, String)>)
        ensures
            has_slash(self@) ==> (r matches Some(p) && p.0@ == chain_part(self@) && p.1@
                == account_part(self@)),
            !has_slash(self@) ==> r is None,
    {
        let s = self.0.as_str();
        let len = s.unicode_len();
        let i = match find_slash(s, 0, len) {
            Some(i) => i,
            None => {
                return None;
            },
        };
        proof {
            lemma_slash_idx(self@);
        }
        let head = s.substring_char(0, i);
        let tail = s.substring_char(i + 1, len);
        proof {
            assert(head@ =~= chain_part(self@));
            assert(tail@ =~= account_part(self@));
        }
        Some((NetId(String::from_str(head)), String::from_str(tail)))
    }

    /// Splits at the first slash: `(chain id, account)`.
    pub fn parse_parts(&self) -> (r: (NetId, String))
        requires
            has_slash(self@),
        ensures
            r.0@ == chain_part(self@),
            r.1@ == account_part(self@),
    {
        (self.nid(), self.account())
    }

    /// All parts, split at every slash.
    pub fn get_parts(&self) -> (r: Vec<String>)
        ensures
            r@.len() == split_slashes(self@).len(),
            forall|i: int| 0 <= i < r@.len() ==> r@[i]@ == split_slashes(self@)[i],
    {
        split_str(self.0.as_str())
    }

    /// Whether the account segment is a recognized chain account.
    pub fn validate(&self) -> (r: bool)
        ensures
            r == spec_validate(self@),
    {
        let s = self.0.as_str();
        let len = s.unicode_len();
        let i = match find_slash(s, 0, len) {
            Some(i) => i,
            None => {
                return false;
            },
        };
        proof {
            lemma_slash_idx(self@);
        }
        let acc = s.substring_char(i + 1, len);
        proof {
            assert(acc@ =~= account_part(self@));
        }
        validate_account(acc)
    }
}

/// Checks an account segment: ASCII, `hx`/`cx` prefix in either case, then
/// forty hexadecimal digits.
fn validate_account(acc: &str) -> (r: bool)
    ensures
        r == valid_account(acc@),
{
    let len = acc.unicode_len();
    if len != 42 {
        return false;
    }
    if !acc.is_ascii() {
        return false;
    }
    let c0 = acc.get_char(0);
    if !(c0 == 'h' || c0 == 'H' || c0 == 'c' || c0 == 'C') {
        return false;
    }
    let c1 = acc.get_char(1);
    if !(c1 == 'x' || c1 == 'X') {
        return false;
    }
    let mut i: usize = 2;
    while i < 42
        invariant
            2 <= i <= 42,
            acc@.len() == 42,
            forall|j: int| 2 <= j < i ==> is_hex_char(#[trigger] acc@[j]),
        decreases 42 - i,
    {
        let c = acc.get_char(i);
        if !(('0' <= c && c <= '9') || ('a' <= c && c <= 'f') || ('A' <= c && c <= 'F')) {
            return false;
        }
        i = i + 1;
    }
    true
}

/// Splits a string at every slash, as `split_slashes` lays down.
fn split_str(s: &str) -> (r: Vec<String>)
    ensures
        r@.len() == split_slashes(s@).len(),
        forall|i: int| 0 <= i < r@.len() ==> r@[i]@ == split_slashes(s@)[i],
    decreases s@.len(),
{
    let len = s.unicode_len();
    match find_slash(s, 0, len) {
        None => {
            let mut out: Vec<String> = Vec::new();
            out.push(String::from_str(s));
            out
        },
        Some(i) => {
            proof {
                lemma_slash_idx(s@);
            }
            let head = s.substring_char(0, i);
            let tail = s.substring_char(i + 1, len);
            proof {
                assert(head@ =~= chain_part(s@));
                assert(tail@ =~= account_part(s@));
            }
            let rest = split_str(tail);
            let mut out: Vec<String> = Vec::new();
            out.push(String::from_str(head));
            let mut k: usize = 0;
            while k < rest.len()
                invariant
                    k <= rest@.len(),
                    out@.len() == 1 + k,
                    out@[0]@ == chain_part(s@),
                    forall|i2: int|
                        0 <= i2 < rest@.len() ==> rest@[i2]@ == split_slashes(account_part(s@))[i2],
                    forall|i2: int| 1 <= i2 < out@.len() ==> out@[i2]@ == rest@[i2 - 1]@,
                decreases rest@.len() - k,
            {
                out.push(rest[k].clone());
                k = k + 1;
            }
            proof {
                assert(split_slashes(s@) == seq![chain_part(s@)] + split_slashes(
                    account_part(s@),
                ));
            }
            out
        },
    }
}

// ---------------------------------------------------------------------------
// Law: parsing undoes construction
// ---------------------------------------------------------------------------

pub open spec fn no_slash(s: Seq<char>) -> bool {
    forall|j: int| 0 <= j < s.len() ==> s[j] != '/'
}

/// Splitting `"chain/account"` at its first slash gives back `chain` and
/// `account`, whenever neither holds a slash of its own.
pub proof fn lemma_parse_parts_of_new(chain: Seq<char>, account: Seq<char>)
    requires
        no_slash(chain),
    ensures
        chain_part(chain + seq!['/'] + account) == chain,
        account_part(chain + seq!['/'] + account) == account,
{
    let s = chain + seq!['/'] + account;
    assert(s[chain.len() as int] == '/');
    assert(forall|j: int| 0 <= j < chain.len() ==> s[j] == chain[j] && s[j] != '/');
    lemma_slash_idx_at(s, chain.len() as int);
    assert(chain_part(s) =~= chain);
    assert(account_part(s) =~= account);
}

impl core::str::FromStr for NetId {
    type Err = crate::errors::ContractError;

    fn from_str(s: &str) -> Result<Self, Self::Err> {
        Ok(NetId(s.to_owned()))
    }
}

impl core::str::FromStr for NetworkAddress {
    type Err = crate::errors::ContractError;

    fn from_str(s: &str) -> Result<Self, Self::Err> {
        let len = s.unicode_len();
        let mut slashes: usize = 0;
        let mut i: usize = 0;
        while i < len
            invariant
                i <= len,
                len == s@.len(),
                slashes <= i,
            decreases len - i,
        {
            if s.get_char(i) == '/' {
                slashes = slashes + 1;
            }
            i = i + 1;
        }
        if slashes != 1 {
            return Err(crate::errors::ContractError::InvalidNetworkAddressFormat);
        }
        Ok(NetworkAddress(s.to_owned()))
    }
}

} // verus!
