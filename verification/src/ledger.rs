//! The deposit ledger: how much each account has locked of each token.
use vstd::prelude::*;
use vstd::string::{StringExecFns, StrSliceExecFns};
use crate::strings::str_eq;

verus! {

/// One ledger record.
#[derive(Debug, Clone, PartialEq, Eq)]
pub struct DepositEntry {
    pub account: String,
    pub token: String,
    pub amount: u128,
}

/// The amount recorded for `(account, token)`: the first matching entry's,
/// or zero when none matches.
pub open spec fn lookup(s: Seq<DepositEntry>, account: Seq<char>, token: Seq<char>) -> u128
    decreases s.len(),
{
    if s.len() == 0 {
        0
    } else if s[0].account@ == account && s[0].token@ == token {
        s[0].amount
    } else {
        lookup(s.drop_first(), account, token)
    }
}

pub open spec fn has_entry(s: Seq<DepositEntry>, account: Seq<char>, token: Seq<char>) -> bool
    decreases s.len(),
{
    if s.len() == 0 {
        false
    } else if s[0].account@ == account && s[0].token@ == token {
        true
    } else {
        has_entry(s.drop_first(), account, token)
    }
}

/// When nothing in the first `i` entries matches, the lookup is decided by
/// the rest.
proof fn lemma_lookup_skip(s: Seq<DepositEntry>, i: int, account: Seq<char>, token: Seq<char>)
    requires
        0 <= i <= s.len(),
        forall|j: int|
            0 <= j < i ==> !(#[trigger] s[j].account@ == account && s[j].token@ == token),
    ensures
        lookup(s, account, token) == lookup(s.skip(i), account, token),
        has_entry(s, account, token) == has_entry(s.skip(i), account, token),
    decreases i,
{
    if i == 0 {
        assert(s.skip(0) =~= s);
    } else {
        assert(s.len() > 0);
        assert(!(s[0].account@ == account && s[0].token@ == token));
        let d = s.drop_first();
        assert(forall|j: int|
            0 <= j < i - 1 ==> !(#[trigger] d[j].account@ == account && d[j].token@ == token))
            by {
            assert(forall|j: int| 0 <= j < d.len() ==> d[j] == s[j + 1]);
        }
        lemma_lookup_skip(d, i - 1, account, token);
        assert(d.skip(i - 1) =~= s.skip(i));
    }
}

/// Replacing the first matching entry by one with the same key changes that
/// key's amount and no other.
proof fn lemma_lookup_update(
    s: Seq<DepositEntry>,
    i: int,
    e: DepositEntry,
    a2: Seq<char>,
    t2: Seq<char>,
)
    requires
        0 <= i < s.len(),
        forall|j: int|
            0 <= j < i ==> !(#[trigger] s[j].account@ == e.account@ && s[j].token@ == e.token@),
        s[i].account@ == e.account@ && s[i].token@ == e.token@,
    ensures
        lookup(s.update(i, e), a2, t2) == if a2 == e.account@ && t2 == e.token@ {
            e.amount
        } else {
            lookup(s, a2, t2)
        },
    decreases i,
{
    let u = s.update(i, e);
    if i == 0 {
        assert(u[0] == e);
        assert(u.drop_first() =~= s.drop_first());
    } else {
        assert(u[0] == s[0]);
        assert(!(s[0].account@ == e.account@ && s[0].token@ == e.token@));
        let d = s.drop_first();
        assert(u.drop_first() =~= d.update(i - 1, e));
        assert(forall|j: int|
            0 <= j < i - 1 ==> !(#[trigger] d[j].account@ == e.account@ && d[j].token@
                == e.token@)) by {
            assert(forall|j: int| 0 <= j < d.len() ==> d[j] == s[j + 1]);
        }
        assert(d[i - 1] == s[i]);
        lemma_lookup_update(d, i - 1, e, a2, t2);
    }
}

/// Appending an entry whose key is absent sets that key and no other.
proof fn lemma_lookup_push(s: Seq<DepositEntry>, e: DepositEntry, a2: Seq<char>, t2: Seq<char>)
    requires
        !has_entry(s, e.account@, e.token@),
    ensures
        lookup(s.push(e), a2, t2) == if a2 == e.account@ && t2 == e.token@ {
            e.amount
        } else {
            lookup(s, a2, t2)
        },
    decreases s.len(),
{
    let p = s.push(e);
    if s.len() == 0 {
        assert(p.len() == 1);
        assert(p[0] == e);
        assert(p.drop_first() =~= Seq::<DepositEntry>::empty());
        assert(lookup(p.drop_first(), a2, t2) == 0);
        assert(lookup(s, a2, t2) == 0);
        if a2 == e.account@ && t2 == e.token@ {
            assert(lookup(p, a2, t2) == e.amount);
        } else {
            assert(!(p[0].account@ == a2 && p[0].token@ == t2));
            assert(lookup(p, a2, t2) == 0);
        }
    } else {
        assert(p[0] == s[0]);
        assert(p.drop_first() =~= s.drop_first().push(e));
        assert(!(s[0].account@ == e.account@ && s[0].token@ == e.token@));
        assert(!has_entry(s.drop_first(), e.account@, e.token@));
        lemma_lookup_push(s.drop_first(), e, a2, t2);
        assert(lookup(p.drop_first(), a2, t2) == lookup(s.drop_first().push(e), a2, t2));
        if s[0].account@ == a2 && s[0].token@ == t2 {
            assert(lookup(p, a2, t2) == s[0].amount);
            assert(lookup(s, a2, t2) == s[0].amount);
            assert(!(a2 == e.account@ && t2 == e.token@));
        } else {
            assert(lookup(p, a2, t2) == lookup(p.drop_first(), a2, t2));
            assert(lookup(s, a2, t2) == lookup(s.drop_first(), a2, t2));
        }
    }
}

/// The per-(account, token) deposit ledger, keyed by first match.
#[derive(Debug, Clone, PartialEq, Eq)]
pub struct Ledger(pub Vec<DepositEntry>);

impl Ledger {
    /// The amount recorded for `(account, token)`; zero when absent.
    pub open spec fn balance(&self, account: Seq<char>, token: Seq<char>) -> u128 {
        lookup(self.0@, account, token)
    }

    pub fn new() -> (r: Ledger)
        ensures
            forall|a: Seq<char>, t: Seq<char>| r.balance(a, t) == 0,
    {
        Ledger(Vec::new())
    }

    /// Reads the recorded amount.
    pub fn get(&self, account: &str, token: &str) -> (r: u128)
        ensures
            r == self.balance(account@, token@),
    {
        let mut i: usize = 0;
        while i < self.0.len()
            invariant
                i <= self.0@.len(),
                forall|j: int|
                    0 <= j < i ==> !(#[trigger] self.0@[j].account@ == account@
                        && self.0@[j].token@ == token@),
            decreases self.0@.len() - i,
        {
            if str_eq(self.0[i].account.as_str(), account) && str_eq(
                self.0[i].token.as_str(),
                token,
            ) {
                proof {
                    lemma_lookup_skip(self.0@, i as int, account@, token@);
                    assert(self.0@.skip(i as int)[0] == self.0@[i as int]);
                }
                return self.0[i].amount;
            }
            i = i + 1;
        }
        proof {
            lemma_lookup_skip(self.0@, i as int, account@, token@);
            assert(self.0@.skip(i as int) =~= Seq::<DepositEntry>::empty());
        }
        0
    }

    /// Sets the recorded amount for `(account, token)`, leaving every other
    /// key as it was.
    pub fn set(&mut self, account: &str, token: &str, amount: u128)
        ensures
            final(self).balance(account@, token@) == amount,
            forall|a: Seq<char>, t: Seq<char>|
                !(a == account@ && t == token@) ==> final(self).balance(a, t) == old(
                    self,
                ).balance(a, t),
    {
        let mut i: usize = 0;
        while i < self.0.len()
            invariant
                i <= self.0@.len(),
                self.0@ == old(self).0@,
                forall|j: int|
                    0 <= j < i ==> !(#[trigger] self.0@[j].account@ == account@
                        && self.0@[j].token@ == token@),
            decreases self.0@.len() - i,
        {
            if str_eq(self.0[i].account.as_str(), account) && str_eq(
                self.0[i].token.as_str(),
                token,
            ) {
                let e = DepositEntry {
                    account: String::from_str(account),
                    token: String::from_str(token),
                    amount,
                };
                proof {
                    lemma_lookup_update(self.0@, i as int, e, account@, token@);
                    assert forall|a: Seq<char>, t: Seq<char>|
                        !(a == account@ && t == token@) implies lookup(
                        self.0@.update(i as int, e),
                        a,
                        t,
                    ) == lookup(self.0@, a, t) by {
                        lemma_lookup_update(self.0@, i as int, e, a, t);
                    }
                }
                self.0[i] = e;
                return ;
            }
            i = i + 1;
        }
        let e = DepositEntry {
            account: String::from_str(account),
            token: String::from_str(token),
            amount,
        };
        proof {
            lemma_lookup_skip(self.0@, i as int, account@, token@);
            assert(self.0@.skip(i as int) =~= Seq::<DepositEntry>::empty());
            assert(!has_entry(self.0@, account@, token@));
            lemma_lookup_push(self.0@, e, account@, token@);
            assert forall|a: Seq<char>, t: Seq<char>|
                !(a == account@ && t == token@) implies lookup(self.0@.push(e), a, t) == lookup(
                self.0@,
                a,
                t,
            ) by {
                lemma_lookup_push(self.0@, e, a, t);
            }
        }
        self.0.push(e);
    }
}

} // verus!
