//! Recursive-length-prefix wire encoding: the tagged binary lists that the
//! cross-chain payloads travel in.
//!
//! An item is either a byte string or a list holding the concatenation of
//! encoded items.  A string of one byte below 0x80 stands for itself; a short
//! string or list carries its length in the first byte; a long one carries the
//! byte length of its length.  Integers travel as minimal big-endian strings.
use vstd::prelude::*;

verus! {

// ---------------------------------------------------------------------------
// Minimal big-endian representation of a natural number
// ---------------------------------------------------------------------------

pub open spec fn pow256(k: nat) -> nat
    decreases k,
{
    if k == 0 {
        1
    } else {
        256 * pow256((k - 1) as nat)
    }
}

/// Minimal big-endian byte representation: empty for zero, no leading zero.
pub open spec fn be_bytes(n: nat) -> Seq<u8>
    decreases n,
{
    if n == 0 {
        Seq::empty()
    } else {
        be_bytes(n / 256) + seq![(n % 256) as u8]
    }
}

/// The number a big-endian byte string stands for.
pub open spec fn be_val(b: Seq<u8>) -> nat
    decreases b.len(),
{
    if b.len() == 0 {
        0
    } else {
        (be_val(b.drop_last()) * 256 + b.last()) as nat
    }
}

pub proof fn lemma_pow256_monotonic(j: nat, k: nat)
    requires
        j <= k,
    ensures
        pow256(j) <= pow256(k),
    decreases k,
{
    if j < k {
        lemma_pow256_monotonic(j, (k - 1) as nat);
    }
}

pub proof fn lemma_be_val_of_be_bytes(n: nat)
    ensures
        be_val(be_bytes(n)) == n,
    decreases n,
{
    if n > 0 {
        lemma_be_val_of_be_bytes(n / 256);
        let b = be_bytes(n);
        assert(b.drop_last() =~= be_bytes(n / 256));
        assert(b.last() == n % 256);
    }
}

pub proof fn lemma_be_bytes_no_leading_zero(n: nat)
    ensures
        n > 0 ==> be_bytes(n).len() > 0 && be_bytes(n)[0] != 0,
    decreases n,
{
    if n > 0 {
        lemma_be_bytes_no_leading_zero(n / 256);
        assert(be_bytes(n) == be_bytes(n / 256) + seq![(n % 256) as u8]);
        if n / 256 == 0 {
            assert(be_bytes(n / 256) =~= Seq::<u8>::empty());
            assert(be_bytes(n).len() == 1);
            assert(n < 256) by (nonlinear_arith)
                requires
                    n > 0,
                    n / 256 == 0,
            ;
            assert(n % 256 == n);
            assert(be_bytes(n)[0] == n);
        } else {
            assert(be_bytes(n)[0] == be_bytes(n / 256)[0]);
        }
    }
}

pub proof fn lemma_be_bytes_len(n: nat, k: nat)
    requires
        n < pow256(k),
    ensures
        be_bytes(n).len() <= k,
    decreases n,
{
    if n > 0 {
        assert(k > 0);
        assert(n / 256 < pow256((k - 1) as nat)) by {
            assert(pow256(k) == 256 * pow256((k - 1) as nat));
            assert(n / 256 < pow256((k - 1) as nat) || n >= pow256(k)) by (nonlinear_arith)
                requires
                    n < pow256(k),
                    pow256(k) == 256 * pow256((k - 1) as nat),
            ;
        }
        lemma_be_bytes_len(n / 256, (k - 1) as nat);
    }
}

/// A canonical big-endian string (no leading zero) is recovered from its value.
pub proof fn lemma_be_bytes_of_be_val(b: Seq<u8>)
    requires
        b.len() == 0 || b[0] != 0,
    ensures
        be_bytes(be_val(b)) =~= b,
    decreases b.len(),
{
    if b.len() > 0 {
        let v = be_val(b);
        let hi = be_val(b.drop_last());
        assert(v == hi * 256 + b.last());
        assert(v / 256 == hi && v % 256 == b.last()) by (nonlinear_arith)
            requires
                v == hi * 256 + b.last(),
                0 <= b.last() < 256,
                hi >= 0,
        ;
        if b.len() == 1 {
            assert(b.drop_last() =~= Seq::<u8>::empty());
            assert(hi == 0);
            assert(v == b[0]);
            assert(v != 0);
            assert(be_bytes(v) == be_bytes(v / 256) + seq![(v % 256) as u8]);
            assert(v / 256 == 0);
            assert(be_bytes((v / 256) as nat) =~= Seq::<u8>::empty());
            assert(be_bytes(v) =~= Seq::<u8>::empty() + seq![(v % 256) as u8]);
        } else {
            assert(b.drop_last()[0] == b[0]);
            lemma_be_bytes_of_be_val(b.drop_last());
            assert(hi > 0) by {
                lemma_be_bytes_no_leading_zero(hi);
                if hi == 0 {
                    assert(be_bytes(hi).len() == 0);
                    assert(b.drop_last().len() > 0);
                }
            }
            assert(v > 0) by (nonlinear_arith)
                requires
                    v == hi * 256 + b.last(),
                    hi > 0,
            ;
        }
    }
}

// ---------------------------------------------------------------------------
// Canonical encodings
// ---------------------------------------------------------------------------

/// Encoding of a byte string.
pub open spec fn enc_str(p: Seq<u8>) -> Seq<u8> {
    if p.len() == 1 && p[0] < 0x80 {
        p
    } else if p.len() <= 55 {
        seq![(0x80 + p.len()) as u8] + p
    } else {
        seq![(0xb7 + be_bytes(p.len()).len()) as u8] + be_bytes(p.len()) + p
    }
}

/// Encoding of a list whose payload is the concatenation of encoded items.
pub open spec fn enc_list(p: Seq<u8>) -> Seq<u8> {
    if p.len() <= 55 {
        seq![(0xc0 + p.len()) as u8] + p
    } else {
        seq![(0xf7 + be_bytes(p.len()).len()) as u8] + be_bytes(p.len()) + p
    }
}

/// Encoding of an unsigned integer: its minimal big-endian string.
pub open spec fn enc_uint(n: nat) -> Seq<u8> {
    enc_str(be_bytes(n))
}

// ---------------------------------------------------------------------------
// Header parsing
// ---------------------------------------------------------------------------

/// Reads the header of the first item of `b`: `(is_list, header_len,
/// payload_len)`, so that the item's payload is
/// `b.subrange(header_len, header_len + payload_len)`.  `None` when `b` is
/// empty, truncated, or the length is not minimally encoded.
pub open spec fn spec_header(b: Seq<u8>) -> Option<(bool, nat, nat)> {
    if b.len() == 0 {
        None
    } else {
        let b0 = b[0];
        if b0 < 0x80 {
            Some((false, 0, 1))
        } else if b0 <= 0xb7 {
            let l = (b0 - 0x80) as nat;
            if 1 + l <= b.len() && (l != 1 || b[1] >= 0x80) {
                Some((false, 1, l))
            } else {
                None
            }
        } else if b0 <= 0xbf {
            let ll = (b0 - 0xb7) as nat;
            if 1 + ll <= b.len() {
                let lb = b.subrange(1, 1 + ll as int);
                let l = be_val(lb);
                if lb[0] != 0 && l >= 56 && 1 + ll + l <= b.len() {
                    Some((false, 1 + ll, l))
                } else {
                    None
                }
            } else {
                None
            }
        } else if b0 <= 0xf7 {
            let l = (b0 - 0xc0) as nat;
            if 1 + l <= b.len() {
                Some((true, 1, l))
            } else {
                None
            }
        } else {
            let ll = (b0 - 0xf7) as nat;
            if 1 + ll <= b.len() {
                let lb = b.subrange(1, 1 + ll as int);
                let l = be_val(lb);
                if lb[0] != 0 && l >= 56 && 1 + ll + l <= b.len() {
                    Some((true, 1 + ll, l))
                } else {
                    None
                }
            } else {
                None
            }
        }
    }
}

/// What a parsed header yields: the item's payload and how far it reaches.
pub open spec fn spec_payload_of(b: Seq<u8>, h: nat, l: nat) -> Seq<u8> {
    b.subrange(h as int, (h + l) as int)
}

pub proof fn lemma_header_bounds(b: Seq<u8>)
    ensures
        spec_header(b) matches Some((il, h, l)) ==> 1 <= h + l <= b.len(),
{
}

/// An encoded string at the front of a buffer parses back to its payload.
pub proof fn lemma_header_enc_str(p: Seq<u8>, rest: Seq<u8>)
    requires
        p.len() < pow256(8),
    ensures
        ({
            let b = enc_str(p) + rest;
            let h = (enc_str(p).len() - p.len()) as nat;
            spec_header(b) == Some((false, h, p.len())) && spec_payload_of(b, h, p.len()) =~= p
        }),
{
    let b = enc_str(p) + rest;
    if p.len() == 1 && p[0] < 0x80 {
        assert(b[0] == p[0]);
        assert(spec_payload_of(b, 0, 1) =~= p);
    } else if p.len() <= 55 {
        assert(b[0] == 0x80 + p.len());
        if p.len() == 1 {
            assert(b[1] == p[0]);
            assert(p[0] >= 0x80);
        }
        assert(spec_payload_of(b, 1, p.len()) =~= p);
    } else {
        let lb = be_bytes(p.len());
        let ll = lb.len();
        lemma_be_bytes_len(p.len(), 8);
        lemma_be_bytes_no_leading_zero(p.len());
        lemma_be_val_of_be_bytes(p.len());
        assert(ll >= 1);
        assert(b[0] == 0xb7 + ll);
        assert(b[0] > 0xb7 && b[0] <= 0xbf);
        assert(b.subrange(1, 1 + ll as int) =~= lb);
        assert(be_val(lb) == p.len());
        assert(spec_payload_of(b, (1 + ll) as nat, p.len()) =~= p);
    }
}

/// An encoded list at the front of a buffer parses back to its payload.
pub proof fn lemma_header_enc_list(p: Seq<u8>, rest: Seq<u8>)
    requires
        p.len() < pow256(8),
    ensures
        ({
            let b = enc_list(p) + rest;
            let h = (enc_list(p).len() - p.len()) as nat;
            spec_header(b) == Some((true, h, p.len())) && spec_payload_of(b, h, p.len()) =~= p
        }),
{
    let b = enc_list(p) + rest;
    if p.len() <= 55 {
        assert(b[0] == 0xc0 + p.len());
        assert(spec_payload_of(b, 1, p.len()) =~= p);
    } else {
        let lb = be_bytes(p.len());
        let ll = lb.len();
        lemma_be_bytes_len(p.len(), 8);
        lemma_be_bytes_no_leading_zero(p.len());
        lemma_be_val_of_be_bytes(p.len());
        assert(ll >= 1);
        assert(b[0] == 0xf7 + ll);
        assert(b[0] > 0xf7);
        assert(b.subrange(1, 1 + ll as int) =~= lb);
        assert(be_val(lb) == p.len());
        assert(spec_payload_of(b, (1 + ll) as nat, p.len()) =~= p);
    }
}

// ---------------------------------------------------------------------------
// Executable encoding
// ---------------------------------------------------------------------------

pub proof fn lemma_pow256_8()
    ensures
        pow256(8) == 0x1_0000_0000_0000_0000,
        pow256(16) == 0x1_0000_0000_0000_0000_0000_0000_0000_0000,
{
    assert(pow256(0) == 1);
    assert(pow256(1) == 256);
    assert(pow256(2) == 0x1_0000);
    assert(pow256(3) == 0x100_0000);
    assert(pow256(4) == 0x1_0000_0000);
    assert(pow256(5) == 0x100_0000_0000);
    assert(pow256(6) == 0x1_0000_0000_0000);
    assert(pow256(7) == 0x100_0000_0000_0000);
    assert(pow256(8) == 0x1_0000_0000_0000_0000);
    assert(pow256(9) == 0x100_0000_0000_0000_0000);
    assert(pow256(10) == 0x1_0000_0000_0000_0000_0000);
    assert(pow256(11) == 0x100_0000_0000_0000_0000_0000);
    assert(pow256(12) == 0x1_0000_0000_0000_0000_0000_0000);
    assert(pow256(13) == 0x100_0000_0000_0000_0000_0000_0000);
    assert(pow256(14) == 0x1_0000_0000_0000_0000_0000_0000_0000);
    assert(pow256(15) == 0x100_0000_0000_0000_0000_0000_0000_0000);
    assert(pow256(16) == 0x1_0000_0000_0000_0000_0000_0000_0000_0000);
}

/// Appends a copy of `src` to `out`.
pub fn append_bytes(out: &mut Vec<u8>, src: &[u8])
    ensures
        final(out)@ == old(out)@ + src@,
{
    let mut i: usize = 0;
    while i < src.len()
        invariant
            i <= src.len(),
            out@ =~= old(out)@ + src@.take(i as int),
        decreases src.len() - i,
    {
        out.push(src[i]);
        i = i + 1;
        assert(out@ =~= old(out)@ + src@.take(i as int));
    }
    assert(src@.take(src@.len() as int) =~= src@);
}

/// Appends the minimal big-endian representation of `n` to `out`.
pub fn append_be(out: &mut Vec<u8>, n: u128)
    ensures
        final(out)@ == old(out)@ + be_bytes(n as nat),
{
    let mut tmp: Vec<u8> = Vec::new();
    let mut m: u128 = n;
    while m > 0
        invariant
            be_bytes(n as nat) =~= be_bytes(m as nat) + tmp@.reverse(),
        decreases m,
    {
        let ghost pre = tmp@;
        tmp.push((m % 256) as u8);
        assert(tmp@.reverse() =~= seq![(m % 256) as u8] + pre.reverse());
        assert(be_bytes(m as nat) == be_bytes((m as nat) / 256) + seq![((m as nat) % 256) as u8]);
        m = m / 256;
        assert(be_bytes(n as nat) =~= be_bytes(m as nat) + tmp@.reverse());
    }
    let mut j: usize = 0;
    let ghost base = out@;
    while j < tmp.len()
        invariant
            j <= tmp.len(),
            out@ =~= base + tmp@.reverse().take(j as int),
            be_bytes(n as nat) == tmp@.reverse(),
        decreases tmp.len() - j,
    {
        out.push(tmp[tmp.len() - 1 - j]);
        j = j + 1;
        assert(out@ =~= base + tmp@.reverse().take(j as int));
    }
    assert(tmp@.reverse().take(tmp@.len() as int) =~= tmp@.reverse());
}

/// Appends the encoding of the byte string `p` to `out`.
pub fn append_str(out: &mut Vec<u8>, p: &[u8])
    ensures
        final(out)@ == old(out)@ + enc_str(p@),
{
    let len = p.len();
    if len == 1 && p[0] < 0x80 {
        out.push(p[0]);
        assert(out@ =~= old(out)@ + enc_str(p@));
    } else if len <= 55 {
        out.push(0x80 + len as u8);
        append_bytes(out, p);
        assert(out@ =~= old(out)@ + enc_str(p@));
    } else {
        let mut lb: Vec<u8> = Vec::new();
        append_be(&mut lb, len as u128);
        proof {
            lemma_pow256_8();
            lemma_be_bytes_len(len as nat, 8);
        }
        out.push(0xb7 + lb.len() as u8);
        append_bytes(out, lb.as_slice());
        append_bytes(out, p);
        assert(out@ =~= old(out)@ + enc_str(p@));
    }
}

/// Appends the minimal big-endian string encoding of the integer `n` to `out`.
pub fn append_uint(out: &mut Vec<u8>, n: u128)
    ensures
        final(out)@ == old(out)@ + enc_uint(n as nat),
{
    let mut nb: Vec<u8> = Vec::new();
    append_be(&mut nb, n);
    append_str(out, nb.as_slice());
}

/// Wraps an already-encoded payload as a list item.
pub fn wrap_list(payload: Vec<u8>) -> (r: Vec<u8>)
    ensures
        r@ == enc_list(payload@),
{
    let mut out: Vec<u8> = Vec::new();
    let len = payload.len();
    if len <= 55 {
        out.push(0xc0 + len as u8);
    } else {
        let mut lb: Vec<u8> = Vec::new();
        append_be(&mut lb, len as u128);
        proof {
            lemma_pow256_8();
            lemma_be_bytes_len(len as nat, 8);
        }
        out.push(0xf7 + lb.len() as u8);
        append_bytes(&mut out, lb.as_slice());
    }
    append_bytes(&mut out, payload.as_slice());
    proof {
        assert(out@ =~= enc_list(payload@));
    }
    out
}

// ---------------------------------------------------------------------------
// Executable decoding
// ---------------------------------------------------------------------------

/// Reads `count` big-endian bytes starting at `start`.
fn read_be(data: &[u8], start: usize, count: usize) -> (v: u64)
    requires
        start + count <= data.len(),
        count <= 8,
    ensures
        v == be_val(data@.subrange(start as int, (start + count) as int)),
{
    proof {
        lemma_pow256_8();
    }
    let mut v: u64 = 0;
    let mut i: usize = 0;
    while i < count
        invariant
            i <= count <= 8,
            start + count <= data.len(),
            v == be_val(data@.subrange(start as int, (start + i) as int)),
            v < pow256(i as nat),
            pow256(8) == 0x1_0000_0000_0000_0000,
        decreases count - i,
    {
        let ghost pre = data@.subrange(start as int, (start + i) as int);
        let ghost cur = data@.subrange(start as int, (start + i + 1) as int);
        proof {
            assert(cur.drop_last() =~= pre);
            assert(cur.last() == data@[start + i]);
            lemma_pow256_monotonic((i + 1) as nat, 8);
            assert(v * 256 + data@[start + i] < pow256((i + 1) as nat)) by (nonlinear_arith)
                requires
                    v < pow256(i as nat),
                    data@[start + i] < 256,
                    pow256((i + 1) as nat) == 256 * pow256(i as nat),
            ;
        }
        v = v * 256 + data[start + i] as u64;
        i = i + 1;
    }
    v
}

/// Parses the header of the item that starts at `pos`.
pub fn read_header(data: &[u8], pos: usize) -> (r: Option<(bool, usize, usize)>)
    requires
        pos <= data.len(),
    ensures
        ({
            let sh = spec_header(data@.skip(pos as int));
            match r {
                Some((is_list, h, l)) => sh == Some((is_list, h as nat, l as nat)) && pos + h + l
                    <= data.len(),
                None => sh is None,
            }
        }),
{
    let ghost b = data@.skip(pos as int);
    let n = data.len();
    if pos == n {
        return None;
    }
    let b0 = data[pos];
    assert(b[0] == b0);
    if b0 < 0x80 {
        Some((false, 0, 1))
    } else if b0 <= 0xb7 {
        let l = (b0 - 0x80) as usize;
        if l <= n - pos - 1 && (l != 1 || data[pos + 1] >= 0x80) {
            assert(l != 1 || b[1] >= 0x80);
            Some((false, 1, l))
        } else {
            None
        }
    } else if b0 <= 0xbf {
        let ll = (b0 - 0xb7) as usize;
        if ll > n - pos - 1 {
            return None;
        }
        let ghost lb = b.subrange(1, 1 + ll as int);
        assert(lb =~= data@.subrange((pos + 1) as int, (pos + 1 + ll) as int));
        let v = read_be(data, pos + 1, ll);
        if data[pos + 1] == 0 || v < 56 {
            assert(lb[0] == data@[pos + 1]);
            return None;
        }
        let rem = n - pos - 1 - ll;
        if v <= rem as u64 {
            let l = v as usize;
            assert(1 + ll + l <= b.len());
            Some((false, 1 + ll, l))
        } else {
            assert(!(1 + ll + v <= b.len()));
            None
        }
    } else if b0 <= 0xf7 {
        let l = (b0 - 0xc0) as usize;
        if l <= n - pos - 1 {
            Some((true, 1, l))
        } else {
            None
        }
    } else {
        let ll = (b0 - 0xf7) as usize;
        if ll > n - pos - 1 {
            return None;
        }
        let ghost lb = b.subrange(1, 1 + ll as int);
        assert(lb =~= data@.subrange((pos + 1) as int, (pos + 1 + ll) as int));
        let v = read_be(data, pos + 1, ll);
        if data[pos + 1] == 0 || v < 56 {
            assert(lb[0] == data@[pos + 1]);
            return None;
        }
        let rem = n - pos - 1 - ll;
        if v <= rem as u64 {
            let l = v as usize;
            assert(1 + ll + l <= b.len());
            Some((true, 1 + ll, l))
        } else {
            assert(!(1 + ll + v <= b.len()));
            None
        }
    }
}

/// Whether a byte string is the canonical big-endian form of a 128-bit number.
pub open spec fn is_canonical_u128(seg: Seq<u8>) -> bool {
    (seg.len() == 0 || seg[0] != 0) && seg.len() <= 16
}

/// Reads the number whose minimal big-endian form is
/// `data[start..end]`; `None` when that segment is not such a form.
pub fn read_uint(data: &[u8], start: usize, end: usize) -> (r: Option<u128>)
    requires
        start <= end <= data.len(),
    ensures
        ({
            let seg = data@.subrange(start as int, end as int);
            match r {
                Some(v) => is_canonical_u128(seg) && be_bytes(v as nat) == seg,
                None => !is_canonical_u128(seg),
            }
        }),
{
    proof {
        lemma_pow256_8();
    }
    let ghost seg = data@.subrange(start as int, end as int);
    let len = end - start;
    if len > 16 {
        return None;
    }
    if len > 0 && data[start] == 0 {
        assert(seg[0] == 0);
        return None;
    }
    let mut v: u128 = 0;
    let mut i: usize = 0;
    while i < len
        invariant
            i <= len <= 16,
            start + len <= data.len(),
            end == start + len,
            v == be_val(data@.subrange(start as int, (start + i) as int)),
            v < pow256(i as nat),
            pow256(16) == 0x1_0000_0000_0000_0000_0000_0000_0000_0000,
        decreases len - i,
    {
        let ghost pre = data@.subrange(start as int, (start + i) as int);
        let ghost cur = data@.subrange(start as int, (start + i + 1) as int);
        proof {
            assert(cur.drop_last() =~= pre);
            assert(cur.last() == data@[start + i]);
            lemma_pow256_monotonic((i + 1) as nat, 16);
            assert(v * 256 + data@[start + i] < pow256((i + 1) as nat)) by (nonlinear_arith)
                requires
                    v < pow256(i as nat),
                    data@[start + i] < 256,
                    pow256((i + 1) as nat) == 256 * pow256(i as nat),
            ;
        }
        v = v * 256 + data[start + i] as u128;
        i = i + 1;
    }
    proof {
        assert(seg =~= data@.subrange(start as int, (start + len) as int));
        lemma_be_bytes_of_be_val(seg);
    }
    Some(v)
}

/// Compares two byte strings.
pub fn bytes_eq(a: &[u8], b: &[u8]) -> (r: bool)
    ensures
        r == (a@ == b@),
{
    if a.len() != b.len() {
        return false;
    }
    let mut i: usize = 0;
    while i < a.len()
        invariant
            i <= a.len() == b.len(),
            forall|j: int| 0 <= j < i ==> a@[j] == b@[j],
        decreases a.len() - i,
    {
        if a[i] != b[i] {
            return false;
        }
        i = i + 1;
    }
    proof {
        assert(a@ =~= b@);
    }
    true
}

/// Bounds on the size of an encoded string.
pub proof fn lemma_enc_str_len(p: Seq<u8>)
    requires
        p.len() < pow256(8),
    ensures
        p.len() <= enc_str(p).len() <= 9 + p.len(),
        enc_str(p).len() >= 1,
{
    lemma_be_bytes_len(p.len(), 8);
}

/// Bounds on the size of an encoded list.
pub proof fn lemma_enc_list_len(p: Seq<u8>)
    requires
        p.len() < pow256(8),
    ensures
        1 + p.len() <= enc_list(p).len() <= 9 + p.len(),
{
    lemma_be_bytes_len(p.len(), 8);
}

/// The first byte of an encoded list marks a list.
pub proof fn lemma_enc_list_first_byte(p: Seq<u8>)
    requires
        p.len() < pow256(8),
    ensures
        enc_list(p).len() > 0 && enc_list(p)[0] >= 0xc0,
{
    lemma_be_bytes_len(p.len(), 8);
}

} // verus!
