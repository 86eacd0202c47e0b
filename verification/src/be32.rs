//! Big-endian byte strings as natural numbers: the public-signal decoders and
//! the 256-bit subtraction used to negate BN254 points.
use vstd::arithmetic::div_mod::*;
use vstd::arithmetic::mul::*;
use vstd::prelude::*;

verus! {

/// 256 raised to `k`.
pub open spec fn pow256(k: nat) -> nat
    decreases k,
{
    if k == 0 {
        1
    } else {
        256 * pow256((k - 1) as nat)
    }
}

/// The natural number denoted by the big-endian byte string `s`.
pub open spec fn be_value(s: Seq<u8>) -> nat
    decreases s.len(),
{
    if s.len() == 0 {
        0
    } else {
        be_value(s.drop_last()) * 256 + s.last() as nat
    }
}

/// The `len`-byte big-endian encoding of `v` (reduced modulo 256^len).
pub open spec fn be_bytes(len: nat, v: nat) -> Seq<u8>
    decreases len,
{
    if len == 0 {
        seq![]
    } else {
        be_bytes((len - 1) as nat, v / 256).push((v % 256) as u8)
    }
}

/// A 128-bit pattern read as a two's-complement `i128`.
pub open spec fn as_signed128(v: nat) -> int {
    if v < 0x8000_0000_0000_0000_0000_0000_0000_0000 {
        v as int
    } else {
        v - 0x1_0000_0000_0000_0000_0000_0000_0000_0000
    }
}

pub proof fn lemma_pow256_pos(k: nat)
    ensures
        pow256(k) > 0,
    decreases k,
{
    if k > 0 {
        lemma_pow256_pos((k - 1) as nat);
    }
}

pub proof fn lemma_pow256_mono(a: nat, b: nat)
    requires
        a <= b,
    ensures
        pow256(a) <= pow256(b),
    decreases b,
{
    if a < b {
        lemma_pow256_mono(a, (b - 1) as nat);
        lemma_pow256_pos((b - 1) as nat);
    }
}

/// A `k`-byte string denotes a number below 256^k.
pub proof fn lemma_be_value_bound(s: Seq<u8>)
    ensures
        be_value(s) < pow256(s.len()),
    decreases s.len(),
{
    if s.len() > 0 {
        let d = s.drop_last();
        lemma_be_value_bound(d);
        let bd = be_value(d);
        let w = pow256(d.len());
        let l = s.last() as nat;
        assert(bd * 256 + l < 256 * w) by (nonlinear_arith)
            requires
                bd < w,
                l < 256,
        ;
    }
}

/// Appending a byte shifts the value one byte up.
pub proof fn lemma_be_value_push(s: Seq<u8>, b: u8)
    ensures
        be_value(s.push(b)) == be_value(s) * 256 + b as nat,
{
    assert(s.push(b).drop_last() =~= s);
}

/// The leading byte carries weight 256^(len - 1).
pub proof fn lemma_be_value_front(s: Seq<u8>)
    requires
        s.len() > 0,
    ensures
        be_value(s) == s[0] as nat * pow256((s.len() - 1) as nat) + be_value(s.drop_first()),
    decreases s.len(),
{
    if s.len() == 1 {
        assert(s.drop_last() =~= Seq::<u8>::empty());
        assert(s.drop_first() =~= Seq::<u8>::empty());
        assert(be_value(s.drop_last()) == 0);
        assert(be_value(s.drop_first()) == 0);
        assert(pow256(0) == 1);
        assert(s.last() == s[0]);
        let p0 = pow256((s.len() - 1) as nat);
        assert(p0 == 1);
        let s0 = s[0] as nat;
        assert(s0 * p0 == s0) by (nonlinear_arith)
            requires
                p0 == 1,
        ;
    } else {
        let d = s.drop_last();
        lemma_be_value_front(d);
        assert(d.drop_first() =~= s.drop_first().drop_last());
        let t = s.drop_first();
        assert(t.last() == s.last());
        let s0 = s[0] as nat;
        let w = pow256((d.len() - 1) as nat);
        let r = be_value(d.drop_first());
        let l = s.last() as nat;
        assert(d[0] == s[0]);
        assert(be_value(d) == s0 * w + r);
        assert(be_value(t) == be_value(t.drop_last()) * 256 + l);
        assert(be_value(t) == r * 256 + l);
        assert(pow256((s.len() - 1) as nat) == 256 * w);
        assert(be_value(s) == be_value(d) * 256 + l);
        assert((s0 * w + r) * 256 + l == s0 * (256 * w) + (r * 256 + l)) by (nonlinear_arith);
        assert(be_value(s) == s[0] as nat * pow256((s.len() - 1) as nat) + be_value(s.drop_first()));
    }
}

/// The value of a window `[i, n)` splits off its first byte.
pub proof fn lemma_be_value_window(s: Seq<u8>, i: int, n: int)
    requires
        0 <= i < n <= s.len(),
    ensures
        be_value(s.subrange(i, n)) == s[i] as nat * pow256((n - i - 1) as nat) + be_value(
            s.subrange(i + 1, n),
        ),
{
    let w = s.subrange(i, n);
    lemma_be_value_front(w);
    assert(w.drop_first() =~= s.subrange(i + 1, n));
}

/// Extending a window `[lo, i)` by the byte at `i`.
pub proof fn lemma_be_value_extend(s: Seq<u8>, lo: int, i: int)
    requires
        0 <= lo <= i < s.len(),
    ensures
        be_value(s.subrange(lo, i + 1)) == be_value(s.subrange(lo, i)) * 256 + s[i] as nat,
{
    assert(s.subrange(lo, i + 1) =~= s.subrange(lo, i).push(s[i]));
    lemma_be_value_push(s.subrange(lo, i), s[i]);
}

/// `be_bytes` encodes exactly the residue modulo 256^len.
pub proof fn lemma_be_bytes_value(len: nat, v: nat)
    ensures
        be_bytes(len, v).len() == len,
        be_value(be_bytes(len, v)) == v % pow256(len),
    decreases len,
{
    if len == 0 {
    } else {
        let m = pow256((len - 1) as nat);
        lemma_pow256_pos((len - 1) as nat);
        lemma_be_bytes_value((len - 1) as nat, v / 256);
        let p = be_bytes((len - 1) as nat, v / 256);
        lemma_be_value_push(p, (v % 256) as u8);
        lemma_mod_breakdown(v as int, 256, m as int);
        lemma_mul_is_commutative(256, (v as int / 256) % (m as int));
    }
}

/// Two byte strings of one length with one value are equal.
pub proof fn lemma_be_value_injective(s: Seq<u8>, t: Seq<u8>)
    requires
        s.len() == t.len(),
        be_value(s) == be_value(t),
    ensures
        s == t,
    decreases s.len(),
{
    if s.len() > 0 {
        let ds = s.drop_last();
        let dt = t.drop_last();
        let x = be_value(s) as int;
        lemma_fundamental_div_mod_converse(x, 256, be_value(ds) as int, s.last() as int);
        lemma_fundamental_div_mod_converse(x, 256, be_value(dt) as int, t.last() as int);
        lemma_be_value_injective(ds, dt);
        assert(s =~= ds.push(s.last()));
        assert(t =~= dt.push(t.last()));
    }
    assert(s =~= t);
}

/// Encoding the value of a byte string gives the string back.
pub proof fn lemma_be_bytes_of_value(s: Seq<u8>)
    ensures
        be_bytes(s.len(), be_value(s)) == s,
{
    lemma_be_bytes_value(s.len(), be_value(s));
    lemma_be_value_bound(s);
    lemma_small_mod(be_value(s), pow256(s.len()));
    lemma_be_value_injective(be_bytes(s.len(), be_value(s)), s);
}

/// A big-endian string whose value fits in its last `k` bytes: those bytes
/// alone carry the whole value (the leading ones are zero).
pub proof fn lemma_be_value_fits_low_bytes(s: Seq<u8>, k: nat)
    requires
        k <= s.len(),
        be_value(s) < pow256(k),
    ensures
        be_value(s.subrange(s.len() - k, s.len() as int)) == be_value(s),
    decreases s.len(),
{
    if s.len() == k {
        assert(s.subrange(0, s.len() as int) =~= s);
    } else {
        lemma_be_value_front(s);
        let t = s.drop_first();
        lemma_pow256_mono(k, (s.len() - 1) as nat);
        let w = pow256((s.len() - 1) as nat);
        let h = s[0] as nat;
        assert(h == 0) by (nonlinear_arith)
            requires
                h * w + be_value(t) < pow256(k),
                pow256(k) <= w,
        ;
        assert(be_value(s) == be_value(t));
        lemma_be_value_fits_low_bytes(t, k);
        assert(t.subrange(t.len() - k, t.len() as int) =~= s.subrange(s.len() - k, s.len() as int));
    }
}

/// Reads the low four bytes of a 32-byte big-endian field element as a `u32`
/// (small public signals such as a KYC level or basis points live there).
pub fn be32_to_u32(b: &[u8; 32]) -> (r: u32)
    ensures
        r as nat == be_value(b@.subrange(28, 32)),
        be_value(b@) < pow256(4) ==> r as nat == be_value(b@),
{
    let mut v: u32 = 0;
    let mut i: usize = 28;
    proof {
        assert(b@.subrange(28, 28) =~= Seq::<u8>::empty());
        reveal_with_fuel(pow256, 4);
    }
    while i < 32
        invariant
            28 <= i <= 32,
            v as nat == be_value(b@.subrange(28, i as int)),
            pow256(3) == 0x100_0000,
        decreases 32 - i,
    {
        proof {
            lemma_be_value_extend(b@, 28, i as int);
            lemma_be_value_bound(b@.subrange(28, i as int));
            lemma_pow256_mono((i - 28) as nat, 3);
        }
        v = v * 256 + b[i] as u32;
        i = i + 1;
    }
    proof {
        if be_value(b@) < pow256(4) {
            lemma_be_value_fits_low_bytes(b@, 4);
        }
    }
    v
}

/// Reads the low eight bytes of a 32-byte big-endian field element as a `u64`
/// (a timestamp public signal lives there).
pub fn be32_to_u64(b: &[u8; 32]) -> (r: u64)
    ensures
        r as nat == be_value(b@.subrange(24, 32)),
        be_value(b@) < pow256(8) ==> r as nat == be_value(b@),
{
    let mut v: u64 = 0;
    let mut i: usize = 24;
    proof {
        assert(b@.subrange(24, 24) =~= Seq::<u8>::empty());
        reveal_with_fuel(pow256, 8);
    }
    while i < 32
        invariant
            24 <= i <= 32,
            v as nat == be_value(b@.subrange(24, i as int)),
            pow256(7) == 0x100_0000_0000_0000,
        decreases 32 - i,
    {
        proof {
            lemma_be_value_extend(b@, 24, i as int);
            lemma_be_value_bound(b@.subrange(24, i as int));
            lemma_pow256_mono((i - 24) as nat, 7);
        }
        v = v * 256 + b[i] as u64;
        i = i + 1;
    }
    proof {
        if be_value(b@) < pow256(8) {
            lemma_be_value_fits_low_bytes(b@, 8);
        }
    }
    v
}

/// Reads the low sixteen bytes of a 32-byte big-endian field element as an
/// `i128`, two's complement (a token supply public signal lives there).
pub fn be32_to_i128(b: &[u8; 32]) -> (r: i128)
    ensures
        r as int == as_signed128(be_value(b@.subrange(16, 32))),
        be_value(b@) < 0x8000_0000_0000_0000_0000_0000_0000_0000 ==> r as int == be_value(b@),
{
    let mut v: u128 = 0;
    let mut i: usize = 16;
    proof {
        assert(b@.subrange(16, 16) =~= Seq::<u8>::empty());
        reveal_with_fuel(pow256, 16);
    }
    while i < 32
        invariant
            16 <= i <= 32,
            v as nat == be_value(b@.subrange(16, i as int)),
            pow256(15) == 0x1_0000_0000_0000_0000_0000_0000_0000_00,
        decreases 32 - i,
    {
        proof {
            lemma_be_value_extend(b@, 16, i as int);
            lemma_be_value_bound(b@.subrange(16, i as int));
            lemma_pow256_mono((i - 16) as nat, 15);
        }
        v = v * 256 + b[i] as u128;
        i = i + 1;
    }
    proof {
        if be_value(b@) < 0x8000_0000_0000_0000_0000_0000_0000_0000 {
            reveal_with_fuel(pow256, 17);
            lemma_be_value_fits_low_bytes(b@, 16);
        }
    }
    if v < 0x8000_0000_0000_0000_0000_0000_0000_0000 {
        v as i128
    } else {
        ((v - 0x8000_0000_0000_0000_0000_0000_0000_0000) as i128) + i128::MIN
    }
}

/// 256-bit big-endian subtraction `a - b`, wrapping modulo 2^256 (with
/// `a >= b` this is the plain difference).
pub fn be32_sub(a: &[u8; 32], b: &[u8; 32]) -> (r: [u8; 32])
    ensures
        be_value(r@) == (be_value(a@) - be_value(b@)) % (pow256(32) as int),
        r@ == be_bytes(32, ((be_value(a@) - be_value(b@)) % (pow256(32) as int)) as nat),
{
    let mut result = [0u8; 32];
    let mut borrow: u16 = 0;
    let mut i: usize = 32;
    proof {
        assert(result@.subrange(32, 32) =~= Seq::<u8>::empty());
        assert(a@.subrange(32, 32) =~= Seq::<u8>::empty());
        assert(b@.subrange(32, 32) =~= Seq::<u8>::empty());
    }
    while i > 0
        invariant
            i <= 32,
            borrow <= 1,
            be_value(result@.subrange(i as int, 32)) == be_value(a@.subrange(i as int, 32))
                - be_value(b@.subrange(i as int, 32)) + borrow * pow256((32 - i) as nat),
        decreases i,
    {
        i = i - 1;
        let ai = a[i] as u16;
        let bi = b[i] as u16;
        let diff: u16 = ai + 256 - bi - borrow;
        let digit = (diff % 256) as u8;
        let next_borrow: u16 = if diff < 256 {
            1
        } else {
            0
        };
        let ghost old_result = result@;
        let ghost old_borrow = borrow;
        result[i] = digit;
        borrow = next_borrow;
        proof {
            let ii = i as int;
            assert(result@.subrange(ii + 1, 32) =~= old_result.subrange(ii + 1, 32));
            lemma_be_value_window(result@, ii, 32);
            lemma_be_value_window(a@, ii, 32);
            lemma_be_value_window(b@, ii, 32);
            let w = pow256((31 - ii) as nat);
            assert(pow256((32 - ii) as nat) == 256 * w);
            let d = digit as int;
            assert(d == ai - bi - old_borrow + 256 * next_borrow);
            let ra = be_value(a@.subrange(ii + 1, 32)) as int;
            let rb = be_value(b@.subrange(ii + 1, 32)) as int;
            assert(d * w + (ra - rb + old_borrow * w) == (ai * w + ra) - (bi * w + rb) + next_borrow
                * (256 * w)) by (nonlinear_arith)
                requires
                    d == ai - bi - old_borrow + 256 * next_borrow,
            ;
        }
    }
    proof {
        assert(result@.subrange(0, 32) =~= result@);
        assert(a@.subrange(0, 32) =~= a@);
        assert(b@.subrange(0, 32) =~= b@);
        let m = pow256(32) as int;
        let diff = be_value(a@) - be_value(b@);
        lemma_be_value_bound(result@);
        lemma_pow256_pos(32);
        let res = be_value(result@) as int;
        assert(result@.len() == 32);
        assert(res == diff + borrow * m);
        assert(diff == (-(borrow as int)) * m + res) by (nonlinear_arith)
            requires
                res == diff + borrow * m,
        ;
        lemma_fundamental_div_mod_converse(diff, m, -(borrow as int), res);
        lemma_be_bytes_of_value(result@);
    }
    result
}

} // verus!
