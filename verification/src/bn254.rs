//! BN254: the encodings that the Soroban host accepts, the negation of a G1
//! point, and the host's curve operations behind trusted wrappers.
use soroban_sdk::crypto::bn254::{Bn254G1Affine, Bn254G2Affine, Bn254Fr};
use soroban_sdk::{BytesN, Env};
use vstd::arithmetic::div_mod::*;
use vstd::arithmetic::power::pow;
use vstd::prelude::*;

use crate::be32::{
    be_bytes, be_value, lemma_be_bytes_of_value, lemma_be_bytes_value, lemma_be_value_bound,
    lemma_be_value_extend, lemma_pow256_pos, pow256, be32_sub,
};

verus! {

#[verifier::external_type_specification]
#[verifier::external_body]
pub struct ExEnv(Env);

/// The base field modulus `p` of BN254.
pub open spec fn fp_modulus() -> nat {
    0x30644e72e131a029b85045b68181585d97816a916871ca8d3c208c16d87cfd47nat
}

/// The prime order `r` of the BN254 groups and of the scalar field.
pub open spec fn fr_modulus() -> nat {
    0x30644e72e131a029b85045b68181585d2833e84879b9709143e1f593f0000001nat
}

/// Reduction into the base field.
pub open spec fn fp(x: int) -> int {
    x % (fp_modulus() as int)
}

/// Inverse in the base field (Fermat); zero has none and maps to zero.
pub open spec fn fp_inv(x: int) -> int {
    fp(pow(fp(x), (fp_modulus() - 2) as nat))
}

/// An element `c0 + c1 * u` of the quadratic extension, `u^2 = -1`.
pub struct Fp2 {
    pub c0: int,
    pub c1: int,
}

pub open spec fn fp2(c0: int, c1: int) -> Fp2 {
    Fp2 { c0: fp(c0), c1: fp(c1) }
}

pub open spec fn fp2_add(a: Fp2, b: Fp2) -> Fp2 {
    fp2(a.c0 + b.c0, a.c1 + b.c1)
}

pub open spec fn fp2_sub(a: Fp2, b: Fp2) -> Fp2 {
    fp2(a.c0 - b.c0, a.c1 - b.c1)
}

pub open spec fn fp2_mul(a: Fp2, b: Fp2) -> Fp2 {
    fp2(a.c0 * b.c0 - a.c1 * b.c1, a.c0 * b.c1 + a.c1 * b.c0)
}

pub open spec fn fp2_inv(a: Fp2) -> Fp2 {
    let n = fp_inv(a.c0 * a.c0 + a.c1 * a.c1);
    fp2(a.c0 * n, -a.c1 * n)
}

/// A point of the sextic twist `E': y^2 = x^3 + 3 / (9 + u)` over the
/// extension field, in which G2 lives.
pub enum TwistPoint {
    Infinity,
    Affine { x: Fp2, y: Fp2 },
}

/// Whether `(x, y)` satisfies the twist equation, written as
/// `(9 + u) * (y^2 - x^3) == 3`.
pub open spec fn on_twist(x: Fp2, y: Fp2) -> bool {
    fp2_mul(fp2(9, 1), fp2_sub(fp2_mul(y, y), fp2_mul(x, fp2_mul(x, x)))) == fp2(3, 0)
}

/// The group law of the twist (short Weierstrass form with `a = 0`).
pub open spec fn twist_add(p: TwistPoint, q: TwistPoint) -> TwistPoint {
    match (p, q) {
        (TwistPoint::Infinity, _) => q,
        (_, TwistPoint::Infinity) => p,
        (TwistPoint::Affine { x: x1, y: y1 }, TwistPoint::Affine { x: x2, y: y2 }) => {
            if x1 == x2 && fp2_add(y1, y2) == fp2(0, 0) {
                TwistPoint::Infinity
            } else {
                let lambda = if x1 == x2 {
                    fp2_mul(fp2_mul(fp2(3, 0), fp2_mul(x1, x1)), fp2_inv(fp2_add(y1, y1)))
                } else {
                    fp2_mul(fp2_sub(y2, y1), fp2_inv(fp2_sub(x2, x1)))
                };
                let x3 = fp2_sub(fp2_sub(fp2_mul(lambda, lambda), x1), x2);
                let y3 = fp2_sub(fp2_mul(lambda, fp2_sub(x1, x3)), y1);
                TwistPoint::Affine { x: x3, y: y3 }
            }
        },
    }
}

/// `k` times the point `q` on the twist.
pub open spec fn twist_mul(k: nat, q: TwistPoint) -> TwistPoint
    decreases k,
{
    if k == 0 {
        TwistPoint::Infinity
    } else {
        twist_add(q, twist_mul((k - 1) as nat, q))
    }
}

/// X coordinate of a 64-byte G1 encoding `be(X) || be(Y)`.
pub open spec fn g1_x(p: Seq<u8>) -> nat {
    be_value(p.subrange(0, 32))
}

/// Y coordinate of a 64-byte G1 encoding `be(X) || be(Y)`.
pub open spec fn g1_y(p: Seq<u8>) -> nat {
    be_value(p.subrange(32, 64))
}

/// What the host accepts as a G1 point: 64 bytes, both coordinates reduced
/// below `p`, and either all zero (the point at infinity) or on the curve
/// `y^2 = x^3 + 3`.
pub open spec fn g1_encoding_valid(p: Seq<u8>) -> bool {
    let x = g1_x(p) as int;
    let y = g1_y(p) as int;
    &&& p.len() == 64
    &&& x < fp_modulus()
    &&& y < fp_modulus()
    &&& (x == 0 && y == 0) || fp(y * y) == fp(x * x * x + 3)
}

/// A point of the curve `E: y^2 = x^3 + 3` over the base field, in which G1
/// lives.
pub enum G1Point {
    Infinity,
    Affine { x: int, y: int },
}

/// The point that a 64-byte encoding denotes (all zero: the point at
/// infinity).
pub open spec fn g1_decode(p: Seq<u8>) -> G1Point {
    if g1_x(p) == 0 && g1_y(p) == 0 {
        G1Point::Infinity
    } else {
        G1Point::Affine { x: g1_x(p) as int, y: g1_y(p) as int }
    }
}

/// The 64-byte encoding `be(X) || be(Y)` of a point, all zero for the point
/// at infinity.
pub open spec fn g1_encode(pt: G1Point) -> Seq<u8> {
    match pt {
        G1Point::Infinity => be_bytes(32, 0) + be_bytes(32, 0),
        G1Point::Affine { x, y } => be_bytes(32, x as nat) + be_bytes(32, y as nat),
    }
}

/// The group law of `E` (short Weierstrass form with `a = 0`).
pub open spec fn g1_add_points(p: G1Point, q: G1Point) -> G1Point {
    match (p, q) {
        (G1Point::Infinity, _) => q,
        (_, G1Point::Infinity) => p,
        (G1Point::Affine { x: x1, y: y1 }, G1Point::Affine { x: x2, y: y2 }) => {
            if fp(x1 - x2) == 0 && fp(y1 + y2) == 0 {
                G1Point::Infinity
            } else {
                let lambda = if fp(x1 - x2) == 0 {
                    fp(3 * x1 * x1 * fp_inv(2 * y1))
                } else {
                    fp((y2 - y1) * fp_inv(x2 - x1))
                };
                let x3 = fp(lambda * lambda - x1 - x2);
                let y3 = fp(lambda * (x1 - x3) - y1);
                G1Point::Affine { x: x3, y: y3 }
            }
        },
    }
}

/// `k` times the point `p` on `E`.
pub open spec fn g1_mul_point(k: nat, p: G1Point) -> G1Point
    decreases k,
{
    if k == 0 {
        G1Point::Infinity
    } else {
        g1_add_points(p, g1_mul_point((k - 1) as nat, p))
    }
}

/// The encoding of the sum of two encoded points.
pub open spec fn g1_sum(p1: Seq<u8>, p2: Seq<u8>) -> Seq<u8> {
    g1_encode(g1_add_points(g1_decode(p1), g1_decode(p2)))
}

/// The encoding of an encoded point times a scalar, the scalar read
/// big-endian and reduced modulo `r`.
pub open spec fn g1_scaled(p: Seq<u8>, scalar: Seq<u8>) -> Seq<u8> {
    g1_encode(g1_mul_point(be_value(scalar) % fr_modulus(), g1_decode(p)))
}

/// X coordinate of a 128-byte G2 encoding, each extension element written as
/// `be(c1) || be(c0)`.
pub open spec fn g2_x(p: Seq<u8>) -> Fp2 {
    Fp2 { c0: be_value(p.subrange(32, 64)) as int, c1: be_value(p.subrange(0, 32)) as int }
}

/// Y coordinate of a 128-byte G2 encoding.
pub open spec fn g2_y(p: Seq<u8>) -> Fp2 {
    Fp2 { c0: be_value(p.subrange(96, 128)) as int, c1: be_value(p.subrange(64, 96)) as int }
}

/// What the host accepts as a G2 point: 128 bytes, all four base field
/// components reduced below `p`, and either all zero (the point at infinity)
/// or a point of the twist in the subgroup of order `r`.
pub open spec fn g2_encoding_valid(p: Seq<u8>) -> bool {
    let x = g2_x(p);
    let y = g2_y(p);
    &&& p.len() == 128
    &&& 0 <= x.c0 < fp_modulus() && 0 <= x.c1 < fp_modulus()
    &&& 0 <= y.c0 < fp_modulus() && 0 <= y.c1 < fp_modulus()
    &&& (x == Fp2 { c0: 0, c1: 0 } && y == Fp2 { c0: 0, c1: 0 }) || {
        &&& on_twist(x, y)
        &&& twist_mul(fr_modulus(), TwistPoint::Affine { x, y }) == TwistPoint::Infinity
    }
}

/// The byte views of a list of encoded points.
pub open spec fn points64(v: Seq<[u8; 64]>) -> Seq<Seq<u8>> {
    v.map_values(|p: [u8; 64]| p@)
}

/// The byte views of a list of encoded points.
pub open spec fn points128(v: Seq<[u8; 128]>) -> Seq<Seq<u8>> {
    v.map_values(|p: [u8; 128]| p@)
}

/// The byte views of a list of 32-byte field elements.
pub open spec fn elements32(v: Seq<[u8; 32]>) -> Seq<Seq<u8>> {
    v.map_values(|p: [u8; 32]| p@)
}

/// The encoding of the negated point `(x, p - y)`, the subtraction taken
/// modulo 2^256 as the byte arithmetic does.
pub open spec fn g1_negation(pt: Seq<u8>) -> Seq<u8> {
    pt.subrange(0, 32) + be_bytes(
        32,
        ((fp_modulus() as int - g1_y(pt)) % (pow256(32) as int)) as nat,
    )
}

/// The base field modulus as 32 big-endian bytes.
pub fn fp_modulus_be() -> (r: [u8; 32])
    ensures
        be_value(r@) == fp_modulus(),
{
    let r: [u8; 32] = [
        0x30, 0x64, 0x4e, 0x72, 0xe1, 0x31, 0xa0, 0x29, 0xb8, 0x50, 0x45, 0xb6, 0x81, 0x81, 0x58, 0x5d,
        0x97, 0x81, 0x6a, 0x91, 0x68, 0x71, 0xca, 0x8d, 0x3c, 0x20, 0x8c, 0x16, 0xd8, 0x7c, 0xfd, 0x47,
    ];
    proof {
        assert(r@.subrange(0, 0) =~= Seq::<u8>::empty());
        lemma_be_value_extend(r@, 0, 0);
        assert(be_value(r@.subrange(0, 1)) == 0x30nat);
        lemma_be_value_extend(r@, 0, 1);
        assert(be_value(r@.subrange(0, 2)) == 0x3064nat);
        lemma_be_value_extend(r@, 0, 2);
        assert(be_value(r@.subrange(0, 3)) == 0x30644enat);
        lemma_be_value_extend(r@, 0, 3);
        assert(be_value(r@.subrange(0, 4)) == 0x30644e72nat);
        lemma_be_value_extend(r@, 0, 4);
        assert(be_value(r@.subrange(0, 5)) == 0x30644e72e1nat);
        lemma_be_value_extend(r@, 0, 5);
        assert(be_value(r@.subrange(0, 6)) == 0x30644e72e131nat);
        lemma_be_value_extend(r@, 0, 6);
        assert(be_value(r@.subrange(0, 7)) == 0x30644e72e131a0nat);
        lemma_be_value_extend(r@, 0, 7);
        assert(be_value(r@.subrange(0, 8)) == 0x30644e72e131a029nat);
        lemma_be_value_extend(r@, 0, 8);
        assert(be_value(r@.subrange(0, 9)) == 0x30644e72e131a029b8nat);
        lemma_be_value_extend(r@, 0, 9);
        assert(be_value(r@.subrange(0, 10)) == 0x30644e72e131a029b850nat);
        lemma_be_value_extend(r@, 0, 10);
        assert(be_value(r@.subrange(0, 11)) == 0x30644e72e131a029b85045nat);
        lemma_be_value_extend(r@, 0, 11);
        assert(be_value(r@.subrange(0, 12)) == 0x30644e72e131a029b85045b6nat);
        lemma_be_value_extend(r@, 0, 12);
        assert(be_value(r@.subrange(0, 13)) == 0x30644e72e131a029b85045b681nat);
        lemma_be_value_extend(r@, 0, 13);
        assert(be_value(r@.subrange(0, 14)) == 0x30644e72e131a029b85045b68181nat);
        lemma_be_value_extend(r@, 0, 14);
        assert(be_value(r@.subrange(0, 15)) == 0x30644e72e131a029b85045b6818158nat);
        lemma_be_value_extend(r@, 0, 15);
        assert(be_value(r@.subrange(0, 16)) == 0x30644e72e131a029b85045b68181585dnat);
        lemma_be_value_extend(r@, 0, 16);
        assert(be_value(r@.subrange(0, 17)) == 0x30644e72e131a029b85045b68181585d97nat);
        lemma_be_value_extend(r@, 0, 17);
        assert(be_value(r@.subrange(0, 18)) == 0x30644e72e131a029b85045b68181585d9781nat);
        lemma_be_value_extend(r@, 0, 18);
        assert(be_value(r@.subrange(0, 19)) == 0x30644e72e131a029b85045b68181585d97816anat);
        lemma_be_value_extend(r@, 0, 19);
        assert(be_value(r@.subrange(0, 20)) == 0x30644e72e131a029b85045b68181585d97816a91nat);
        lemma_be_value_extend(r@, 0, 20);
        assert(be_value(r@.subrange(0, 21)) == 0x30644e72e131a029b85045b68181585d97816a9168nat);
        lemma_be_value_extend(r@, 0, 21);
        assert(be_value(r@.subrange(0, 22)) == 0x30644e72e131a029b85045b68181585d97816a916871nat);
        lemma_be_value_extend(r@, 0, 22);
        assert(be_value(r@.subrange(0, 23)) == 0x30644e72e131a029b85045b68181585d97816a916871canat);
        lemma_be_value_extend(r@, 0, 23);
        assert(be_value(r@.subrange(0, 24)) == 0x30644e72e131a029b85045b68181585d97816a916871ca8dnat);
        lemma_be_value_extend(r@, 0, 24);
        assert(be_value(r@.subrange(0, 25)) == 0x30644e72e131a029b85045b68181585d97816a916871ca8d3cnat);
        lemma_be_value_extend(r@, 0, 25);
        assert(be_value(r@.subrange(0, 26)) == 0x30644e72e131a029b85045b68181585d97816a916871ca8d3c20nat);
        lemma_be_value_extend(r@, 0, 26);
        assert(be_value(r@.subrange(0, 27)) == 0x30644e72e131a029b85045b68181585d97816a916871ca8d3c208cnat);
        lemma_be_value_extend(r@, 0, 27);
        assert(be_value(r@.subrange(0, 28)) == 0x30644e72e131a029b85045b68181585d97816a916871ca8d3c208c16nat);
        lemma_be_value_extend(r@, 0, 28);
        assert(be_value(r@.subrange(0, 29)) == 0x30644e72e131a029b85045b68181585d97816a916871ca8d3c208c16d8nat);
        lemma_be_value_extend(r@, 0, 29);
        assert(be_value(r@.subrange(0, 30)) == 0x30644e72e131a029b85045b68181585d97816a916871ca8d3c208c16d87cnat);
        lemma_be_value_extend(r@, 0, 30);
        assert(be_value(r@.subrange(0, 31)) == 0x30644e72e131a029b85045b68181585d97816a916871ca8d3c208c16d87cfdnat);
        lemma_be_value_extend(r@, 0, 31);
        assert(be_value(r@.subrange(0, 32)) == 0x30644e72e131a029b85045b68181585d97816a916871ca8d3c208c16d87cfd47nat);
        assert(r@.subrange(0, 32) =~= r@);
    }
    r
}

/// Negates a G1 point given as `be(X) || be(Y)` by replacing `Y` with
/// `p - Y`.
pub fn g1_negate(pt: &[u8; 64]) -> (r: [u8; 64])
    ensures
        r@ == g1_negation(pt@),
{
    let p = fp_modulus_be();
    let mut x = [0u8; 32];
    let mut y = [0u8; 32];
    let mut i: usize = 0;
    while i < 32
        invariant
            i <= 32,
            forall|j: int| 0 <= j < i ==> x@[j] == pt@[j] && y@[j] == pt@[32 + j],
        decreases 32 - i,
    {
        x[i] = pt[i];
        y[i] = pt[32 + i];
        i = i + 1;
    }
    assert(x@ =~= pt@.subrange(0, 32));
    assert(y@ =~= pt@.subrange(32, 64));
    let neg_y = be32_sub(&p, &y);
    let mut out = [0u8; 64];
    let mut k: usize = 0;
    while k < 32
        invariant
            k <= 32,
            forall|j: int| 0 <= j < k ==> out@[j] == x@[j] && out@[32 + j] == neg_y@[j],
        decreases 32 - k,
    {
        out[k] = x[k];
        out[32 + k] = neg_y[k];
        k = k + 1;
    }
    assert(out@ =~= x@ + neg_y@);
    out
}

/// Negating twice gives the point back, whatever the 64 bytes.
pub proof fn lemma_g1_negation_involutive(pt: Seq<u8>)
    requires
        pt.len() == 64,
    ensures
        g1_negation(g1_negation(pt)) == pt,
{
    let m = pow256(32) as int;
    let pp = fp_modulus() as int;
    let y = g1_y(pt) as int;
    let t = (pp - y) % m;
    lemma_pow256_pos(32);
    let n = g1_negation(pt);
    let e = be_bytes(32, t as nat);
    lemma_be_bytes_value(32, t as nat);
    assert(n.subrange(0, 32) =~= pt.subrange(0, 32));
    assert(n.subrange(32, 64) =~= e);
    lemma_small_mod(t as nat, m as nat);
    assert(g1_y(n) == t);
    lemma_fundamental_div_mod(pp - y, m);
    let q = (pp - y) / m;
    assert(pp - t == m * q + y);
    lemma_mod_multiples_vanish(q, y, m);
    lemma_be_value_bound(pt.subrange(32, 64));
    lemma_small_mod(y as nat, m as nat);
    assert((pp - t) % m == y);
    lemma_be_bytes_of_value(pt.subrange(32, 64));
    assert(g1_negation(n) =~= pt);
}

/// The negation of a valid point other than the point at infinity is a
/// valid point, with Y coordinate `p - y`.
pub proof fn lemma_g1_negation_valid(pt: Seq<u8>)
    requires
        g1_encoding_valid(pt),
        g1_y(pt) != 0,
    ensures
        g1_encoding_valid(g1_negation(pt)),
        g1_x(g1_negation(pt)) == g1_x(pt),
        g1_y(g1_negation(pt)) == fp_modulus() - g1_y(pt),
{
    let m = pow256(32) as int;
    let pp = fp_modulus() as int;
    let y = g1_y(pt) as int;
    let x = g1_x(pt) as int;
    reveal_with_fuel(pow256, 33);
    assert(pp < m);
    lemma_small_mod((pp - y) as nat, m as nat);
    let n = g1_negation(pt);
    lemma_be_bytes_value(32, (pp - y) as nat);
    assert(n.subrange(0, 32) =~= pt.subrange(0, 32));
    assert(n.subrange(32, 64) =~= be_bytes(32, (pp - y) as nat));
    assert(g1_y(n) == pp - y);
    assert((pp - y) * (pp - y) == pp * (pp - 2 * y) + y * y) by (nonlinear_arith);
    lemma_mod_multiples_vanish(pp - 2 * y, y * y, pp);
}

/// Whether the product of the pairings `e(g1[i], g2[i])` is the identity.
pub uninterp spec fn multi_pairing_holds(g1: Seq<Seq<u8>>, g2: Seq<Seq<u8>>) -> bool;

/// Adds two G1 points with the host's `bn254().g1_add`. The contract claims
/// that for two valid encodings the host returns the valid encoding of the
/// sum under the curve's group law; the host traps on an invalid encoding,
/// which `requires` rules out.
#[verifier::external_body]
pub(crate) fn bn254_g1_add(env: &Env, p1: &[u8; 64], p2: &[u8; 64]) -> (r: [u8; 64])
    requires
        g1_encoding_valid(p1@),
        g1_encoding_valid(p2@),
    ensures
        r@ == g1_sum(p1@, p2@),
        g1_encoding_valid(r@),
{
    let a = Bn254G1Affine::from_array(env, p1);
    let b = Bn254G1Affine::from_array(env, p2);
    env.crypto().bn254().g1_add(&a, &b).to_array()
}

/// Multiplies a G1 point by a scalar with the host's `bn254().g1_mul`. The
/// contract claims that for a valid encoding the host returns the valid
/// encoding of the multiple of the point by the scalar (read big-endian;
/// any scalar is accepted, the host reduces it modulo `r`).
#[verifier::external_body]
pub(crate) fn bn254_g1_mul(env: &Env, pt: &[u8; 64], scalar: &[u8; 32]) -> (r: [u8; 64])
    requires
        g1_encoding_valid(pt@),
    ensures
        r@ == g1_scaled(pt@, scalar@),
        g1_encoding_valid(r@),
{
    let p = Bn254G1Affine::from_array(env, pt);
    let s = Bn254Fr::from_bytes(BytesN::from_array(env, scalar));
    env.crypto().bn254().g1_mul(&p, &s).to_array()
}

/// Runs the host's `bn254().pairing_check` on the pairs `(g1[i], g2[i])`.
/// The contract claims that the answer depends on the points alone. The host
/// traps on lists of unequal or zero length and on invalid encodings, which
/// `requires` rules out. Its further check that the Miller loop's value is
/// non-zero does not fire on such points: pairs holding the point at
/// infinity are skipped before the loop.
#[verifier::external_body]
pub(crate) fn bn254_multi_pairing_check(
    env: &Env,
    g1: &Vec<[u8; 64]>,
    g2: &Vec<[u8; 128]>,
) -> (r: bool)
    requires
        g1.len() == g2.len(),
        g1.len() > 0,
        forall|i: int| 0 <= i < g1.len() ==> g1_encoding_valid(#[trigger] g1@[i]@),
        forall|i: int| 0 <= i < g2.len() ==> g2_encoding_valid(#[trigger] g2@[i]@),
    ensures
        r == multi_pairing_holds(points64(g1@), points128(g2@)),
{
    let mut a = soroban_sdk::Vec::new(env);
    for p in g1.iter() {
        a.push_back(Bn254G1Affine::from_array(env, p));
    }
    let mut b = soroban_sdk::Vec::new(env);
    for q in g2.iter() {
        b.push_back(Bn254G2Affine::from_array(env, q));
    }
    env.crypto().bn254().pairing_check(a, b)
}

} // verus!
