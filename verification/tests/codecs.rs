use aegis::be32::{be32_sub, be32_to_i128, be32_to_u32, be32_to_u64};
use aegis::bn254::{fp_modulus_be, g1_negate};
use aegis::groth16::proof_from_bytes;
use aegis::wasm_alloc::{WasmAlloc, PAGE_SIZE};

fn low(v: u128) -> [u8; 32] {
    let mut a = [0u8; 32];
    a[16..].copy_from_slice(&v.to_be_bytes());
    a
}

#[test]
fn decoders_read_low_bytes_big_endian() {
    assert_eq!(be32_to_u32(&low(0x0102_0304)), 0x0102_0304);
    assert_eq!(be32_to_u64(&low(1_700_000_000)), 1_700_000_000);
    assert_eq!(be32_to_u64(&low(0x0102_0304_0506_0708)), 0x0102_0304_0506_0708);
    assert_eq!(be32_to_i128(&low(9_000_000)), 9_000_000);
    // Only the low bytes count: a high byte is ignored.
    let mut a = low(5);
    a[0] = 0xff;
    assert_eq!(be32_to_u32(&a), 5);
    assert_eq!(be32_to_u64(&a), 5);
    assert_eq!(be32_to_i128(&a), 5);
    // u32 sees four bytes only.
    assert_eq!(be32_to_u32(&low(0x1_0000_0007)), 7);
}

#[test]
fn i128_decoding_is_twos_complement() {
    assert_eq!(be32_to_i128(&low(u128::MAX)), -1);
    assert_eq!(be32_to_i128(&low(1u128 << 127)), i128::MIN);
    assert_eq!(be32_to_i128(&low((1u128 << 127) - 1)), i128::MAX);
}

#[test]
fn subtraction_is_exact_without_borrow() {
    let a = low(1000);
    let b = low(1);
    assert_eq!(be32_sub(&a, &b), low(999));
    let p = fp_modulus_be();
    let two = low(2);
    let r = be32_sub(&p, &two);
    assert_eq!(r[31], 0x45);
    assert_eq!(r[..31], p[..31]);
    assert_eq!(be32_sub(&p, &p), [0u8; 32]);
}

#[test]
fn subtraction_wraps_modulo_2_256() {
    let zero = [0u8; 32];
    let one = low(1);
    assert_eq!(be32_sub(&zero, &one), [0xffu8; 32]);
    let mut big = [0u8; 32];
    big[0] = 1;
    // 2^248 - 1 = 0x00ff..ff
    let mut expect = [0xffu8; 32];
    expect[0] = 0;
    assert_eq!(be32_sub(&big, &one), expect);
}

#[test]
fn field_modulus_bytes() {
    let p = fp_modulus_be();
    assert_eq!(p[0], 0x30);
    assert_eq!(p[31], 0x47);
}

#[test]
fn negation_flips_y_and_is_an_involution() {
    let mut g = [0u8; 64];
    g[31] = 1;
    g[63] = 2;
    let n = g1_negate(&g);
    assert_eq!(n[..32], g[..32]);
    let p = fp_modulus_be();
    assert_eq!(n[32..63], p[..31]);
    assert_eq!(n[63], 0x45);
    assert_eq!(g1_negate(&n), g);
    let mut junk = [0u8; 64];
    for i in 0..64 {
        junk[i] = (i * 37 + 11) as u8;
    }
    assert_eq!(g1_negate(&g1_negate(&junk)), junk);
}

#[test]
fn proof_blob_splits_into_a_b_c() {
    let mut blob = vec![0u8; 256];
    for i in 0..256 {
        blob[i] = i as u8;
    }
    let p = proof_from_bytes(&blob);
    assert_eq!(p.a[0], 0);
    assert_eq!(p.a[63], 63);
    assert_eq!(p.b[0], 64);
    assert_eq!(p.b[127], 191);
    assert_eq!(p.c[0], 192);
    assert_eq!(p.c[63], 255);
}

#[test]
fn bump_allocator_aligns_and_grows() {
    let mut a = WasmAlloc::new();
    let plan = a.plan_alloc(10, 8, 1);
    assert_eq!(plan.aligned, 0);
    assert_eq!(plan.new_pos, 10);
    assert_eq!(plan.grow_pages, 0);
    assert_eq!(a.complete_alloc(&plan, true), Some(0));
    let plan = a.plan_alloc(4, 16, 1);
    assert_eq!(plan.aligned, 16);
    assert_eq!(plan.new_pos, 20);
    assert_eq!(a.complete_alloc(&plan, true), Some(16));
    let plan = a.plan_alloc(PAGE_SIZE, 1, 1);
    assert_eq!(plan.aligned, 20);
    assert_eq!(plan.grow_pages, 1);
    // Growing failed: a null pointer, and nothing moves.
    assert_eq!(a.complete_alloc(&plan, false), None);
    let again = a.plan_alloc(PAGE_SIZE, 1, 1);
    assert_eq!(again.aligned, 20);
    assert_eq!(a.complete_alloc(&again, true), Some(20));
    let next = a.plan_alloc(1, 1, 2);
    assert_eq!(next.aligned, 20 + PAGE_SIZE);
}
