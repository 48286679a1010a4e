use vstd::prelude::*;
use crate::bytes::{be_int, bytes32_of, lemma_be_int_zeros, lemma_bytes32_of};
use bls12_381_plus::elliptic_curve::hash2curve::{ExpandMsg, ExpandMsgXmd, ExpandMsgXof, Expander};
use bls12_381_plus::group::Curve;

verus! {

/// The order `r` of the BLS12-381 scalar field.
pub open spec fn scalar_order() -> nat {
    0x73eda753299d7d483339d80809a1d80553bda402fffe5bfeffffffff00000001nat
}

/// A scalar of `F_r`: 32 big-endian bytes, reduced modulo `r`.
pub open spec fn is_scalar(s: Seq<u8>) -> bool {
    s.len() == 32 && be_int(s) < scalar_order()
}

/// Output of `expand_message_xmd` with SHA-256.
pub uninterp spec fn xmd_sha256_of(msg: Seq<u8>, dst: Seq<u8>, len: nat) -> Seq<u8>;

/// Output of `expand_message_xof` with SHAKE-256.
pub uninterp spec fn xof_shake256_of(msg: Seq<u8>, dst: Seq<u8>, len: nat) -> Seq<u8>;

/// Whether the 48 bytes are the compressed form of a point of the prime-order
/// subgroup of G1.
pub uninterp spec fn is_g1_point_of(b: Seq<u8>) -> bool;

/// Compressed hash-to-curve output in G1 under `expand_message_xmd` with SHA-256.
pub uninterp spec fn hash_g1_xmd_of(msg: Seq<u8>, dst: Seq<u8>) -> Seq<u8>;

/// Compressed hash-to-curve output in G1 under `expand_message_xof` with SHAKE-256.
pub uninterp spec fn hash_g1_xof_of(msg: Seq<u8>, dst: Seq<u8>) -> Seq<u8>;

/// Compressed `s·P` for a G1 point `P` and a scalar `s`.
pub uninterp spec fn g1_mul_of(p: Seq<u8>, s: Seq<u8>) -> Seq<u8>;

/// Compressed `P + Q` for G1 points.
pub uninterp spec fn g1_add_of(p: Seq<u8>, q: Seq<u8>) -> Seq<u8>;

/// Compressed public key `x·P2` in G2 for the secret scalar `x`.
pub uninterp spec fn g2_pub_of(x: Seq<u8>) -> Seq<u8>;

/// Whether the 96 bytes are the compressed form of a point of the prime-order
/// subgroup of G2.
pub uninterp spec fn is_g2_point_of(b: Seq<u8>) -> bool;

/// Compressed `V + U` for G2 points.
pub uninterp spec fn g2_add_of(v: Seq<u8>, u: Seq<u8>) -> Seq<u8>;

/// Whether `e(A, V) == e(B, U)` for G1 points `A`, `B` and G2 points `V`, `U`.
pub uninterp spec fn pairing_eq_of(a: Seq<u8>, v: Seq<u8>, b: Seq<u8>, u: Seq<u8>) -> bool;

/// Relies on elliptic-curve's `ExpandMsgXmd<Sha256>::expand_message`, which fails
/// only for an output length of 0, above `u16::MAX` or above 255 hash blocks,
/// and on its expander
/// filling the requested bytes.
#[verifier::external_body]
pub(crate) fn expand_xmd_sha256(msg: &[u8], dst: &[u8], len: usize) -> (r: Vec<u8>)
    requires
        0 < len <= 8160,
    ensures
        r@ == xmd_sha256_of(msg@, dst@, len as nat),
        r@.len() == len,
{
    let dsts: [&[u8]; 1] = [dst];
    let mut out = vec![0u8; len];
    let mut ex = ExpandMsgXmd::<sha2::Sha256>::expand_message(&[msg], &dsts, len).unwrap();
    ex.fill_bytes(&mut out);
    out
}

/// Relies on elliptic-curve's `ExpandMsgXof<Shake256>::expand_message`, which fails
/// only for an output length of 0 or above `u16::MAX`, and on its expander filling
/// the requested bytes.
#[verifier::external_body]
pub(crate) fn expand_xof_shake256(msg: &[u8], dst: &[u8], len: usize) -> (r: Vec<u8>)
    requires
        0 < len <= 65535,
    ensures
        r@ == xof_shake256_of(msg@, dst@, len as nat),
        r@.len() == len,
{
    let dsts: [&[u8]; 1] = [dst];
    let mut out = vec![0u8; len];
    let mut ex = ExpandMsgXof::<sha3::Shake256>::expand_message(&[msg], &dsts, len).unwrap();
    ex.fill_bytes(&mut out);
    out
}

/// Relies on bls12_381_plus's `Scalar::from_okm`: the 48 bytes read as a
/// big-endian integer and reduced modulo `r`, returned through `to_be_bytes`.
#[verifier::external_body]
pub(crate) fn scalar_from_okm(okm: &[u8]) -> (r: Vec<u8>)
    requires
        okm@.len() == 48,
    ensures
        r@.len() == 32,
        be_int(r@) == be_int(okm@) % scalar_order(),
{
    let b = <[u8; 48]>::try_from(okm).unwrap();
    bls12_381_plus::Scalar::from_okm(&b).to_be_bytes().to_vec()
}

/// Relies on bls12_381_plus's `Scalar` addition, which reduces modulo `r`.
#[verifier::external_body]
pub(crate) fn scalar_add(a: &[u8], b: &[u8]) -> (r: Vec<u8>)
    requires
        is_scalar(a@),
        is_scalar(b@),
    ensures
        r@.len() == 32,
        be_int(r@) == (be_int(a@) + be_int(b@)) % scalar_order(),
{
    let x = bls12_381_plus::Scalar::from_be_bytes(&<[u8; 32]>::try_from(a).unwrap()).unwrap();
    let y = bls12_381_plus::Scalar::from_be_bytes(&<[u8; 32]>::try_from(b).unwrap()).unwrap();
    (x + y).to_be_bytes().to_vec()
}

/// Relies on bls12_381_plus's `Scalar` multiplication, which reduces modulo `r`.
#[verifier::external_body]
pub(crate) fn scalar_mul(a: &[u8], b: &[u8]) -> (r: Vec<u8>)
    requires
        is_scalar(a@),
        is_scalar(b@),
    ensures
        r@.len() == 32,
        be_int(r@) == (be_int(a@) * be_int(b@)) % scalar_order(),
{
    let x = bls12_381_plus::Scalar::from_be_bytes(&<[u8; 32]>::try_from(a).unwrap()).unwrap();
    let y = bls12_381_plus::Scalar::from_be_bytes(&<[u8; 32]>::try_from(b).unwrap()).unwrap();
    (x * y).to_be_bytes().to_vec()
}

/// Relies on bls12_381_plus's `Scalar` negation: `r - a`, and zero for zero.
#[verifier::external_body]
pub(crate) fn scalar_neg(a: &[u8]) -> (r: Vec<u8>)
    requires
        is_scalar(a@),
    ensures
        r@.len() == 32,
        be_int(r@) as int == (scalar_order() - be_int(a@)) % (scalar_order() as int),
{
    let x = bls12_381_plus::Scalar::from_be_bytes(&<[u8; 32]>::try_from(a).unwrap()).unwrap();
    (-x).to_be_bytes().to_vec()
}

/// Relies on bls12_381_plus's `Scalar::invert`: none for zero, else the inverse
/// modulo `r`.
#[verifier::external_body]
pub(crate) fn scalar_invert(a: &[u8]) -> (r: Option<Vec<u8>>)
    requires
        is_scalar(a@),
    ensures
        r.is_some() == (be_int(a@) != 0),
        r.is_some() ==> is_scalar(r.unwrap()@) && (be_int(a@) * be_int(r.unwrap()@))
            % scalar_order() == 1,
{
    let x = bls12_381_plus::Scalar::from_be_bytes(&<[u8; 32]>::try_from(a).unwrap()).unwrap();
    Option::<bls12_381_plus::Scalar>::from(x.invert()).map(|v| v.to_be_bytes().to_vec())
}

/// Relies on bls12_381_plus's `Scalar::from_be_bytes`, which accepts exactly the
/// canonical 32-byte encodings, those below `r`.
#[verifier::external_body]
pub(crate) fn scalar_check(b: &[u8]) -> (r: bool)
    ensures
        r == is_scalar(b@),
{
    match <[u8; 32]>::try_from(b) {
        Ok(a) => bool::from(bls12_381_plus::Scalar::from_be_bytes(&a).is_some()),
        Err(_) => false,
    }
}

/// Relies on bls12_381_plus's `G1Affine::from_compressed`, which accepts exactly
/// the canonical encodings of points of the prime-order subgroup.
#[verifier::external_body]
pub(crate) fn g1_check(b: &[u8]) -> (r: bool)
    ensures
        r == (b@.len() == 48 && is_g1_point_of(b@)),
{
    match <[u8; 48]>::try_from(b) {
        Ok(a) => bool::from(bls12_381_plus::G1Affine::from_compressed(&a).is_some()),
        Err(_) => false,
    }
}

/// Relies on bls12_381_plus's `G1Projective::hash` with `ExpandMsgXmd<Sha256>`,
/// whose output is cleared of the cofactor and so lies in the subgroup.
#[verifier::external_body]
pub(crate) fn hash_g1_xmd(msg: &[u8], dst: &[u8]) -> (r: Vec<u8>)
    ensures
        r@ == hash_g1_xmd_of(msg@, dst@),
        r@.len() == 48,
        is_g1_point_of(r@),
{
    let p = bls12_381_plus::G1Projective::hash::<ExpandMsgXmd<sha2::Sha256>>(msg, dst);
    p.to_affine().to_compressed().to_vec()
}

/// Relies on bls12_381_plus's `G1Projective::hash` with `ExpandMsgXof<Shake256>`,
/// whose output is cleared of the cofactor and so lies in the subgroup.
#[verifier::external_body]
pub(crate) fn hash_g1_xof(msg: &[u8], dst: &[u8]) -> (r: Vec<u8>)
    ensures
        r@ == hash_g1_xof_of(msg@, dst@),
        r@.len() == 48,
        is_g1_point_of(r@),
{
    let p = bls12_381_plus::G1Projective::hash::<ExpandMsgXof<sha3::Shake256>>(msg, dst);
    p.to_affine().to_compressed().to_vec()
}

/// Relies on bls12_381_plus's scalar multiplication in G1; the group is closed
/// under it.
#[verifier::external_body]
pub(crate) fn g1_mul(p: &[u8], s: &[u8]) -> (r: Vec<u8>)
    requires
        p@.len() == 48,
        is_g1_point_of(p@),
        is_scalar(s@),
    ensures
        r@ == g1_mul_of(p@, s@),
        r@.len() == 48,
        is_g1_point_of(r@),
{
    let a = bls12_381_plus::G1Affine::from_compressed(&<[u8; 48]>::try_from(p).unwrap()).unwrap();
    let x = bls12_381_plus::Scalar::from_be_bytes(&<[u8; 32]>::try_from(s).unwrap()).unwrap();
    (bls12_381_plus::G1Projective::from(a) * x).to_affine().to_compressed().to_vec()
}

/// Relies on bls12_381_plus's point addition in G1; the group is closed under it.
#[verifier::external_body]
pub(crate) fn g1_add(p: &[u8], q: &[u8]) -> (r: Vec<u8>)
    requires
        p@.len() == 48,
        is_g1_point_of(p@),
        q@.len() == 48,
        is_g1_point_of(q@),
    ensures
        r@ == g1_add_of(p@, q@),
        r@.len() == 48,
        is_g1_point_of(r@),
{
    let a = bls12_381_plus::G1Affine::from_compressed(&<[u8; 48]>::try_from(p).unwrap()).unwrap();
    let b = bls12_381_plus::G1Affine::from_compressed(&<[u8; 48]>::try_from(q).unwrap()).unwrap();
    (bls12_381_plus::G1Projective::from(a) + b).to_affine().to_compressed().to_vec()
}

/// Relies on bls12_381_plus's `G2Projective::GENERATOR` times the secret scalar.
#[verifier::external_body]
pub(crate) fn g2_pub(x: &[u8]) -> (r: Vec<u8>)
    requires
        is_scalar(x@),
    ensures
        r@ == g2_pub_of(x@),
        r@.len() == 96,
        is_g2_point_of(r@),
{
    let s = bls12_381_plus::Scalar::from_be_bytes(&<[u8; 32]>::try_from(x).unwrap()).unwrap();
    (bls12_381_plus::G2Projective::GENERATOR * s).to_affine().to_compressed().to_vec()
}

/// Relies on bls12_381_plus's `G2Affine::from_compressed`, which accepts exactly
/// the canonical encodings of points of the prime-order subgroup.
#[verifier::external_body]
pub(crate) fn g2_check(b: &[u8]) -> (r: bool)
    ensures
        r == (b@.len() == 96 && is_g2_point_of(b@)),
{
    match <[u8; 96]>::try_from(b) {
        Ok(a) => bool::from(bls12_381_plus::G2Affine::from_compressed(&a).is_some()),
        Err(_) => false,
    }
}

/// Relies on bls12_381_plus's point addition in G2; the group is closed under it.
#[verifier::external_body]
pub(crate) fn g2_add(v: &[u8], u: &[u8]) -> (r: Vec<u8>)
    requires
        v@.len() == 96,
        is_g2_point_of(v@),
        u@.len() == 96,
        is_g2_point_of(u@),
    ensures
        r@ == g2_add_of(v@, u@),
        r@.len() == 96,
        is_g2_point_of(r@),
{
    let a = bls12_381_plus::G2Affine::from_compressed(&<[u8; 96]>::try_from(v).unwrap()).unwrap();
    let b = bls12_381_plus::G2Affine::from_compressed(&<[u8; 96]>::try_from(u).unwrap()).unwrap();
    (bls12_381_plus::G2Projective::from(a) + b).to_affine().to_compressed().to_vec()
}

/// Relies on bls12_381_plus's `pairing`: whether `e(A, V)` equals `e(B, U)`.
#[verifier::external_body]
pub(crate) fn pairing_eq(a: &[u8], v: &[u8], b: &[u8], u: &[u8]) -> (r: bool)
    requires
        a@.len() == 48,
        is_g1_point_of(a@),
        v@.len() == 96,
        is_g2_point_of(v@),
        b@.len() == 48,
        is_g1_point_of(b@),
        u@.len() == 96,
        is_g2_point_of(u@),
    ensures
        r == pairing_eq_of(a@, v@, b@, u@),
{
    let pa = bls12_381_plus::G1Affine::from_compressed(&<[u8; 48]>::try_from(a).unwrap()).unwrap();
    let pv = bls12_381_plus::G2Affine::from_compressed(&<[u8; 96]>::try_from(v).unwrap()).unwrap();
    let pb = bls12_381_plus::G1Affine::from_compressed(&<[u8; 48]>::try_from(b).unwrap()).unwrap();
    let pu = bls12_381_plus::G2Affine::from_compressed(&<[u8; 96]>::try_from(u).unwrap()).unwrap();
    bls12_381_plus::pairing(&pa, &pv) == bls12_381_plus::pairing(&pb, &pu)
}

/// The G2 generator `P2`, as `1·P2`.
pub open spec fn g2_generator_spec() -> Seq<u8> {
    g2_pub_of(bytes32_of(1))
}

/// The scalar one.
pub(crate) fn scalar_one() -> (r: Vec<u8>)
    ensures
        r@ == bytes32_of(1),
        be_int(r@) == 1,
        is_scalar(r@),
{
    let mut one: Vec<u8> = Vec::new();
    let mut k: usize = 0;
    while k < 31
        invariant
            k <= 31,
            one@.len() == k,
            forall|i: int| 0 <= i < k ==> one@[i] == 0,
        decreases 31 - k,
    {
        one.push(0u8);
        k = k + 1;
    }
    proof {
        lemma_be_int_zeros(one@);
    }
    let ghost zeros = one@;
    one.push(1u8);
    assert(one@.drop_last() == zeros);
    proof {
        lemma_bytes32_of(one@);
    }
    one
}

/// The G2 generator `P2`.
pub(crate) fn g2_generator() -> (r: Vec<u8>)
    ensures
        r@ == g2_generator_spec(),
        r@.len() == 96,
        is_g2_point_of(r@),
{
    let one = scalar_one();
    g2_pub(one.as_slice())
}

/// Whether the bytes are a compressed point of the prime-order subgroup of G1.
pub fn is_valid_g1_point(b: &[u8]) -> (r: bool)
    ensures
        r == (b@.len() == 48 && is_g1_point_of(b@)),
{
    g1_check(b)
}

/// Whether the bytes are a canonical scalar: 32 big-endian bytes below `r`.
pub fn is_valid_scalar(b: &[u8]) -> (r: bool)
    ensures
        r == is_scalar(b@),
{
    scalar_check(b)
}

} // verus!
