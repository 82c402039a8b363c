//! The groups G1 and G2 of BLS12-381 and their pairing.
//!
//! Both groups are cyclic of the prime order `q` of the scalar field, so
//! every element is a multiple `k * G` of the group's generator with exactly
//! one `k` in `[0, q)`. Points are held in their compressed encoding; the
//! contracts speak of a point through that `k`. The curve arithmetic is done
//! by the `bls12_381` crate and is not verified here.

use vstd::prelude::*;
use crate::field::{modulus, FieldElement};
use bls12_381::{G1Affine, G1Projective, G2Affine, G2Projective, Scalar};
use bls12_381::hash_to_curve::{ExpandMsgXmd, HashToCurve};
use group::GroupEncoding;

verus! {

/// The compressed encoding (48 bytes) of `k` times the generator of G1.
pub uninterp spec fn g1_point(k: int) -> Seq<u8>;

/// The `k` in `[0, q)` for which `bytes` encodes `k` times the generator
/// of G1, where `bytes` encodes an element of G1 at all.
pub uninterp spec fn g1_log(bytes: Seq<u8>) -> int;

/// The compressed encoding (96 bytes) of `k` times the generator of G2.
pub uninterp spec fn g2_point(k: int) -> Seq<u8>;

/// The `k` in `[0, q)` for which `bytes` encodes `k` times the generator
/// of G2, where `bytes` encodes an element of G2 at all.
pub uninterp spec fn g2_log(bytes: Seq<u8>) -> int;

/// The encoding of the element of G2 that the hash-to-curve suite
/// `BLS12381G2_XMD:SHA-256_SSWU_RO_` maps `message` to under the domain
/// separation tag `tag`.
pub uninterp spec fn hash_to_g2_bytes(message: Seq<u8>, tag: Seq<u8>) -> Seq<u8>;

/// `bytes` is the encoding of an element of G1.
pub open spec fn is_g1(bytes: Seq<u8>) -> bool {
    0 <= g1_log(bytes) < modulus() && g1_point(g1_log(bytes)) == bytes
}

/// `bytes` is the encoding of an element of G2.
pub open spec fn is_g2(bytes: Seq<u8>) -> bool {
    0 <= g2_log(bytes) < modulus() && g2_point(g2_log(bytes)) == bytes
}

/// The generator of G1 times a scalar (`G1Projective` times `Scalar`), in
/// compressed encoding (`GroupEncoding::to_bytes`). The result is the
/// encoding of that multiple of the generator, so the scalar is its
/// logarithm.
#[verifier::external_body]
pub(crate) fn g1_generator_mul(s: &FieldElement) -> (r: Vec<u8>)
    requires
        s.wf(),
    ensures
        r@ == g1_point(s.value()),
        g1_log(r@) == s.value(),
{
    let k = Scalar::from_bytes(&s.bytes).unwrap();
    (G1Projective::generator() * k).to_bytes().as_ref().to_vec()
}

/// The generator of G2 times a scalar (`G2Projective` times `Scalar`), in
/// compressed encoding (`GroupEncoding::to_bytes`). The result is the
/// encoding of that multiple of the generator, so the scalar is its
/// logarithm.
#[verifier::external_body]
pub(crate) fn g2_generator_mul(s: &FieldElement) -> (r: Vec<u8>)
    requires
        s.wf(),
    ensures
        r@ == g2_point(s.value()),
        g2_log(r@) == s.value(),
{
    let k = Scalar::from_bytes(&s.bytes).unwrap();
    (G2Projective::generator() * k).to_bytes().as_ref().to_vec()
}

/// An element of G2 times a scalar (`G2Affine::from_compressed`, then
/// `G2Projective` times `Scalar`). `None` where `point` does not decode.
/// As the group has order `q`, the product is the generator times the
/// product of the scalar and the point's logarithm, modulo `q`.
#[verifier::external_body]
pub(crate) fn g2_scalar_mul(point: &[u8], s: &FieldElement) -> (r: Option<Vec<u8>>)
    requires
        s.wf(),
    ensures
        r.is_some() <==> is_g2(point@),
        r matches Some(p) ==> p@ == g2_point((s.value() * g2_log(point@)) % modulus())
            && g2_log(p@) == (s.value() * g2_log(point@)) % modulus(),
{
    let raw = <[u8; 96]>::try_from(point).ok()?;
    let decoded: Option<G2Affine> = G2Affine::from_compressed(&raw).into();
    let k = Scalar::from_bytes(&s.bytes).unwrap();
    match decoded {
        Some(p) => Some((G2Projective::from(p) * k).to_bytes().as_ref().to_vec()),
        None => None,
    }
}

/// The sum of two elements of G2 (`G2Projective` plus `G2Affine`). `None`
/// where one of them does not decode. The sum is the generator times the
/// sum of the logarithms, modulo `q`.
#[verifier::external_body]
pub(crate) fn g2_add(a: &[u8], b: &[u8]) -> (r: Option<Vec<u8>>)
    ensures
        r.is_some() <==> (is_g2(a@) && is_g2(b@)),
        r matches Some(p) ==> p@ == g2_point((g2_log(a@) + g2_log(b@)) % modulus())
            && g2_log(p@) == (g2_log(a@) + g2_log(b@)) % modulus(),
{
    let x: Option<G2Affine> = G2Affine::from_compressed(&<[u8; 96]>::try_from(a).ok()?).into();
    let y: Option<G2Affine> = G2Affine::from_compressed(&<[u8; 96]>::try_from(b).ok()?).into();
    match (x, y) {
        (Some(x), Some(y)) => Some((G2Projective::from(x) + y).to_bytes().as_ref().to_vec()),
        _ => None,
    }
}

/// `HashToCurve::hash_to_curve` for G2 with `ExpandMsgXmd<Sha256>`: an
/// element of G2 that depends on the message and the tag alone.
#[verifier::external_body]
pub(crate) fn hash_to_g2_point(message: &[u8], tag: &[u8]) -> (r: Vec<u8>)
    ensures
        r@ == hash_to_g2_bytes(message@, tag@),
        0 <= g2_log(r@) < modulus(),
        g2_point(g2_log(r@)) == r@,
{
    let p = <G2Projective as HashToCurve<ExpandMsgXmd<sha2::Sha256>>>::hash_to_curve(message, tag);
    p.to_bytes().as_ref().to_vec()
}

/// Whether `e(public_key, message_point)` equals `e(G1, signature)`
/// (`bls12_381::pairing` on both sides). As the pairing is bilinear and not
/// degenerate, that is whether the signature is the message point times the
/// key's scalar. `false` where an argument does not decode.
#[verifier::external_body]
pub(crate) fn pairing_check(public_key: &[u8], message_point: &[u8], signature: &[u8]) -> (r: bool)
    ensures
        r == (is_g1(public_key@) && is_g2(message_point@) && is_g2(signature@) && g2_log(
            signature@,
        ) == (g1_log(public_key@) * g2_log(message_point@)) % modulus()),
{
    let (Ok(k), Ok(h), Ok(s)) = (public_key.try_into(), message_point.try_into(), signature.try_into())
    else {
        return false;
    };
    let key: Option<G1Affine> = G1Affine::from_compressed(&k).into();
    let hashed: Option<G2Affine> = G2Affine::from_compressed(&h).into();
    let sig: Option<G2Affine> = G2Affine::from_compressed(&s).into();
    match (key, hashed, sig) {
        (Some(key), Some(hashed), Some(sig)) => bls12_381::pairing(&key, &hashed)
            == bls12_381::pairing(&G1Affine::generator(), &sig),
        _ => false,
    }
}

} // verus!
