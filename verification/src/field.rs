//! The scalar field of BLS12-381, as far as secret sharing needs it.
//!
//! Field elements are held in their canonical 32-byte little-endian encoding.
//! The arithmetic itself is done by the `bls12_381` crate; the functions here
//! state what each operation computes modulo the field order.

use vstd::prelude::*;

verus! {

/// The order `q` of the scalar field (and of the groups G1 and G2).
pub open spec fn modulus() -> int {
    0x73eda753299d7d483339d80809a1d80553bda402fffe5bfeffffffff00000001int
}

/// The integer that a little-endian byte string stands for.
pub open spec fn le_value(bytes: Seq<u8>) -> nat
    decreases bytes.len(),
{
    if bytes.len() == 0 {
        0
    } else {
        (bytes[0] as nat) + 256 * le_value(bytes.drop_first())
    }
}

/// Whether `bytes` is the canonical encoding of a field element.
pub open spec fn is_canonical_scalar(bytes: Seq<u8>) -> bool {
    bytes.len() == 32 && le_value(bytes) < modulus()
}

/// An element of the scalar field in canonical encoding.
#[derive(Clone, Copy, Debug)]
pub struct FieldElement {
    pub bytes: [u8; 32],
}

impl FieldElement {
    /// The residue in `[0, q)` that this element stands for.
    pub open spec fn value(&self) -> int {
        le_value(self.bytes@) as int
    }

    /// The encoding is canonical: the value is below the field order.
    pub open spec fn wf(&self) -> bool {
        self.value() < modulus()
    }
}

/// `Scalar::from(u64)`: the field element with the given small value.
#[verifier::external_body]
pub(crate) fn field_from_u64(x: u64) -> (r: FieldElement)
    ensures
        r.wf(),
        r.value() == x,
{
    FieldElement { bytes: bls12_381::Scalar::from(x).to_bytes() }
}

/// `Scalar::from_bytes`: decodes 32 little-endian bytes, refusing every
/// encoding that is not below the field order.
#[verifier::external_body]
pub(crate) fn field_decode(bytes: &[u8]) -> (r: Option<FieldElement>)
    ensures
        r.is_some() <==> is_canonical_scalar(bytes@),
        r matches Some(f) ==> f.bytes@ == bytes@,
{
    let raw: [u8; 32] = bytes.try_into().ok()?;
    let decoded: Option<bls12_381::Scalar> = bls12_381::Scalar::from_bytes(&raw).into();
    match decoded {
        Some(s) => Some(FieldElement { bytes: s.to_bytes() }),
        None => None,
    }
}

/// Addition of scalars: the sum modulo the field order.
#[verifier::external_body]
pub(crate) fn field_add(a: &FieldElement, b: &FieldElement) -> (r: FieldElement)
    requires
        a.wf(),
        b.wf(),
    ensures
        r.wf(),
        r.value() == (a.value() + b.value()) % modulus(),
{
    let x = bls12_381::Scalar::from_bytes(&a.bytes).unwrap();
    let y = bls12_381::Scalar::from_bytes(&b.bytes).unwrap();
    FieldElement { bytes: (x + y).to_bytes() }
}

/// Subtraction of scalars: the difference modulo the field order.
#[verifier::external_body]
pub(crate) fn field_sub(a: &FieldElement, b: &FieldElement) -> (r: FieldElement)
    requires
        a.wf(),
        b.wf(),
    ensures
        r.wf(),
        r.value() == (a.value() - b.value()) % modulus(),
{
    let x = bls12_381::Scalar::from_bytes(&a.bytes).unwrap();
    let y = bls12_381::Scalar::from_bytes(&b.bytes).unwrap();
    FieldElement { bytes: (x - y).to_bytes() }
}

/// Multiplication of scalars: the product modulo the field order.
#[verifier::external_body]
pub(crate) fn field_mul(a: &FieldElement, b: &FieldElement) -> (r: FieldElement)
    requires
        a.wf(),
        b.wf(),
    ensures
        r.wf(),
        r.value() == (a.value() * b.value()) % modulus(),
{
    let x = bls12_381::Scalar::from_bytes(&a.bytes).unwrap();
    let y = bls12_381::Scalar::from_bytes(&b.bytes).unwrap();
    FieldElement { bytes: (x * y).to_bytes() }
}

/// `Scalar::invert`: the multiplicative inverse, which every element but
/// zero has.
#[verifier::external_body]
pub(crate) fn field_invert(a: &FieldElement) -> (r: Option<FieldElement>)
    requires
        a.wf(),
    ensures
        r.is_some() <==> a.value() != 0,
        r matches Some(v) ==> v.wf() && (v.value() * a.value()) % modulus() == 1,
{
    let x = bls12_381::Scalar::from_bytes(&a.bytes).unwrap();
    let inverse: Option<bls12_381::Scalar> = x.invert().into();
    match inverse {
        Some(s) => Some(FieldElement { bytes: s.to_bytes() }),
        None => None,
    }
}

/// `Scalar::random` over the operating system's generator. Nothing is known
/// of the outcome but that it is a field element.
#[verifier::external_body]
pub(crate) fn field_random() -> (r: FieldElement)
    ensures
        r.wf(),
{
    let s = <bls12_381::Scalar as ff::Field>::random(rand::rngs::OsRng);
    FieldElement { bytes: s.to_bytes() }
}

} // verus!
