//! The threshold signature engine: Shamir sharing of a BLS12-381 signing
//! key, partial signatures, their recombination and verification.
//!
//! A scheme with threshold `k` hides its key as the constant term of a
//! polynomial of degree `k - 1` over the scalar field. Party `i` holds the
//! value at `i`. A partial signature is the hashed message times that value;
//! `k` of them from different parties interpolate to the hashed message times
//! the key itself, which the pairing check accepts under the public key.

use vstd::prelude::*;
use vstd::arithmetic::div_mod::*;
use vstd::slice::slice_to_vec;
use vstd::utf8::encode_utf8;
use crate::bytes::append_bytes;
use crate::curve::{
    g1_generator_mul, g1_log, g1_point, g2_add, g2_log, g2_point, g2_scalar_mul, hash_to_g2_bytes,
    hash_to_g2_point, is_g1, is_g2, pairing_check,
};
use crate::error::AttestorError;
use crate::field::{
    field_add, field_decode, field_from_u64, field_invert, field_mul, field_random, field_sub,
    is_canonical_scalar, le_value, modulus, FieldElement,
};
use crate::identity::utils::generate_id;
use crate::interpolation::{
    congruent, has_inverse, interpolate, inverse, is_inverse, lemma_combination_recovers,
    lemma_congruent_add, lemma_congruent_mul, lemma_inverse_of_residue, nodes_invertible,
    poly_eval, poly_prefix, power, sum, weight, weight_prefix,
};

verus! {

/// Threshold signature scheme configuration.
#[derive(Debug, Clone)]
pub struct ThresholdScheme {
    pub threshold: usize,
    pub total_parties: usize,
    pub scheme_id: String,
}

/// Individual party's key share.
#[derive(Debug, Clone)]
pub struct KeyShare {
    pub party_id: usize,
    pub private_share: Vec<u8>,
    pub public_share: Vec<u8>,
    pub scheme_id: String,
}

/// Threshold public key.
#[derive(Debug, Clone)]
pub struct ThresholdPublicKey {
    pub public_key: Vec<u8>,
    pub scheme_id: String,
    pub threshold: usize,
    pub total_parties: usize,
}

/// Partial signature from a single party.
#[derive(Debug, Clone)]
pub struct PartialSignature {
    pub party_id: usize,
    pub signature: Vec<u8>,
    pub scheme_id: String,
}

/// Combined threshold signature.
#[derive(Debug, Clone)]
pub struct ThresholdSignature {
    pub signature: Vec<u8>,
    pub scheme_id: String,
    pub signers: Vec<usize>,
}

/// The fixed part of the domain separation tag: the name of the BLS
/// signature suite, `BLS_SIG_BLS12381G2_XMD:SHA-256_SSWU_RO_NUL_`.
pub open spec fn domain_prefix() -> Seq<u8> {
    seq![
        0x42u8, 0x4c, 0x53, 0x5f, 0x53, 0x49, 0x47, 0x5f, 0x42, 0x4c, 0x53, 0x31, 0x32, 0x33, 0x38,
        0x31, 0x47, 0x32, 0x5f, 0x58, 0x4d, 0x44, 0x3a, 0x53, 0x48, 0x41, 0x2d, 0x32, 0x35, 0x36,
        0x5f, 0x53, 0x53, 0x57, 0x55, 0x5f, 0x52, 0x4f, 0x5f, 0x4e, 0x55, 0x4c, 0x5f,
    ]
}

/// The domain separation tag of a scheme: the suite's name, then the
/// scheme's identifier in UTF-8.
pub open spec fn domain_tag(scheme_id: Seq<char>) -> Seq<u8> {
    domain_prefix() + encode_utf8(scheme_id)
}

/// The point of G2 that a message is hashed to under a scheme.
pub open spec fn message_point(message: Seq<u8>, scheme_id: Seq<char>) -> Seq<u8> {
    hash_to_g2_bytes(message, domain_tag(scheme_id))
}

/// The scalars that a list of encoded coefficients stands for.
pub open spec fn coefficient_values(coefficients: Seq<Vec<u8>>) -> Seq<int> {
    Seq::new(coefficients.len(), |i: int| le_value(coefficients[i]@) as int)
}

/// The private scalar of party `party_id` under the sharing polynomial.
pub open spec fn share_value(coeffs: Seq<int>, party_id: int) -> int {
    poly_eval(coeffs, party_id) % modulus()
}

/// `share` is the key share of party `party_id` under the polynomial
/// `coeffs`.
pub open spec fn is_key_share(
    share: KeyShare,
    scheme_id: Seq<char>,
    coeffs: Seq<int>,
    party_id: int,
) -> bool {
    &&& share.party_id == party_id
    &&& share.scheme_id@ == scheme_id
    &&& is_canonical_scalar(share.private_share@)
    &&& le_value(share.private_share@) == share_value(coeffs, party_id)
    &&& share.public_share@ == g1_point(share_value(coeffs, party_id))
}

/// The residues that a list of field elements stands for.
pub open spec fn field_values(elements: Seq<FieldElement>) -> Seq<int> {
    Seq::new(elements.len(), |i: int| elements[i].value())
}

/// The partial signatures behind a list of references.
pub open spec fn borrowed(held: Seq<&PartialSignature>) -> Seq<PartialSignature> {
    Seq::new(held.len(), |i: int| *held[i])
}

/// The party numbers of a list of partial signatures, in order.
pub open spec fn party_ids(partials: Seq<PartialSignature>) -> Seq<usize> {
    Seq::new(partials.len(), |i: int| partials[i].party_id)
}

/// The positions among the first `n` at which a party number stands for the
/// first time, in rising order.
pub open spec fn first_occurrences(ids: Seq<usize>, n: nat) -> Seq<usize>
    decreases n,
{
    if n == 0 {
        Seq::empty()
    } else {
        let earlier = first_occurrences(ids, (n - 1) as nat);
        if ids.take(n - 1).contains(ids[n - 1]) {
            earlier
        } else {
            earlier.push((n - 1) as usize)
        }
    }
}

/// The party numbers at the chosen positions, as integers.
pub open spec fn quorum_nodes(partials: Seq<PartialSignature>, chosen: Seq<usize>) -> Seq<int> {
    Seq::new(chosen.len(), |k: int| partials[chosen[k] as int].party_id as int)
}

/// The signatures at the chosen positions, each as the multiple of the
/// generator that it encodes.
pub open spec fn quorum_logs(partials: Seq<PartialSignature>, chosen: Seq<usize>) -> Seq<int> {
    Seq::new(chosen.len(), |k: int| g2_log(partials[chosen[k] as int].signature@))
}

/// The numbers of a list as integers.
pub open spec fn as_integers(xs: Seq<u64>) -> Seq<int> {
    Seq::new(xs.len(), |i: int| xs[i] as int)
}

/// First occurrences found among fewer entries stay the first ones found
/// among more.
proof fn lemma_first_occurrences_grow(ids: Seq<usize>, i: nat, n: nat)
    requires
        i <= n,
    ensures
        first_occurrences(ids, i).len() <= first_occurrences(ids, n).len(),
        first_occurrences(ids, n).take(first_occurrences(ids, i).len() as int)
            == first_occurrences(ids, i),
    decreases n - i,
{
    let short = first_occurrences(ids, i);
    if i == n {
        assert(short.take(short.len() as int) =~= short);
    } else {
        lemma_first_occurrences_grow(ids, i, (n - 1) as nat);
        let mid = first_occurrences(ids, (n - 1) as nat);
        let long = first_occurrences(ids, n);
        assert(long.take(short.len() as int) =~= mid.take(short.len() as int));
    }
}

/// Two different numbers below 2^64 differ modulo `q`.
proof fn lemma_small_difference(a: int, b: int)
    requires
        0 <= a < 0x1_0000_0000_0000_0000,
        0 <= b < 0x1_0000_0000_0000_0000,
        a != b,
    ensures
        (a - b) % modulus() != 0,
{
    let m = modulus();
    if a > b {
        lemma_small_mod((a - b) as nat, m as nat);
    } else {
        lemma_small_mod((a - b + m) as nat, m as nat);
        lemma_mod_add_multiples_vanish(a - b, m);
    }
}

/// The Lagrange coefficient, for evaluation at zero, of the node at
/// `index` among the nodes `xs`.
fn lagrange_coefficient(index: usize, xs: &Vec<u64>) -> (r: FieldElement)
    requires
        index < xs.len(),
        forall|a: int, b: int| 0 <= a < xs.len() && 0 <= b < xs.len() && a != b ==> xs[a] != xs[b],
    ensures
        r.wf(),
        congruent(r.value(), weight(as_integers(xs@), index as int, modulus()), modulus()),
        forall|j: int|
            0 <= j < xs.len() && j != index ==> #[trigger] has_inverse(
                as_integers(xs@)[j] - as_integers(xs@)[index as int],
                modulus(),
            ),
{
    let ghost m = modulus();
    let ghost nodes = as_integers(xs@);
    let x_i = field_from_u64(xs[index]);
    let mut coeff = field_from_u64(1);
    let mut j: usize = 0;
    proof {
        lemma_small_mod(1, m as nat);
    }
    while j < xs.len()
        invariant
            j <= xs.len(),
            index < xs.len(),
            m == modulus(),
            nodes == as_integers(xs@),
            forall|a: int, b: int|
                0 <= a < xs.len() && 0 <= b < xs.len() && a != b ==> xs[a] != xs[b],
            x_i.wf(),
            x_i.value() == xs[index as int],
            coeff.wf(),
            congruent(coeff.value(), weight_prefix(nodes, index as int, j as nat, m), m),
            forall|k: int|
                0 <= k < j && k != index ==> #[trigger] has_inverse(nodes[k] - nodes[index as int], m),
        decreases xs.len() - j,
    {
        if j != index {
            let x_j = field_from_u64(xs[j]);
            let difference = field_sub(&x_j, &x_i);
            proof {
                lemma_small_difference(xs[j as int] as int, xs[index as int] as int);
            }
            match field_invert(&difference) {
                Some(inverted) => {
                    let factor = field_mul(&x_j, &inverted);
                    let next = field_mul(&coeff, &factor);
                    proof {
                        let d = nodes[j as int] - nodes[index as int];
                        let w = weight_prefix(nodes, index as int, j as nat, m);
                        assert(is_inverse(inverted.value(), d % m, m));
                        lemma_inverse_of_residue(inverted.value(), d, m);
                        assert(has_inverse(d, m));
                        let f = nodes[j as int] * inverse(d, m);
                        lemma_mod_twice(f, m);
                        lemma_congruent_mul(factor.value(), f, coeff.value(), m);
                        lemma_congruent_mul(coeff.value(), w, f, m);
                        lemma_mod_twice(coeff.value() * factor.value(), m);
                    }
                    coeff = next;
                },
                None => {
                    coeff = vstd::pervasive::unreached();
                },
            }
        }
        j += 1;
    }
    coeff
}

/// One more term of a polynomial, modulo `q`.
proof fn lemma_polynomial_step(acc: int, prefix: int, c: int, xp: int, p: int, t: int, m: int)
    requires
        m > 1,
        congruent(acc, prefix, m),
        congruent(xp, p, m),
        t == (c * xp) % m,
    ensures
        congruent((acc + t) % m, prefix + c * p, m),
{
    lemma_congruent_mul(xp, p, c, m);
    lemma_mod_twice(c * xp, m);
    lemma_congruent_add(acc, prefix, t, c * p, m);
    lemma_mod_twice(acc + t, m);
}

/// The value of the polynomial `coeffs` at `x`, computed term by term with
/// a running power of `x`.
fn evaluate_polynomial(coeffs: &Vec<FieldElement>, x: &FieldElement) -> (r: FieldElement)
    requires
        coeffs.len() >= 1,
        forall|i: int| 0 <= i < coeffs.len() ==> (#[trigger] coeffs[i]).wf(),
        x.wf(),
    ensures
        r.wf(),
        r.value() == poly_eval(field_values(coeffs@), x.value()) % modulus(),
{
    let ghost cs = field_values(coeffs@);
    let ghost m = modulus();
    let mut share = coeffs[0];
    let mut x_power = *x;
    let mut k: usize = 1;
    proof {
        assert(cs[0] == coeffs[0].value());
        assert(poly_prefix(cs, x.value(), 0) == 0);
        assert(power(x.value(), 0) == 1);
        assert(cs[0] * 1 == cs[0]);
        assert(power(x.value(), 1) == x.value() * 1);
    }
    while k < coeffs.len()
        invariant
            1 <= k <= coeffs.len(),
            m == modulus(),
            cs == field_values(coeffs@),
            forall|i: int| 0 <= i < coeffs.len() ==> (#[trigger] coeffs[i]).wf(),
            x.wf(),
            share.wf(),
            x_power.wf(),
            congruent(share.value(), poly_prefix(cs, x.value(), k as nat), m),
            congruent(x_power.value(), power(x.value(), k as nat), m),
        decreases coeffs.len() - k,
    {
        let term = field_mul(&coeffs[k], &x_power);
        let next = field_add(&share, &term);
        let next_power = field_mul(&x_power, x);
        proof {
            assert(cs[k as int] == coeffs[k as int].value());
            lemma_polynomial_step(
                share.value(),
                poly_prefix(cs, x.value(), k as nat),
                cs[k as int],
                x_power.value(),
                power(x.value(), k as nat),
                term.value(),
                m,
            );
            lemma_mod_twice(share.value() + term.value(), m);
            lemma_congruent_mul(x_power.value(), power(x.value(), k as nat), x.value(), m);
            lemma_mod_twice(x_power.value() * x.value(), m);
            assert(power(x.value(), (k + 1) as nat) == x.value() * power(x.value(), k as nat));
        }
        share = next;
        x_power = next_power;
        k += 1;
    }
    proof {
        lemma_small_mod(share.value() as nat, m as nat);
    }
    share
}

impl ThresholdScheme {
    /// The scheme's parameters are sound: `1 <= threshold <= total_parties`.
    pub open spec fn wf(&self) -> bool {
        1 <= self.threshold <= self.total_parties
    }

    /// `shares` and `key` are what sharing the polynomial `coeffs` gives
    /// under this scheme: one share per party, numbered from 1, each the
    /// polynomial's value at the party's number, and the constant term's
    /// public image as the key.
    pub open spec fn is_share_set(
        &self,
        coeffs: Seq<int>,
        shares: Seq<KeyShare>,
        key: ThresholdPublicKey,
    ) -> bool {
        &&& coeffs.len() == self.threshold
        &&& forall|k: int| 0 <= k < coeffs.len() ==> 0 <= #[trigger] coeffs[k] < modulus()
        &&& shares.len() == self.total_parties
        &&& forall|i: int|
            0 <= i < shares.len() ==> is_key_share(#[trigger] shares[i], self.scheme_id@, coeffs, i + 1)
        &&& key.public_key@ == g1_point(coeffs[0])
        &&& g1_log(key.public_key@) == coeffs[0]
        &&& key.scheme_id@ == self.scheme_id@
        &&& key.threshold == self.threshold
        &&& key.total_parties == self.total_parties
    }

    /// Create a new threshold scheme under a fresh random identifier.
    pub fn new(threshold: usize, total_parties: usize) -> (r: Result<Self, AttestorError>)
        ensures
            r.is_ok() <==> 1 <= threshold <= total_parties,
            r matches Err(e) ==> e == AttestorError::InvalidConfig,
            r matches Ok(s) ==> s.threshold == threshold && s.total_parties == total_parties
                && s.scheme_id@.len() == 36 && s.wf(),
    {
        Self::with_scheme_id(threshold, total_parties, generate_id())
    }

    /// Create a threshold scheme under a given identifier.
    pub fn with_scheme_id(threshold: usize, total_parties: usize, scheme_id: String) -> (r: Result<
        Self,
        AttestorError,
    >)
        ensures
            r.is_ok() <==> 1 <= threshold <= total_parties,
            r matches Err(e) ==> e == AttestorError::InvalidConfig,
            r matches Ok(s) ==> s.threshold == threshold && s.total_parties == total_parties
                && s.scheme_id == scheme_id && s.wf(),
    {
        if threshold == 0 || threshold > total_parties {
            return Err(AttestorError::InvalidConfig);
        }
        Ok(Self { threshold, total_parties, scheme_id })
    }

    /// The scheme's domain separation tag.
    fn domain_tag(&self) -> (tag: Vec<u8>)
        ensures
            tag@ == domain_tag(self.scheme_id@),
    {
        let mut tag: Vec<u8> = vec![
            0x42u8, 0x4c, 0x53, 0x5f, 0x53, 0x49, 0x47, 0x5f, 0x42, 0x4c, 0x53, 0x31, 0x32, 0x33, 0x38,
            0x31, 0x47, 0x32, 0x5f, 0x58, 0x4d, 0x44, 0x3a, 0x53, 0x48, 0x41, 0x2d, 0x32, 0x35, 0x36,
            0x5f, 0x53, 0x53, 0x57, 0x55, 0x5f, 0x52, 0x4f, 0x5f, 0x4e, 0x55, 0x4c, 0x5f,
        ];
        assert(tag@ =~= domain_prefix());
        append_bytes(&mut tag, self.scheme_id.as_str().as_bytes());
        tag
    }

    /// Hashes a message to G2 under the scheme's tag.
    fn hash_to_g2(&self, message: &[u8]) -> (point: Vec<u8>)
        ensures
            point@ == message_point(message@, self.scheme_id@),
            is_g2(point@),
    {
        let tag = self.domain_tag();
        hash_to_g2_point(message, tag.as_slice())
    }

    /// `signature` is what `key_share` signs `message` to: the hashed
    /// message times the share's scalar.
    pub open spec fn signs(
        &self,
        message: Seq<u8>,
        key_share: KeyShare,
        signature: PartialSignature,
    ) -> bool {
        let point = message_point(message, self.scheme_id@);
        let log = (le_value(key_share.private_share@) * g2_log(point)) % modulus();
        &&& is_g2(point)
        &&& signature.party_id == key_share.party_id
        &&& signature.scheme_id@ == self.scheme_id@
        &&& signature.signature@ == g2_point(log)
        &&& g2_log(signature.signature@) == log
    }

    /// The positions of the partial signatures that are combined: the first
    /// `threshold` at which a party number stands for the first time.
    pub open spec fn quorum(&self, partials: Seq<PartialSignature>) -> Seq<usize> {
        let all = first_occurrences(party_ids(partials), partials.len());
        if all.len() >= self.threshold {
            all.take(self.threshold as int)
        } else {
            all
        }
    }

    /// A partial signature that can enter a combination: its party number
    /// is one of the scheme's and its signature decodes.
    pub open spec fn admits(&self, partial: PartialSignature) -> bool {
        1 <= partial.party_id <= self.total_parties && is_g2(partial.signature@)
    }

    /// The error that combining `partials` ends in, if it ends in one.
    pub open spec fn combine_error(&self, partials: Seq<PartialSignature>) -> Option<AttestorError> {
        if !self.wf() {
            Some(AttestorError::InvalidConfig)
        } else if partials.len() < self.threshold {
            Some(AttestorError::ThresholdNotMet)
        } else if exists|i: int|
            0 <= i < partials.len() && (#[trigger] partials[i]).scheme_id@ != self.scheme_id@ {
            Some(AttestorError::SchemeMismatch)
        } else if first_occurrences(party_ids(partials), partials.len()).len() < self.threshold {
            Some(AttestorError::ThresholdNotMet)
        } else if exists|k: int|
            0 <= k < self.threshold && !self.admits(
                partials[(#[trigger] self.quorum(partials)[k]) as int],
            ) {
            Some(AttestorError::CryptoError)
        } else {
            None
        }
    }

    /// `signature` is the combination of `partials`: the Lagrange
    /// interpolation at zero through the chosen parties' signatures, with
    /// the chosen parties as signers.
    pub open spec fn combines(
        &self,
        partials: Seq<PartialSignature>,
        signature: ThresholdSignature,
    ) -> bool {
        let chosen = self.quorum(partials);
        let nodes = quorum_nodes(partials, chosen);
        let log = interpolate(nodes, quorum_logs(partials, chosen), modulus()) % modulus();
        &&& chosen.len() == self.threshold
        &&& nodes_invertible(nodes, modulus())
        &&& signature.scheme_id@ == self.scheme_id@
        &&& signature.signers@ == Seq::new(
            chosen.len(),
            |k: int| partials[chosen[k] as int].party_id,
        )
        &&& signature.signature@ == g2_point(log)
        &&& g2_log(signature.signature@) == log
    }

    /// Whether `signature` is a signature on `message` under `public_key`:
    /// enough signers, and the pairing equation holds.
    pub open spec fn accepts(
        &self,
        message: Seq<u8>,
        signature: ThresholdSignature,
        public_key: ThresholdPublicKey,
    ) -> bool {
        let point = message_point(message, self.scheme_id@);
        &&& signature.signers.len() >= self.threshold
        &&& is_g1(public_key.public_key@)
        &&& is_g2(point)
        &&& is_g2(signature.signature@)
        &&& g2_log(signature.signature@) == (g1_log(public_key.public_key@) * g2_log(point))
            % modulus()
    }

    /// Create a partial signature with a key share.
    pub fn partial_sign(&self, message: &[u8], key_share: &KeyShare) -> (r: Result<
        PartialSignature,
        AttestorError,
    >)
        ensures
            r.is_ok() <==> key_share.scheme_id@ == self.scheme_id@ && is_canonical_scalar(
                key_share.private_share@,
            ),
            r matches Err(e) ==> e == (if key_share.scheme_id@ == self.scheme_id@ {
                AttestorError::CryptoError
            } else {
                AttestorError::SchemeMismatch
            }),
            r matches Ok(signature) ==> self.signs(message@, *key_share, signature),
    {
        if key_share.scheme_id != self.scheme_id {
            return Err(AttestorError::SchemeMismatch);
        }
        let private_scalar = match field_decode(key_share.private_share.as_slice()) {
            Some(s) => s,
            None => {
                return Err(AttestorError::CryptoError);
            },
        };
        let message_hash = self.hash_to_g2(message);
        match g2_scalar_mul(message_hash.as_slice(), &private_scalar) {
            Some(partial_sig) => Ok(
                PartialSignature {
                    party_id: key_share.party_id,
                    signature: partial_sig,
                    scheme_id: self.scheme_id.clone(),
                },
            ),
            None => vstd::pervasive::unreached(),
        }
    }

    /// The first `threshold` positions at which a party number stands for
    /// the first time, or fewer if there are no more.
    fn select_quorum(&self, partial_signatures: &Vec<&PartialSignature>) -> (chosen: Vec<usize>)
        ensures
            chosen@ == self.quorum(borrowed(partial_signatures@)),
            chosen.len() <= self.threshold,
            chosen.len() < self.threshold ==> chosen@ == first_occurrences(
                party_ids(borrowed(partial_signatures@)),
                partial_signatures.len() as nat,
            ),
            forall|k: int| 0 <= k < chosen.len() ==> (#[trigger] chosen[k]) < partial_signatures.len(),
            forall|a: int, b: int|
                0 <= a < chosen.len() && 0 <= b < chosen.len() && a != b
                    ==> partial_signatures[chosen[a] as int].party_id
                    != partial_signatures[chosen[b] as int].party_id,
    {
        let ghost ids = party_ids(borrowed(partial_signatures@));
        let n = partial_signatures.len();
        let mut chosen: Vec<usize> = Vec::new();
        let mut i: usize = 0;
        while i < n && chosen.len() < self.threshold
            invariant
                i <= n,
                n == partial_signatures.len(),
                ids == party_ids(borrowed(partial_signatures@)),
                chosen.len() <= self.threshold,
                chosen@ == first_occurrences(ids, i as nat),
                forall|k: int| 0 <= k < chosen.len() ==> (#[trigger] chosen[k]) < i,
                forall|j: int|
                    0 <= j < i ==> exists|k: int|
                        0 <= k < chosen.len() && ids[chosen[k] as int] == #[trigger] ids[j],
                forall|a: int, b: int|
                    0 <= a < chosen.len() && 0 <= b < chosen.len() && a != b ==> ids[chosen[a] as int]
                        != ids[chosen[b] as int],
            decreases n - i,
        {
            let id = partial_signatures[i].party_id;
            let mut seen = false;
            let mut k: usize = 0;
            while k < chosen.len()
                invariant
                    k <= chosen.len(),
                    i < n,
                    n == partial_signatures.len(),
                    ids == party_ids(borrowed(partial_signatures@)),
                    id == ids[i as int],
                    forall|c: int| 0 <= c < chosen.len() ==> (#[trigger] chosen[c]) < i,
                    seen <==> exists|c: int| 0 <= c < k && ids[chosen[c] as int] == id,
                decreases chosen.len() - k,
            {
                if partial_signatures[chosen[k]].party_id == id {
                    seen = true;
                }
                k += 1;
            }
            proof {
                if seen {
                    let c = choose|c: int| 0 <= c < chosen.len() && ids[chosen[c] as int] == id;
                    assert(ids.take(i as int)[chosen[c] as int] == id);
                } else if ids.take(i as int).contains(id) {
                    let j = choose|j: int| 0 <= j < i && ids.take(i as int)[j] == id;
                    assert(ids[j] == id);
                }
            }
            if !seen {
                let ghost before = chosen@;
                chosen.push(i);
                assert forall|j: int| 0 <= j < i + 1 implies exists|k: int|
                    0 <= k < chosen.len() && ids[chosen[k] as int] == #[trigger] ids[j] by {
                    if j < i {
                        let k = choose|k: int|
                            0 <= k < before.len() && ids[before[k] as int] == ids[j];
                        assert(chosen[k] == before[k]);
                    } else {
                        assert(chosen[chosen.len() - 1] == i);
                    }
                }
            } else {
                assert forall|j: int| 0 <= j < i + 1 implies exists|k: int|
                    0 <= k < chosen.len() && ids[chosen[k] as int] == #[trigger] ids[j] by {
                    if j == i {
                        let c = choose|c: int| 0 <= c < chosen.len() && ids[chosen[c] as int] == id;
                        assert(ids[chosen[c] as int] == ids[j]);
                    }
                }
            }
            i += 1;
        }
        proof {
            lemma_first_occurrences_grow(ids, i as nat, n as nat);
            if chosen.len() < self.threshold {
                assert(i == n);
            }
            let all = first_occurrences(ids, n as nat);
            if chosen.len() == self.threshold {
                assert(all.take(self.threshold as int) =~= chosen@);
            }
        }
        chosen
    }

    /// Combine partial signatures that are held elsewhere into a threshold
    /// signature.
    pub fn combine_borrowed(&self, partial_signatures: &Vec<&PartialSignature>) -> (r: Result<
        ThresholdSignature,
        AttestorError,
    >)
        ensures
            r.is_ok() <==> self.combine_error(borrowed(partial_signatures@)).is_none(),
            r matches Err(e) ==> self.combine_error(borrowed(partial_signatures@)) == Some(e),
            r matches Ok(signature) ==> self.combines(borrowed(partial_signatures@), signature),
    {
        let ghost partials = borrowed(partial_signatures@);
        let ghost m = modulus();
        let n = partial_signatures.len();
        if self.threshold == 0 || self.threshold > self.total_parties {
            return Err(AttestorError::InvalidConfig);
        }
        if n < self.threshold {
            return Err(AttestorError::ThresholdNotMet);
        }
        // Verify all signatures belong to this scheme
        let mut i: usize = 0;
        while i < n
            invariant
                i <= n,
                n == partial_signatures.len(),
                self.wf(),
                n >= self.threshold,
                partials == borrowed(partial_signatures@),
                forall|j: int| 0 <= j < i ==> (#[trigger] partials[j]).scheme_id@ == self.scheme_id@,
            decreases n - i,
        {
            if partial_signatures[i].scheme_id != self.scheme_id {
                assert(partials[i as int].scheme_id@ != self.scheme_id@);
                return Err(AttestorError::SchemeMismatch);
            }
            i += 1;
        }
        let chosen = self.select_quorum(partial_signatures);
        if chosen.len() < self.threshold {
            return Err(AttestorError::ThresholdNotMet);
        }
        assert(chosen.len() == self.threshold);
        let ghost xs = quorum_nodes(partials, chosen@);
        let ghost logs = quorum_logs(partials, chosen@);
        // The signers and their party numbers
        let mut signers: Vec<usize> = Vec::new();
        let mut nodes: Vec<u64> = Vec::new();
        let mut k: usize = 0;
        while k < chosen.len()
            invariant
                k <= chosen.len(),
                chosen@ == self.quorum(partials),
                chosen.len() == self.threshold,
                partials == borrowed(partial_signatures@),
                self.combine_error(partials) != Some(AttestorError::InvalidConfig),
                self.combine_error(partials) != Some(AttestorError::ThresholdNotMet),
                self.combine_error(partials) != Some(AttestorError::SchemeMismatch),
                forall|c: int| 0 <= c < chosen.len() ==> (#[trigger] chosen[c]) < partial_signatures.len(),
                xs == quorum_nodes(partials, chosen@),
                signers.len() == k,
                nodes.len() == k,
                forall|c: int| 0 <= c < k ==> (#[trigger] signers[c]) == partials[chosen[c] as int].party_id,
                forall|c: int| 0 <= c < k ==> (#[trigger] nodes[c]) as int == xs[c],
                forall|c: int|
                    0 <= c < k ==> 1 <= (#[trigger] partials[chosen[c] as int]).party_id
                        <= self.total_parties,
            decreases chosen.len() - k,
        {
            let party_id = partial_signatures[chosen[k]].party_id;
            if party_id == 0 || party_id > self.total_parties {
                assert(!self.admits(partials[self.quorum(partials)[k as int] as int]));
                return Err(AttestorError::CryptoError);
            }
            signers.push(party_id);
            nodes.push(party_id as u64);
            k += 1;
        }
        assert(as_integers(nodes@) =~= xs);
        // Interpolate at zero
        let ghost terms = Seq::new(xs.len(), |c: int| weight(xs, c, m) * logs[c]);
        let mut combined: Vec<u8> = Vec::new();
        let mut k: usize = 0;
        while k < chosen.len()
            invariant
                k <= chosen.len(),
                m == modulus(),
                chosen@ == self.quorum(partials),
                chosen.len() == self.threshold,
                self.threshold >= 1,
                partials == borrowed(partial_signatures@),
                self.combine_error(partials) != Some(AttestorError::InvalidConfig),
                self.combine_error(partials) != Some(AttestorError::ThresholdNotMet),
                self.combine_error(partials) != Some(AttestorError::SchemeMismatch),
                forall|c: int| 0 <= c < chosen.len() ==> (#[trigger] chosen[c]) < partial_signatures.len(),
                forall|a: int, b: int|
                    0 <= a < chosen.len() && 0 <= b < chosen.len() && a != b
                        ==> partial_signatures[chosen[a] as int].party_id
                        != partial_signatures[chosen[b] as int].party_id,
                xs == quorum_nodes(partials, chosen@),
                logs == quorum_logs(partials, chosen@),
                terms == Seq::new(xs.len(), |c: int| weight(xs, c, m) * logs[c]),
                nodes.len() == chosen.len(),
                as_integers(nodes@) == xs,
                signers.len() == chosen.len(),
                forall|c: int|
                    0 <= c < chosen.len() ==> (#[trigger] signers[c]) == partials[chosen[c] as int].party_id,
                forall|c: int|
                    0 <= c < chosen.len() ==> 1 <= (#[trigger] partials[chosen[c] as int]).party_id
                        <= self.total_parties,
                forall|c: int| 0 <= c < k ==> is_g2((#[trigger] partials[chosen[c] as int]).signature@),
                forall|a: int, b: int|
                    0 <= a < k && 0 <= b < xs.len() && a != b ==> #[trigger] has_inverse(
                        xs[b] - xs[a],
                        m,
                    ),
                k > 0 ==> is_g2(combined@) && congruent(g2_log(combined@), sum(terms.take(k as int)), m),
            decreases chosen.len() - k,
        {
            assert forall|a: int, b: int|
                0 <= a < nodes.len() && 0 <= b < nodes.len() && a != b implies nodes[a] != nodes[b] by {
                assert(as_integers(nodes@)[a] == xs[a]);
                assert(as_integers(nodes@)[b] == xs[b]);
            }
            let lambda = lagrange_coefficient(k, &nodes);
            let term = match g2_scalar_mul(partial_signatures[chosen[k]].signature.as_slice(), &lambda) {
                Some(term) => term,
                None => {
                    assert(!self.admits(partials[self.quorum(partials)[k as int] as int]));
                    return Err(AttestorError::CryptoError);
                },
            };
            proof {
                let w = weight(xs, k as int, m);
                assert(logs[k as int] == g2_log(partials[chosen[k as int] as int].signature@));
                lemma_congruent_mul(lambda.value(), w, logs[k as int], m);
                lemma_mod_twice(lambda.value() * logs[k as int], m);
                assert(congruent(g2_log(term@), terms[k as int], m));
                assert(terms.take(k + 1).drop_last() =~= terms.take(k as int));
                assert(sum(terms.take(k + 1)) == sum(terms.take(k as int)) + terms[k as int]);
            }
            if k == 0 {
                proof {
                    assert(sum(terms.take(0)) == 0);
                }
                combined = term;
            } else {
                match g2_add(combined.as_slice(), term.as_slice()) {
                    Some(total) => {
                        proof {
                            lemma_congruent_add(
                                g2_log(combined@),
                                sum(terms.take(k as int)),
                                g2_log(term@),
                                terms[k as int],
                                m,
                            );
                            lemma_mod_twice(g2_log(combined@) + g2_log(term@), m);
                        }
                        combined = total;
                    },
                    None => {
                        combined = vstd::pervasive::unreached();
                    },
                }
            }
            k += 1;
        }
        proof {
            assert(terms.take(chosen.len() as int) =~= terms);
            lemma_small_mod(g2_log(combined@) as nat, m as nat);
            assert(self.combine_error(partials).is_none()) by {
                assert forall|c: int| 0 <= c < self.threshold implies self.admits(
                    partials[(#[trigger] self.quorum(partials)[c]) as int],
                ) by {
                    assert(is_g2(partials[chosen[c] as int].signature@));
                }
            }
            assert(nodes_invertible(xs, m));
            assert(terms =~= Seq::new(xs.len(), |i: int| weight(xs, i, m) * logs[i]));
            assert(interpolate(xs, logs, m) == sum(terms));
            assert(signers@ =~= Seq::new(
                chosen@.len(),
                |k: int| partials[chosen@[k] as int].party_id,
            ));
        }
        Ok(ThresholdSignature { signature: combined, scheme_id: self.scheme_id.clone(), signers })
    }

    /// Combine partial signatures into a threshold signature. Of several
    /// partial signatures of one party the first counts; the first
    /// `threshold` parties found so are the signers.
    pub fn combine_signatures(&self, partial_signatures: &[PartialSignature]) -> (r: Result<
        ThresholdSignature,
        AttestorError,
    >)
        ensures
            r.is_ok() <==> self.combine_error(partial_signatures@).is_none(),
            r matches Err(e) ==> self.combine_error(partial_signatures@) == Some(e),
            r matches Ok(signature) ==> self.combines(partial_signatures@, signature),
    {
        let mut held: Vec<&PartialSignature> = Vec::new();
        let mut i: usize = 0;
        while i < partial_signatures.len()
            invariant
                i <= partial_signatures.len(),
                held.len() == i,
                forall|j: int| 0 <= j < i ==> *(#[trigger] held[j]) == partial_signatures[j],
            decreases partial_signatures.len() - i,
        {
            held.push(&partial_signatures[i]);
            i += 1;
        }
        assert(borrowed(held@) =~= partial_signatures@);
        self.combine_borrowed(&held)
    }

    /// Verify a threshold signature. A signature or key that does not
    /// decode verifies as `false`.
    pub fn verify_signature(
        &self,
        message: &[u8],
        signature: &ThresholdSignature,
        public_key: &ThresholdPublicKey,
    ) -> (r: Result<bool, AttestorError>)
        ensures
            r.is_ok() <==> signature.scheme_id@ == self.scheme_id@ && public_key.scheme_id@
                == self.scheme_id@,
            r matches Err(e) ==> e == AttestorError::SchemeMismatch,
            r matches Ok(valid) ==> valid == self.accepts(message@, *signature, *public_key),
    {
        if signature.scheme_id != self.scheme_id || public_key.scheme_id != self.scheme_id {
            return Err(AttestorError::SchemeMismatch);
        }
        if signature.signers.len() < self.threshold {
            return Ok(false);
        }
        let message_hash = self.hash_to_g2(message);
        Ok(
            pairing_check(
                public_key.public_key.as_slice(),
                message_hash.as_slice(),
                signature.signature.as_slice(),
            ),
        )
    }

    /// Generate distributed key shares using Shamir's Secret Sharing: draws
    /// `threshold` random coefficients and shares the polynomial they make.
    pub fn generate_key_shares(&self) -> (r: Result<(Vec<KeyShare>, ThresholdPublicKey), AttestorError>)
        ensures
            r.is_ok() <==> self.wf(),
            r matches Err(e) ==> e == AttestorError::InvalidConfig,
            r matches Ok((shares, key)) ==> exists|coeffs: Seq<int>|
                self.is_share_set(coeffs, shares@, key),
    {
        if self.threshold == 0 || self.threshold > self.total_parties {
            return Err(AttestorError::InvalidConfig);
        }
        let mut coefficients: Vec<Vec<u8>> = Vec::new();
        while coefficients.len() < self.threshold
            invariant
                coefficients.len() <= self.threshold,
                forall|i: int|
                    0 <= i < coefficients.len() ==> is_canonical_scalar(
                        (#[trigger] coefficients[i])@,
                    ),
            decreases self.threshold - coefficients.len(),
        {
            let c = field_random();
            coefficients.push(slice_to_vec(c.bytes.as_slice()));
        }
        match self.shares_from_coefficients(&coefficients) {
            Ok((shares, key)) => {
                assert(self.is_share_set(coefficient_values(coefficients@), shares@, key));
                Ok((shares, key))
            },
            Err(e) => Err(e),
        }
    }

    /// Shares the polynomial with the given coefficients, lowest degree
    /// first, each in its canonical 32-byte encoding. The first coefficient
    /// is the signing key.
    pub fn shares_from_coefficients(&self, coefficients: &Vec<Vec<u8>>) -> (r: Result<
        (Vec<KeyShare>, ThresholdPublicKey),
        AttestorError,
    >)
        ensures
            r.is_ok() <==> self.wf() && coefficients.len() == self.threshold && forall|i: int|
                0 <= i < coefficients.len() ==> is_canonical_scalar((#[trigger] coefficients[i])@),
            r matches Err(e) ==> e == (if self.wf() && coefficients.len() == self.threshold {
                AttestorError::CryptoError
            } else {
                AttestorError::InvalidConfig
            }),
            r matches Ok((shares, key)) ==> self.is_share_set(
                coefficient_values(coefficients@),
                shares@,
                key,
            ),
    {
        if self.threshold == 0 || self.threshold > self.total_parties || coefficients.len()
            != self.threshold {
            return Err(AttestorError::InvalidConfig);
        }
        let ghost cs = coefficient_values(coefficients@);
        let mut decoded: Vec<FieldElement> = Vec::new();
        let mut k: usize = 0;
        while k < coefficients.len()
            invariant
                self.wf(),
                coefficients.len() == self.threshold,
                k <= coefficients.len(),
                decoded.len() == k,
                cs == coefficient_values(coefficients@),
                forall|i: int|
                    0 <= i < k ==> is_canonical_scalar((#[trigger] coefficients[i])@),
                forall|i: int|
                    0 <= i < k ==> (#[trigger] decoded[i]).wf() && decoded[i].value() == cs[i],
            decreases coefficients.len() - k,
        {
            match field_decode(coefficients[k].as_slice()) {
                Some(c) => {
                    decoded.push(c);
                },
                None => {
                    return Err(AttestorError::CryptoError);
                },
            }
            k += 1;
        }
        assert(field_values(decoded@) =~= cs);
        let mut shares: Vec<KeyShare> = Vec::new();
        let mut party_id: usize = 0;
        while party_id < self.total_parties
            invariant
                party_id <= self.total_parties,
                shares.len() == party_id,
                decoded.len() >= 1,
                forall|i: int| 0 <= i < decoded.len() ==> (#[trigger] decoded[i]).wf(),
                field_values(decoded@) == cs,
                forall|i: int|
                    0 <= i < shares.len() ==> is_key_share(
                        #[trigger] shares[i],
                        self.scheme_id@,
                        cs,
                        i + 1,
                    ),
            decreases self.total_parties - party_id,
        {
            party_id += 1;
            let x = field_from_u64(party_id as u64);
            let share = evaluate_polynomial(&decoded, &x);
            let public_share = g1_generator_mul(&share);
            shares.push(
                KeyShare {
                    party_id,
                    private_share: slice_to_vec(share.bytes.as_slice()),
                    public_share,
                    scheme_id: self.scheme_id.clone(),
                },
            );
        }
        let master_public = g1_generator_mul(&decoded[0]);
        let key = ThresholdPublicKey {
            public_key: master_public,
            scheme_id: self.scheme_id.clone(),
            threshold: self.threshold,
            total_parties: self.total_parties,
        };
        Ok((shares, key))
    }
}

/// Every first occurrence among the first `n` entries is a position
/// below `n`, and no party number is found twice.
pub proof fn lemma_first_occurrences_distinct(ids: Seq<usize>, n: nat)
    requires
        n <= ids.len() <= usize::MAX,
    ensures
        forall|k: int|
            0 <= k < first_occurrences(ids, n).len() ==> (#[trigger] first_occurrences(ids, n)[k])
                < n,
        forall|a: int, b: int|
            0 <= a < b < first_occurrences(ids, n).len() ==> ids[first_occurrences(ids, n)[a] as int]
                != ids[first_occurrences(ids, n)[b] as int],
    decreases n,
{
    if n > 0 {
        lemma_first_occurrences_distinct(ids, (n - 1) as nat);
        let earlier = first_occurrences(ids, (n - 1) as nat);
        let found = first_occurrences(ids, n);
        if !ids.take(n - 1).contains(ids[n - 1]) {
            assert forall|a: int, b: int| 0 <= a < b < found.len() implies ids[found[a] as int]
                != ids[found[b] as int] by {
                if b == found.len() - 1 {
                    let prefix = ids.take(n - 1);
                    assert(prefix[found[a] as int] == ids[found[a] as int]);
                }
            }
        }
    }
}

/// Where no party number stands twice, every position is a first
/// occurrence.
pub proof fn lemma_first_occurrences_all(ids: Seq<usize>, n: nat)
    requires
        n <= ids.len() <= usize::MAX,
        forall|a: int, b: int| 0 <= a < b < ids.len() ==> ids[a] != ids[b],
    ensures
        first_occurrences(ids, n) == Seq::new(n, |i: int| i as usize),
    decreases n,
{
    if n > 0 {
        lemma_first_occurrences_all(ids, (n - 1) as nat);
        let prefix = ids.take(n - 1);
        if prefix.contains(ids[n - 1]) {
            let j = choose|j: int| 0 <= j < prefix.len() && prefix[j] == ids[n - 1];
            assert(ids[j] == ids[n - 1]);
        }
        assert(first_occurrences(ids, n) =~= Seq::new(n, |i: int| i as usize));
    } else {
        assert(first_occurrences(ids, n) =~= Seq::new(n, |i: int| i as usize));
    }
}

/// Partial signatures of at least `threshold` different shares of one
/// share set, on one message, can be combined.
pub proof fn lemma_quorum_can_combine(
    scheme: ThresholdScheme,
    coeffs: Seq<int>,
    shares: Seq<KeyShare>,
    key: ThresholdPublicKey,
    message: Seq<u8>,
    partials: Seq<PartialSignature>,
)
    requires
        scheme.wf(),
        scheme.is_share_set(coeffs, shares, key),
        partials.len() >= scheme.threshold,
        partials.len() <= usize::MAX,
        forall|i: int|
            0 <= i < partials.len() ==> exists|j: int|
                0 <= j < shares.len() && scheme.signs(message, shares[j], #[trigger] partials[i]),
        forall|a: int, b: int|
            0 <= a < b < partials.len() ==> partials[a].party_id != partials[b].party_id,
    ensures
        scheme.combine_error(partials).is_none(),
{
    let ids = party_ids(partials);
    let n = partials.len();
    lemma_first_occurrences_all(ids, n);
    let chosen = scheme.quorum(partials);
    assert forall|i: int| 0 <= i < partials.len() implies (#[trigger] partials[i]).scheme_id@
        == scheme.scheme_id@ && scheme.admits(partials[i]) by {
        let j = choose|j: int| 0 <= j < shares.len() && scheme.signs(message, shares[j], partials[i]);
        assert(is_key_share(shares[j], scheme.scheme_id@, coeffs, j + 1));
        lemma_mod_bound(
            le_value(shares[j].private_share@) * g2_log(message_point(message, scheme.scheme_id@)),
            modulus(),
        );
    }
    assert forall|k: int| 0 <= k < scheme.threshold implies scheme.admits(
        partials[(#[trigger] chosen[k]) as int],
    ) by {
        assert(chosen[k] == k);
    }
}

/// A combination of partial signatures that shares of one share set made
/// on one message verifies under the set's public key, whichever parties
/// the combination chose.
pub proof fn lemma_quorum_signature_verifies(
    scheme: ThresholdScheme,
    coeffs: Seq<int>,
    shares: Seq<KeyShare>,
    key: ThresholdPublicKey,
    message: Seq<u8>,
    partials: Seq<PartialSignature>,
    signature: ThresholdSignature,
)
    requires
        scheme.wf(),
        scheme.is_share_set(coeffs, shares, key),
        forall|i: int|
            0 <= i < partials.len() ==> exists|j: int|
                0 <= j < shares.len() && scheme.signs(message, shares[j], #[trigger] partials[i]),
        partials.len() <= usize::MAX,
        scheme.combine_error(partials).is_none(),
        scheme.combines(partials, signature),
    ensures
        scheme.accepts(message, signature, key),
        g2_log(signature.signature@) == (coeffs[0] * g2_log(
            message_point(message, scheme.scheme_id@),
        )) % modulus(),
{
    let m = modulus();
    let ids = party_ids(partials);
    let chosen = scheme.quorum(partials);
    let xs = quorum_nodes(partials, chosen);
    let logs = quorum_logs(partials, chosen);
    let h = g2_log(message_point(message, scheme.scheme_id@));
    lemma_first_occurrences_distinct(ids, partials.len());
    assert forall|k: int| 0 <= k < xs.len() implies congruent(
        #[trigger] logs[k],
        poly_eval(coeffs, xs[k]) * h,
        m,
    ) by {
        let p = partials[chosen[k] as int];
        let j = choose|j: int| 0 <= j < shares.len() && scheme.signs(message, shares[j], p);
        assert(is_key_share(shares[j], scheme.scheme_id@, coeffs, j + 1));
        let s = le_value(shares[j].private_share@) as int;
        assert(xs[k] == j + 1);
        assert(logs[k] == (s * h) % m);
        lemma_mod_twice(s * h, m);
        lemma_mul_mod_noop_left(poly_eval(coeffs, xs[k]), h, m);
    }
    lemma_combination_recovers(xs, logs, coeffs, h, m);
    lemma_mod_twice(interpolate(xs, logs, m), m);
    lemma_mod_bound(interpolate(xs, logs, m), m);
    let first = partials[chosen[0] as int];
    let j0 = choose|j: int| 0 <= j < shares.len() && scheme.signs(message, shares[j], first);
    assert(scheme.signs(message, shares[j0], first));
}

/// Two quorums drawn from one share set sign one message to the same
/// signature, and that signature verifies.
pub proof fn lemma_quorum_independence(
    scheme: ThresholdScheme,
    coeffs: Seq<int>,
    shares: Seq<KeyShare>,
    key: ThresholdPublicKey,
    message: Seq<u8>,
    first: Seq<PartialSignature>,
    second: Seq<PartialSignature>,
    first_signature: ThresholdSignature,
    second_signature: ThresholdSignature,
)
    requires
        scheme.wf(),
        scheme.is_share_set(coeffs, shares, key),
        forall|i: int|
            0 <= i < first.len() ==> exists|j: int|
                0 <= j < shares.len() && scheme.signs(message, shares[j], #[trigger] first[i]),
        forall|i: int|
            0 <= i < second.len() ==> exists|j: int|
                0 <= j < shares.len() && scheme.signs(message, shares[j], #[trigger] second[i]),
        first.len() <= usize::MAX,
        second.len() <= usize::MAX,
        scheme.combine_error(first).is_none(),
        scheme.combine_error(second).is_none(),
        scheme.combines(first, first_signature),
        scheme.combines(second, second_signature),
    ensures
        scheme.accepts(message, first_signature, key),
        scheme.accepts(message, second_signature, key),
        first_signature.signature@ == second_signature.signature@,
{
    lemma_quorum_signature_verifies(scheme, coeffs, shares, key, message, first, first_signature);
    lemma_quorum_signature_verifies(scheme, coeffs, shares, key, message, second, second_signature);
}

/// Fewer partial signatures than the threshold never combine.
pub proof fn lemma_too_few_signatures(scheme: ThresholdScheme, partials: Seq<PartialSignature>)
    requires
        scheme.wf(),
        partials.len() < scheme.threshold,
    ensures
        scheme.combine_error(partials) == Some(AttestorError::ThresholdNotMet),
{
}

/// A partial signature of another scheme among enough of them makes the
/// combination fail as a mismatch.
pub proof fn lemma_foreign_signature_rejected(
    scheme: ThresholdScheme,
    partials: Seq<PartialSignature>,
    i: int,
)
    requires
        scheme.wf(),
        partials.len() >= scheme.threshold,
        0 <= i < partials.len(),
        partials[i].scheme_id@ != scheme.scheme_id@,
    ensures
        scheme.combine_error(partials) == Some(AttestorError::SchemeMismatch),
{
}

} // verus!
