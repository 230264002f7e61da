//! Proof verification: the prepared verifying key, read afresh from its
//! bytes for each request, the proof, and the public inputs in the order in
//! which the circuit declares them.
//!
//! A prepared key is the verifying key, one element of the target field and
//! two prepared points of the second group, each a run of line coefficients
//! and a flag. Its layout is walked before the curve library decodes it, and
//! a key whose prepared points have too few coefficients is turned away.

use crate::errors::ServiceError;
use crate::field::FieldElement;
use crate::keystore::{
    frame_verifying_key, key_store_contents, proving_key_points, read_arkzkey_no_print, read_run,
    run_at, section_limit, verifying_key_end, ProvingKey,
};
use crate::prover::{proof_points, values_of, Proof};
use ark_ff::PrimeField;
use ark_serialize::{CanonicalDeserialize, CanonicalSerialize, Valid};
use ark_snark::SNARK;
use vstd::prelude::*;

verus! {

/// The width in bytes of an element of the target field.
pub const TARGET_BYTES: usize = 384;

/// The width in bytes of the coefficients of one line.
pub const LINE_BYTES: usize = 192;

/// The number of line coefficients that the pairing takes from a prepared
/// point of the second group: one for each of the 64 doublings of the loop
/// over the curve's parameter, one for each of its 21 additions, and two at
/// the end.
pub const LINES_PER_POINT: usize = 87;

/// The length of the prepared key at the start of a byte string: a
/// verifying key, an element of the target field, and two prepared points,
/// each a run of line coefficients and one byte.
pub open spec fn prepared_key_frame(bytes: Seq<u8>) -> Option<int> {
    match verifying_key_end(bytes, 0) {
        Some(after_vk) => match run_at(bytes, after_vk + 384, 192) {
            Some((_, after_gamma)) => match run_at(bytes, after_gamma + 1, 192) {
                Some((_, after_delta)) => if after_delta + 1 <= bytes.len() {
                    Some(after_delta + 1)
                } else {
                    None
                },
                None => None,
            },
            None => None,
        },
        None => None,
    }
}

/// Walks over the prepared key at the start of a byte string, and says how
/// long it is.
pub fn frame_prepared_key(bytes: &[u8]) -> (out: Option<usize>)
    ensures
        match out {
            Some(after) => prepared_key_frame(bytes@) == Some(after as int) && after
                <= bytes@.len(),
            None => prepared_key_frame(bytes@) is None,
        },
{
    let size = bytes.len();
    let after_vk = match frame_verifying_key(bytes, 0) {
        Some(after) => after,
        None => {
            return None;
        },
    };
    if size - after_vk < TARGET_BYTES {
        return None;
    }
    let after_gamma = match read_run(bytes, after_vk + TARGET_BYTES, LINE_BYTES) {
        Some((_, after)) => after,
        None => {
            return None;
        },
    };
    if size - after_gamma < 1 {
        return None;
    }
    let after_delta = match read_run(bytes, after_gamma + 1, LINE_BYTES) {
        Some((_, after)) => after,
        None => {
            return None;
        },
    };
    if size - after_delta < 1 {
        return None;
    }
    Some(after_delta + 1)
}

/// A prepared Groth16 verifying key over BN254, as the curve library holds it.
#[verifier::external_body]
pub struct DecodedKey {
    pub(crate) inner: ark_groth16::PreparedVerifyingKey<ark_bn254::Bn254>,
}

/// What a prepared key holds besides its points: the number of points for
/// the public variables, and of each prepared point the number of line
/// coefficients and whether it is flagged as the point at infinity.
#[derive(Clone, Copy, Debug, PartialEq, Eq)]
pub struct PreparedShape {
    /// The points of the verifying key that stand for the public variables.
    pub inputs: usize,
    /// The line coefficients of the prepared point for gamma.
    pub gamma_lines: usize,
    /// Whether the prepared point for gamma is flagged as the point at infinity.
    pub gamma_infinity: bool,
    /// The line coefficients of the prepared point for delta.
    pub delta_lines: usize,
    /// Whether the prepared point for delta is flagged as the point at infinity.
    pub delta_infinity: bool,
}

impl PreparedShape {
    /// Each prepared point has the coefficients that the pairing takes from
    /// it, or is flagged as the point at infinity, which the pairing skips.
    pub open spec fn lines_complete(self) -> bool {
        &&& self.gamma_infinity || self.gamma_lines >= LINES_PER_POINT
        &&& self.delta_infinity || self.delta_lines >= LINES_PER_POINT
    }
}

/// What a prepared key holds: its points, its element of the target field
/// and its line coefficients, byte by byte.
pub uninterp spec fn prepared_key_points(key: DecodedKey) -> Seq<u8>;

/// What the prepared key holds that the curve library decodes from a byte
/// string, where it decodes one.
pub uninterp spec fn decoded_prepared_key(bytes: Seq<u8>) -> Option<Seq<u8>>;

/// The numbers and the flags of a prepared key, given by what it holds.
pub uninterp spec fn prepared_key_shape(points: Seq<u8>) -> PreparedShape;

/// The points of the proof that the curve library decodes from a byte
/// string and finds valid, where it does.
pub uninterp spec fn decoded_proof(bytes: Seq<u8>) -> Option<Seq<u8>>;

/// What the curve library's verification says of a prepared key, public
/// inputs and a proof, the key and the proof given by what they hold:
/// whether the proof holds, or nothing where the verification cannot be
/// carried out.
pub uninterp spec fn groth16_verdict(key: Seq<u8>, public: Seq<nat>, proof: Seq<u8>) -> Option<
    bool,
>;

/// Whether the points of the verifying key inside a proving key, the key
/// given by its points, lie on their curves and in the right subgroups.
pub uninterp spec fn verifying_points_valid(key: Seq<u8>) -> bool;

/// What the prepared key holds that the curve library derives from a
/// proving key, the key given by its points, where it derives one.
pub uninterp spec fn prepared_from(key: Seq<u8>) -> Option<Seq<u8>>;

/// The compressed encoding of a prepared key, the key given by what it
/// holds, where the curve library gives one.
pub uninterp spec fn prepared_key_encoding(points: Seq<u8>) -> Option<Seq<u8>>;

/// Calls `PreparedVerifyingKey::<Bn254>::deserialize_compressed_unchecked`
/// of `ark_serialize::CanonicalDeserialize`. The outcome is a function of
/// the bytes alone, which `decoded_prepared_key` names. The call reserves
/// room for as many items as a run claims to have, so the bytes must have
/// been walked and be no longer than the limit.
#[verifier::external_body]
fn decode_prepared_key(bytes: &[u8]) -> (out: Result<DecodedKey, ark_serialize::SerializationError>)
    requires
        prepared_key_frame(bytes@) is Some,
        bytes@.len() <= section_limit(),
    ensures
        match out {
            Ok(key) => decoded_prepared_key(bytes@) == Some(prepared_key_points(key)),
            Err(_) => decoded_prepared_key(bytes@) is None,
        },
{
    ark_groth16::PreparedVerifyingKey::<ark_bn254::Bn254>::deserialize_compressed_unchecked(
        bytes,
    ).map(|inner| DecodedKey { inner })
}

/// Reads the lengths and the flags of an `ark_groth16::PreparedVerifyingKey`,
/// which `prepared_key_shape` names.
#[verifier::external_body]
fn shape_of_prepared_key(key: &DecodedKey) -> (out: PreparedShape)
    ensures
        out == prepared_key_shape(prepared_key_points(*key)),
{
    PreparedShape {
        inputs: key.inner.vk.gamma_abc_g1.len(),
        gamma_lines: key.inner.gamma_g2_neg_pc.ell_coeffs.len(),
        gamma_infinity: key.inner.gamma_g2_neg_pc.infinity,
        delta_lines: key.inner.delta_g2_neg_pc.ell_coeffs.len(),
        delta_infinity: key.inner.delta_g2_neg_pc.infinity,
    }
}

/// Calls `Proof::<Bn254>::deserialize_compressed` of
/// `ark_serialize::CanonicalDeserialize`, which also checks the points of
/// the proof. The outcome is a function of the bytes alone, which
/// `decoded_proof` names.
#[verifier::external_body]
fn decode_proof(bytes: &[u8]) -> (out: Result<Proof, ark_serialize::SerializationError>)
    ensures
        match out {
            Ok(proof) => decoded_proof(bytes@) == Some(proof_points(proof)),
            Err(_) => decoded_proof(bytes@) is None,
        },
{
    ark_groth16::Proof::<ark_bn254::Bn254>::deserialize_compressed(bytes).map(
        |inner| Proof { inner },
    )
}

/// Calls `Groth16::<Bn254>::verify_with_processed_vk` of `ark_snark::SNARK`.
/// The outcome is a function of the arguments alone, which
/// `groth16_verdict` names. The call fails where the number of public inputs
/// is not one less than the number of the key's input points. It takes 87
/// line coefficients from each prepared point that is not flagged as the
/// point at infinity, so the key must hold them.
#[verifier::external_body]
fn groth16_verify(key: &DecodedKey, public: &Vec<FieldElement>, proof: &Proof) -> (out: Result<
    bool,
    ark_relations::r1cs::SynthesisError,
>)
    requires
        prepared_key_shape(prepared_key_points(*key)).lines_complete(),
    ensures
        match out {
            Ok(holds) => groth16_verdict(
                prepared_key_points(*key),
                values_of(public@),
                proof_points(*proof),
            ) == Some(holds),
            Err(_) => groth16_verdict(
                prepared_key_points(*key),
                values_of(public@),
                proof_points(*proof),
            ) is None,
        },
        public@.len() + 1 != prepared_key_shape(prepared_key_points(*key)).inputs ==> out is Err,
{
    let inputs: Vec<ark_bn254::Fr> = public.iter().map(
        |e| ark_bn254::Fr::from_bigint(ark_ff::BigInt(e.limbs())).unwrap(),
    ).collect();
    ark_groth16::Groth16::<ark_bn254::Bn254>::verify_with_processed_vk(
        &key.inner,
        &inputs,
        &proof.inner,
    )
}

/// Calls `check` of `ark_serialize::Valid` on the verifying key inside a
/// proving key: whether each of its points lies on its curve and in the
/// right subgroup, which `verifying_points_valid` names.
#[verifier::external_body]
fn check_verifying_points(key: &ProvingKey) -> (out: bool)
    ensures
        out == verifying_points_valid(proving_key_points(*key)),
{
    key.inner.vk.check().is_ok()
}

/// Calls `Groth16::<Bn254>::process_vk` of `ark_snark::SNARK` on the
/// verifying key inside a proving key. The outcome is a function of the key
/// alone, which `prepared_from` names. The call computes a pairing, which
/// is defined for points that passed their check.
#[verifier::external_body]
fn prepare_key(key: &ProvingKey) -> (out: Result<DecodedKey, ark_relations::r1cs::SynthesisError>)
    requires
        verifying_points_valid(proving_key_points(*key)),
    ensures
        match out {
            Ok(prepared) => prepared_from(proving_key_points(*key)) == Some(
                prepared_key_points(prepared),
            ),
            Err(_) => prepared_from(proving_key_points(*key)) is None,
        },
{
    ark_groth16::Groth16::<ark_bn254::Bn254>::process_vk(&key.inner.vk).map(
        |inner| DecodedKey { inner },
    )
}

/// Calls `serialize_compressed` of `ark_serialize::CanonicalSerialize` on a
/// prepared key, into a fresh vector. The bytes are a function of the key
/// alone, which `prepared_key_encoding` names.
#[verifier::external_body]
fn encode_prepared_key(key: &DecodedKey) -> (out: Result<
    Vec<u8>,
    ark_serialize::SerializationError,
>)
    ensures
        match out {
            Ok(bytes) => prepared_key_encoding(prepared_key_points(*key)) == Some(bytes@),
            Err(_) => prepared_key_encoding(prepared_key_points(*key)) is None,
        },
{
    let mut bytes = Vec::new();
    key.inner.serialize_compressed(&mut bytes).map(|_| bytes)
}

/// A prepared verifying key that the pairing can be computed with.
pub struct PreparedVerifyingKey {
    key: DecodedKey,
}

impl PreparedVerifyingKey {
    #[verifier::type_invariant]
    spec fn usable(self) -> bool {
        prepared_key_shape(prepared_key_points(self.key)).lines_complete()
    }

    /// What the key holds.
    pub closed spec fn spec_key(&self) -> Seq<u8> {
        prepared_key_points(self.key)
    }

    /// Accepts a decoded key whose prepared points have their coefficients.
    fn new(key: DecodedKey) -> (out: Option<PreparedVerifyingKey>)
        ensures
            out is Some <==> prepared_key_shape(prepared_key_points(key)).lines_complete(),
            out matches Some(accepted) ==> accepted.spec_key() == prepared_key_points(key),
    {
        let shape = shape_of_prepared_key(&key);
        if (shape.gamma_infinity || shape.gamma_lines >= LINES_PER_POINT) && (shape.delta_infinity
            || shape.delta_lines >= LINES_PER_POINT) {
            Some(PreparedVerifyingKey { key })
        } else {
            None
        }
    }

    /// The number of public inputs that the key verifies proofs against: one
    /// less than the number of its input points, the first of which stands
    /// for the constant one. A key without input points verifies nothing.
    pub fn public_inputs(&self) -> (out: Option<usize>)
        ensures
            match out {
                Some(count) => count + 1 == prepared_key_shape(self.spec_key()).inputs,
                None => prepared_key_shape(self.spec_key()).inputs == 0,
            },
    {
        let shape = shape_of_prepared_key(&self.key);
        if shape.inputs == 0 {
            None
        } else {
            Some(shape.inputs - 1)
        }
    }
}

/// The number of input points of the prepared key that a byte string holds,
/// where it holds one.
pub open spec fn input_points_of(key_bytes: Seq<u8>) -> Option<nat> {
    match prepared_key_contents(key_bytes) {
        Ok(key) => Some(prepared_key_shape(key).inputs as nat),
        Err(_) => None,
    }
}

/// The prepared key that a byte string holds, or the reason why it holds
/// none: `Deserialization` where the bytes are cut short or cannot be
/// decoded, `FormatMismatch` where a prepared point lacks coefficients.
pub open spec fn prepared_key_contents(bytes: Seq<u8>) -> Result<Seq<u8>, ServiceError> {
    if bytes.len() > section_limit() || prepared_key_frame(bytes) is None {
        Err(ServiceError::Deserialization)
    } else {
        match decoded_prepared_key(bytes) {
            None => Err(ServiceError::Deserialization),
            Some(key) => if prepared_key_shape(key).lines_complete() {
                Ok(key)
            } else {
                Err(ServiceError::FormatMismatch)
            },
        }
    }
}

/// Reads a prepared verifying key from its bytes.
pub fn load_pvk(bytes: &[u8]) -> (out: Result<PreparedVerifyingKey, ServiceError>)
    ensures
        match out {
            Ok(key) => prepared_key_contents(bytes@) == Ok::<Seq<u8>, ServiceError>(
                key.spec_key(),
            ),
            Err(reason) => prepared_key_contents(bytes@) == Err::<Seq<u8>, ServiceError>(reason),
        },
{
    if bytes.len() > usize::MAX / 8 {
        return Err(ServiceError::Deserialization);
    }
    if frame_prepared_key(bytes).is_none() {
        return Err(ServiceError::Deserialization);
    }
    let key = match decode_prepared_key(bytes) {
        Ok(key) => key,
        Err(_) => {
            return Err(ServiceError::Deserialization);
        },
    };
    match PreparedVerifyingKey::new(key) {
        Some(accepted) => Ok(accepted),
        None => Err(ServiceError::FormatMismatch),
    }
}

/// Reads a proof from its bytes: `ProofDecode` where they are no proof.
pub fn read_proof(bytes: &[u8]) -> (out: Result<Proof, ServiceError>)
    ensures
        match out {
            Ok(proof) => decoded_proof(bytes@) == Some(proof_points(proof)),
            Err(reason) => decoded_proof(bytes@) is None && reason == ServiceError::ProofDecode,
        },
{
    match decode_proof(bytes) {
        Ok(proof) => Ok(proof),
        Err(_) => Err(ServiceError::ProofDecode),
    }
}

/// What the verification of a proof against a key and public inputs comes
/// to: whether the proof holds, or `VerificationComputation` where the
/// verification cannot be carried out.
pub open spec fn checked_verdict(key: Seq<u8>, public: Seq<nat>, proof: Seq<u8>) -> Result<
    bool,
    ServiceError,
> {
    match groth16_verdict(key, public, proof) {
        Some(holds) => Ok(holds),
        None => Err(ServiceError::VerificationComputation),
    }
}

/// Verifies a proof, and tells a proof that does not hold from a
/// verification that cannot be carried out. Of the second kind is every
/// call in which the key does not have exactly one input point more than
/// there are public inputs; a key without input points verifies nothing.
pub fn check_proof(key: &PreparedVerifyingKey, public: &Vec<FieldElement>, proof: &Proof) -> (out:
    Result<bool, ServiceError>)
    ensures
        out == checked_verdict(key.spec_key(), values_of(public@), proof_points(*proof)),
        public@.len() + 1 != prepared_key_shape(key.spec_key()).inputs ==> out == Err::<
            bool,
            ServiceError,
        >(ServiceError::VerificationComputation),
{
    proof {
        use_type_invariant(key);
    }
    match groth16_verify(&key.key, public, proof) {
        Ok(holds) => Ok(holds),
        Err(_) => Err(ServiceError::VerificationComputation),
    }
}

/// Whether a proof holds for a key and public inputs. A verification that
/// cannot be carried out counts as a proof that does not hold; so does
/// every call in which the key does not have exactly one input point more
/// than there are public inputs.
pub fn verify_proof(key: &PreparedVerifyingKey, public: &Vec<FieldElement>, proof: &Proof) -> (out:
    bool)
    ensures
        out == (groth16_verdict(key.spec_key(), values_of(public@), proof_points(*proof)) == Some(
            true,
        )),
        public@.len() + 1 != prepared_key_shape(key.spec_key()).inputs ==> !out,
{
    match check_proof(key, public, proof) {
        Ok(holds) => holds,
        Err(_) => false,
    }
}

/// What a verification request comes to: the failure of reading the key; or
/// `ProofDecode` where the proof's bytes are no proof; or whether the proof
/// holds, a verification that cannot be carried out counting as a proof
/// that does not.
pub open spec fn verification_outcome(
    key_bytes: Seq<u8>,
    proof_bytes: Seq<u8>,
    public: Seq<nat>,
) -> Result<bool, ServiceError> {
    match prepared_key_contents(key_bytes) {
        Err(reason) => Err(reason),
        Ok(key) => match decoded_proof(proof_bytes) {
            None => Err(ServiceError::ProofDecode),
            Some(proof) => Ok(groth16_verdict(key, public, proof) == Some(true)),
        },
    }
}

/// Verifies the proof in `proof_bytes` against the prepared key in
/// `key_bytes` and the public inputs. No proof holds where the key does not
/// have exactly one input point more than there are public inputs.
pub fn verify(key_bytes: &[u8], proof_bytes: &[u8], public: &Vec<FieldElement>) -> (out: Result<
    bool,
    ServiceError,
>)
    ensures
        out == verification_outcome(key_bytes@, proof_bytes@, values_of(public@)),
        input_points_of(key_bytes@) matches Some(points) ==> (public@.len() + 1 != points ==> out
            != Ok::<bool, ServiceError>(true)),
{
    let key = match load_pvk(key_bytes) {
        Ok(key) => key,
        Err(reason) => {
            return Err(reason);
        },
    };
    let proof = match read_proof(proof_bytes) {
        Ok(proof) => proof,
        Err(reason) => {
            return Err(reason);
        },
    };
    Ok(verify_proof(&key, public, &proof))
}

/// The bytes of the prepared verifying key of a key store, or the reason
/// why there are none: the failure of reading the key store;
/// `FormatMismatch` where a point of the verifying key fails its check;
/// `VerificationComputation` where the curve library derives or encodes no
/// prepared key.
pub open spec fn extraction_outcome(bytes: Seq<u8>) -> Result<Seq<u8>, ServiceError> {
    match key_store_contents(bytes) {
        Err(reason) => Err(reason),
        Ok((key, _)) => if !verifying_points_valid(key) {
            Err(ServiceError::FormatMismatch)
        } else {
            match prepared_from(key) {
                None => Err(ServiceError::VerificationComputation),
                Some(prepared) => match prepared_key_encoding(prepared) {
                    None => Err(ServiceError::VerificationComputation),
                    Some(encoding) => Ok(encoding),
                },
            }
        },
    }
}

/// Derives the prepared verifying key of a key store and encodes it.
pub fn extract_pvk(bytes: &[u8]) -> (out: Result<Vec<u8>, ServiceError>)
    ensures
        match out {
            Ok(encoding) => extraction_outcome(bytes@) == Ok::<Seq<u8>, ServiceError>(encoding@),
            Err(reason) => extraction_outcome(bytes@) == Err::<Seq<u8>, ServiceError>(reason),
        },
{
    let bundle = match read_arkzkey_no_print(bytes) {
        Ok(bundle) => bundle,
        Err(reason) => {
            return Err(reason);
        },
    };
    let key = bundle.key();
    if !check_verifying_points(key) {
        return Err(ServiceError::FormatMismatch);
    }
    let prepared = match prepare_key(key) {
        Ok(prepared) => prepared,
        Err(_) => {
            return Err(ServiceError::VerificationComputation);
        },
    };
    match encode_prepared_key(&prepared) {
        Ok(encoding) => Ok(encoding),
        Err(_) => Err(ServiceError::VerificationComputation),
    }
}

} // verus!
