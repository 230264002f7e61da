//! Proof construction: from a key bundle, the full assignment of the
//! circuit's variables and two blinding scalars to the bytes of a proof.
//!
//! The blinding scalars are an argument of [`gen_proof_with_blinding`], so
//! that a caller can bring its own source of randomness. [`gen_proof`]
//! draws them from a generator that is started afresh, for each proof, from
//! the randomness of the operating system.

use crate::errors::ServiceError;
use crate::field::{modulus, FieldElement};
use crate::keystore::{
    belong_together, prover_matrices_model, proving_key_points, proving_key_shape,
    ProverMatrices, ProvingKey, ProvingKeyBundle,
};
use crate::matrices::{columns_below, MatricesModel};
use ark_bn254::{Bn254, Fr};
use ark_circom::CircomReduction;
use ark_ff::PrimeField;
use ark_serialize::CanonicalSerialize;
use ark_std::rand::rngs::{OsRng, StdRng};
use ark_std::rand::{RngCore, SeedableRng};
use ark_std::UniformRand;
use vstd::prelude::*;

verus! {

/// The number of bytes of an encoded proof.
pub const PROOF_BYTES: usize = 128;

/// A Groth16 proof over BN254, as the curve library holds it.
#[verifier::external_body]
pub struct Proof {
    pub(crate) inner: ark_groth16::Proof<ark_bn254::Bn254>,
}

#[verifier::external_type_specification]
#[verifier::external_body]
pub struct ExSynthesisError(ark_relations::r1cs::SynthesisError);

/// The values of an assignment as numbers.
pub open spec fn values_of(assignment: Seq<FieldElement>) -> Seq<nat> {
    assignment.map_values(|e: FieldElement| e@)
}

/// What a proof holds: its three points, byte by byte.
pub uninterp spec fn proof_points(proof: Proof) -> Seq<u8>;

/// The points of the proof that the curve library builds from the points
/// of a key, the matrices, the full assignment and two blinding scalars,
/// where it builds one.
pub uninterp spec fn groth16_proof(
    key: Seq<u8>,
    matrices: MatricesModel,
    assignment: Seq<nat>,
    r: nat,
    s: nat,
) -> Option<Seq<u8>>;

/// The compressed encoding of a proof with given points, where the curve
/// library gives one.
pub uninterp spec fn proof_encoding(points: Seq<u8>) -> Option<Seq<u8>>;

/// Whether an assignment can be handed to the prover with given matrices:
/// it holds the public variables, and every entry of A and of B stands in a
/// column that it has a value for.
pub open spec fn assignment_fits(matrices: MatricesModel, length: nat) -> bool {
    &&& matrices.num_instance_variables <= length
    &&& columns_below(matrices.a, length)
    &&& columns_below(matrices.b, length)
}

/// The number of public inputs that an assignment of a given length
/// implies for a key: the values that are left when the constant one and
/// the private variables that the key has points for are taken away.
pub open spec fn implied_public_inputs(key: Seq<u8>, length: nat) -> int {
    length - proving_key_shape(key).l_query - 1
}

/// Whether an assignment of a given length suits a bundle: it has one value
/// for each variable that the key has points for, no more and no fewer, and
/// it fits the matrices.
pub open spec fn assignment_suits(bundle: ProvingKeyBundle, length: nat) -> bool {
    &&& length == proving_key_shape(bundle.spec_key()).a_query
    &&& assignment_fits(bundle.spec_matrices(), length)
}

/// Calls `Groth16::<Bn254, CircomReduction>::create_proof_with_reduction_and_matrices`.
/// The proof is a function of the arguments alone, which `groth16_proof`
/// names. The call takes the first point of three runs of the key, slices
/// the assignment at the number of public variables, indexes it by the
/// columns of A and B, and adds that number to the number of constraints:
/// the clauses of `requires` keep each of these in bounds.
#[verifier::external_body]
fn create_proof(
    key: &ProvingKey,
    matrices: &ProverMatrices,
    assignment: &Vec<FieldElement>,
    r: &FieldElement,
    s: &FieldElement,
) -> (out: Result<Proof, ark_relations::r1cs::SynthesisError>)
    requires
        belong_together(
            proving_key_shape(proving_key_points(*key)),
            prover_matrices_model(*matrices),
        ),
        assignment_fits(prover_matrices_model(*matrices), assignment@.len()),
    ensures
        match out {
            Ok(proof) => groth16_proof(
                proving_key_points(*key),
                prover_matrices_model(*matrices),
                values_of(assignment@),
                r@,
                s@,
            ) == Some(proof_points(proof)),
            Err(_) => groth16_proof(
                proving_key_points(*key),
                prover_matrices_model(*matrices),
                values_of(assignment@),
                r@,
                s@,
            ) is None,
        },
{
    let fr = |e: &FieldElement| Fr::from_bigint(ark_ff::BigInt(e.limbs())).unwrap();
    let witness: Vec<Fr> = assignment.iter().map(fr).collect();
    ark_groth16::Groth16::<Bn254, CircomReduction>::create_proof_with_reduction_and_matrices(
        &key.inner,
        fr(r),
        fr(s),
        &matrices.inner,
        matrices.inner.num_instance_variables,
        matrices.inner.num_constraints,
        &witness,
    ).map(|inner| Proof { inner })
}

/// Calls `serialize_compressed` of `ark_serialize::CanonicalSerialize` on a
/// proof, into a fresh vector. The bytes are a function of the proof alone,
/// which `proof_encoding` names. There are 128 of them: 32 for each point
/// of the first group and 64 for the point of the second.
#[verifier::external_body]
fn encode_proof(proof: &Proof) -> (out: Result<Vec<u8>, ark_serialize::SerializationError>)
    ensures
        match out {
            Ok(bytes) => proof_encoding(proof_points(*proof)) == Some(bytes@),
            Err(_) => proof_encoding(proof_points(*proof)) is None,
        },
        out matches Ok(bytes) ==> bytes@.len() == PROOF_BYTES,
{
    let mut bytes = Vec::new();
    proof.inner.serialize_compressed(&mut bytes).map(|_| bytes)
}

/// Calls `try_fill_bytes` of `ark_std::rand::RngCore` on the operating
/// system's generator, for 32 bytes. Gives nothing where the system has no
/// randomness to give. Nothing is known of the bytes that come back.
#[verifier::external_body]
fn fresh_seed() -> (out: Option<[u8; 32]>) {
    let mut seed = [0u8; 32];
    OsRng.try_fill_bytes(&mut seed).ok().map(|_| seed)
}

/// Calls `Fr::rand` of `ark_std::UniformRand` twice on the standard
/// generator of `ark_std::rand`, started from the seed by `from_seed`.
/// Nothing is stated of the scalars that come back.
#[verifier::external_body]
fn seeded_scalars(seed: &[u8; 32]) -> (out: (FieldElement, FieldElement)) {
    let mut generator = StdRng::from_seed(*seed);
    let r = Fr::rand(&mut generator).into_bigint().0;
    let s = Fr::rand(&mut generator).into_bigint().0;
    (FieldElement::from_limbs(r).unwrap(), FieldElement::from_limbs(s).unwrap())
}

/// The bytes of the proof for a bundle, an assignment and two blinding
/// scalars, or the reason why there is none: `WitnessComputation` where the
/// assignment does not suit the bundle, `ProofConstruction` where the curve
/// library builds or encodes no proof.
pub open spec fn proof_outcome(
    bundle: ProvingKeyBundle,
    assignment: Seq<nat>,
    r: nat,
    s: nat,
) -> Result<Seq<u8>, ServiceError> {
    if !assignment_suits(bundle, assignment.len()) {
        Err(ServiceError::WitnessComputation)
    } else {
        match groth16_proof(bundle.spec_key(), bundle.spec_matrices(), assignment, r, s) {
            None => Err(ServiceError::ProofConstruction),
            Some(proof) => match proof_encoding(proof) {
                None => Err(ServiceError::ProofConstruction),
                Some(bytes) => Ok(bytes),
            },
        }
    }
}

/// Whether a result is the one that a specification names.
pub open spec fn is_outcome(out: Result<Vec<u8>, ServiceError>, named: Result<
    Seq<u8>,
    ServiceError,
>) -> bool {
    match out {
        Ok(bytes) => named == Ok::<Seq<u8>, ServiceError>(bytes@),
        Err(reason) => named == Err::<Seq<u8>, ServiceError>(reason),
    }
}

/// Builds the proof for an assignment with the blinding scalars given.
pub fn gen_proof_with_blinding(
    bundle: &ProvingKeyBundle,
    assignment: &Vec<FieldElement>,
    r: &FieldElement,
    s: &FieldElement,
) -> (out: Result<Vec<u8>, ServiceError>)
    ensures
        is_outcome(out, proof_outcome(*bundle, values_of(assignment@), r@, s@)),
        implied_public_inputs(bundle.spec_key(), assignment@.len())
            != bundle.spec_matrices().num_instance_variables - 1 ==> out == Err::<
            Vec<u8>,
            ServiceError,
        >(ServiceError::WitnessComputation),
        out matches Ok(bytes) ==> bytes@.len() == PROOF_BYTES,
{
    if !suits(bundle, assignment) {
        return Err(ServiceError::WitnessComputation);
    }
    let proof = match create_proof(bundle.key(), bundle.prover_matrices(), assignment, r, s) {
        Ok(proof) => proof,
        Err(_) => {
            return Err(ServiceError::ProofConstruction);
        },
    };
    match encode_proof(&proof) {
        Ok(bytes) => Ok(bytes),
        Err(_) => Err(ServiceError::ProofConstruction),
    }
}

/// Whether an assignment suits a bundle.
pub fn suits(bundle: &ProvingKeyBundle, assignment: &Vec<FieldElement>) -> (out: bool)
    ensures
        out == assignment_suits(*bundle, assignment@.len()),
        implied_public_inputs(bundle.spec_key(), assignment@.len())
            != bundle.spec_matrices().num_instance_variables - 1 ==> !out,
{
    let matrices = bundle.matrices();
    let length = assignment.len();
    length == bundle.shape().a_query && matrices.parts().num_instance_variables <= length
        && matrices.columns_within(length)
}

/// Builds the proof for an assignment with two fresh blinding scalars.
/// Where the assignment suits the bundle and the operating system gives
/// randomness, the result is the one that some pair of scalars below the
/// field's order gives; where the system gives none, it is
/// `ProofConstruction`.
pub fn gen_proof(bundle: &ProvingKeyBundle, assignment: &Vec<FieldElement>) -> (out: Result<
    Vec<u8>,
    ServiceError,
>)
    ensures
        out == Err::<Vec<u8>, ServiceError>(ServiceError::ProofConstruction) || exists|
            r: nat,
            s: nat,
        |
            r < modulus() && s < modulus() && #[trigger] is_outcome(
                out,
                proof_outcome(*bundle, values_of(assignment@), r, s),
            ),
        !assignment_suits(*bundle, assignment@.len()) ==> out == Err::<Vec<u8>, ServiceError>(
            ServiceError::WitnessComputation,
        ),
        implied_public_inputs(bundle.spec_key(), assignment@.len())
            != bundle.spec_matrices().num_instance_variables - 1 ==> out == Err::<
            Vec<u8>,
            ServiceError,
        >(ServiceError::WitnessComputation),
        out matches Ok(bytes) ==> bytes@.len() == PROOF_BYTES,
{
    if !suits(bundle, assignment) {
        assert(is_outcome(
            Err(ServiceError::WitnessComputation),
            proof_outcome(*bundle, values_of(assignment@), 0, 0),
        ));
        return Err(ServiceError::WitnessComputation);
    }
    let seed = match fresh_seed() {
        Some(seed) => seed,
        None => {
            return Err(ServiceError::ProofConstruction);
        },
    };
    let (r, s) = seeded_scalars(&seed);
    proof {
        use_type_invariant(&r);
        use_type_invariant(&s);
    }
    let out = gen_proof_with_blinding(bundle, assignment, &r, &s);
    assert(is_outcome(out, proof_outcome(*bundle, values_of(assignment@), r@, s@)));
    out
}

} // verus!
