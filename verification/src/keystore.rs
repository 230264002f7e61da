//! The key store: a proving key and the constraint matrices that belong to
//! it, in two sections that follow each other without a tag or a version.
//!
//! The first section is the proving key in the compressed encoding of the
//! curve library. Its layout is walked here before the curve library is
//! asked to decode it, so that a length which the file claims is never
//! believed beyond the bytes that are there. The second section is described
//! in [`crate::matrices`].

use crate::errors::ServiceError;
use crate::matrices::{
    matrices_at, read_matrices, ConstraintMatrices, Entry, MatricesModel, MatricesParts,
};
use crate::encoding::{lemma_matrices_round_trip, matrices_encoding, matrices_writable};
use crate::matrices::{lemma_cut_matrices_fail, lemma_matrices_fit};
use crate::wire::{lemma_u64_same, read_u64, same_start, u64_at};
use ark_bn254::Fr;
use ark_ff::{BigInt, PrimeField};
use ark_serialize::CanonicalDeserialize;
use vstd::prelude::*;

verus! {

/// The width in bytes of a compressed point of the first group.
pub const G1_BYTES: usize = 32;

/// The width in bytes of a compressed point of the second group.
pub const G2_BYTES: usize = 64;

/// The width in bytes of the points that open a verifying key: one of the
/// first group and three of the second.
pub const VERIFYING_KEY_HEAD_BYTES: usize = 224;

/// A run of items of one width at a place: their number, eight bytes, and
/// then the items. Gives the number and the place after the run, where the
/// byte string holds all of it.
pub open spec fn run_at(bytes: Seq<u8>, at: int, width: nat) -> Option<(nat, int)> {
    match u64_at(bytes, at) {
        Some(count) => if at + 8 + width * count <= bytes.len() {
            Some((count, at + 8 + width * count))
        } else {
            None
        },
        None => None,
    }
}

/// The place after a verifying key that starts at a place: four points and
/// a run of points of the first group.
pub open spec fn verifying_key_end(bytes: Seq<u8>, at: int) -> Option<int> {
    match run_at(bytes, at + 224, 32) {
        Some((_, after)) => Some(after),
        None => None,
    }
}

/// The length of the proving key section at the start of a byte string: a
/// verifying key, two points of the first group, and the five runs of
/// points that the prover sums over.
pub open spec fn proving_key_frame(bytes: Seq<u8>) -> Option<int> {
    match verifying_key_end(bytes, 0) {
        Some(after_vk) => match run_at(bytes, after_vk + 64, 32) {
            Some((_, after_a)) => match run_at(bytes, after_a, 32) {
                Some((_, after_b1)) => match run_at(bytes, after_b1, 64) {
                    Some((_, after_b2)) => match run_at(bytes, after_b2, 32) {
                        Some((_, after_h)) => match run_at(bytes, after_h, 32) {
                            Some((_, after_l)) => Some(after_l),
                            None => None,
                        },
                        None => None,
                    },
                    None => None,
                },
                None => None,
            },
            None => None,
        },
        None => None,
    }
}

/// A number is at most a quotient exactly where its multiple is at most the dividend.
proof fn lemma_fits(count: nat, width: nat, room: nat)
    requires
        width > 0,
    ensures
        count <= room / width <==> width * count <= room,
{
    assert(count <= room / width <==> width * count <= room) by (nonlinear_arith)
        requires
            width > 0,
    ;
}

/// Walks over the run of items at a place, and says how many items it has
/// and where the next item starts.
pub fn read_run(bytes: &[u8], at: usize, width: usize) -> (out: Option<(usize, usize)>)
    requires
        width > 0,
    ensures
        match out {
            Some((count, after)) => run_at(bytes@, at as int, width as nat) == Some(
                (count as nat, after as int),
            ) && at + 8 <= after <= bytes@.len(),
            None => run_at(bytes@, at as int, width as nat) is None,
        },
{
    let size = bytes.len();
    let count = match read_u64(bytes, at) {
        Some(count) => count,
        None => {
            return None;
        },
    };
    let room = size - at - 8;
    proof {
        lemma_fits(count as nat, width as nat, room as nat);
    }
    if count > (room / width) as u64 {
        return None;
    }
    assert(width * count <= room) by (nonlinear_arith)
        requires
            width * count <= room,
    ;
    let after = at + 8 + width * (count as usize);
    Some((count as usize, after))
}

/// Walks over the verifying key at a place, and says where the next item starts.
pub fn frame_verifying_key(bytes: &[u8], at: usize) -> (out: Option<usize>)
    ensures
        match out {
            Some(after) => verifying_key_end(bytes@, at as int) == Some(after as int) && at
                <= after <= bytes@.len(),
            None => verifying_key_end(bytes@, at as int) is None,
        },
{
    if at > bytes.len() || bytes.len() - at < VERIFYING_KEY_HEAD_BYTES {
        return None;
    }
    match read_run(bytes, at + VERIFYING_KEY_HEAD_BYTES, G1_BYTES) {
        Some((_, after)) => Some(after),
        None => None,
    }
}

/// Walks over the proving key section at the start of a byte string, and
/// says how long it is.
pub fn frame_proving_key(bytes: &[u8]) -> (out: Option<usize>)
    ensures
        match out {
            Some(after) => proving_key_frame(bytes@) == Some(after as int) && after <= bytes@.len(),
            None => proving_key_frame(bytes@) is None,
        },
{
    let after_vk = match frame_verifying_key(bytes, 0) {
        Some(after) => after,
        None => {
            return None;
        },
    };
    if bytes.len() - after_vk < 2 * G1_BYTES {
        return None;
    }
    let after_a = match read_run(bytes, after_vk + 2 * G1_BYTES, G1_BYTES) {
        Some((_, after)) => after,
        None => {
            return None;
        },
    };
    let after_b1 = match read_run(bytes, after_a, G1_BYTES) {
        Some((_, after)) => after,
        None => {
            return None;
        },
    };
    let after_b2 = match read_run(bytes, after_b1, G2_BYTES) {
        Some((_, after)) => after,
        None => {
            return None;
        },
    };
    let after_h = match read_run(bytes, after_b2, G1_BYTES) {
        Some((_, after)) => after,
        None => {
            return None;
        },
    };
    match read_run(bytes, after_h, G1_BYTES) {
        Some((_, after)) => Some(after),
        None => None,
    }
}

/// A Groth16 proving key over BN254, as the curve library holds it.
#[verifier::external_body]
pub struct ProvingKey {
    pub(crate) inner: ark_groth16::ProvingKey<ark_bn254::Bn254>,
}

/// How many points a proving key holds in each of its runs.
#[derive(Clone, Copy, Debug, PartialEq, Eq)]
pub struct KeyShape {
    /// The points of the verifying key that stand for the public variables.
    pub inputs: usize,
    /// The points of the first group that A is summed over.
    pub a_query: usize,
    /// The points of the first group that B is summed over.
    pub b_g1_query: usize,
    /// The points of the second group that B is summed over.
    pub b_g2_query: usize,
    /// The points that the quotient polynomial is summed over.
    pub h_query: usize,
    /// The points that the private variables are summed over.
    pub l_query: usize,
}

#[verifier::external_type_specification]
#[verifier::external_body]
pub struct ExSerializationError(ark_serialize::SerializationError);

/// What a proving key holds: its points, byte by byte.
pub uninterp spec fn proving_key_points(key: ProvingKey) -> Seq<u8>;

/// The points of the proving key that the curve library decodes from a
/// section, where it decodes one.
pub uninterp spec fn decoded_proving_key(section: Seq<u8>) -> Option<Seq<u8>>;

/// The numbers of points in each run of a proving key, given by its points.
pub uninterp spec fn proving_key_shape(points: Seq<u8>) -> KeyShape;

/// The longest byte string that is handed to the curve library. The decoded
/// points take less than three times the room of their encoding, so no
/// allocation is asked for that the address space cannot hold.
pub open spec fn section_limit() -> nat {
    (usize::MAX / 8) as nat
}

/// Calls `ProvingKey::<Bn254>::deserialize_compressed_unchecked` of
/// `ark_serialize::CanonicalDeserialize` on a section. The outcome is a
/// function of the bytes alone, which `decoded_proving_key` names. The call
/// reserves room for as many points as a run claims to have, so the section
/// must have been walked and be no longer than the limit.
#[verifier::external_body]
fn decode_proving_key(section: &[u8]) -> (out: Result<
    ProvingKey,
    ark_serialize::SerializationError,
>)
    requires
        proving_key_frame(section@) is Some,
        section@.len() <= section_limit(),
    ensures
        match out {
            Ok(key) => decoded_proving_key(section@) == Some(proving_key_points(key)),
            Err(_) => decoded_proving_key(section@) is None,
        },
{
    ark_groth16::ProvingKey::<ark_bn254::Bn254>::deserialize_compressed_unchecked(section).map(
        |inner| ProvingKey { inner },
    )
}

/// Reads the lengths of the vectors of an `ark_groth16::ProvingKey`, which
/// `proving_key_shape` names.
#[verifier::external_body]
fn shape_of_proving_key(key: &ProvingKey) -> (out: KeyShape)
    ensures
        out == proving_key_shape(proving_key_points(*key)),
{
    KeyShape {
        inputs: key.inner.vk.gamma_abc_g1.len(),
        a_query: key.inner.a_query.len(),
        b_g1_query: key.inner.b_g1_query.len(),
        b_g2_query: key.inner.b_g2_query.len(),
        h_query: key.inner.h_query.len(),
        l_query: key.inner.l_query.len(),
    }
}

/// Constraint matrices as the curve library takes them.
#[verifier::external_body]
pub struct ProverMatrices {
    pub(crate) inner: ark_relations::r1cs::ConstraintMatrices<ark_bn254::Fr>,
}

/// The counts and the matrices that the curve library's matrices hold.
pub uninterp spec fn prover_matrices_model(matrices: ProverMatrices) -> MatricesModel;

/// Builds the `ConstraintMatrices` of `ark_relations` that hold the same
/// counts and, entry by entry, the same coefficients and columns; each
/// coefficient becomes an `Fr` by `from_bigint`, which takes every number
/// below the field's order.
#[verifier::external_body]
fn prover_matrices(parts: &MatricesParts) -> (out: ProverMatrices)
    ensures
        prover_matrices_model(out) == parts@,
{
    let entry = |e: &Entry| (Fr::from_bigint(BigInt(e.coefficient.limbs())).unwrap(), e.column);
    let rows = |m: &Vec<Vec<Entry>>| m.iter().map(|r| r.iter().map(entry).collect()).collect();
    ProverMatrices {
        inner: ark_relations::r1cs::ConstraintMatrices {
            num_instance_variables: parts.num_instance_variables,
            num_witness_variables: parts.num_witness_variables,
            num_constraints: parts.num_constraints,
            a_num_non_zero: parts.a_num_non_zero,
            b_num_non_zero: parts.b_num_non_zero,
            c_num_non_zero: parts.c_num_non_zero,
            a: rows(&parts.a),
            b: rows(&parts.b),
            c: rows(&parts.c),
        },
    }
}

/// Whether a proving key of a given shape and constraint matrices belong
/// together: the declared numbers of entries are the numbers present; A and
/// B have one row for each constraint; the circuit has the constant one
/// among its public variables, and the key one input point for each of
/// them; the key has a point of A and of B in either group for each
/// variable, and a point for each private variable, so that the variables
/// it has points for beyond the private ones are the circuit's public
/// variables; and the domain size can be computed.
pub open spec fn belong_together(shape: KeyShape, matrices: MatricesModel) -> bool {
    &&& matrices.counts_agree()
    &&& matrices.a.len() == matrices.num_constraints
    &&& matrices.b.len() == matrices.num_constraints
    &&& matrices.num_instance_variables >= 1
    &&& shape.inputs == matrices.num_instance_variables
    &&& shape.a_query == shape.l_query + matrices.num_instance_variables
    &&& shape.b_g1_query == shape.a_query
    &&& shape.b_g2_query == shape.a_query
    &&& matrices.num_instance_variables + matrices.num_constraints <= usize::MAX
}

/// A proving key with the constraint matrices of its circuit, the matrices
/// also in the form that the curve library takes.
pub struct ProvingKeyBundle {
    key: ProvingKey,
    matrices: ConstraintMatrices,
    prepared: ProverMatrices,
}

impl ProvingKeyBundle {
    #[verifier::type_invariant]
    spec fn paired(self) -> bool {
        &&& belong_together(proving_key_shape(proving_key_points(self.key)), self.matrices@)
        &&& prover_matrices_model(self.prepared) == self.matrices@
    }

    /// The points of the proving key.
    pub closed spec fn spec_key(&self) -> Seq<u8> {
        proving_key_points(self.key)
    }

    /// The constraint matrices in specifications.
    pub closed spec fn spec_matrices(&self) -> MatricesModel {
        self.matrices@
    }

    /// Pairs a key with matrices, where the two belong together.
    fn new(key: ProvingKey, matrices: ConstraintMatrices) -> (out: Option<ProvingKeyBundle>)
        ensures
            out is Some <==> belong_together(
                proving_key_shape(proving_key_points(key)),
                matrices@,
            ),
            out matches Some(bundle) ==> bundle.spec_key() == proving_key_points(key)
                && bundle.spec_matrices() == matrices@,
    {
        let shape = shape_of_proving_key(&key);
        let parts = matrices.parts();
        let instance = parts.num_instance_variables;
        let constraints = parts.num_constraints;
        if parts.a.len() == constraints && parts.b.len() == constraints && instance >= 1
            && shape.inputs == instance && shape.a_query >= instance && shape.a_query - instance
            == shape.l_query && shape.b_g1_query == shape.a_query && shape.b_g2_query
            == shape.a_query && constraints <= usize::MAX - instance {
            let prepared = prover_matrices(parts);
            Some(ProvingKeyBundle { key, matrices, prepared })
        } else {
            None
        }
    }

    /// The proving key.
    pub fn key(&self) -> (out: &ProvingKey)
        ensures
            proving_key_points(*out) == self.spec_key(),
            belong_together(proving_key_shape(self.spec_key()), self.spec_matrices()),
    {
        proof {
            use_type_invariant(self);
        }
        &self.key
    }

    /// The constraint matrices.
    pub fn matrices(&self) -> (out: &ConstraintMatrices)
        ensures
            out@ == self.spec_matrices(),
            belong_together(proving_key_shape(self.spec_key()), out@),
    {
        proof {
            use_type_invariant(self);
        }
        &self.matrices
    }

    /// The constraint matrices in the form that the curve library takes.
    pub fn prover_matrices(&self) -> (out: &ProverMatrices)
        ensures
            prover_matrices_model(*out) == self.spec_matrices(),
    {
        proof {
            use_type_invariant(self);
        }
        &self.prepared
    }

    /// The numbers of points that the key holds.
    pub fn shape(&self) -> (out: KeyShape)
        ensures
            out == proving_key_shape(self.spec_key()),
    {
        shape_of_proving_key(&self.key)
    }
}

/// What a key store holds: the points of the key that its first section
/// decodes to and the matrices that its second section spells, or the
/// reason why it is no key store. Bytes after the second section are not
/// looked at.
pub open spec fn key_store_contents(bytes: Seq<u8>) -> Result<
    (Seq<u8>, MatricesModel),
    ServiceError,
> {
    if bytes.len() > section_limit() {
        Err(ServiceError::Deserialization)
    } else {
        match proving_key_frame(bytes) {
            None => Err(ServiceError::Deserialization),
            Some(end) => match decoded_proving_key(bytes.subrange(0, end)) {
                None => Err(ServiceError::Deserialization),
                Some(key) => match matrices_at(bytes, end) {
                    None => Err(ServiceError::Deserialization),
                    Some((matrices, _)) => if belong_together(proving_key_shape(key), matrices) {
                        Ok((key, matrices))
                    } else {
                        Err(ServiceError::FormatMismatch)
                    },
                },
            },
        }
    }
}

/// A run that was found ends inside the byte string, after its own start.
pub proof fn lemma_run_fits(bytes: Seq<u8>, at: int, width: nat)
    requires
        run_at(bytes, at, width) is Some,
    ensures
        0 <= at,
        at + 8 <= run_at(bytes, at, width).unwrap().1 <= bytes.len(),
{
    let count = u64_at(bytes, at).unwrap();
    assert(width * count >= 0) by (nonlinear_arith)
        requires
            width >= 0,
            count >= 0,
    ;
}

/// A run that is found inside the common start of two byte strings is the
/// same in both.
pub proof fn lemma_run_same(first: Seq<u8>, second: Seq<u8>, n: int, at: int, width: nat)
    requires
        same_start(first, second, n),
        run_at(first, at, width) is Some,
        run_at(first, at, width).unwrap().1 <= n,
    ensures
        run_at(second, at, width) == run_at(first, at, width),
{
    lemma_run_fits(first, at, width);
    lemma_u64_same(first, second, n, at);
}

/// A proving key section that was walked ends inside the byte string.
pub proof fn lemma_frame_fits(bytes: Seq<u8>)
    requires
        proving_key_frame(bytes) is Some,
    ensures
        0 <= proving_key_frame(bytes).unwrap() <= bytes.len(),
{
    let after_vk = verifying_key_end(bytes, 0).unwrap();
    let after_a = run_at(bytes, after_vk + 64, 32).unwrap().1;
    let after_b1 = run_at(bytes, after_a, 32).unwrap().1;
    let after_b2 = run_at(bytes, after_b1, 64).unwrap().1;
    let after_h = run_at(bytes, after_b2, 32).unwrap().1;
    lemma_run_fits(bytes, 224, 32);
    lemma_run_fits(bytes, after_vk + 64, 32);
    lemma_run_fits(bytes, after_a, 32);
    lemma_run_fits(bytes, after_b1, 64);
    lemma_run_fits(bytes, after_b2, 32);
    lemma_run_fits(bytes, after_h, 32);
}

/// A proving key section that is walked inside the common start of two
/// byte strings has the same length in both.
pub proof fn lemma_frame_same(first: Seq<u8>, second: Seq<u8>, n: int)
    requires
        same_start(first, second, n),
        proving_key_frame(first) is Some,
        proving_key_frame(first).unwrap() <= n,
    ensures
        proving_key_frame(second) == proving_key_frame(first),
{
    let after_vk = verifying_key_end(first, 0).unwrap();
    let after_a = run_at(first, after_vk + 64, 32).unwrap().1;
    let after_b1 = run_at(first, after_a, 32).unwrap().1;
    let after_b2 = run_at(first, after_b1, 64).unwrap().1;
    let after_h = run_at(first, after_b2, 32).unwrap().1;
    lemma_run_fits(first, 224, 32);
    lemma_run_fits(first, after_vk + 64, 32);
    lemma_run_fits(first, after_a, 32);
    lemma_run_fits(first, after_b1, 64);
    lemma_run_fits(first, after_b2, 32);
    lemma_run_fits(first, after_h, 32);
    lemma_run_same(first, second, n, 224, 32);
    lemma_run_same(first, second, n, after_vk + 64, 32);
    lemma_run_same(first, second, n, after_a, 32);
    lemma_run_same(first, second, n, after_b1, 64);
    lemma_run_same(first, second, n, after_b2, 32);
    lemma_run_same(first, second, n, after_h, 32);
}

/// The frame of a section does not depend on what follows the section.
pub proof fn lemma_frame_of_section(bytes: Seq<u8>)
    requires
        proving_key_frame(bytes) is Some,
    ensures
        0 <= proving_key_frame(bytes).unwrap() <= bytes.len(),
        proving_key_frame(bytes.subrange(0, proving_key_frame(bytes).unwrap()))
            == proving_key_frame(bytes),
{
    lemma_frame_fits(bytes);
    let end = proving_key_frame(bytes).unwrap();
    let section = bytes.subrange(0, end);
    assert(section.subrange(0, end) =~= bytes.subrange(0, end));
    lemma_frame_same(bytes, section, end);
}

/// A proving key section that is cut short is not walked to its end.
pub proof fn lemma_cut_frame_fails(bytes: Seq<u8>, length: int)
    requires
        proving_key_frame(bytes) is Some,
        0 <= length < proving_key_frame(bytes).unwrap(),
    ensures
        proving_key_frame(bytes.take(length)) is None,
{
    lemma_frame_fits(bytes);
    let cut = bytes.take(length);
    if proving_key_frame(cut) is Some {
        let end = proving_key_frame(cut).unwrap();
        lemma_frame_fits(cut);
        assert(cut.subrange(0, end) =~= bytes.subrange(0, end));
        lemma_frame_same(cut, bytes, end);
    }
}

/// The place where a key store ends: after its second section.
pub open spec fn key_store_end(bytes: Seq<u8>) -> int
    recommends
        key_store_contents(bytes) is Ok,
{
    matrices_at(bytes, proving_key_frame(bytes).unwrap()).unwrap().1
}

/// A key store that is cut short is turned away: if a byte string is a key
/// store, then no start of it that stops before the end of the second
/// section is one, and reading it fails with `Deserialization`.
pub proof fn lemma_cut_key_store_fails(bytes: Seq<u8>, length: int)
    requires
        key_store_contents(bytes) is Ok,
        0 <= length < key_store_end(bytes),
    ensures
        key_store_contents(bytes.take(length)) == Err::<(Seq<u8>, MatricesModel), ServiceError>(
            ServiceError::Deserialization,
        ),
{
    let end = proving_key_frame(bytes).unwrap();
    let cut = bytes.take(length);
    lemma_frame_fits(bytes);
    lemma_matrices_fit(bytes, end);
    if length < end {
        lemma_cut_frame_fails(bytes, length);
    } else {
        assert(bytes.subrange(0, end) =~= cut.subrange(0, end));
        lemma_frame_same(bytes, cut, end);
        lemma_cut_matrices_fail(bytes, end, length);
    }
}

/// Reading gives back what was written: bytes that begin with the section
/// of a proving key, go on with the encoding of matrices that belong to the
/// key, and end with anything at all, are a key store of that key's points
/// and those matrices.
pub proof fn lemma_key_store_round_trip(
    section: Seq<u8>,
    key: Seq<u8>,
    matrices: MatricesModel,
    rest: Seq<u8>,
)
    requires
        proving_key_frame(section) == Some(section.len() as int),
        decoded_proving_key(section) == Some(key),
        matrices_writable(matrices),
        belong_together(proving_key_shape(key), matrices),
        section.len() + matrices_encoding(matrices).len() + rest.len() <= section_limit(),
    ensures
        key_store_contents(section + matrices_encoding(matrices) + rest) == Ok::<
            (Seq<u8>, MatricesModel),
            ServiceError,
        >((key, matrices)),
{
    let written = matrices_encoding(matrices);
    let bytes = section + written + rest;
    let end = section.len() as int;
    assert(section.subrange(0, end) =~= bytes.subrange(0, end));
    lemma_frame_same(section, bytes, end);
    assert(bytes.subrange(0, end) =~= section);
    assert(bytes.subrange(end, end + written.len()) =~= written);
    lemma_matrices_round_trip(bytes, end, matrices);
}

/// Reads a key store: the proving key section, then the matrices section,
/// and the check that the two belong together.
pub fn read_arkzkey_no_print(bytes: &[u8]) -> (out: Result<ProvingKeyBundle, ServiceError>)
    ensures
        match out {
            Ok(bundle) => key_store_contents(bytes@) == Ok::<
                (Seq<u8>, MatricesModel),
                ServiceError,
            >((bundle.spec_key(), bundle.spec_matrices())),
            Err(reason) => key_store_contents(bytes@) == Err::<
                (Seq<u8>, MatricesModel),
                ServiceError,
            >(reason),
        },
{
    if bytes.len() > usize::MAX / 8 {
        return Err(ServiceError::Deserialization);
    }
    let end = match frame_proving_key(bytes) {
        Some(end) => end,
        None => {
            return Err(ServiceError::Deserialization);
        },
    };
    let section = vstd::slice::slice_subrange(bytes, 0, end);
    proof {
        lemma_frame_of_section(bytes@);
    }
    let key = match decode_proving_key(section) {
        Ok(key) => key,
        Err(_) => {
            return Err(ServiceError::Deserialization);
        },
    };
    let parts = match read_matrices(bytes, end) {
        Some((parts, _)) => parts,
        None => {
            return Err(ServiceError::Deserialization);
        },
    };
    let matrices = match ConstraintMatrices::new(parts) {
        Some(matrices) => matrices,
        None => {
            return Err(ServiceError::FormatMismatch);
        },
    };
    match ProvingKeyBundle::new(key, matrices) {
        Some(bundle) => Ok(bundle),
        None => Err(ServiceError::FormatMismatch),
    }
}

} // verus!
