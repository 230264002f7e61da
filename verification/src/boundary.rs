//! What crosses the boundary to a foreign caller, and the rules of its
//! ownership.
//!
//! A request arrives as text and bytes and leaves as a status, a flag or a
//! proof with its length. A proof that was handed out is released by the
//! one call that is paired with the call that made it; releasing nothing is
//! allowed and does nothing.

use crate::cache::KeyCache;
use crate::errors::ServiceError;
use crate::field::{modulus, FieldElement};
use crate::keystore::ProvingKeyBundle;
use crate::prover::{implied_public_inputs, is_outcome, proof_outcome, values_of, PROOF_BYTES};
use crate::scalar::{
    field_of_text, integer_of_text, str_to_bigint, str_to_fr, BigInteger, StrToFrError,
};
use crate::verification::{input_points_of, verification_outcome, verify};
use std::collections::BTreeMap;
use vstd::prelude::*;

verus! {

#[verifier::external_type_specification]
#[verifier::external_body]
pub struct ExJsonError(serde_json::Error);

/// The bytes of a proof together with their number.
#[derive(Debug)]
pub struct ProofResult {
    proof: Vec<u8>,
    proof_len: u64,
}

impl View for ProofResult {
    type V = Seq<u8>;

    /// The bytes of the proof.
    closed spec fn view(&self) -> Seq<u8> {
        self.proof@
    }
}

impl ProofResult {
    #[verifier::type_invariant]
    spec fn length_is_recorded(self) -> bool {
        self.proof_len == self.proof@.len()
    }

    /// Wraps the bytes of a proof and records their number.
    pub fn new(proof: Vec<u8>) -> (out: ProofResult)
        ensures
            out@ == proof@,
    {
        let proof_len = proof.len() as u64;
        ProofResult { proof, proof_len }
    }

    /// The recorded number of bytes, which is the number of bytes held.
    pub fn proof_len(&self) -> (out: u64)
        ensures
            out == self@.len(),
    {
        proof {
            use_type_invariant(self);
        }
        self.proof_len
    }

    /// The bytes of the proof.
    pub fn as_bytes(&self) -> (out: &Vec<u8>)
        ensures
            out@ == self@,
    {
        &self.proof
    }

    /// Gives up the bytes of the proof.
    pub fn into_bytes(self) -> (out: Vec<u8>)
        ensures
            out@ == self@,
    {
        self.proof
    }
}

/// What the release of a proof handle has to give back.
#[derive(Clone, Copy, Debug, PartialEq, Eq)]
pub enum Release {
    /// Nothing is released.
    Nothing,
    /// The handle alone is released.
    HandleOnly,
    /// The handle is released, and with it a buffer of exactly this many bytes.
    HandleAndBuffer { length: usize },
}

/// What the release of a proof handle gives back: nothing for no handle;
/// the handle alone where it points to no bytes, or records a length that
/// no buffer has; else the handle and a buffer of the recorded length.
pub open spec fn release_plan(
    handle_is_null: bool,
    bytes_are_null: bool,
    recorded: u64,
) -> Release {
    if handle_is_null {
        Release::Nothing
    } else if bytes_are_null || recorded > usize::MAX {
        Release::HandleOnly
    } else {
        Release::HandleAndBuffer { length: recorded as usize }
    }
}

/// Decides what the release of a proof handle gives back, from what the
/// handle shows: whether it is null, whether its bytes are, and the length
/// it records.
pub fn free_proof(handle_is_null: bool, bytes_are_null: bool, recorded: u64) -> (out: Release)
    ensures
        out == release_plan(handle_is_null, bytes_are_null, recorded),
        handle_is_null ==> out == Release::Nothing,
{
    if handle_is_null {
        Release::Nothing
    } else if bytes_are_null || recorded > usize::MAX as u64 {
        Release::HandleOnly
    } else {
        Release::HandleAndBuffer { length: recorded as usize }
    }
}

/// Decides whether a text handle is released: every handle but the null one.
pub fn free_string(handle_is_null: bool) -> (out: bool)
    ensures
        out == !handle_is_null,
{
    !handle_is_null
}

/// The failure that a badly written field element is reported as.
pub open spec fn scalar_failure(reason: StrToFrError) -> ServiceError {
    match reason {
        StrToFrError::HexError(_) => ServiceError::HexDecode,
        StrToFrError::FieldParseError => ServiceError::FieldParse,
    }
}

/// The texts of a list of strings.
pub open spec fn texts_of(strings: Seq<String>) -> Seq<Seq<char>> {
    strings.map_values(|s: String| s@)
}

/// The field elements that a list of texts stands for, or the failure of
/// the first text that stands for none.
pub open spec fn fields_of_texts(texts: Seq<Seq<char>>) -> Result<Seq<nat>, ServiceError>
    decreases texts.len(),
{
    if texts.len() == 0 {
        Ok(Seq::empty())
    } else {
        match fields_of_texts(texts.drop_last()) {
            Err(reason) => Err(reason),
            Ok(values) => match field_of_text(texts.last()) {
                Ok(value) => Ok(values.push(value)),
                Err(reason) => Err(scalar_failure(reason)),
            },
        }
    }
}

/// The integers that a list of texts stands for, where each stands for one.
pub open spec fn integers_of_texts(texts: Seq<Seq<char>>) -> Option<Seq<int>>
    decreases texts.len(),
{
    if texts.len() == 0 {
        Some(Seq::empty())
    } else {
        match integers_of_texts(texts.drop_last()) {
            None => None,
            Some(values) => match integer_of_text(texts.last()) {
                Some(value) => Some(values.push(value)),
                None => None,
            },
        }
    }
}

/// The values of a list of integers.
pub open spec fn integers_of(values: Seq<BigInteger>) -> Seq<int> {
    values.map_values(|v: BigInteger| v@)
}

/// A failure among the first texts is the failure of the whole list.
pub proof fn lemma_field_failure_stays(texts: Seq<Seq<char>>, k: int)
    requires
        0 <= k <= texts.len(),
        fields_of_texts(texts.take(k)) is Err,
    ensures
        fields_of_texts(texts) == fields_of_texts(texts.take(k)),
    decreases texts.len() - k,
{
    if k < texts.len() {
        assert(texts.take(k + 1).drop_last() =~= texts.take(k));
        lemma_field_failure_stays(texts, k + 1);
    } else {
        assert(texts.take(k) =~= texts);
    }
}

/// A failure among the first texts is the failure of the whole list.
pub proof fn lemma_integer_failure_stays(texts: Seq<Seq<char>>, k: int)
    requires
        0 <= k <= texts.len(),
        integers_of_texts(texts.take(k)) is None,
    ensures
        integers_of_texts(texts) is None,
    decreases texts.len() - k,
{
    if k < texts.len() {
        assert(texts.take(k + 1).drop_last() =~= texts.take(k));
        lemma_integer_failure_stays(texts, k + 1);
    } else {
        assert(texts.take(k) =~= texts);
    }
}

/// Reads the public inputs of a request, each a decimal number or a
/// hexadecimal one behind `0x`, in their order.
pub fn parse_public_inputs(texts: &Vec<String>) -> (out: Result<Vec<FieldElement>, ServiceError>)
    ensures
        match out {
            Ok(values) => fields_of_texts(texts_of(texts@)) == Ok::<Seq<nat>, ServiceError>(
                values_of(values@),
            ),
            Err(reason) => fields_of_texts(texts_of(texts@)) == Err::<Seq<nat>, ServiceError>(
                reason,
            ),
        },
{
    let ghost all = texts_of(texts@);
    let mut values: Vec<FieldElement> = Vec::new();
    let mut i: usize = 0;
    assert(values_of(values@) =~= Seq::<nat>::empty());
    assert(all.take(0) =~= Seq::<Seq<char>>::empty());
    while i < texts.len()
        invariant
            i <= texts.len(),
            all == texts_of(texts@),
            fields_of_texts(all.take(i as int)) == Ok::<Seq<nat>, ServiceError>(
                values_of(values@),
            ),
        decreases texts.len() - i,
    {
        proof {
            assert(all.take(i + 1).drop_last() =~= all.take(i as int));
            assert(all.take(i + 1).last() == texts@[i as int]@);
        }
        match str_to_fr(texts[i].as_str()) {
            Ok(value) => {
                proof {
                    assert(values_of(values@.push(value)) =~= values_of(values@).push(value@));
                }
                values.push(value);
            },
            Err(reason) => {
                proof {
                    lemma_field_failure_stays(all, i + 1);
                }
                return Err(
                    match reason {
                        StrToFrError::HexError(_) => ServiceError::HexDecode,
                        StrToFrError::FieldParseError => ServiceError::FieldParse,
                    },
                );
            },
        }
        i += 1;
    }
    proof {
        assert(all.take(texts.len() as int) =~= all);
    }
    Ok(values)
}

/// Reads the values of one input signal, each a decimal integer or a
/// hexadecimal one behind `0x`, in their order.
pub fn parse_signal_values(texts: &Vec<String>) -> (out: Result<Vec<BigInteger>, ServiceError>)
    ensures
        match out {
            Ok(values) => integers_of_texts(texts_of(texts@)) == Some(integers_of(values@)),
            Err(reason) => integers_of_texts(texts_of(texts@)) is None && reason
                == ServiceError::IntegerParse,
        },
{
    let ghost all = texts_of(texts@);
    let mut values: Vec<BigInteger> = Vec::new();
    let mut i: usize = 0;
    assert(integers_of(values@) =~= Seq::<int>::empty());
    assert(all.take(0) =~= Seq::<Seq<char>>::empty());
    while i < texts.len()
        invariant
            i <= texts.len(),
            all == texts_of(texts@),
            integers_of_texts(all.take(i as int)) == Some(integers_of(values@)),
        decreases texts.len() - i,
    {
        proof {
            assert(all.take(i + 1).drop_last() =~= all.take(i as int));
            assert(all.take(i + 1).last() == texts@[i as int]@);
        }
        match str_to_bigint(texts[i].as_str()) {
            Ok(value) => {
                proof {
                    assert(integers_of(values@.push(value)) =~= integers_of(values@).push(value@));
                }
                values.push(value);
            },
            Err(_) => {
                proof {
                    lemma_integer_failure_stays(all, i + 1);
                }
                return Err(ServiceError::IntegerParse);
            },
        }
        i += 1;
    }
    proof {
        assert(all.take(texts.len() as int) =~= all);
    }
    Ok(values)
}

/// The names of input signals with the texts of their values.
pub open spec fn named_texts_of(raw: Seq<(String, Vec<String>)>) -> Seq<
    (Seq<char>, Seq<Seq<char>>),
> {
    raw.map_values(|pair: (String, Vec<String>)| (pair.0@, texts_of(pair.1@)))
}

/// The names of input signals with their values.
pub open spec fn named_integers_of(inputs: Seq<(String, Vec<BigInteger>)>) -> Seq<
    (Seq<char>, Seq<int>),
> {
    inputs.map_values(|pair: (String, Vec<BigInteger>)| (pair.0@, integers_of(pair.1@)))
}

/// The input signals that named lists of texts stand for, where each text
/// stands for an integer: the same names in the same order, each with the
/// integers of its texts.
pub open spec fn inputs_of_texts(raw: Seq<(Seq<char>, Seq<Seq<char>>)>) -> Option<
    Seq<(Seq<char>, Seq<int>)>,
>
    decreases raw.len(),
{
    if raw.len() == 0 {
        Some(Seq::empty())
    } else {
        match inputs_of_texts(raw.drop_last()) {
            None => None,
            Some(inputs) => match integers_of_texts(raw.last().1) {
                Some(values) => Some(inputs.push((raw.last().0, values))),
                None => None,
            },
        }
    }
}

/// A failure among the first signals is the failure of the whole request.
pub proof fn lemma_input_failure_stays(raw: Seq<(Seq<char>, Seq<Seq<char>>)>, k: int)
    requires
        0 <= k <= raw.len(),
        inputs_of_texts(raw.take(k)) is None,
    ensures
        inputs_of_texts(raw) is None,
    decreases raw.len() - k,
{
    if k < raw.len() {
        assert(raw.take(k + 1).drop_last() =~= raw.take(k));
        lemma_input_failure_stays(raw, k + 1);
    } else {
        assert(raw.take(k) =~= raw);
    }
}

/// Reads the input signals of a proof request: for each name the values in
/// their order, each a decimal integer or a hexadecimal one behind `0x`.
pub fn parse_circuit_inputs(raw: &Vec<(String, Vec<String>)>) -> (out: Result<
    Vec<(String, Vec<BigInteger>)>,
    ServiceError,
>)
    ensures
        match out {
            Ok(inputs) => inputs_of_texts(named_texts_of(raw@)) == Some(
                named_integers_of(inputs@),
            ),
            Err(reason) => inputs_of_texts(named_texts_of(raw@)) is None && reason
                == ServiceError::IntegerParse,
        },
{
    let ghost all = named_texts_of(raw@);
    let mut inputs: Vec<(String, Vec<BigInteger>)> = Vec::new();
    let mut i: usize = 0;
    assert(named_integers_of(inputs@) =~= Seq::<(Seq<char>, Seq<int>)>::empty());
    assert(all.take(0) =~= Seq::<(Seq<char>, Seq<Seq<char>>)>::empty());
    while i < raw.len()
        invariant
            i <= raw.len(),
            all == named_texts_of(raw@),
            inputs_of_texts(all.take(i as int)) == Some(named_integers_of(inputs@)),
        decreases raw.len() - i,
    {
        proof {
            assert(all.take(i + 1).drop_last() =~= all.take(i as int));
            assert(all.take(i + 1).last() == (raw@[i as int].0@, texts_of(raw@[i as int].1@)));
        }
        let values = match parse_signal_values(&raw[i].1) {
            Ok(values) => values,
            Err(reason) => {
                proof {
                    lemma_input_failure_stays(all, i + 1);
                }
                return Err(reason);
            },
        };
        let name = raw[i].0.clone();
        proof {
            assert(named_integers_of(inputs@.push((name, values))) =~= named_integers_of(
                inputs@,
            ).push((name@, integers_of(values@))));
        }
        inputs.push((name, values));
        i += 1;
    }
    proof {
        assert(all.take(raw.len() as int) =~= all);
    }
    Ok(inputs)
}

/// The list of strings that a JSON text spells, where it spells one.
pub uninterp spec fn json_string_list(text: Seq<char>) -> Option<Seq<Seq<char>>>;

/// The named lists of strings that a JSON text spells, in the order of
/// their names, where it spells an object of such lists.
pub uninterp spec fn json_named_lists(text: Seq<char>) -> Option<
    Seq<(Seq<char>, Seq<Seq<char>>)>,
>;

/// Calls `serde_json::from_str` for a list of strings. The outcome is a
/// function of the text alone, which `json_string_list` names.
#[verifier::external_body]
fn decode_string_list(text: &str) -> (out: Result<Vec<String>, serde_json::Error>)
    ensures
        match out {
            Ok(list) => json_string_list(text@) == Some(texts_of(list@)),
            Err(_) => json_string_list(text@) is None,
        },
{
    serde_json::from_str(text)
}

/// The names of named items.
pub open spec fn names_of<T>(named: Seq<(Seq<char>, T)>) -> Seq<Seq<char>> {
    named.map_values(|pair: (Seq<char>, T)| pair.0)
}

/// Whether no name occurs twice.
pub open spec fn all_different(names: Seq<Seq<char>>) -> bool {
    forall|i: int, j: int| 0 <= i < j < names.len() ==> names[i] != names[j]
}

/// Calls `serde_json::from_str` for a map from names to lists of strings,
/// and hands the map out name by name in the order of the names. The
/// outcome is a function of the text alone, which `json_named_lists` names.
/// A map holds each name once.
#[verifier::external_body]
fn decode_named_lists(text: &str) -> (out: Result<Vec<(String, Vec<String>)>, serde_json::Error>)
    ensures
        match out {
            Ok(lists) => json_named_lists(text@) == Some(named_texts_of(lists@)),
            Err(_) => json_named_lists(text@) is None,
        },
        out matches Ok(lists) ==> all_different(names_of(named_texts_of(lists@))),
{
    serde_json::from_str::<BTreeMap<String, Vec<String>>>(text).map(
        |map| map.into_iter().collect(),
    )
}

/// The input signals that the JSON text of a proof request stands for:
/// `MalformedRequest` where the text is no object of lists of strings,
/// `IntegerParse` where one of the strings is no integer.
pub open spec fn inputs_of_request(text: Seq<char>) -> Result<
    Seq<(Seq<char>, Seq<int>)>,
    ServiceError,
> {
    match json_named_lists(text) {
        None => Err(ServiceError::MalformedRequest),
        Some(lists) => match inputs_of_texts(lists) {
            None => Err(ServiceError::IntegerParse),
            Some(inputs) => Ok(inputs),
        },
    }
}

/// Input signals have the names of the texts that they were read from, in
/// the same order.
pub proof fn lemma_inputs_keep_names(raw: Seq<(Seq<char>, Seq<Seq<char>>)>)
    requires
        inputs_of_texts(raw) is Some,
    ensures
        names_of(inputs_of_texts(raw).unwrap()) == names_of(raw),
    decreases raw.len(),
{
    if raw.len() > 0 {
        lemma_inputs_keep_names(raw.drop_last());
        let front = inputs_of_texts(raw.drop_last()).unwrap();
        let values = integers_of_texts(raw.last().1).unwrap();
        assert(names_of(front.push((raw.last().0, values))) =~= names_of(front).push(
            raw.last().0,
        ));
        assert(names_of(raw) =~= names_of(raw.drop_last()).push(raw.last().0));
    } else {
        assert(names_of(inputs_of_texts(raw).unwrap()) =~= names_of(raw));
    }
}

/// Reads the input signals of a proof request from its JSON text: an
/// object that gives each signal name a list of numbers as strings. No
/// signal is named twice in what comes back.
pub fn read_circuit_inputs(text: &str) -> (out: Result<
    Vec<(String, Vec<BigInteger>)>,
    ServiceError,
>)
    ensures
        out matches Ok(inputs) ==> all_different(names_of(named_integers_of(inputs@))),
        match out {
            Ok(inputs) => inputs_of_request(text@) == Ok::<
                Seq<(Seq<char>, Seq<int>)>,
                ServiceError,
            >(named_integers_of(inputs@)),
            Err(reason) => inputs_of_request(text@) == Err::<
                Seq<(Seq<char>, Seq<int>)>,
                ServiceError,
            >(reason),
        },
{
    match decode_named_lists(text) {
        Ok(lists) => {
            let out = parse_circuit_inputs(&lists);
            proof {
                if out is Ok {
                    lemma_inputs_keep_names(named_texts_of(lists@));
                }
            }
            out
        },
        Err(_) => Err(ServiceError::MalformedRequest),
    }
}

/// The public inputs that the JSON text of a verification request stands
/// for: `MalformedRequest` where the text is no list of strings, else what
/// the strings stand for.
pub open spec fn public_inputs_of_request(text: Seq<char>) -> Result<Seq<nat>, ServiceError> {
    match json_string_list(text) {
        None => Err(ServiceError::MalformedRequest),
        Some(texts) => fields_of_texts(texts),
    }
}

/// Reads the public inputs of a verification request from its JSON text: a
/// list of numbers as strings, in the order in which the circuit declares
/// its public signals.
pub fn read_public_inputs(text: &str) -> (out: Result<Vec<FieldElement>, ServiceError>)
    ensures
        match out {
            Ok(values) => public_inputs_of_request(text@) == Ok::<Seq<nat>, ServiceError>(
                values_of(values@),
            ),
            Err(reason) => public_inputs_of_request(text@) == Err::<Seq<nat>, ServiceError>(
                reason,
            ),
        },
{
    match decode_string_list(text) {
        Ok(texts) => parse_public_inputs(&texts),
        Err(_) => Err(ServiceError::MalformedRequest),
    }
}

/// What a proof request comes to for given blinding scalars:
/// `KeyNotLoaded` where no bundle is published; `WitnessComputation` where
/// the circuit evaluator gave no assignment; else what the prover makes of
/// the published bundle and the assignment.
pub open spec fn request_outcome(
    published: Option<ProvingKeyBundle>,
    witness: Option<Seq<nat>>,
    r: nat,
    s: nat,
) -> Result<Seq<u8>, ServiceError> {
    match published {
        None => Err(ServiceError::KeyNotLoaded),
        Some(bundle) => match witness {
            None => Err(ServiceError::WitnessComputation),
            Some(assignment) => proof_outcome(bundle, assignment, r, s),
        },
    }
}

/// The values of an assignment that the circuit evaluator may have given.
pub open spec fn witness_of(witness: Option<Vec<FieldElement>>) -> Option<Seq<nat>> {
    match witness {
        Some(assignment) => Some(values_of(assignment@)),
        None => None,
    }
}

/// Whether the assignment that the circuit evaluator gave implies a number
/// of public inputs other than that of the published bundle's circuit,
/// which has one public variable more than public inputs.
pub open spec fn implies_wrong_public_inputs(
    published: Option<ProvingKeyBundle>,
    witness: Option<Vec<FieldElement>>,
) -> bool {
    match (published, witness) {
        (Some(bundle), Some(assignment)) => implied_public_inputs(
            bundle.spec_key(),
            assignment@.len(),
        ) != bundle.spec_matrices().num_instance_variables - 1,
        _ => false,
    }
}

/// Whether a proof result is the one that a specification names.
pub open spec fn is_request_outcome(out: Result<ProofResult, ServiceError>, named: Result<
    Seq<u8>,
    ServiceError,
>) -> bool {
    match out {
        Ok(proof) => named == Ok::<Seq<u8>, ServiceError>(proof@),
        Err(reason) => named == Err::<Seq<u8>, ServiceError>(reason),
    }
}

/// Answers a proof request from the published bundle and from what the
/// circuit evaluator gave: the full assignment, or nothing where it failed.
/// The blinding scalars are drawn afresh. The result is the one that some
/// pair of scalars below the field's order gives, or `ProofConstruction`
/// where the operating system has no randomness to give.
pub fn gen_proof(cache: &KeyCache, witness: Option<Vec<FieldElement>>) -> (out: Result<
    ProofResult,
    ServiceError,
>)
    ensures
        out matches Err(ServiceError::ProofConstruction) || exists|r: nat, s: nat|
            r < modulus() && s < modulus() && #[trigger] is_request_outcome(
                out,
                request_outcome(cache@, witness_of(witness), r, s),
            ),
        cache@ is None ==> out matches Err(ServiceError::KeyNotLoaded),
        cache@ is Some && witness is None ==> out matches Err(ServiceError::WitnessComputation),
        implies_wrong_public_inputs(cache@, witness) ==> out matches Err(
            ServiceError::WitnessComputation,
        ),
        out matches Ok(proof) ==> proof@.len() == PROOF_BYTES,
{
    let bundle = match cache.get() {
        Ok(bundle) => bundle,
        Err(reason) => {
            assert(is_request_outcome(
                Err(reason),
                request_outcome(cache@, witness_of(witness), 0, 0),
            ));
            return Err(reason);
        },
    };
    let assignment = match witness {
        Some(assignment) => assignment,
        None => {
            assert(is_request_outcome(
                Err(ServiceError::WitnessComputation),
                request_outcome(cache@, witness_of(witness), 0, 0),
            ));
            return Err(ServiceError::WitnessComputation);
        },
    };
    let built = crate::prover::gen_proof(&bundle, &assignment);
    let out = match built {
        Ok(bytes) => Ok(ProofResult::new(bytes)),
        Err(reason) => Err(reason),
    };
    proof {
        if built != Err::<Vec<u8>, ServiceError>(ServiceError::ProofConstruction) {
            let (r, s) = choose|r: nat, s: nat|
                r < modulus() && s < modulus() && #[trigger] is_outcome(
                    built,
                    proof_outcome(*bundle, values_of(assignment@), r, s),
                );
            assert(is_request_outcome(out, request_outcome(cache@, witness_of(witness), r, s)));
        }
    }
    out
}

/// What a verification request comes to: the failure of reading its public
/// inputs, or what the verification of the proof against the key and the
/// public inputs comes to.
pub open spec fn verify_request_outcome(
    proof_bytes: Seq<u8>,
    key_bytes: Seq<u8>,
    public: Seq<char>,
) -> Result<bool, ServiceError> {
    match public_inputs_of_request(public) {
        Err(reason) => Err(reason),
        Ok(values) => verification_outcome(key_bytes, proof_bytes, values),
    }
}

/// Whether a request lists a number of public inputs that the key in
/// `key_bytes` does not verify proofs against: the key does not have
/// exactly one input point more than the request lists public inputs.
pub open spec fn wrong_number_of_public_inputs(key_bytes: Seq<u8>, public: Seq<char>) -> bool {
    match (input_points_of(key_bytes), public_inputs_of_request(public)) {
        (Some(points), Ok(values)) => values.len() + 1 != points,
        _ => false,
    }
}

/// Answers a verification request, and says why where it fails. The public
/// inputs come as the JSON text of a list of numbers as strings.
pub fn verify_request(proof_bytes: &[u8], key_bytes: &[u8], public: &str) -> (out: Result<
    bool,
    ServiceError,
>)
    ensures
        out == verify_request_outcome(proof_bytes@, key_bytes@, public@),
        wrong_number_of_public_inputs(key_bytes@, public@) ==> out != Ok::<bool, ServiceError>(
            true,
        ),
{
    let values = match read_public_inputs(public) {
        Ok(values) => values,
        Err(reason) => {
            return Err(reason);
        },
    };
    verify(key_bytes, proof_bytes, &values)
}

/// Answers a verification request with a flag: whether the proof holds.
/// Every failure counts as a proof that does not hold.
pub fn verify_proof(proof_bytes: &[u8], key_bytes: &[u8], public: &str) -> (out: bool)
    ensures
        out == (verify_request_outcome(proof_bytes@, key_bytes@, public@) == Ok::<
            bool,
            ServiceError,
        >(true)),
        wrong_number_of_public_inputs(key_bytes@, public@) ==> !out,
{
    match verify_request(proof_bytes, key_bytes, public) {
        Ok(holds) => holds,
        Err(_) => false,
    }
}

} // verus!
