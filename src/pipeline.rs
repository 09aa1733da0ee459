use vstd::prelude::*;

use crate::circuits::{
    empty_shape, factorization_constraint, factorization_shape, lemma_lc_single, verifier_constraint,
    verifier_shape, FactorizationCircuit, ProofPoints, VerifierCircuit,
};
use crate::decimal::{decimal_of_le_bytes, le_value, numeral_of};
use crate::field::{modulus, FieldElement};
use crate::relation::{constraint_holds, Mode, RelationBuilder};

verus! {

/// Why the proving pipeline stopped.
#[derive(Clone, Copy, Debug, PartialEq, Eq, Structural)]
pub enum PipelineError {
    /// A relation slot needed a value that was not given.
    AssignmentMissing,
    /// An input does not denote an element of the field.
    InvalidFieldValue,
    /// The backend could not generate parameters.
    ParameterGenerationFailure,
    /// The witness does not satisfy the relation, or the backend failed to prove.
    ProofCreationFailure,
    /// The backend could not run verification.
    VerificationFailure,
    /// A proof artifact could not be written.
    SerializationFailure,
    /// A stage was reached before the one that must precede it.
    OutOfOrder,
}

/// Satisfaction of the inner constraint: it holds exactly when `p * q = N`
/// in the field.
pub proof fn lemma_factorization_constraint(n: nat, p: nat, q: nat)
    requires
        n < modulus(),
        p < modulus(),
        q < modulus(),
    ensures
        constraint_holds(factorization_constraint(empty_shape()), seq![1nat, n], seq![p, q])
            == ((p * q) % modulus() == n),
{
    let c = factorization_constraint(empty_shape());
    let inputs = seq![1nat, n];
    let aux = seq![p, q];
    lemma_lc_single(c.0[0].0, inputs, aux);
    lemma_lc_single(c.1[0].0, inputs, aux);
    lemma_lc_single(c.2[0].0, inputs, aux);
    assert(c.0 =~= seq![(c.0[0].0, 1nat)]);
    assert(c.1 =~= seq![(c.1[0].0, 1nat)]);
    assert(c.2 =~= seq![(c.2[0].0, 1nat)]);
}

/// The outer constraint ignores the embedded proof: for any eight
/// coordinate values it holds exactly when the public input is one.
pub proof fn lemma_outer_ignores_proof(coords: Seq<nat>, public_input: nat)
    requires
        coords.len() == 8,
        public_input < modulus(),
    ensures
        constraint_holds(verifier_constraint(empty_shape()), seq![1nat, public_input], coords)
            == (public_input == 1),
{
    let c = verifier_constraint(empty_shape());
    let inputs = seq![1nat, public_input];
    lemma_lc_single(c.0[0].0, inputs, coords);
    lemma_lc_single(c.1[0].0, inputs, coords);
    assert(c.0 =~= seq![(c.0[0].0, 1nat)]);
    assert(c.1 =~= seq![(c.1[0].0, 1nat)]);
    assert(c.2 =~= seq![(c.1[0].0, 1nat)]);
    vstd::arithmetic::div_mod::lemma_small_mod(public_input, modulus());
}

/// The inner relation with no values, for parameter generation.
pub fn factorization_setup() -> (r: RelationBuilder)
    ensures
        r.wf(),
        r.mode_spec() == Mode::Setup,
        r.shape() == factorization_shape(empty_shape()),
{
    let mut cs = RelationBuilder::new(Mode::Setup);
    let circuit = FactorizationCircuit { n: None, p: None, q: None };
    let _ = circuit.synthesize(&mut cs);
    cs
}

/// The inner relation filled with `(N, p, q)`, ready for proving. It is
/// refused when `p * q` differs from `N` in the field.
pub fn factorization_witness(n: FieldElement, p: FieldElement, q: FieldElement) -> (r: Result<
    RelationBuilder,
    PipelineError,
>)
    requires
        n.wf(),
        p.wf(),
        q.wf(),
    ensures
        r.is_ok() == ((p@ * q@) % modulus() == n@),
        r matches Err(e) ==> e == PipelineError::ProofCreationFailure,
        r matches Ok(b) ==> {
            &&& b.wf()
            &&& b.mode_spec() == Mode::Prove
            &&& b.shape() == factorization_shape(empty_shape())
            &&& b.input_values() == seq![1nat, n@]
            &&& b.aux_values() == seq![p@, q@]
            &&& b.satisfied()
        },
{
    let mut cs = RelationBuilder::new(Mode::Prove);
    let circuit = FactorizationCircuit { n: Some(n), p: Some(p), q: Some(q) };
    let _ = circuit.synthesize(&mut cs);
    proof {
        assert(cs.input_values() =~= seq![1nat, n@]);
        assert(cs.aux_values() =~= seq![p@, q@]);
        lemma_factorization_constraint(n@, p@, q@);
        assert(cs.shape().constraints[0] == factorization_constraint(empty_shape()));
    }
    if cs.is_satisfied() {
        Ok(cs)
    } else {
        Err(PipelineError::ProofCreationFailure)
    }
}

/// The outer relation with no values, for parameter generation.
pub fn verifier_setup() -> (r: RelationBuilder)
    ensures
        r.wf(),
        r.mode_spec() == Mode::Setup,
        r.shape() == verifier_shape(empty_shape()),
{
    let mut cs = RelationBuilder::new(Mode::Setup);
    let circuit = VerifierCircuit { proof: None, public_input: None };
    let _ = circuit.synthesize(&mut cs);
    cs
}

/// The outer relation filled with an inner proof and its statement, ready
/// for proving. Whether it is accepted depends on the statement alone:
/// the proof's coordinates are not constrained.
pub fn verifier_witness(proof: ProofPoints, public_input: FieldElement) -> (r: Result<
    RelationBuilder,
    PipelineError,
>)
    requires
        proof.wf(),
        public_input.wf(),
    ensures
        r.is_ok() == (public_input@ == 1),
        r matches Err(e) ==> e == PipelineError::ProofCreationFailure,
        r matches Ok(b) ==> {
            &&& b.wf()
            &&& b.mode_spec() == Mode::Prove
            &&& b.shape() == verifier_shape(empty_shape())
            &&& b.input_values() == seq![1nat, public_input@]
            &&& b.aux_values() == proof.values()
            &&& b.satisfied()
        },
{
    let mut cs = RelationBuilder::new(Mode::Prove);
    let circuit = VerifierCircuit { proof: Some(proof), public_input: Some(public_input) };
    let _ = circuit.synthesize(&mut cs);
    proof {
        assert(cs.input_values() =~= seq![1nat, public_input@]);
        assert(cs.aux_values() =~= proof.values());
        lemma_outer_ignores_proof(proof.values(), public_input@);
        assert(cs.shape().constraints[0] == verifier_constraint(empty_shape()));
    }
    if cs.is_satisfied() {
        Ok(cs)
    } else {
        Err(PipelineError::ProofCreationFailure)
    }
}

/// The stages of one relation's proof lifecycle.
#[derive(Clone, Copy, Debug, PartialEq, Eq, Structural)]
pub enum Stage {
    Uninitialized,
    ParametersGenerated,
    ProofCreated,
    Verified,
}

/// What the backend reports after performing a stage's work.
#[derive(Clone, Copy, Debug, PartialEq, Eq, Structural)]
pub enum StageEvent {
    ParametersGenerated,
    ProofCreated,
    Verified,
    Failed(PipelineError),
}

/// The stage that follows `stage` on `event`, if the order is respected.
pub open spec fn next_stage(stage: Stage, event: StageEvent) -> Option<Stage> {
    match (stage, event) {
        (Stage::Uninitialized, StageEvent::ParametersGenerated) => Some(Stage::ParametersGenerated),
        (Stage::ParametersGenerated, StageEvent::ProofCreated) => Some(Stage::ProofCreated),
        (Stage::ProofCreated, StageEvent::Verified) => Some(Stage::Verified),
        _ => None,
    }
}

/// Advances the lifecycle. A backend failure stops it with that failure;
/// an event out of order stops it with `OutOfOrder`.
pub fn advance(stage: Stage, event: StageEvent) -> (r: Result<Stage, PipelineError>)
    ensures
        event matches StageEvent::Failed(e) ==> r == Err::<Stage, PipelineError>(e),
        !(event is Failed) ==> match next_stage(stage, event) {
            Some(s) => r == Ok::<Stage, PipelineError>(s),
            None => r == Err::<Stage, PipelineError>(PipelineError::OutOfOrder),
        },
{
    match (stage, event) {
        (_, StageEvent::Failed(e)) => Err(e),
        (Stage::Uninitialized, StageEvent::ParametersGenerated) => Ok(Stage::ParametersGenerated),
        (Stage::ParametersGenerated, StageEvent::ProofCreated) => Ok(Stage::ProofCreated),
        (Stage::ProofCreated, StageEvent::Verified) => Ok(Stage::Verified),
        _ => Err(PipelineError::OutOfOrder),
    }
}

/// Whether `given` public inputs fit the relation: verification with any
/// other count is refused before it reaches the backend.
pub fn public_count_matches(cs: &RelationBuilder, given: usize) -> (r: bool)
    ensures
        r == (given + 1 == cs.shape().num_inputs),
{
    given < cs.num_inputs() && given + 1 == cs.num_inputs()
}

/// The decimal text of a proof's coordinates, laid out as `pi_a`, `pi_b`,
/// `pi_c`.
pub struct ProofDocument {
    pub pi_a: Vec<String>,
    pub pi_b: Vec<Vec<String>>,
    pub pi_c: Vec<String>,
}

/// The eight coordinates, in the order `pi_a`, `pi_b` row by row, `pi_c`.
pub open spec fn document_texts(d: ProofDocument) -> Seq<Seq<char>> {
    seq![
        d.pi_a@[0]@,
        d.pi_a@[1]@,
        d.pi_b@[0]@[0]@,
        d.pi_b@[0]@[1]@,
        d.pi_b@[1]@[0]@,
        d.pi_b@[1]@[1]@,
        d.pi_c@[0]@,
        d.pi_c@[1]@,
    ]
}

/// Renders eight coordinates, each given as little-endian bytes, as
/// canonical decimal numerals.
pub fn proof_document(coords: &Vec<Vec<u8>>) -> (r: ProofDocument)
    requires
        coords@.len() == 8,
    ensures
        r.pi_a@.len() == 2,
        r.pi_b@.len() == 2,
        r.pi_b@[0]@.len() == 2,
        r.pi_b@[1]@.len() == 2,
        r.pi_c@.len() == 2,
        forall|i: int|
            0 <= i < 8 ==> #[trigger] document_texts(r)[i] == numeral_of(le_value(coords@[i]@)),
{
    let a0 = decimal_of_le_bytes(&coords[0]);
    let a1 = decimal_of_le_bytes(&coords[1]);
    let b00 = decimal_of_le_bytes(&coords[2]);
    let b01 = decimal_of_le_bytes(&coords[3]);
    let b10 = decimal_of_le_bytes(&coords[4]);
    let b11 = decimal_of_le_bytes(&coords[5]);
    let c0 = decimal_of_le_bytes(&coords[6]);
    let c1 = decimal_of_le_bytes(&coords[7]);
    let r = ProofDocument {
        pi_a: vec![a0, a1],
        pi_b: vec![vec![b00, b01], vec![b10, b11]],
        pi_c: vec![c0, c1],
    };
    r
}

/// Renders public inputs as canonical decimal numerals, in order.
pub fn public_document(inputs: &Vec<FieldElement>) -> (r: Vec<String>)
    ensures
        r@.len() == inputs@.len(),
        forall|i: int| 0 <= i < r@.len() ==> (#[trigger] r@[i])@ == numeral_of(inputs@[i]@),
{
    let mut out: Vec<String> = Vec::new();
    let mut i: usize = 0;
    while i < inputs.len()
        invariant
            i <= inputs@.len(),
            out@.len() == i,
            forall|j: int| 0 <= j < i ==> (#[trigger] out@[j])@ == numeral_of(inputs@[j]@),
        decreases inputs@.len() - i,
    {
        out.push(inputs[i].to_decimal());
        i = i + 1;
    }
    out
}

} // verus!
