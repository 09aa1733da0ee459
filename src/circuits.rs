use vstd::prelude::*;

use crate::decimal::le_value;
use crate::field::{modulus, FieldElement};
use crate::relation::{
    lc_value, var_value, ConstraintView, LinearCombination, Mode, RelationBuilder, RelationShape,
    SynthesisError, VarKind, Variable,
};

verus! {

/// The public input at `i`.
pub open spec fn input_var(i: nat) -> Variable {
    Variable { kind: VarKind::Input, index: i as usize }
}

/// The witness slot at `i`.
pub open spec fn aux_var(i: nat) -> Variable {
    Variable { kind: VarKind::Aux, index: i as usize }
}

/// The constraint `p * q = N` over the slots that the factorization
/// relation allocates on top of `base`.
pub open spec fn factorization_constraint(base: RelationShape) -> ConstraintView {
    (
        seq![(aux_var(base.num_aux), 1nat)],
        seq![(aux_var(base.num_aux + 1), 1nat)],
        seq![(input_var(base.num_inputs), 1nat)],
    )
}

/// The shape after the factorization relation is built on top of `base`:
/// one public input `N`, two witness slots `p` and `q`, one constraint.
pub open spec fn factorization_shape(base: RelationShape) -> RelationShape {
    RelationShape {
        num_inputs: base.num_inputs + 1,
        num_aux: base.num_aux + 2,
        constraints: base.constraints.push(factorization_constraint(base)),
    }
}

/// The constraint `public_input * 1 = 1` of the placeholder outer relation.
pub open spec fn verifier_constraint(base: RelationShape) -> ConstraintView {
    (
        seq![(input_var(base.num_inputs), 1nat)],
        seq![(input_var(0), 1nat)],
        seq![(input_var(0), 1nat)],
    )
}

/// The shape after the outer relation is built on top of `base`: eight
/// witness slots for the proof's coordinates, one public input, and one
/// constraint that does not mention the proof.
pub open spec fn verifier_shape(base: RelationShape) -> RelationShape {
    RelationShape {
        num_inputs: base.num_inputs + 1,
        num_aux: base.num_aux + 8,
        constraints: base.constraints.push(verifier_constraint(base)),
    }
}

/// The shape of a fresh builder.
pub open spec fn empty_shape() -> RelationShape {
    RelationShape { num_inputs: 1, num_aux: 0, constraints: Seq::<ConstraintView>::empty() }
}

/// A combination of one variable with coefficient one is worth that
/// variable's value.
pub proof fn lemma_lc_single(v: Variable, inputs: Seq<nat>, aux: Seq<nat>)
    requires
        var_value(v, inputs, aux) < modulus(),
    ensures
        lc_value(seq![(v, 1nat)], inputs, aux) == var_value(v, inputs, aux),
{
    let lc = seq![(v, 1nat)];
    reveal_with_fuel(lc_value, 2);
    assert(lc.drop_last() =~= Seq::<(Variable, nat)>::empty());
    assert(lc.last() == (v, 1nat));
    assert(lc_value(lc.drop_last(), inputs, aux) == 0);
    vstd::arithmetic::div_mod::lemma_small_mod(var_value(v, inputs, aux), modulus());
}

/// The statement "N is the product of p and q": `N` public, `p` and `q`
/// private. All three are absent when parameters are generated.
#[derive(Clone, Debug)]
pub struct FactorizationCircuit {
    pub n: Option<FieldElement>,
    pub p: Option<FieldElement>,
    pub q: Option<FieldElement>,
}

impl FactorizationCircuit {
    pub open spec fn wf(&self) -> bool {
        &&& self.n matches Some(x) ==> x.wf()
        &&& self.p matches Some(x) ==> x.wf()
        &&& self.q matches Some(x) ==> x.wf()
    }

    pub open spec fn filled(&self) -> bool {
        self.n.is_some() && self.p.is_some() && self.q.is_some()
    }

    /// Allocates `N` as a public input, `p` and `q` as witness, and
    /// enforces `p * q = N`.
    pub fn synthesize(&self, cs: &mut RelationBuilder) -> (r: Result<(), SynthesisError>)
        requires
            old(cs).wf(),
            old(cs).has_room(2),
            self.wf(),
        ensures
            final(cs).mode_spec() == old(cs).mode_spec(),
            r.is_ok() == (old(cs).mode_spec() == Mode::Setup || self.filled()),
            r matches Err(e) ==> e == SynthesisError::AssignmentMissing,
            r is Ok ==> {
                &&& final(cs).wf()
                &&& final(cs).shape() == factorization_shape(old(cs).shape())
                &&& old(cs).mode_spec() == Mode::Setup ==> {
                    &&& final(cs).input_values() == old(cs).input_values()
                    &&& final(cs).aux_values() == old(cs).aux_values()
                }
                &&& old(cs).mode_spec() == Mode::Prove ==> {
                    &&& final(cs).input_values() == old(cs).input_values().push(
                        self.n.unwrap()@,
                    )
                    &&& final(cs).aux_values() == old(cs).aux_values().push(
                        self.p.unwrap()@,
                    ).push(self.q.unwrap()@)
                }
            },
    {
        let n_var = cs.alloc_input(self.n)?;
        let p_var = cs.alloc_aux(self.p)?;
        let q_var = cs.alloc_aux(self.q)?;
        cs.enforce(LinearCombination::of(p_var), LinearCombination::of(q_var), LinearCombination::of(n_var));
        proof {
            assert(cs.shape().constraints =~= factorization_shape(old(cs).shape()).constraints);
        }
        Ok(())
    }
}

/// The coordinates of a proof, as field elements of the relation.
#[derive(Clone, Copy, Debug)]
pub struct ProofPoints {
    pub pi_a: [FieldElement; 2],
    pub pi_b: [[FieldElement; 2]; 2],
    pub pi_c: [FieldElement; 2],
}

impl ProofPoints {
    pub open spec fn wf(&self) -> bool {
        &&& self.pi_a[0].wf() && self.pi_a[1].wf()
        &&& self.pi_b[0][0].wf() && self.pi_b[0][1].wf()
        &&& self.pi_b[1][0].wf() && self.pi_b[1][1].wf()
        &&& self.pi_c[0].wf() && self.pi_c[1].wf()
    }

    /// The coordinates in the order in which the outer relation allocates them.
    pub open spec fn values(&self) -> Seq<nat> {
        seq![
            self.pi_a[0]@,
            self.pi_a[1]@,
            self.pi_b[0][0]@,
            self.pi_b[0][1]@,
            self.pi_b[1][0]@,
            self.pi_b[1][1]@,
            self.pi_c[0]@,
            self.pi_c[1]@,
        ]
    }
}

impl ProofPoints {
    /// Embeds eight coordinates, each given as at most 64 little-endian
    /// bytes, in the field, in the order `pi_a`, `pi_b` row by row, `pi_c`.
    pub fn from_coordinates(coords: &Vec<Vec<u8>>) -> (r: ProofPoints)
        requires
            coords@.len() == 8,
            forall|i: int| 0 <= i < 8 ==> (#[trigger] coords@[i])@.len() <= 64,
        ensures
            r.wf(),
            forall|i: int| 0 <= i < 8 ==> #[trigger] r.values()[i] == le_value(coords@[i]@) % modulus(),
    {
        let a0 = FieldElement::reduce_le_bytes(&coords[0]);
        let a1 = FieldElement::reduce_le_bytes(&coords[1]);
        let b00 = FieldElement::reduce_le_bytes(&coords[2]);
        let b01 = FieldElement::reduce_le_bytes(&coords[3]);
        let b10 = FieldElement::reduce_le_bytes(&coords[4]);
        let b11 = FieldElement::reduce_le_bytes(&coords[5]);
        let c0 = FieldElement::reduce_le_bytes(&coords[6]);
        let c1 = FieldElement::reduce_le_bytes(&coords[7]);
        ProofPoints { pi_a: [a0, a1], pi_b: [[b00, b01], [b10, b11]], pi_c: [c0, c1] }
    }
}

/// The outer relation, meant to attest that a proof of the inner relation
/// verifies. It allocates the proof's coordinates as witness and the
/// statement as a public input, but its only constraint is
/// `public_input = 1`: the coordinates are left unconstrained, so it is not
/// a sound recursive verifier.
#[derive(Clone, Debug)]
pub struct VerifierCircuit {
    pub proof: Option<ProofPoints>,
    pub public_input: Option<FieldElement>,
}

impl VerifierCircuit {
    pub open spec fn wf(&self) -> bool {
        &&& self.proof matches Some(x) ==> x.wf()
        &&& self.public_input matches Some(x) ==> x.wf()
    }

    pub open spec fn filled(&self) -> bool {
        self.proof.is_some() && self.public_input.is_some()
    }

    /// Allocates the proof's eight coordinates as witness and the public
    /// input, and enforces `public_input * 1 = 1`.
    pub fn synthesize(&self, cs: &mut RelationBuilder) -> (r: Result<(), SynthesisError>)
        requires
            old(cs).wf(),
            old(cs).has_room(9),
            self.wf(),
        ensures
            final(cs).mode_spec() == old(cs).mode_spec(),
            r.is_ok() == (old(cs).mode_spec() == Mode::Setup || self.filled()),
            r matches Err(e) ==> e == SynthesisError::AssignmentMissing,
            r is Ok ==> {
                &&& final(cs).wf()
                &&& final(cs).shape() == verifier_shape(old(cs).shape())
                &&& old(cs).mode_spec() == Mode::Setup ==> {
                    &&& final(cs).input_values() == old(cs).input_values()
                    &&& final(cs).aux_values() == old(cs).aux_values()
                }
                &&& old(cs).mode_spec() == Mode::Prove ==> {
                    &&& final(cs).input_values() == old(cs).input_values().push(
                        self.public_input.unwrap()@,
                    )
                    &&& final(cs).aux_values() == old(cs).aux_values() + self.proof.unwrap().values()
                }
            },
    {
        let ghost aux0 = old(cs).aux_values();
        let (a0, a1, b00, b01, b10, b11, c0, c1) = match self.proof {
            Some(pr) => (
                Some(pr.pi_a[0]),
                Some(pr.pi_a[1]),
                Some(pr.pi_b[0][0]),
                Some(pr.pi_b[0][1]),
                Some(pr.pi_b[1][0]),
                Some(pr.pi_b[1][1]),
                Some(pr.pi_c[0]),
                Some(pr.pi_c[1]),
            ),
            None => (None, None, None, None, None, None, None, None),
        };
        let _ = cs.alloc_aux(a0)?;
        let _ = cs.alloc_aux(a1)?;
        let _ = cs.alloc_aux(b00)?;
        let _ = cs.alloc_aux(b01)?;
        let _ = cs.alloc_aux(b10)?;
        let _ = cs.alloc_aux(b11)?;
        let _ = cs.alloc_aux(c0)?;
        let _ = cs.alloc_aux(c1)?;
        let input_var = cs.alloc_input(self.public_input)?;
        let one = RelationBuilder::one();
        cs.enforce(LinearCombination::of(input_var), LinearCombination::of(one), LinearCombination::of(one));
        proof {
            assert(cs.shape().constraints =~= verifier_shape(old(cs).shape()).constraints);
            if old(cs).mode_spec() == Mode::Prove {
                assert(cs.aux_values() =~= aux0 + self.proof.unwrap().values());
            }
        }
        Ok(())
    }
}

} // verus!
