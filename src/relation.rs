use vstd::prelude::*;

use crate::field::{modulus, FieldElement};

verus! {

/// Whether a variable belongs to the statement or to the witness.
#[derive(Clone, Copy, Debug, PartialEq, Eq, Structural)]
pub enum VarKind {
    /// A public input; input 0 is the constant one.
    Input,
    /// A private (auxiliary) witness value.
    Aux,
}

/// A handle to an allocated slot of a relation.
#[derive(Clone, Copy, Debug, PartialEq, Eq, Structural)]
pub struct Variable {
    pub kind: VarKind,
    pub index: usize,
}

/// How a builder treats values: parameter generation sees no values,
/// proving needs all of them.
#[derive(Clone, Copy, Debug, PartialEq, Eq, Structural)]
pub enum Mode {
    Setup,
    Prove,
}

/// Failure while building a relation.
#[derive(Clone, Copy, Debug, PartialEq, Eq, Structural)]
pub enum SynthesisError {
    /// A value was needed in proving mode and was absent.
    AssignmentMissing,
}

/// A linear combination as a sequence of (variable, coefficient) terms.
pub type LcView = Seq<(Variable, nat)>;

/// A constraint `A * B = C` as its three linear combinations.
pub type ConstraintView = (LcView, LcView, LcView);

/// The shape of a relation: how many variables of each kind, and its
/// constraints. Input 0, the constant one, is counted.
pub struct RelationShape {
    pub num_inputs: nat,
    pub num_aux: nat,
    pub constraints: Seq<ConstraintView>,
}

/// A sum of variables times field coefficients.
#[derive(Clone, Debug)]
pub struct LinearCombination {
    pub terms: Vec<(Variable, FieldElement)>,
}

impl View for LinearCombination {
    type V = LcView;

    open spec fn view(&self) -> LcView {
        self.terms@.map_values(|t: (Variable, FieldElement)| (t.0, t.1@))
    }
}

impl LinearCombination {
    pub open spec fn wf(&self) -> bool {
        forall|i: int| 0 <= i < self.terms@.len() ==> (#[trigger] self.terms@[i]).1.wf()
    }

    /// The empty combination, worth zero.
    pub fn zero() -> (r: LinearCombination)
        ensures
            r.wf(),
            r@ == Seq::<(Variable, nat)>::empty(),
    {
        let r = LinearCombination { terms: Vec::new() };
        assert(r@ =~= Seq::<(Variable, nat)>::empty());
        r
    }

    /// The combination with one more term `coeff * var`.
    pub fn with_term(self, var: Variable, coeff: FieldElement) -> (r: LinearCombination)
        requires
            self.wf(),
            coeff.wf(),
        ensures
            r.wf(),
            r@ == self@.push((var, coeff@)),
    {
        let mut terms = self.terms;
        terms.push((var, coeff));
        let r = LinearCombination { terms };
        assert(r@ =~= self@.push((var, coeff@)));
        r
    }

    /// The combination `var` with coefficient one.
    pub fn of(var: Variable) -> (r: LinearCombination)
        ensures
            r.wf(),
            r@ == seq![(var, 1nat)],
    {
        let r = LinearCombination::zero().with_term(var, FieldElement::one());
        assert(r@ =~= seq![(var, 1nat)]);
        r
    }
}

/// One multiplicative constraint `a * b = c`.
#[derive(Clone, Debug)]
pub struct Constraint {
    pub a: LinearCombination,
    pub b: LinearCombination,
    pub c: LinearCombination,
}

impl View for Constraint {
    type V = ConstraintView;

    open spec fn view(&self) -> ConstraintView {
        (self.a@, self.b@, self.c@)
    }
}

pub open spec fn var_in_range(v: Variable, num_inputs: nat, num_aux: nat) -> bool {
    match v.kind {
        VarKind::Input => v.index < num_inputs,
        VarKind::Aux => v.index < num_aux,
    }
}

pub open spec fn lc_in_range(lc: LcView, num_inputs: nat, num_aux: nat) -> bool {
    forall|i: int| 0 <= i < lc.len() ==> var_in_range((#[trigger] lc[i]).0, num_inputs, num_aux)
}

/// The value of a variable under an assignment of inputs and witness.
pub open spec fn var_value(v: Variable, inputs: Seq<nat>, aux: Seq<nat>) -> nat {
    match v.kind {
        VarKind::Input => inputs[v.index as int],
        VarKind::Aux => aux[v.index as int],
    }
}

/// The value of a linear combination in the field.
pub open spec fn lc_value(lc: LcView, inputs: Seq<nat>, aux: Seq<nat>) -> nat
    decreases lc.len(),
{
    if lc.len() == 0 {
        0
    } else {
        (lc_value(lc.drop_last(), inputs, aux) + lc.last().1 * var_value(lc.last().0, inputs, aux))
            % modulus()
    }
}

pub open spec fn constraint_holds(c: ConstraintView, inputs: Seq<nat>, aux: Seq<nat>) -> bool {
    (lc_value(c.0, inputs, aux) * lc_value(c.1, inputs, aux)) % modulus() == lc_value(
        c.2,
        inputs,
        aux,
    )
}

/// Records the variables and constraints of a relation and, when proving,
/// the values assigned to them.
pub struct RelationBuilder {
    mode: Mode,
    num_inputs: usize,
    num_aux: usize,
    inputs: Vec<FieldElement>,
    aux: Vec<FieldElement>,
    constraints: Vec<Constraint>,
}

impl RelationBuilder {
    pub closed spec fn mode_spec(&self) -> Mode {
        self.mode
    }

    pub closed spec fn shape(&self) -> RelationShape {
        RelationShape {
            num_inputs: self.num_inputs as nat,
            num_aux: self.num_aux as nat,
            constraints: self.constraints@.map_values(|c: Constraint| c@),
        }
    }

    /// The values of the inputs, the constant one first (empty in setup mode).
    pub closed spec fn input_values(&self) -> Seq<nat> {
        self.inputs@.map_values(|x: FieldElement| x@)
    }

    /// The values of the witness (empty in setup mode).
    pub closed spec fn aux_values(&self) -> Seq<nat> {
        self.aux@.map_values(|x: FieldElement| x@)
    }

    pub closed spec fn wf(&self) -> bool {
        &&& self.num_inputs >= 1
        &&& match self.mode {
            Mode::Setup => self.inputs@.len() == 0 && self.aux@.len() == 0,
            Mode::Prove => {
                &&& self.inputs@.len() == self.num_inputs
                &&& self.aux@.len() == self.num_aux
                &&& self.inputs@[0]@ == 1
            },
        }
        &&& forall|i: int| 0 <= i < self.inputs@.len() ==> (#[trigger] self.inputs@[i]).wf()
        &&& forall|i: int| 0 <= i < self.aux@.len() ==> (#[trigger] self.aux@[i]).wf()
        &&& forall|i: int|
            0 <= i < self.constraints@.len() ==> {
                let c = #[trigger] self.constraints@[i];
                &&& c.a.wf() && c.b.wf() && c.c.wf()
                &&& lc_in_range(c.a@, self.num_inputs as nat, self.num_aux as nat)
                &&& lc_in_range(c.b@, self.num_inputs as nat, self.num_aux as nat)
                &&& lc_in_range(c.c@, self.num_inputs as nat, self.num_aux as nat)
            }
    }

    /// Every constraint holds under the recorded values.
    pub open spec fn satisfied(&self) -> bool {
        forall|i: int|
            0 <= i < self.shape().constraints.len() ==> constraint_holds(
                #[trigger] self.shape().constraints[i],
                self.input_values(),
                self.aux_values(),
            )
    }

    /// Room for `k` more allocations of each kind.
    pub open spec fn has_room(&self, k: nat) -> bool {
        self.shape().num_inputs + k <= usize::MAX && self.shape().num_aux + k <= usize::MAX
    }

    /// A builder with only the constant-one input.
    pub fn new(mode: Mode) -> (r: RelationBuilder)
        ensures
            r.wf(),
            r.mode_spec() == mode,
            r.shape() == (RelationShape {
                num_inputs: 1,
                num_aux: 0,
                constraints: Seq::<ConstraintView>::empty(),
            }),
            mode == Mode::Prove ==> r.input_values() == seq![1nat],
            r.aux_values() == Seq::<nat>::empty(),
    {
        let mut inputs: Vec<FieldElement> = Vec::new();
        if mode == Mode::Prove {
            inputs.push(FieldElement::one());
        }
        let r = RelationBuilder {
            mode,
            num_inputs: 1,
            num_aux: 0,
            inputs,
            aux: Vec::new(),
            constraints: Vec::new(),
        };
        assert(r.shape().constraints =~= Seq::<ConstraintView>::empty());
        assert(r.aux_values() =~= Seq::<nat>::empty());
        if mode == Mode::Prove {
            assert(r.input_values() =~= seq![1nat]);
        }
        r
    }

    /// The constant-one input.
    pub fn one() -> (r: Variable)
        ensures
            r == (Variable { kind: VarKind::Input, index: 0 }),
    {
        Variable { kind: VarKind::Input, index: 0 }
    }

    pub fn mode(&self) -> (r: Mode)
        ensures
            r == self.mode_spec(),
    {
        self.mode
    }

    pub fn num_inputs(&self) -> (r: usize)
        ensures
            r == self.shape().num_inputs,
    {
        self.num_inputs
    }

    pub fn num_aux(&self) -> (r: usize)
        ensures
            r == self.shape().num_aux,
    {
        self.num_aux
    }

    /// The recorded constraints.
    pub fn constraints(&self) -> (r: &Vec<Constraint>)
        ensures
            r@.map_values(|c: Constraint| c@) == self.shape().constraints,
    {
        &self.constraints
    }

    /// The value of input `i` (the constant one is input 0), when proving.
    pub fn input_value(&self, i: usize) -> (r: Option<FieldElement>)
        requires
            self.wf(),
        ensures
            r matches Some(x) ==> i < self.input_values().len() && x@ == self.input_values()[i as int],
            r.is_none() == (i >= self.input_values().len()),
    {
        if i < self.inputs.len() {
            Some(self.inputs[i])
        } else {
            None
        }
    }

    /// The value of witness slot `i`, when proving.
    pub fn aux_value(&self, i: usize) -> (r: Option<FieldElement>)
        requires
            self.wf(),
        ensures
            r matches Some(x) ==> i < self.aux_values().len() && x@ == self.aux_values()[i as int],
            r.is_none() == (i >= self.aux_values().len()),
    {
        if i < self.aux.len() {
            Some(self.aux[i])
        } else {
            None
        }
    }

    /// Allocates a witness slot. Parameter generation takes no value;
    /// proving fails without one.
    pub fn alloc_aux(&mut self, value: Option<FieldElement>) -> (r: Result<Variable, SynthesisError>)
        requires
            old(self).wf(),
            old(self).has_room(1),
            value matches Some(v) ==> v.wf(),
        ensures
            final(self).wf(),
            final(self).mode_spec() == old(self).mode_spec(),
            (old(self).mode_spec() == Mode::Prove && value.is_none()) ==> r == Err::<
                Variable,
                SynthesisError,
            >(SynthesisError::AssignmentMissing) && *final(self) == *old(self),
            (old(self).mode_spec() == Mode::Setup || value.is_some()) ==> {
                &&& r == Ok::<Variable, SynthesisError>(
                    Variable { kind: VarKind::Aux, index: old(self).shape().num_aux as usize },
                )
                &&& final(self).shape() == (RelationShape {
                    num_inputs: old(self).shape().num_inputs,
                    num_aux: old(self).shape().num_aux + 1,
                    constraints: old(self).shape().constraints,
                })
                &&& final(self).input_values() == old(self).input_values()
                &&& final(self).aux_values() == if old(self).mode_spec() == Mode::Setup {
                    old(self).aux_values()
                } else {
                    old(self).aux_values().push(value.unwrap()@)
                }
            },
    {
        if self.mode == Mode::Prove {
            match value {
                None => {
                    return Err(SynthesisError::AssignmentMissing);
                },
                Some(v) => {
                    self.aux.push(v);
                },
            }
        }
        let var = Variable { kind: VarKind::Aux, index: self.num_aux };
        self.num_aux = self.num_aux + 1;
        proof {
            assert(self.aux_values() =~= if old(self).mode_spec() == Mode::Setup {
                old(self).aux_values()
            } else {
                old(self).aux_values().push(value.unwrap()@)
            });
            assert(self.input_values() =~= old(self).input_values());
            assert forall|i: int| 0 <= i < self.constraints@.len() implies {
                let c = #[trigger] self.constraints@[i];
                &&& lc_in_range(c.a@, self.num_inputs as nat, self.num_aux as nat)
                &&& lc_in_range(c.b@, self.num_inputs as nat, self.num_aux as nat)
                &&& lc_in_range(c.c@, self.num_inputs as nat, self.num_aux as nat)
            } by {
                let c = self.constraints@[i];
                assert(lc_in_range(c.a@, old(self).num_inputs as nat, old(self).num_aux as nat));
                assert(lc_in_range(c.b@, old(self).num_inputs as nat, old(self).num_aux as nat));
                assert(lc_in_range(c.c@, old(self).num_inputs as nat, old(self).num_aux as nat));
            }
        }
        Ok(var)
    }

    /// Allocates a public input. Parameter generation takes no value;
    /// proving fails without one.
    pub fn alloc_input(&mut self, value: Option<FieldElement>) -> (r: Result<
        Variable,
        SynthesisError,
    >)
        requires
            old(self).wf(),
            old(self).has_room(1),
            value matches Some(v) ==> v.wf(),
        ensures
            final(self).wf(),
            final(self).mode_spec() == old(self).mode_spec(),
            (old(self).mode_spec() == Mode::Prove && value.is_none()) ==> r == Err::<
                Variable,
                SynthesisError,
            >(SynthesisError::AssignmentMissing) && *final(self) == *old(self),
            (old(self).mode_spec() == Mode::Setup || value.is_some()) ==> {
                &&& r == Ok::<Variable, SynthesisError>(
                    Variable { kind: VarKind::Input, index: old(self).shape().num_inputs as usize },
                )
                &&& final(self).shape() == (RelationShape {
                    num_inputs: old(self).shape().num_inputs + 1,
                    num_aux: old(self).shape().num_aux,
                    constraints: old(self).shape().constraints,
                })
                &&& final(self).aux_values() == old(self).aux_values()
                &&& final(self).input_values() == if old(self).mode_spec() == Mode::Setup {
                    old(self).input_values()
                } else {
                    old(self).input_values().push(value.unwrap()@)
                }
            },
    {
        if self.mode == Mode::Prove {
            match value {
                None => {
                    return Err(SynthesisError::AssignmentMissing);
                },
                Some(v) => {
                    self.inputs.push(v);
                },
            }
        }
        let var = Variable { kind: VarKind::Input, index: self.num_inputs };
        self.num_inputs = self.num_inputs + 1;
        proof {
            assert(self.input_values() =~= if old(self).mode_spec() == Mode::Setup {
                old(self).input_values()
            } else {
                old(self).input_values().push(value.unwrap()@)
            });
            assert(self.aux_values() =~= old(self).aux_values());
            assert forall|i: int| 0 <= i < self.constraints@.len() implies {
                let c = #[trigger] self.constraints@[i];
                &&& lc_in_range(c.a@, self.num_inputs as nat, self.num_aux as nat)
                &&& lc_in_range(c.b@, self.num_inputs as nat, self.num_aux as nat)
                &&& lc_in_range(c.c@, self.num_inputs as nat, self.num_aux as nat)
            } by {
                let c = self.constraints@[i];
                assert(lc_in_range(c.a@, old(self).num_inputs as nat, old(self).num_aux as nat));
                assert(lc_in_range(c.b@, old(self).num_inputs as nat, old(self).num_aux as nat));
                assert(lc_in_range(c.c@, old(self).num_inputs as nat, old(self).num_aux as nat));
            }
        }
        Ok(var)
    }

    /// Adds the constraint `a * b = c`.
    pub fn enforce(&mut self, a: LinearCombination, b: LinearCombination, c: LinearCombination)
        requires
            old(self).wf(),
            a.wf(),
            b.wf(),
            c.wf(),
            lc_in_range(a@, old(self).shape().num_inputs, old(self).shape().num_aux),
            lc_in_range(b@, old(self).shape().num_inputs, old(self).shape().num_aux),
            lc_in_range(c@, old(self).shape().num_inputs, old(self).shape().num_aux),
        ensures
            final(self).wf(),
            final(self).mode_spec() == old(self).mode_spec(),
            final(self).shape() == (RelationShape {
                num_inputs: old(self).shape().num_inputs,
                num_aux: old(self).shape().num_aux,
                constraints: old(self).shape().constraints.push((a@, b@, c@)),
            }),
            final(self).input_values() == old(self).input_values(),
            final(self).aux_values() == old(self).aux_values(),
    {
        self.constraints.push(Constraint { a, b, c });
        assert(self.shape().constraints =~= old(self).shape().constraints.push((a@, b@, c@)));
    }

    fn var_elem(&self, v: Variable) -> (r: FieldElement)
        requires
            self.wf(),
            self.mode_spec() == Mode::Prove,
            var_in_range(v, self.shape().num_inputs, self.shape().num_aux),
        ensures
            r.wf(),
            r@ == var_value(v, self.input_values(), self.aux_values()),
    {
        match v.kind {
            VarKind::Input => self.inputs[v.index],
            VarKind::Aux => self.aux[v.index],
        }
    }

    /// The value of a linear combination under the recorded values.
    pub fn eval(&self, lc: &LinearCombination) -> (r: FieldElement)
        requires
            self.wf(),
            self.mode_spec() == Mode::Prove,
            lc.wf(),
            lc_in_range(lc@, self.shape().num_inputs, self.shape().num_aux),
        ensures
            r.wf(),
            r@ == lc_value(lc@, self.input_values(), self.aux_values()),
    {
        let mut acc = FieldElement::zero();
        let mut i: usize = 0;
        proof {
            assert(lc@.subrange(0, 0) =~= Seq::<(Variable, nat)>::empty());
        }
        while i < lc.terms.len()
            invariant
                self.wf(),
                self.mode_spec() == Mode::Prove,
                lc.wf(),
                lc_in_range(lc@, self.shape().num_inputs, self.shape().num_aux),
                i <= lc.terms@.len(),
                acc.wf(),
                acc@ == lc_value(lc@.subrange(0, i as int), self.input_values(), self.aux_values()),
            decreases lc.terms@.len() - i,
        {
            let (var, coeff) = lc.terms[i];
            assert(lc@[i as int] == (var, coeff@));
            let value = self.var_elem(var);
            let prod = coeff.mul(&value);
            let ghost prev = acc@;
            acc = acc.add(&prod);
            proof {
                let m = modulus();
                vstd::arithmetic::div_mod::lemma_add_mod_noop(
                    prev as int,
                    (coeff@ * value@) as int,
                    m as int,
                );
                vstd::arithmetic::div_mod::lemma_small_mod(prev, m);
                vstd::arithmetic::div_mod::lemma_mod_twice((coeff@ * value@) as int, m as int);
                assert(lc@.subrange(0, i + 1).drop_last() =~= lc@.subrange(0, i as int));
            }
            i = i + 1;
        }
        assert(lc@.subrange(0, i as int) =~= lc@);
        acc
    }

    /// Whether every constraint holds under the recorded values.
    pub fn is_satisfied(&self) -> (r: bool)
        requires
            self.wf(),
            self.mode_spec() == Mode::Prove,
        ensures
            r == self.satisfied(),
    {
        let mut i: usize = 0;
        while i < self.constraints.len()
            invariant
                self.wf(),
                self.mode_spec() == Mode::Prove,
                i <= self.constraints@.len(),
                forall|j: int|
                    0 <= j < i ==> constraint_holds(
                        #[trigger] self.shape().constraints[j],
                        self.input_values(),
                        self.aux_values(),
                    ),
            decreases self.constraints@.len() - i,
        {
            let c = &self.constraints[i];
            let a = self.eval(&c.a);
            let b = self.eval(&c.b);
            let cv = self.eval(&c.c);
            let ab = a.mul(&b);
            if !ab.same(&cv) {
                assert(!constraint_holds(
                    self.shape().constraints[i as int],
                    self.input_values(),
                    self.aux_values(),
                ));
                return false;
            }
            i = i + 1;
        }
        true
    }

    /// The public inputs of a filled relation, without the constant one, in
    /// allocation order.
    pub fn public_inputs(&self) -> (r: Vec<FieldElement>)
        requires
            self.wf(),
            self.mode_spec() == Mode::Prove,
        ensures
            r@.len() + 1 == self.input_values().len(),
            forall|i: int|
                0 <= i < r@.len() ==> (#[trigger] r@[i]).wf() && r@[i]@ == self.input_values()[i
                    + 1],
    {
        let mut out: Vec<FieldElement> = Vec::new();
        let mut i: usize = 1;
        while i < self.num_inputs
            invariant
                self.wf(),
                self.mode_spec() == Mode::Prove,
                1 <= i <= self.input_values().len(),
                out@.len() + 1 == i,
                forall|j: int|
                    0 <= j < out@.len() ==> (#[trigger] out@[j]).wf() && out@[j]@
                        == self.input_values()[j + 1],
            decreases self.input_values().len() - i,
        {
            out.push(self.inputs[i]);
            i = i + 1;
        }
        out
    }
}

} // verus!
