//! The constraint recorder: what one circuit's synthesis leaves behind.

use vstd::prelude::*;
use crate::density::DensityTracker;
use crate::error::SynthesisFault;
use crate::scalar::Scalar;
use crate::variable::{accumulate, eval_terms, lemma_mark_terms, mark_terms, term_ok, term_value, terms_ok, Variable};

verus! {

/// The contents of a recorder.
pub struct Recorded<S> {
    /// The evaluations of the A, B and C combinations, one per constraint.
    pub a: Seq<S>,
    pub b: Seq<S>,
    pub c: Seq<S>,
    /// The values of the public inputs and of the auxiliary variables.
    pub inputs: Seq<S>,
    pub aux: Seq<S>,
    /// Which auxiliary variables take part in A, and which inputs and
    /// auxiliary variables take part in B.
    pub a_aux_density: Seq<bool>,
    pub b_input_density: Seq<bool>,
    pub b_aux_density: Seq<bool>,
}

impl<S> Recorded<S> {
    /// The three evaluation sequences have one entry per constraint, and
    /// each tracker has one bit per variable of its category.
    pub open spec fn shaped(self) -> bool {
        &&& self.a.len() == self.b.len()
        &&& self.a.len() == self.c.len()
        &&& self.b_input_density.len() == self.inputs.len()
        &&& self.a_aux_density.len() == self.aux.len()
        &&& self.b_aux_density.len() == self.aux.len()
    }

    /// `self` continues `before`: what was recorded is still there, in
    /// place, and every density bit that was set is still set.
    pub open spec fn extends(self, before: Recorded<S>) -> bool {
        &&& before.a.is_prefix_of(self.a)
        &&& before.b.is_prefix_of(self.b)
        &&& before.c.is_prefix_of(self.c)
        &&& before.inputs.is_prefix_of(self.inputs)
        &&& before.aux.is_prefix_of(self.aux)
        &&& forall|j: int| 0 <= j < before.a_aux_density.len() && before.a_aux_density[j] ==> #[trigger] self.a_aux_density[j]
        &&& forall|j: int| 0 <= j < before.b_input_density.len() && before.b_input_density[j] ==> #[trigger] self.b_input_density[j]
        &&& forall|j: int| 0 <= j < before.b_aux_density.len() && before.b_aux_density[j] ==> #[trigger] self.b_aux_density[j]
    }
}

/// What `enforce` leaves of `before` when every term can be evaluated: one
/// more triple, and the density of A's auxiliary variables and of B's
/// inputs and auxiliary variables brought up to date.
pub open spec fn enforced<S: Scalar>(
    before: Recorded<S>,
    a_terms: Seq<(Variable, S)>,
    b_terms: Seq<(Variable, S)>,
    c_terms: Seq<(Variable, S)>,
) -> Recorded<S> {
    Recorded {
        a: before.a.push(eval_terms(a_terms, before.inputs, before.aux)),
        b: before.b.push(eval_terms(b_terms, before.inputs, before.aux)),
        c: before.c.push(eval_terms(c_terms, before.inputs, before.aux)),
        inputs: before.inputs,
        aux: before.aux,
        a_aux_density: mark_terms(before.a_aux_density, a_terms, true),
        b_input_density: mark_terms(before.b_input_density, b_terms, false),
        b_aux_density: mark_terms(before.b_aux_density, b_terms, true),
    }
}

/// The recorder of one circuit.
pub struct ProvingAssignment<S> {
    a_aux_density: DensityTracker,
    b_input_density: DensityTracker,
    b_aux_density: DensityTracker,
    a: Vec<S>,
    b: Vec<S>,
    c: Vec<S>,
    input_assignment: Vec<S>,
    aux_assignment: Vec<S>,
}

impl<S> View for ProvingAssignment<S> {
    type V = Recorded<S>;

    closed spec fn view(&self) -> Recorded<S> {
        Recorded {
            a: self.a@,
            b: self.b@,
            c: self.c@,
            inputs: self.input_assignment@,
            aux: self.aux_assignment@,
            a_aux_density: self.a_aux_density@,
            b_input_density: self.b_input_density@,
            b_aux_density: self.b_aux_density@,
        }
    }
}

/// Sets in `tracker` the bit of every variable of the category that a term
/// with a nonzero coefficient names.
fn mark_density<S: Scalar>(tracker: &mut DensityTracker, terms: &[(Variable, S)], aux: bool)
    requires
        old(tracker).wf(),
    ensures
        final(tracker).wf(),
        final(tracker)@ == mark_terms(old(tracker)@, terms@, aux),
{
    let mut i: usize = 0;
    assert(terms@.subrange(0, terms@.len() as int) =~= terms@);
    while i < terms.len()
        invariant
            i <= terms.len(),
            tracker.wf(),
            mark_terms(tracker@, terms@.subrange(i as int, terms@.len() as int), aux) == mark_terms(
                old(tracker)@,
                terms@,
                aux,
            ),
        decreases terms.len() - i,
    {
        let ghost rest = terms@.subrange(i as int, terms@.len() as int);
        assert(rest[0] == terms@[i as int]);
        assert(rest.drop_first() =~= terms@.subrange(i + 1, terms@.len() as int));
        let (var, coeff) = terms[i];
        if !coeff.is_zero() {
            match var {
                Variable::Input(slot) => {
                    if !aux {
                        tracker.mark(slot);
                    }
                },
                Variable::Aux(slot) => {
                    if aux {
                        tracker.mark(slot);
                    }
                },
            }
        }
        i = i + 1;
    }
    assert(terms@.subrange(i as int, terms@.len() as int).len() == 0);
}

impl<S: Scalar> ProvingAssignment<S> {
    /// The trackers keep their counts and the recorder is shaped.
    pub closed spec fn wf(&self) -> bool {
        &&& self.a_aux_density.wf()
        &&& self.b_input_density.wf()
        &&& self.b_aux_density.wf()
        &&& self@.shaped()
    }

    /// Every well-formed recorder is shaped: it holds as many A as B as C
    /// evaluations.
    pub proof fn lemma_wf_shaped(&self)
        requires
            self.wf(),
        ensures
            self@.shaped(),
            self@.a.len() == self@.b.len(),
            self@.b.len() == self@.c.len(),
    {
    }

    /// A recorder with nothing in it.
    pub fn new() -> (r: Self)
        ensures
            r.wf(),
            r@.a.len() == 0,
            r@.b.len() == 0,
            r@.c.len() == 0,
            r@.inputs.len() == 0,
            r@.aux.len() == 0,
            r@.a_aux_density.len() == 0,
            r@.b_input_density.len() == 0,
            r@.b_aux_density.len() == 0,
    {
        ProvingAssignment {
            a_aux_density: DensityTracker::new(),
            b_input_density: DensityTracker::new(),
            b_aux_density: DensityTracker::new(),
            a: Vec::new(),
            b: Vec::new(),
            c: Vec::new(),
            input_assignment: Vec::new(),
            aux_assignment: Vec::new(),
        }
    }

    /// Allocates the next auxiliary variable with the given value.
    pub fn alloc_aux(&mut self, value: S) -> (var: Variable)
        requires
            old(self).wf(),
        ensures
            final(self).wf(),
            final(self)@.extends(old(self)@),
            var == Variable::Aux(old(self)@.aux.len() as usize),
            final(self)@ == (Recorded {
                aux: old(self)@.aux.push(value),
                a_aux_density: old(self)@.a_aux_density.push(false),
                b_aux_density: old(self)@.b_aux_density.push(false),
                ..old(self)@
            }),
    {
        let index = self.aux_assignment.len();
        self.aux_assignment.push(value);
        let count = self.aux_assignment.len();
        assert(index < count);
        self.a_aux_density.append(false);
        self.b_aux_density.append(false);
        Variable::Aux(index)
    }

    /// Allocates the next public input with the given value.
    pub fn alloc_input(&mut self, value: S) -> (var: Variable)
        requires
            old(self).wf(),
        ensures
            final(self).wf(),
            final(self)@.extends(old(self)@),
            var == Variable::Input(old(self)@.inputs.len() as usize),
            final(self)@ == (Recorded {
                inputs: old(self)@.inputs.push(value),
                b_input_density: old(self)@.b_input_density.push(false),
                ..old(self)@
            }),
    {
        let index = self.input_assignment.len();
        self.input_assignment.push(value);
        let count = self.input_assignment.len();
        assert(index < count);
        self.b_input_density.append(false);
        Variable::Input(index)
    }

    /// The value of a linear combination under the current assignment, or
    /// `None` where a term with a nonzero coefficient names a variable that
    /// was not allocated.
    pub fn evaluate(&self, terms: &[(Variable, S)]) -> (r: Option<S>)
        ensures
            r.is_some() <==> terms_ok(terms@, self@.inputs.len(), self@.aux.len()),
            r.is_some() ==> r == Some(eval_terms(terms@, self@.inputs, self@.aux)),
    {
        let mut acc: Option<S> = None;
        let mut i: usize = 0;
        assert(terms@.subrange(0, terms@.len() as int) =~= terms@);
        while i < terms.len()
            invariant
                i <= terms.len(),
                forall|k: int| 0 <= k < i ==> term_ok(#[trigger] terms@[k], self@.inputs.len(), self@.aux.len()),
                accumulate(acc, terms@.subrange(i as int, terms@.len() as int), self@.inputs, self@.aux)
                    == accumulate(None, terms@, self@.inputs, self@.aux),
            decreases terms.len() - i,
        {
            let ghost rest = terms@.subrange(i as int, terms@.len() as int);
            assert(rest[0] == terms@[i as int]);
            assert(rest.drop_first() =~= terms@.subrange(i + 1, terms@.len() as int));
            let (var, coeff) = terms[i];
            if !coeff.is_zero() {
                let value = match var {
                    Variable::Input(slot) => {
                        if slot >= self.input_assignment.len() {
                            assert(!term_ok(terms@[i as int], self@.inputs.len(), self@.aux.len()));
                            return None;
                        }
                        self.input_assignment[slot]
                    },
                    Variable::Aux(slot) => {
                        if slot >= self.aux_assignment.len() {
                            assert(!term_ok(terms@[i as int], self@.inputs.len(), self@.aux.len()));
                            return None;
                        }
                        self.aux_assignment[slot]
                    },
                };
                let scaled = if coeff.is_one() {
                    value
                } else {
                    value.times(&coeff)
                };
                assert(scaled == term_value(terms@[i as int], self@.inputs, self@.aux));
                acc = match acc {
                    None => Some(scaled),
                    Some(sum) => Some(sum.plus(&scaled)),
                };
            }
            i = i + 1;
        }
        assert(terms@.subrange(i as int, terms@.len() as int).len() == 0);
        match acc {
            None => Some(S::zero()),
            Some(sum) => Some(sum),
        }
    }

    /// Records the constraint `a * b = c`: evaluates the three combinations
    /// and appends the triple, and brings the density of A and B up to date.
    /// Fails, and records nothing, where a term with a nonzero coefficient
    /// names a variable that was not allocated.
    pub fn enforce(&mut self, a_terms: &[(Variable, S)], b_terms: &[(Variable, S)], c_terms: &[(Variable, S)]) -> (r:
        Result<(), SynthesisFault>)
        requires
            old(self).wf(),
        ensures
            final(self).wf(),
            final(self)@.extends(old(self)@),
            r.is_ok() <==> {
                &&& terms_ok(a_terms@, old(self)@.inputs.len(), old(self)@.aux.len())
                &&& terms_ok(b_terms@, old(self)@.inputs.len(), old(self)@.aux.len())
                &&& terms_ok(c_terms@, old(self)@.inputs.len(), old(self)@.aux.len())
            },
            r.is_ok() ==> final(self)@ == enforced(old(self)@, a_terms@, b_terms@, c_terms@),
            r.is_err() ==> r == Err::<(), SynthesisFault>(SynthesisFault::UnallocatedVariable) && final(self)@ == old(
                self,
            )@,
    {
        let a = self.evaluate(a_terms);
        let b = self.evaluate(b_terms);
        let c = self.evaluate(c_terms);
        match (a, b, c) {
            (Some(a), Some(b), Some(c)) => {
                proof {
                    lemma_mark_terms(self.a_aux_density@, a_terms@, true);
                    lemma_mark_terms(self.b_input_density@, b_terms@, false);
                    lemma_mark_terms(self.b_aux_density@, b_terms@, true);
                }
                mark_density(&mut self.a_aux_density, a_terms, true);
                mark_density(&mut self.b_input_density, b_terms, false);
                mark_density(&mut self.b_aux_density, b_terms, true);
                self.a.push(a);
                self.b.push(b);
                self.c.push(c);
                Ok(())
            },
            _ => Err(SynthesisFault::UnallocatedVariable),
        }
    }

    /// The evaluations of the A combinations, one per constraint.
    pub fn a(&self) -> (r: &[S])
        ensures
            r@ == self@.a,
    {
        self.a.as_slice()
    }

    /// The evaluations of the B combinations, one per constraint.
    pub fn b(&self) -> (r: &[S])
        ensures
            r@ == self@.b,
    {
        self.b.as_slice()
    }

    /// The evaluations of the C combinations, one per constraint.
    pub fn c(&self) -> (r: &[S])
        ensures
            r@ == self@.c,
    {
        self.c.as_slice()
    }

    /// The values of the public inputs, slot by slot.
    pub fn input_assignment(&self) -> (r: &[S])
        ensures
            r@ == self@.inputs,
    {
        self.input_assignment.as_slice()
    }

    /// The values of the auxiliary variables, slot by slot.
    pub fn aux_assignment(&self) -> (r: &[S])
        ensures
            r@ == self@.aux,
    {
        self.aux_assignment.as_slice()
    }

    /// Which auxiliary variables take part in A.
    pub fn a_aux_density(&self) -> (r: &DensityTracker)
        requires
            self.wf(),
        ensures
            r.wf(),
            r@ == self@.a_aux_density,
    {
        &self.a_aux_density
    }

    /// Which public inputs take part in B.
    pub fn b_input_density(&self) -> (r: &DensityTracker)
        requires
            self.wf(),
        ensures
            r.wf(),
            r@ == self@.b_input_density,
    {
        &self.b_input_density
    }

    /// Which auxiliary variables take part in B.
    pub fn b_aux_density(&self) -> (r: &DensityTracker)
        requires
            self.wf(),
        ensures
            r.wf(),
            r@ == self@.b_aux_density,
    {
        &self.b_aux_density
    }
}

} // verus!
