//! Variables and the evaluation of linear combinations.

use vstd::prelude::*;
use crate::scalar::Scalar;

verus! {

/// A reference to a public-input slot or to an auxiliary slot.
#[derive(Clone, Copy, Debug, PartialEq, Eq, Structural)]
pub enum Variable {
    Input(usize),
    Aux(usize),
}

/// Whether the slot that `var` refers to has been allocated.
pub open spec fn allocated(var: Variable, n_inputs: nat, n_aux: nat) -> bool {
    match var {
        Variable::Input(i) => i < n_inputs,
        Variable::Aux(i) => i < n_aux,
    }
}

/// A term can be evaluated when its coefficient is zero, in which case it
/// is skipped, or when its variable has been allocated.
pub open spec fn term_ok<S: Scalar>(term: (Variable, S), n_inputs: nat, n_aux: nat) -> bool {
    term.1.is_zero_spec() || allocated(term.0, n_inputs, n_aux)
}

/// Every term of the combination can be evaluated.
pub open spec fn terms_ok<S: Scalar>(terms: Seq<(Variable, S)>, n_inputs: nat, n_aux: nat) -> bool {
    forall|i: int| 0 <= i < terms.len() ==> term_ok(#[trigger] terms[i], n_inputs, n_aux)
}

/// The value assigned to an allocated variable.
pub open spec fn value_of<S>(var: Variable, inputs: Seq<S>, aux: Seq<S>) -> S {
    match var {
        Variable::Input(i) => inputs[i as int],
        Variable::Aux(i) => aux[i as int],
    }
}

/// What a term with a nonzero coefficient contributes: the variable's
/// value, times the coefficient unless that is one.
pub open spec fn term_value<S: Scalar>(term: (Variable, S), inputs: Seq<S>, aux: Seq<S>) -> S {
    let value = value_of(term.0, inputs, aux);
    if term.1.is_one_spec() {
        value
    } else {
        value.product_spec(term.1)
    }
}

/// The running sum after the terms, in order, have been added to `acc`.
/// `None` stands for the empty sum; terms with a zero coefficient are
/// skipped.
pub open spec fn accumulate<S: Scalar>(
    acc: Option<S>,
    terms: Seq<(Variable, S)>,
    inputs: Seq<S>,
    aux: Seq<S>,
) -> Option<S>
    decreases terms.len(),
{
    if terms.len() == 0 {
        acc
    } else {
        let term = terms[0];
        let next = if term.1.is_zero_spec() {
            acc
        } else {
            match acc {
                None => Some(term_value(term, inputs, aux)),
                Some(sum) => Some(sum.sum_spec(term_value(term, inputs, aux))),
            }
        };
        accumulate(next, terms.drop_first(), inputs, aux)
    }
}

/// The value of a linear combination under an assignment: the sum of its
/// terms with a nonzero coefficient, zero where there is none.
pub open spec fn eval_terms<S: Scalar>(terms: Seq<(Variable, S)>, inputs: Seq<S>, aux: Seq<S>) -> S {
    match accumulate(None, terms, inputs, aux) {
        None => S::zero_spec(),
        Some(sum) => sum,
    }
}

/// The density bits of one category after one term has been seen: a term
/// with a nonzero coefficient sets the bit of its variable.
pub open spec fn mark_term<S: Scalar>(bits: Seq<bool>, term: (Variable, S), aux: bool) -> Seq<bool> {
    if term.1.is_zero_spec() {
        bits
    } else {
        match term.0 {
            Variable::Input(i) => if !aux && i < bits.len() {
                bits.update(i as int, true)
            } else {
                bits
            },
            Variable::Aux(i) => if aux && i < bits.len() {
                bits.update(i as int, true)
            } else {
                bits
            },
        }
    }
}

/// The density bits of one category after all terms have been seen.
pub open spec fn mark_terms<S: Scalar>(bits: Seq<bool>, terms: Seq<(Variable, S)>, aux: bool) -> Seq<bool>
    decreases terms.len(),
{
    if terms.len() == 0 {
        bits
    } else {
        mark_terms(mark_term(bits, terms[0], aux), terms.drop_first(), aux)
    }
}

/// Whether `var` is slot `slot` of the category.
pub open spec fn is_slot(var: Variable, aux: bool, slot: int) -> bool {
    match var {
        Variable::Input(i) => !aux && i == slot,
        Variable::Aux(i) => aux && i == slot,
    }
}

/// Whether some term with a nonzero coefficient names slot `slot` of the
/// category.
pub open spec fn mentions<S: Scalar>(terms: Seq<(Variable, S)>, aux: bool, slot: int) -> bool {
    exists|i: int| 0 <= i < terms.len() && !(#[trigger] terms[i]).1.is_zero_spec() && is_slot(terms[i].0, aux, slot)
}

/// Marking keeps the number of bits, keeps every set bit, and sets exactly
/// the bits of the slots that a term with a nonzero coefficient names.
pub proof fn lemma_mark_terms<S: Scalar>(bits: Seq<bool>, terms: Seq<(Variable, S)>, aux: bool)
    ensures
        mark_terms(bits, terms, aux).len() == bits.len(),
        forall|j: int|
            0 <= j < bits.len() ==> (#[trigger] mark_terms(bits, terms, aux)[j] <==> (bits[j] || mentions(
                terms,
                aux,
                j,
            ))),
    decreases terms.len(),
{
    if terms.len() == 0 {
    } else {
        let step = mark_term(bits, terms[0], aux);
        let rest = terms.drop_first();
        lemma_mark_terms(step, rest, aux);
        assert forall|j: int| 0 <= j < bits.len() implies (#[trigger] mark_terms(bits, terms, aux)[j] <==> (
        bits[j] || mentions(terms, aux, j))) by {
            let head = !terms[0].1.is_zero_spec() && is_slot(terms[0].0, aux, j);
            assert(step[j] <==> (bits[j] || head));
            if mentions(rest, aux, j) {
                let i = choose|i: int|
                    0 <= i < rest.len() && !(#[trigger] rest[i]).1.is_zero_spec() && is_slot(rest[i].0, aux, j);
                assert(terms[i + 1] == rest[i]);
            }
            if mentions(terms, aux, j) {
                let i = choose|i: int|
                    0 <= i < terms.len() && !(#[trigger] terms[i]).1.is_zero_spec() && is_slot(terms[i].0, aux, j);
                if i > 0 {
                    assert(rest[i - 1] == terms[i]);
                }
            }
        }
    }
}

} // verus!
