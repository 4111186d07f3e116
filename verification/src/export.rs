//! The flat view of a recording that a proving backend reads.

use vstd::prelude::*;
use crate::assignment::{ProvingAssignment, Recorded};
use crate::density::{count_set, packs};
use crate::scalar::Scalar;

verus! {

/// A borrowed view of one recording: for each density tracker its words,
/// the number of bits in them and the number of set bits; the three evaluation sequences
/// with their common length; and the two assignments with their lengths.
/// Nothing is copied, and the view cannot outlive the recording.
pub struct Assignment<'a, S> {
    pub a_aux_density: &'a [u64],
    pub a_aux_bit_len: usize,
    pub a_aux_popcount: usize,
    pub b_inp_density: &'a [u64],
    pub b_inp_bit_len: usize,
    pub b_inp_popcount: usize,
    pub b_aux_density: &'a [u64],
    pub b_aux_bit_len: usize,
    pub b_aux_popcount: usize,
    pub a: &'a [S],
    pub b: &'a [S],
    pub c: &'a [S],
    pub abc_size: usize,
    pub inp_assignment_data: &'a [S],
    pub inp_assignment_size: usize,
    pub aux_assignment_data: &'a [S],
    pub aux_assignment_size: usize,
}

impl<'a, S: Scalar> Assignment<'a, S> {
    /// The view shows exactly the recording `m`.
    pub open spec fn describes(&self, m: Recorded<S>) -> bool {
        &&& packs(self.a_aux_density@, m.a_aux_density)
        &&& self.a_aux_bit_len == m.a_aux_density.len()
        &&& self.a_aux_popcount == count_set(m.a_aux_density)
        &&& packs(self.b_inp_density@, m.b_input_density)
        &&& self.b_inp_bit_len == m.b_input_density.len()
        &&& self.b_inp_popcount == count_set(m.b_input_density)
        &&& packs(self.b_aux_density@, m.b_aux_density)
        &&& self.b_aux_bit_len == m.b_aux_density.len()
        &&& self.b_aux_popcount == count_set(m.b_aux_density)
        &&& self.a@ == m.a
        &&& self.b@ == m.b
        &&& self.c@ == m.c
        &&& self.abc_size == m.a.len()
        &&& self.abc_size == m.b.len()
        &&& self.abc_size == m.c.len()
        &&& self.inp_assignment_data@ == m.inputs
        &&& self.inp_assignment_size == m.inputs.len()
        &&& self.aux_assignment_data@ == m.aux
        &&& self.aux_assignment_size == m.aux.len()
    }

    /// The view of a recording.
    pub fn from(assignment: &'a ProvingAssignment<S>) -> (view: Assignment<'a, S>)
        requires
            assignment.wf(),
        ensures
            view.describes(assignment@),
    {
        proof {
            assignment.lemma_wf_shaped();
        }
        let a_aux = assignment.a_aux_density();
        let b_inp = assignment.b_input_density();
        let b_aux = assignment.b_aux_density();
        Assignment {
            a_aux_density: a_aux.words(),
            a_aux_bit_len: a_aux.len(),
            a_aux_popcount: a_aux.total_density(),
            b_inp_density: b_inp.words(),
            b_inp_bit_len: b_inp.len(),
            b_inp_popcount: b_inp.total_density(),
            b_aux_density: b_aux.words(),
            b_aux_bit_len: b_aux.len(),
            b_aux_popcount: b_aux.total_density(),
            a: assignment.a(),
            b: assignment.b(),
            c: assignment.c(),
            abc_size: assignment.a().len(),
            inp_assignment_data: assignment.input_assignment(),
            inp_assignment_size: assignment.input_assignment().len(),
            aux_assignment_data: assignment.aux_assignment(),
            aux_assignment_size: assignment.aux_assignment().len(),
        }
    }
}

} // verus!
