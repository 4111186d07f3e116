use batch_prover::assignment::{ProvingAssignment, Recorded};
use batch_prover::batch::{
    assemble_batch, check_shape, create_proof_batch_priority_inner, resolve_randomization, zero_scalars,
    ParameterSource,
};
use batch_prover::error::{ProverError, SynthesisFault};
use batch_prover::scalar::{Fp, Scalar};
use batch_prover::synthesis::{
    add_identity_constraints, begin_synthesis, conclude_synthesis, synthesize_circuit, synthesize_circuits_batch,
    Circuit,
};
use batch_prover::variable::Variable;
use bellpepper_core::SynthesisError;

fn fp(v: u64) -> Fp {
    Fp::new(v)
}

fn values(xs: &[Fp]) -> Vec<u64> {
    xs.iter().map(|x| x.to_u64()).collect()
}

/// Proves knowledge of `x` and `y` with a public product, after declaring
/// `padding` further public inputs.
struct Product {
    x: u64,
    y: u64,
    padding: usize,
    fail: bool,
}

fn product(x: u64, y: u64) -> Product {
    Product { x, y, padding: 0, fail: false }
}

impl Circuit<Fp> for Product {
    fn recorded(self, _before: Recorded<Fp>) -> Result<Recorded<Fp>, SynthesisFault> {
        panic!("a model of `synthesize` for contracts; it is never run")
    }

    fn synthesize(self, cs: &mut ProvingAssignment<Fp>) -> Result<(), SynthesisFault> {
        if self.fail {
            return Err(SynthesisFault::Circuit(SynthesisError::AssignmentMissing));
        }
        let x = cs.alloc_aux(fp(self.x));
        let y = cs.alloc_aux(fp(self.y));
        let z = cs.alloc_input(fp(self.x * self.y));
        for i in 0..self.padding {
            cs.alloc_input(fp(100 + i as u64));
        }
        cs.enforce(&[(x, Fp::one())], &[(y, Fp::one())], &[(z, Fp::one())])?;
        Ok(())
    }
}

/// Names a variable that it never allocated.
struct Dangling;

impl Circuit<Fp> for Dangling {
    fn recorded(self, _before: Recorded<Fp>) -> Result<Recorded<Fp>, SynthesisFault> {
        panic!("a model of `synthesize` for contracts; it is never run")
    }

    fn synthesize(self, cs: &mut ProvingAssignment<Fp>) -> Result<(), SynthesisFault> {
        cs.enforce(&[(Variable::Aux(3), Fp::one())], &[], &[])
    }
}

struct Source(Option<u32>);

impl ParameterSource<u32> for Source {
    fn available_srs(&self) -> Option<u32> {
        self.0
    }

    fn get_supraseal_srs(&self) -> Option<u32> {
        self.0
    }
}

#[test]
fn begin_synthesis_puts_one_in_slot_zero() {
    let cs = begin_synthesis::<Fp>();
    assert_eq!(values(cs.input_assignment()), vec![1]);
    assert_eq!(cs.aux_assignment().len(), 0);
    assert_eq!(cs.a().len(), 0);
    assert_eq!(cs.b_input_density().bits(), vec![false]);
}

#[test]
fn identity_constraints_follow_the_circuits_own() {
    let cs = synthesize_circuit(Product { x: 3, y: 5, padding: 2, fail: false }).unwrap();
    // one, the product, two more
    assert_eq!(values(cs.input_assignment()), vec![1, 15, 100, 101]);
    assert_eq!(values(cs.aux_assignment()), vec![3, 5]);
    // one constraint of the circuit, then one per public input
    assert_eq!(values(cs.a()), vec![3, 1, 15, 100, 101]);
    assert_eq!(values(cs.b()), vec![5, 1, 1, 1, 1]);
    assert_eq!(values(cs.c()), vec![15, 1, 15, 100, 101]);
    assert_eq!(cs.a().len(), cs.b().len());
    assert_eq!(cs.b().len(), cs.c().len());
    assert_eq!(cs.b_input_density().bits(), vec![true, false, false, false]);
    assert_eq!(cs.b_input_density().total_density(), 1);
    assert_eq!(cs.a_aux_density().bits(), vec![true, false]);
    assert_eq!(cs.b_aux_density().bits(), vec![false, true]);
}

#[test]
fn add_identity_constraints_on_an_empty_recorder() {
    let mut cs = ProvingAssignment::<Fp>::new();
    add_identity_constraints(&mut cs);
    assert_eq!(cs.a().len(), 0);
    assert_eq!(cs.b_input_density().len(), 0);
}

#[test]
fn conclude_synthesis_hands_a_failure_on() {
    let cs = begin_synthesis::<Fp>();
    let r = conclude_synthesis(cs, Err(SynthesisFault::Circuit(SynthesisError::Unsatisfiable)));
    assert!(matches!(r, Err(SynthesisFault::Circuit(SynthesisError::Unsatisfiable))));
    let cs = begin_synthesis::<Fp>();
    let done = conclude_synthesis(cs, Ok(())).unwrap();
    assert_eq!(values(done.a()), vec![1]);
    assert_eq!(values(done.b()), vec![1]);
    assert_eq!(values(done.c()), vec![1]);
}

#[test]
fn batch_synthesis_keeps_the_order() {
    let circuits: Vec<Product> = (1..=40).map(|i| product(i, i + 1)).collect();
    let provers = synthesize_circuits_batch(circuits).unwrap();
    assert_eq!(provers.len(), 40);
    for (k, prover) in provers.iter().enumerate() {
        let i = k as u64 + 1;
        assert_eq!(values(prover.aux_assignment()), vec![i, i + 1]);
        assert_eq!(values(prover.input_assignment()), vec![1, i * (i + 1)]);
        assert_eq!(values(prover.a()), vec![i, 1, i * (i + 1)]);
        assert_eq!(prover.a().len(), prover.b().len());
        assert_eq!(prover.a().len(), prover.c().len());
    }
}

#[test]
fn batch_synthesis_of_nothing() {
    let provers = synthesize_circuits_batch::<Fp, Product>(Vec::new()).unwrap();
    assert!(provers.is_empty());
}

#[test]
fn batch_synthesis_fails_with_the_circuits_fault() {
    let circuits = vec![product(2, 3), Product { x: 1, y: 1, padding: 0, fail: true }, product(4, 5)];
    let r = synthesize_circuits_batch(circuits);
    assert!(matches!(r, Err(SynthesisFault::Circuit(SynthesisError::AssignmentMissing))));
    let r = synthesize_circuits_batch(vec![Dangling]);
    assert!(matches!(r, Err(SynthesisFault::UnallocatedVariable)));
}

#[test]
fn concurrent_and_sequential_synthesis_agree() {
    let batch = synthesize_circuits_batch(vec![product(6, 7), product(6, 7)]).unwrap();
    let first = synthesize_circuit(product(6, 7)).unwrap();
    let second = synthesize_circuit(product(6, 7)).unwrap();
    for prover in [&batch[0], &batch[1], &second] {
        assert_eq!(prover.a(), first.a());
        assert_eq!(prover.b(), first.b());
        assert_eq!(prover.c(), first.c());
        assert_eq!(prover.input_assignment(), first.input_assignment());
        assert_eq!(prover.aux_assignment(), first.aux_assignment());
    }
}

#[test]
fn one_recording_per_circuit_in_input_order() {
    let circuits = vec![product(2, 3), product(4, 5), product(6, 7)];
    let batch = create_proof_batch_priority_inner(circuits, Source(Some(77)), None, false).unwrap();
    assert_eq!(batch.num_circuits(), 3);
    assert_eq!(*batch.srs(), 77);
    let views = batch.exports();
    assert_eq!(views.len(), 3);
    let products: Vec<u64> = views.iter().map(|v| v.inp_assignment_data[1].to_u64()).collect();
    assert_eq!(products, vec![6, 20, 42]);
    for (view, prover) in views.iter().zip(batch.provers()) {
        assert_eq!(view.abc_size, 3);
        assert_eq!(view.inp_assignment_size, 2);
        assert_eq!(view.aux_assignment_size, 2);
        assert_eq!(view.a_aux_popcount, 1);
        assert_eq!(view.b_inp_popcount, 1);
        assert_eq!(view.b_aux_popcount, 1);
        assert!(std::ptr::eq(view.a.as_ptr(), prover.a().as_ptr()));
    }
}

#[test]
fn default_randomization_is_zero() {
    let circuits = vec![product(2, 3), product(4, 5), product(6, 7)];
    let batch = create_proof_batch_priority_inner(circuits, Source(Some(1)), None, true).unwrap();
    assert_eq!(batch.r_s(), &[Fp::zero(); 3][..]);
    assert_eq!(batch.s_s(), &[Fp::zero(); 3][..]);
    assert!(batch.r_s().iter().all(|r| r.is_zero()));
    assert!(batch.s_s().iter().all(|s| s.is_zero()));
}

#[test]
fn supplied_randomization_is_kept() {
    let circuits = vec![product(2, 3), product(4, 5)];
    let randomization = Some((vec![fp(11), fp(12)], vec![fp(21), fp(22)]));
    let batch = create_proof_batch_priority_inner(circuits, Source(Some(1)), randomization, false).unwrap();
    assert_eq!(values(batch.r_s()), vec![11, 12]);
    assert_eq!(values(batch.s_s()), vec![21, 22]);
}

#[test]
fn differing_public_input_counts_are_a_shape_mismatch() {
    let circuits = vec![product(2, 3), Product { x: 4, y: 5, padding: 1, fail: false }];
    let r = create_proof_batch_priority_inner(circuits, Source(Some(1)), None, false);
    assert!(matches!(r, Err(ProverError::ShapeMismatch)));
    // The shape is looked at before the reference string.
    let circuits = vec![product(2, 3), Product { x: 4, y: 5, padding: 1, fail: false }];
    let r = create_proof_batch_priority_inner(circuits, Source(None), None, false);
    assert!(matches!(r, Err(ProverError::ShapeMismatch)));
}

#[test]
fn missing_reference_string_is_malformed_srs() {
    let r = create_proof_batch_priority_inner(vec![product(2, 3)], Source(None), None, false);
    assert!(matches!(r, Err(ProverError::MalformedSrs)));
    let circuits: Vec<Product> = (0..5).map(|i| product(i, i)).collect();
    let r = create_proof_batch_priority_inner(circuits, Source(None), None, false);
    assert!(matches!(r, Err(ProverError::MalformedSrs)));
}

#[test]
fn failing_circuit_fails_the_batch() {
    let circuits = vec![product(2, 3), Product { x: 0, y: 0, padding: 0, fail: true }];
    let r = create_proof_batch_priority_inner(circuits, Source(Some(1)), None, false);
    assert!(matches!(r, Err(ProverError::Synthesis(SynthesisFault::Circuit(SynthesisError::AssignmentMissing)))));
}

#[test]
fn assemble_batch_checks_shape_then_reference_string() {
    let same = || vec![synthesize_circuit(product(1, 2)).unwrap(), synthesize_circuit(product(3, 4)).unwrap()];
    let mixed = || {
        vec![
            synthesize_circuit(product(1, 2)).unwrap(),
            synthesize_circuit(Product { x: 1, y: 2, padding: 3, fail: false }).unwrap(),
        ]
    };
    assert!(check_shape(&same()));
    assert!(!check_shape(&mixed()));
    assert!(check_shape::<Fp>(&[]));
    assert!(matches!(assemble_batch(mixed(), None, Some(5u32)), Err(ProverError::ShapeMismatch)));
    assert!(matches!(assemble_batch::<Fp, u32>(mixed(), None, None), Err(ProverError::ShapeMismatch)));
    assert!(matches!(assemble_batch::<Fp, u32>(same(), None, None), Err(ProverError::MalformedSrs)));
    let batch = assemble_batch(same(), None, Some(5u32)).unwrap();
    assert_eq!(batch.num_circuits(), 2);
    assert_eq!(*batch.srs(), 5);
    let empty = assemble_batch::<Fp, u32>(Vec::new(), None, Some(5)).unwrap();
    assert_eq!(empty.num_circuits(), 0);
    assert_eq!(empty.exports().len(), 0);
}

#[test]
fn randomization_is_resolved() {
    assert_eq!(zero_scalars::<Fp>(0), Vec::<Fp>::new());
    assert_eq!(zero_scalars::<Fp>(3), vec![fp(0), fp(0), fp(0)]);
    let (r, s) = resolve_randomization::<Fp>(None, 2);
    assert_eq!(r, vec![fp(0), fp(0)]);
    assert_eq!(s, vec![fp(0), fp(0)]);
    let (r, s) = resolve_randomization(Some((vec![fp(1)], vec![fp(2)])), 1);
    assert_eq!(r, vec![fp(1)]);
    assert_eq!(s, vec![fp(2)]);
}
