//! Synthesis: from circuits to finished recorders.

use vstd::prelude::*;
use rayon::iter::{IntoParallelIterator, ParallelIterator};
use crate::assignment::{enforced, ProvingAssignment, Recorded};
use crate::error::SynthesisFault;
use crate::scalar::Scalar;
use crate::variable::{accumulate, eval_terms, mark_terms, terms_ok, value_of, Variable};

verus! {

/// A circuit: something that can record itself into a recorder. It may
/// only add to what the recorder holds, and what it records depends on
/// nothing but the circuit and what the recorder held.
pub trait Circuit<S: Scalar>: Sized {
    /// What the circuit leaves in a recorder that held `before`, or the
    /// fault that it ends with.
    spec fn recorded(self, before: Recorded<S>) -> Result<Recorded<S>, SynthesisFault>;

    fn synthesize(self, cs: &mut ProvingAssignment<S>) -> (r: Result<(), SynthesisFault>)
        requires
            old(cs).wf(),
        ensures
            final(cs).wf(),
            final(cs)@.extends(old(cs)@),
            match r {
                Ok(()) => self.recorded(old(cs)@) == Ok::<Recorded<S>, SynthesisFault>(final(cs)@),
                Err(fault) => self.recorded(old(cs)@) == Err::<Recorded<S>, SynthesisFault>(fault),
            },
    ;
}

/// What a recorder holds when a circuit starts to record itself: the
/// constant one in slot 0 and nothing else.
pub open spec fn initial<S: Scalar>() -> Recorded<S> {
    Recorded {
        a: Seq::empty(),
        b: Seq::empty(),
        c: Seq::empty(),
        inputs: seq![S::one_spec()],
        aux: Seq::empty(),
        a_aux_density: Seq::empty(),
        b_input_density: seq![false],
        b_aux_density: Seq::empty(),
    }
}

/// The synthesis of a circuit: what it records after the constant one,
/// followed by the identity constraints; or the fault that it ends with.
pub open spec fn synthesized<S: Scalar, C: Circuit<S>>(circuit: C) -> Result<Recorded<S>, SynthesisFault> {
    match circuit.recorded(initial::<S>()) {
        Ok(own) => Ok(with_identity_constraints(own)),
        Err(fault) => Err(fault),
    }
}

/// The recorder after one constraint `input_i * input_0 = input_i` has been
/// added for every public input `i`, in order. With the constant one in
/// slot 0 this reads `input_i * 1 = input_i`.
pub open spec fn with_identity_constraints<S: Scalar>(m: Recorded<S>) -> Recorded<S> {
    Recorded {
        a: m.a + m.inputs,
        b: m.b + Seq::new(m.inputs.len(), |i: int| m.inputs[0]),
        c: m.c + m.inputs,
        b_input_density: if m.inputs.len() > 0 {
            m.b_input_density.update(0, true)
        } else {
            m.b_input_density
        },
        ..m
    }
}

/// A finished recording: some recording with the constant one in slot 0,
/// followed by its identity constraints and nothing else.
pub open spec fn finished<S: Scalar>(m: Recorded<S>) -> bool {
    exists|own: Recorded<S>|
        #[trigger] with_identity_constraints(own) == m && own.shaped() && own.inputs.len() >= 1 && own.inputs[0]
            == S::one_spec()
}

/// A combination of one variable with coefficient one evaluates to the
/// variable's value.
pub proof fn lemma_eval_single<S: Scalar>(var: Variable, inputs: Seq<S>, aux: Seq<S>)
    ensures
        eval_terms(seq![(var, S::one_spec())], inputs, aux) == value_of(var, inputs, aux),
{
    S::lemma_identities();
    let terms = seq![(var, S::one_spec())];
    reveal_with_fuel(accumulate, 3);
    assert(terms.drop_first().len() == 0);
}

/// A combination of one variable with coefficient one sets that variable's
/// bit in the tracker of its category and leaves the other category alone.
pub proof fn lemma_mark_single<S: Scalar>(bits: Seq<bool>, slot: usize)
    ensures
        mark_terms(bits, seq![(Variable::Input(slot), S::one_spec())], true) == bits,
        mark_terms(bits, seq![(Variable::Input(slot), S::one_spec())], false) == if slot < bits.len() {
            bits.update(slot as int, true)
        } else {
            bits
        },
{
    S::lemma_identities();
    let terms = seq![(Variable::Input(slot), S::one_spec())];
    reveal_with_fuel(mark_terms, 3);
    assert(terms.drop_first().len() == 0);
}

/// Adds the constraint `input_i * input_0 = input_i` for every public
/// input `i`, in order.
pub fn add_identity_constraints<S: Scalar>(prover: &mut ProvingAssignment<S>)
    requires
        old(prover).wf(),
    ensures
        final(prover).wf(),
        final(prover)@ == with_identity_constraints(old(prover)@),
{
    let count = prover.input_assignment().len();
    let one = S::one();
    let ghost before = prover@;
    proof {
        prover.lemma_wf_shaped();
    }
    let mut i: usize = 0;
    while i < count
        invariant
            i <= count,
            count == before.inputs.len(),
            one == S::one_spec(),
            prover.wf(),
            before.shaped(),
            prover@ == (Recorded {
                a: before.a + before.inputs.subrange(0, i as int),
                b: before.b + Seq::new(i as nat, |j: int| before.inputs[0]),
                c: before.c + before.inputs.subrange(0, i as int),
                b_input_density: if i > 0 {
                    before.b_input_density.update(0, true)
                } else {
                    before.b_input_density
                },
                ..before
            }),
        decreases count - i,
    {
        let own = vec![(Variable::Input(i), one)];
        let unit = vec![(Variable::Input(0), one)];
        let ghost current = prover@;
        proof {
            assert(own@ =~= seq![(Variable::Input(i), S::one_spec())]);
            assert(unit@ =~= seq![(Variable::Input(0), S::one_spec())]);
            lemma_eval_single::<S>(Variable::Input(i), current.inputs, current.aux);
            lemma_eval_single::<S>(Variable::Input(0), current.inputs, current.aux);
            lemma_mark_single::<S>(current.a_aux_density, i);
            lemma_mark_single::<S>(current.b_aux_density, 0);
            lemma_mark_single::<S>(current.b_input_density, 0);
            assert(terms_ok(own@, current.inputs.len(), current.aux.len()));
            assert(terms_ok(unit@, current.inputs.len(), current.aux.len()));
        }
        let outcome = prover.enforce(own.as_slice(), unit.as_slice(), own.as_slice());
        proof {
            assert(outcome.is_ok());
            assert(prover@ == enforced(current, own@, unit@, own@));
            assert(before.inputs.subrange(0, i + 1) =~= before.inputs.subrange(0, i as int).push(
                before.inputs[i as int],
            ));
            assert(prover@.a =~= before.a + before.inputs.subrange(0, i + 1));
            assert(prover@.c =~= before.c + before.inputs.subrange(0, i + 1));
            assert(prover@.b =~= before.b + Seq::new((i + 1) as nat, |j: int| before.inputs[0]));
            assert(prover@.b_input_density =~= before.b_input_density.update(0, true));
        }
        i = i + 1;
    }
    proof {
        assert(before.inputs.subrange(0, count as int) =~= before.inputs);
        assert(prover@.a =~= with_identity_constraints(before).a);
        assert(prover@.c =~= with_identity_constraints(before).c);
        assert(prover@.b =~= with_identity_constraints(before).b);
    }
}

/// A finished recording holds as many A as B as C evaluations; its last
/// constraints, one per public input `i` and in order, are
/// `input_i * 1 = input_i`; and the constant one is marked in B's input
/// density.
pub proof fn lemma_finished<S: Scalar>(m: Recorded<S>)
    requires
        finished(m),
    ensures
        m.shaped(),
        m.inputs.len() >= 1,
        m.inputs[0] == S::one_spec(),
        m.a.len() >= m.inputs.len(),
        m.b_input_density[0],
        forall|i: int|
            0 <= i < m.inputs.len() ==> #[trigger] m.a[m.a.len() - m.inputs.len() + i] == m.inputs[i] && m.b[m.a.len()
                - m.inputs.len() + i] == S::one_spec() && m.c[m.a.len() - m.inputs.len() + i] == m.inputs[i],
{
    let own = choose|own: Recorded<S>|
        #[trigger] with_identity_constraints(own) == m && own.shaped() && own.inputs.len() >= 1 && own.inputs[0]
            == S::one_spec();
    lemma_identity_constraints_count(own);
}

/// The identity constraints are exactly one more constraint per public
/// input, after those that were there, and they change nothing else but
/// the mark of slot 0 in B's input density.
pub proof fn lemma_identity_constraints_count<S: Scalar>(m: Recorded<S>)
    requires
        m.shaped(),
    ensures
        with_identity_constraints(m).shaped(),
        with_identity_constraints(m).extends(m),
        with_identity_constraints(m).a.len() == m.a.len() + m.inputs.len(),
        with_identity_constraints(m).inputs == m.inputs,
        with_identity_constraints(m).aux == m.aux,
{
    let done = with_identity_constraints(m);
    assert(m.a.is_prefix_of(done.a));
    assert(m.b.is_prefix_of(done.b));
    assert(m.c.is_prefix_of(done.c));
}

/// A recorder that holds the constant one in slot 0 and nothing else.
pub fn begin_synthesis<S: Scalar>() -> (prover: ProvingAssignment<S>)
    ensures
        prover.wf(),
        prover@ == initial::<S>(),
{
    let mut prover = ProvingAssignment::new();
    prover.alloc_input(S::one());
    proof {
        let m = prover@;
        let start = initial::<S>();
        assert(m.a =~= start.a);
        assert(m.b =~= start.b);
        assert(m.c =~= start.c);
        assert(m.inputs =~= start.inputs);
        assert(m.aux =~= start.aux);
        assert(m.a_aux_density =~= start.a_aux_density);
        assert(m.b_input_density =~= start.b_input_density);
        assert(m.b_aux_density =~= start.b_aux_density);
    }
    prover
}

/// Ends one circuit's synthesis. A failure of the circuit is handed on and
/// the recorder dropped; after a success the identity constraints are
/// added.
pub fn conclude_synthesis<S: Scalar>(prover: ProvingAssignment<S>, outcome: Result<(), SynthesisFault>) -> (r: Result<
    ProvingAssignment<S>,
    SynthesisFault,
>)
    requires
        prover.wf(),
    ensures
        match outcome {
            Ok(()) => r.is_ok() && r->Ok_0.wf() && r->Ok_0@ == with_identity_constraints(prover@),
            Err(fault) => r.is_err() && r->Err_0 == fault,
        },
{
    match outcome {
        Ok(()) => {
            let mut prover = prover;
            add_identity_constraints(&mut prover);
            Ok(prover)
        },
        Err(fault) => Err(fault),
    }
}

/// Synthesizes one circuit: the constant one goes to slot 0, the circuit
/// records itself, and the identity constraints follow. It succeeds exactly
/// when the circuit does, with the finished recording of what the circuit
/// recorded, and fails with the circuit's fault.
pub fn synthesize_circuit<S: Scalar, C: Circuit<S>>(circuit: C) -> (r: Result<ProvingAssignment<S>, SynthesisFault>)
    ensures
        match r {
            Ok(prover) => prover.wf() && finished(prover@) && synthesized(circuit) == Ok::<
                Recorded<S>,
                SynthesisFault,
            >(prover@),
            Err(fault) => synthesized(circuit) == Err::<Recorded<S>, SynthesisFault>(fault),
        },
{
    let mut prover = begin_synthesis::<S>();
    let ghost start = prover@;
    let outcome = circuit.synthesize(&mut prover);
    proof {
        prover.lemma_wf_shaped();
        assert(start.inputs.is_prefix_of(prover@.inputs));
        assert(prover@.inputs[0] == start.inputs[0]);
    }
    conclude_synthesis(prover, outcome)
}

/// Every recording of the batch is well-formed and finished.
pub open spec fn all_finished<S: Scalar>(provers: Seq<ProvingAssignment<S>>) -> bool {
    forall|i: int| 0 <= i < provers.len() ==> (#[trigger] provers[i]).wf() && finished(provers[i]@)
}

/// There is one recording per circuit, in the order of the circuits, and
/// each is well-formed, finished, and the synthesis of its circuit.
pub open spec fn all_synthesized<S: Scalar, C: Circuit<S>>(
    circuits: Seq<C>,
    provers: Seq<ProvingAssignment<S>>,
) -> bool {
    &&& provers.len() == circuits.len()
    &&& forall|i: int|
        0 <= i < provers.len() ==> (#[trigger] provers[i]).wf() && finished(provers[i]@) && synthesized(circuits[i])
            == Ok::<Recorded<S>, SynthesisFault>(provers[i]@)
}

/// The synthesis of some circuit of the batch ends with `fault`.
pub open spec fn fails_with<S: Scalar, C: Circuit<S>>(circuits: Seq<C>, fault: SynthesisFault) -> bool {
    exists|i: int|
        0 <= i < circuits.len() && synthesized(#[trigger] circuits[i]) == Err::<Recorded<S>, SynthesisFault>(fault)
}

/// The synthesis of every circuit of the batch succeeds.
pub open spec fn all_succeed<S: Scalar, C: Circuit<S>>(circuits: Seq<C>) -> bool {
    forall|i: int| 0 <= i < circuits.len() ==> synthesized::<S, C>(#[trigger] circuits[i]).is_ok()
}

/// A batch is synthesized exactly when every circuit succeeds, and a batch
/// that is synthesized has no failing circuit.
pub proof fn lemma_synthesized_iff_all_succeed<S: Scalar, C: Circuit<S>>(
    circuits: Seq<C>,
    provers: Seq<ProvingAssignment<S>>,
    fault: SynthesisFault,
)
    ensures
        all_synthesized(circuits, provers) ==> all_succeed::<S, C>(circuits),
        fails_with::<S, C>(circuits, fault) ==> !all_succeed::<S, C>(circuits),
        all_synthesized(circuits, provers) ==> all_finished(provers),
{
    if all_synthesized(circuits, provers) {
        assert forall|i: int| 0 <= i < circuits.len() implies synthesized::<S, C>(#[trigger] circuits[i]).is_ok() by {
            assert(provers[i].wf());
        }
    }
}

/// A circuit has one synthesis: its recording in a batch is its recording
/// when it is synthesized alone, whatever else is in the batch and in
/// whatever order the work is done.
pub proof fn lemma_batch_agrees_with_single<S: Scalar, C: Circuit<S>>(
    circuits: Seq<C>,
    provers: Seq<ProvingAssignment<S>>,
    i: int,
    alone: ProvingAssignment<S>,
)
    requires
        all_synthesized(circuits, provers),
        0 <= i < circuits.len(),
        synthesized(circuits[i]) == Ok::<Recorded<S>, SynthesisFault>(alone@),
    ensures
        provers[i]@ == alone@,
{
    assert(provers[i].wf());
}

/// Runs `synthesize_circuit` on every circuit through rayon's
/// `into_par_iter().map(..).collect()`. Collecting into a `Result` of a
/// `Vec` keeps the order of the items, yields `Ok` when every item did, and
/// otherwise hands back the failure of one of the items. So on success
/// there is one recording per circuit, each what `synthesize_circuit`
/// returns for that circuit, and on failure the fault is that of some
/// circuit of the batch. Nothing is claimed of which fault comes back when
/// several circuits fail.
#[verifier::external_body]
fn par_synthesize<S, C>(circuits: Vec<C>) -> (r: Result<Vec<ProvingAssignment<S>>, SynthesisFault>) where
    S: Scalar + Send,
    C: Circuit<S> + Send,

    ensures
        match r {
            Ok(provers) => all_synthesized(circuits@, provers@),
            Err(fault) => fails_with::<S, C>(circuits@, fault),
        },
{
    circuits.into_par_iter().map(|circuit| synthesize_circuit(circuit)).collect()
}

/// Synthesizes every circuit of the batch, each into a recorder of its own
/// and independently of the others. When every circuit succeeds the
/// recordings stand in the order of the circuits; if a circuit fails the
/// batch fails with the fault of a failing circuit and no recording is
/// handed out. A batch without circuits succeeds.
pub fn synthesize_circuits_batch<S, C>(circuits: Vec<C>) -> (r: Result<Vec<ProvingAssignment<S>>, SynthesisFault>) where
    S: Scalar + Send,
    C: Circuit<S> + Send,

    ensures
        match r {
            Ok(provers) => all_synthesized(circuits@, provers@) && all_finished(provers@),
            Err(fault) => fails_with::<S, C>(circuits@, fault),
        },
        r.is_ok() <==> all_succeed::<S, C>(circuits@),
{
    let r = par_synthesize(circuits);
    proof {
        if r.is_ok() {
            lemma_synthesized_iff_all_succeed::<S, C>(circuits@, r->Ok_0@, SynthesisFault::UnallocatedVariable);
        } else {
            lemma_synthesized_iff_all_succeed::<S, C>(circuits@, Seq::empty(), r->Err_0);
        }
    }
    r
}

} // verus!
