//! Batches: validation, blinding scalars, the reference string, and the
//! descriptor that a proving backend is called with.

use vstd::prelude::*;
use crate::assignment::ProvingAssignment;
use crate::error::ProverError;
use crate::export::Assignment;
use crate::scalar::Scalar;
use crate::synthesis::{
    all_finished, all_succeed, all_synthesized, fails_with, synthesize_circuits_batch, synthesized, Circuit,
};

verus! {

/// Where the reference string comes from. `None` says that there is no
/// usable one. What a source answers depends on the source alone.
pub trait ParameterSource<H> {
    /// The reference string that the source holds, if any.
    spec fn available_srs(&self) -> Option<H>;

    fn get_supraseal_srs(&self) -> (srs: Option<H>)
        ensures
            srs == self.available_srs(),
    ;
}

/// The synthesis of every circuit of the batch has as many public inputs as
/// that of the first.
pub open spec fn uniform_inputs<S: Scalar, C: Circuit<S>>(circuits: Seq<C>) -> bool {
    forall|i: int|
        0 <= i < circuits.len() ==> synthesized::<S, C>(#[trigger] circuits[i])->Ok_0.inputs.len() == synthesized::<
            S,
            C,
        >(circuits[0])->Ok_0.inputs.len()
}

/// Recordings that are the synthesis of their circuits have the same shape
/// exactly when the circuits' syntheses have.
pub proof fn lemma_same_shape_iff_uniform<S: Scalar, C: Circuit<S>>(
    circuits: Seq<C>,
    provers: Seq<ProvingAssignment<S>>,
)
    requires
        all_synthesized(circuits, provers),
    ensures
        same_shape(provers) <==> uniform_inputs::<S, C>(circuits),
{
    assert forall|i: int| 0 <= i < provers.len() implies synthesized::<S, C>(circuits[i])->Ok_0 == (
    #[trigger] provers[i])@ by {
        assert(provers[i].wf());
    }
    if same_shape(provers) {
        assert forall|i: int| 0 <= i < circuits.len() implies synthesized::<S, C>(
            #[trigger] circuits[i],
        )->Ok_0.inputs.len() == synthesized::<S, C>(circuits[0])->Ok_0.inputs.len() by {
            assert(provers[i]@.inputs.len() == provers[0]@.inputs.len());
        }
    }
    if uniform_inputs::<S, C>(circuits) {
        assert forall|i: int| 0 <= i < provers.len() implies (#[trigger] provers[i])@.inputs.len()
            == provers[0]@.inputs.len() by {
            assert(synthesized::<S, C>(circuits[i])->Ok_0.inputs.len() == synthesized::<S, C>(
                circuits[0],
            )->Ok_0.inputs.len());
            assert(provers[0].wf());
        }
    }
}

/// Every recording of the batch is well-formed.
pub open spec fn all_wf<S: Scalar>(provers: Seq<ProvingAssignment<S>>) -> bool {
    forall|i: int| 0 <= i < provers.len() ==> (#[trigger] provers[i]).wf()
}

/// Every recording of the batch has as many public inputs as the first.
pub open spec fn same_shape<S>(provers: Seq<ProvingAssignment<S>>) -> bool {
    forall|i: int| 0 <= i < provers.len() ==> (#[trigger] provers[i])@.inputs.len() == provers[0]@.inputs.len()
}

/// `n` times the additive identity.
pub open spec fn zeros<S: Scalar>(n: nat) -> Seq<S> {
    Seq::new(n, |i: int| S::zero_spec())
}

/// The blinding scalars of a batch of `n` circuits: those supplied, or
/// the additive identity throughout where none are.
pub open spec fn resolved<S: Scalar>(randomization: Option<(Vec<S>, Vec<S>)>, n: nat) -> (Seq<S>, Seq<S>) {
    match randomization {
        Some(pair) => (pair.0@, pair.1@),
        None => (zeros::<S>(n), zeros::<S>(n)),
    }
}

/// Without supplied randomization every blinding scalar of every circuit
/// is the additive identity.
pub proof fn lemma_default_randomization_is_zero<S: Scalar>(n: nat)
    ensures
        resolved::<S>(None, n).0.len() == n,
        resolved::<S>(None, n).1.len() == n,
        forall|i: int|
            0 <= i < n ==> (#[trigger] resolved::<S>(None, n).0[i]) == S::zero_spec() && resolved::<S>(None, n).0[i].is_zero_spec(),
        forall|i: int|
            0 <= i < n ==> (#[trigger] resolved::<S>(None, n).1[i]) == S::zero_spec() && resolved::<S>(None, n).1[i].is_zero_spec(),
{
    S::lemma_identities();
}

/// `n` times the additive identity.
pub fn zero_scalars<S: Scalar>(n: usize) -> (v: Vec<S>)
    ensures
        v@ == zeros::<S>(n as nat),
{
    let mut v: Vec<S> = Vec::new();
    let mut i: usize = 0;
    while i < n
        invariant
            i <= n,
            v@ == zeros::<S>(i as nat),
        decreases n - i,
    {
        v.push(S::zero());
        i = i + 1;
        assert(v@ =~= zeros::<S>(i as nat));
    }
    v
}

/// The blinding scalars of a batch of `n` circuits.
pub fn resolve_randomization<S: Scalar>(randomization: Option<(Vec<S>, Vec<S>)>, n: usize) -> (r: (Vec<S>, Vec<S>))
    ensures
        (r.0@, r.1@) == resolved(randomization, n as nat),
{
    match randomization {
        Some(pair) => pair,
        None => (zero_scalars(n), zero_scalars(n)),
    }
}

/// Whether every recording has as many public inputs as the first.
pub fn check_shape<S: Scalar>(provers: &[ProvingAssignment<S>]) -> (r: bool)
    ensures
        r == same_shape(provers@),
{
    let mut i: usize = 0;
    while i < provers.len()
        invariant
            i <= provers.len(),
            forall|k: int| 0 <= k < i ==> (#[trigger] provers@[k])@.inputs.len() == provers@[0]@.inputs.len(),
        decreases provers.len() - i,
    {
        if provers[i].input_assignment().len() != provers[0].input_assignment().len() {
            return false;
        }
        i = i + 1;
    }
    true
}

/// A batch that is ready for a proving backend: the recordings in the
/// order of their circuits, one pair of blinding scalars for each, and the
/// reference string.
pub struct BatchDescriptor<S, H> {
    provers: Vec<ProvingAssignment<S>>,
    r_s: Vec<S>,
    s_s: Vec<S>,
    srs: H,
}

impl<S: Scalar, H> BatchDescriptor<S, H> {
    /// The recordings, in the order of their circuits.
    pub closed spec fn provers_spec(&self) -> Seq<ProvingAssignment<S>> {
        self.provers@
    }

    /// The first blinding scalar of each circuit.
    pub closed spec fn r_spec(&self) -> Seq<S> {
        self.r_s@
    }

    /// The second blinding scalar of each circuit.
    pub closed spec fn s_spec(&self) -> Seq<S> {
        self.s_s@
    }

    /// The reference string.
    pub closed spec fn srs_spec(&self) -> H {
        self.srs
    }

    /// Every recording is well-formed, all have the same number of public
    /// inputs, and there is one pair of blinding scalars for each.
    pub open spec fn wf(&self) -> bool {
        &&& all_wf(self.provers_spec())
        &&& same_shape(self.provers_spec())
        &&& self.r_spec().len() == self.provers_spec().len()
        &&& self.s_spec().len() == self.provers_spec().len()
    }

    /// The number of circuits in the batch.
    pub fn num_circuits(&self) -> (n: usize)
        ensures
            n == self.provers_spec().len(),
    {
        self.provers.len()
    }

    /// The recordings, in the order of their circuits.
    pub fn provers(&self) -> (r: &[ProvingAssignment<S>])
        ensures
            r@ == self.provers_spec(),
    {
        self.provers.as_slice()
    }

    /// The first blinding scalar of each circuit.
    pub fn r_s(&self) -> (r: &[S])
        ensures
            r@ == self.r_spec(),
    {
        self.r_s.as_slice()
    }

    /// The second blinding scalar of each circuit.
    pub fn s_s(&self) -> (r: &[S])
        ensures
            r@ == self.s_spec(),
    {
        self.s_s.as_slice()
    }

    /// The reference string.
    pub fn srs(&self) -> (r: &H)
        ensures
            *r == self.srs_spec(),
    {
        &self.srs
    }

    /// The views that the backend reads, one per circuit and in the order
    /// of the circuits.
    pub fn exports(&self) -> (views: Vec<Assignment<'_, S>>)
        requires
            self.wf(),
        ensures
            views@.len() == self.provers_spec().len(),
            forall|i: int| 0 <= i < views@.len() ==> (#[trigger] views@[i]).describes(self.provers_spec()[i]@),
    {
        let mut views: Vec<Assignment<'_, S>> = Vec::new();
        let mut i: usize = 0;
        while i < self.provers.len()
            invariant
                i <= self.provers@.len(),
                self.wf(),
                views@.len() == i,
                forall|k: int| 0 <= k < i ==> (#[trigger] views@[k]).describes(self.provers@[k]@),
            decreases self.provers@.len() - i,
        {
            assert(self.provers@[i as int].wf());
            views.push(Assignment::from(&self.provers[i]));
            i = i + 1;
        }
        views
    }
}

/// Makes a batch descriptor of synthesized recordings. Recordings that
/// differ in their number of public inputs are refused as a shape mismatch;
/// after that a missing reference string is refused as malformed. Blinding
/// scalars that were not supplied are the additive identity.
pub fn assemble_batch<S: Scalar, H>(
    provers: Vec<ProvingAssignment<S>>,
    randomization: Option<(Vec<S>, Vec<S>)>,
    srs: Option<H>,
) -> (r: Result<BatchDescriptor<S, H>, ProverError>)
    requires
        all_wf(provers@),
        randomization.is_some() ==> randomization->Some_0.0@.len() == provers@.len() && randomization->Some_0.1@.len()
            == provers@.len(),
    ensures
        !same_shape(provers@) ==> r == Err::<BatchDescriptor<S, H>, ProverError>(ProverError::ShapeMismatch),
        same_shape(provers@) && srs.is_none() ==> r == Err::<BatchDescriptor<S, H>, ProverError>(
            ProverError::MalformedSrs,
        ),
        same_shape(provers@) && srs.is_some() ==> {
            &&& r.is_ok()
            &&& r->Ok_0.wf()
            &&& r->Ok_0.provers_spec() == provers@
            &&& (r->Ok_0.r_spec(), r->Ok_0.s_spec()) == resolved(randomization, provers@.len())
            &&& r->Ok_0.srs_spec() == srs->Some_0
        },
{
    if !check_shape(provers.as_slice()) {
        return Err(ProverError::ShapeMismatch);
    }
    match srs {
        None => Err(ProverError::MalformedSrs),
        Some(srs) => {
            let (r_s, s_s) = resolve_randomization(randomization, provers.len());
            Ok(BatchDescriptor { provers, r_s, s_s, srs })
        },
    }
}

/// Prepares the proofs of a batch of circuits: synthesizes every circuit,
/// asks the parameter source for the reference string, and assembles the
/// descriptor. If a circuit fails, the batch fails with the fault of a
/// failing circuit. Otherwise circuits that differ in their number of
/// public inputs are a shape mismatch, and after that a source without a
/// reference string is a malformed one. Otherwise the descriptor holds the
/// synthesis of every circuit and one pair of blinding scalars for each, in
/// the order of the circuits, and the source's reference string.
pub fn create_proof_batch_priority_inner<S, C, H, P>(
    circuits: Vec<C>,
    params: P,
    randomization: Option<(Vec<S>, Vec<S>)>,
    _priority: bool,
) -> (r: Result<BatchDescriptor<S, H>, ProverError>) where
    S: Scalar + Send,
    C: Circuit<S> + Send,
    P: ParameterSource<H>,

    requires
        randomization.is_some() ==> randomization->Some_0.0@.len() == circuits@.len() && randomization->Some_0.1@.len()
            == circuits@.len(),
    ensures
        match r {
            Ok(batch) => {
                &&& all_succeed::<S, C>(circuits@)
                &&& uniform_inputs::<S, C>(circuits@)
                &&& params.available_srs() == Some(batch.srs_spec())
                &&& batch.wf()
                &&& all_synthesized(circuits@, batch.provers_spec())
                &&& all_finished(batch.provers_spec())
                &&& (batch.r_spec(), batch.s_spec()) == resolved(randomization, circuits@.len())
            },
            Err(ProverError::Synthesis(fault)) => fails_with::<S, C>(circuits@, fault),
            Err(ProverError::ShapeMismatch) => all_succeed::<S, C>(circuits@) && !uniform_inputs::<S, C>(circuits@),
            Err(ProverError::MalformedSrs) => {
                &&& all_succeed::<S, C>(circuits@)
                &&& uniform_inputs::<S, C>(circuits@)
                &&& params.available_srs().is_none()
            },
        },
        r.is_ok() <==> {
            &&& all_succeed::<S, C>(circuits@)
            &&& uniform_inputs::<S, C>(circuits@)
            &&& params.available_srs().is_some()
        },
{
    match synthesize_circuits_batch(circuits) {
        Err(fault) => Err(ProverError::Synthesis(fault)),
        Ok(provers) => {
            proof {
                lemma_same_shape_iff_uniform::<S, C>(circuits@, provers@);
            }
            let srs = params.get_supraseal_srs();
            assemble_batch(provers, randomization, srs)
        },
    }
}

} // verus!
