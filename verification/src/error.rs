//! What can go wrong between a batch of circuits and a batch descriptor.

use vstd::prelude::*;

verus! {

/// The error type of circuits, carried through untouched.
#[verifier::external_type_specification]
#[verifier::external_body]
pub struct ExSynthesisError(bellpepper_core::SynthesisError);

/// Why recording a circuit failed.
#[derive(Debug)]
pub enum SynthesisFault {
    /// A term with a nonzero coefficient names a variable that was never
    /// allocated.
    UnallocatedVariable,
    /// The circuit's own logic gave up.
    Circuit(bellpepper_core::SynthesisError),
}

/// Why no batch could be prepared.
#[derive(Debug)]
pub enum ProverError {
    /// A circuit of the batch could not be synthesized.
    Synthesis(SynthesisFault),
    /// The circuits of the batch differ in their number of public inputs.
    ShapeMismatch,
    /// The parameter source has no usable reference string.
    MalformedSrs,
}

impl SynthesisFault {
    /// The text of `message`.
    pub open spec fn message_spec(&self) -> Seq<char> {
        match self {
            SynthesisFault::UnallocatedVariable => "a term names a variable that was not allocated"@,
            SynthesisFault::Circuit(_) => "the circuit could not be synthesized"@,
        }
    }

    /// A short description of the fault.
    pub fn message(&self) -> (r: &'static str)
        ensures
            r@ == self.message_spec(),
    {
        match self {
            SynthesisFault::UnallocatedVariable => "a term names a variable that was not allocated",
            SynthesisFault::Circuit(_) => "the circuit could not be synthesized",
        }
    }
}

impl ProverError {
    /// A short description of the error.
    pub fn message(&self) -> (r: &'static str)
        ensures
            r@ == (match self {
                ProverError::Synthesis(fault) => fault.message_spec(),
                ProverError::ShapeMismatch => "only equally sized circuits are supported"@,
                ProverError::MalformedSrs => "malformed SRS"@,
            }),
    {
        match self {
            ProverError::Synthesis(fault) => fault.message(),
            ProverError::ShapeMismatch => "only equally sized circuits are supported",
            ProverError::MalformedSrs => "malformed SRS",
        }
    }
}

} // verus!
