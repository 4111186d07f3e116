//! Witness recording and batch preparation for a Groth16 prover.
//!
//! A circuit is synthesized into a [`assignment::ProvingAssignment`], which
//! records one evaluated triple per constraint together with the variable
//! assignments and the density of the A and B queries. A batch of such
//! recordings is validated, paired with blinding scalars and the reference
//! string, and handed out as a [`batch::BatchDescriptor`] whose exported views
//! are what a proving backend consumes.

pub mod error;
pub mod scalar;
pub mod density;
pub mod variable;
pub mod assignment;
pub mod synthesis;
pub mod export;
pub mod batch;
