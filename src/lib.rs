//! A differential-privacy noise-injection engine: per-field noise policies,
//! the selection of a random source for each draw, and the walk over a record
//! that perturbs the policy-bound fields and collects per-field errors.
//!
//! Floating-point work (reading a number, deriving a distribution's scale,
//! sampling, rounding) is done by the caller and handed in; everything that
//! decides which field is touched, with which policy and source, and what
//! happens on failure is verified here.

pub mod binary64;
pub mod engine;
pub mod policy;
pub mod randomness;
