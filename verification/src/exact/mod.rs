//! What the algorithms achieve where the arithmetic of the scalars is exact.
//!
//! Nothing else in this crate assumes an algebraic law of the scalar
//! operations, since rounding arithmetic breaks most of them. The theorems
//! here take the laws they need as hypotheses: they hold of every scalar type
//! that obeys them, and say what the computed quantities mean there.

pub mod field;
pub mod hessenberg;
pub mod orthonormality;
pub mod residual;
pub mod rotation;
pub mod substitution;
