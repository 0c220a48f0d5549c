//! Monte-Carlo simulation core for disordered resistor networks.
//!
//! A fixed-topology lattice of resistors receives randomly sampled
//! conductances each trial; Kirchhoff's equations are assembled into a dense
//! augmented system, solved by Gaussian elimination with partial pivoting,
//! and the solved potential field is scanned for a threshold-crossing
//! boundary.  All scalar arithmetic runs at extended precision through the
//! `f256` crate: the scalar is its raw 256-bit pattern, each primitive
//! operation a trusted call whose result is named over those bits, and
//! everything above — assembly, elimination, back-substitution, residual
//! norms, boundary extraction and trial bookkeeping — is verified to
//! return exactly the named composition the formulas prescribe.

pub mod assembly;
pub mod dists;
pub mod driver;
pub mod elimination;
pub mod isosurface;
pub mod lattice;
pub mod math;
pub mod matrix;
pub mod residual;
pub mod scalar;
