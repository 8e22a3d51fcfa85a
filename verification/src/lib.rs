//! Verified bookkeeping core of a naval-architecture toolbox.
//!
//! Quantities that the toolbox measures in metres, kilograms or fill
//! fractions are carried here as the bit patterns of IEEE-754 binary64
//! numbers (`u64`): this crate stores, moves, looks up and clamps them, and
//! leaves the arithmetic on them to its callers.

pub mod fill;
pub mod loading;
pub mod names;
pub mod silhouette;
pub mod vessel;

pub use loading::MassCategory;
