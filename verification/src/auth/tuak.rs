//! TUAK — 3GPP TS 35.231 (Keccak-based AKA algorithm set).
//!
//! The Keccak-f[1600] permutation (from the `keccak` crate) and the generic
//! sponge over it are complete; the TUAK-specific input records are not
//! modeled, so the context types below carry configuration only.

pub mod algorithm;
pub mod keccak_p;
pub mod sponge;

pub use algorithm::{TuakAuthVector, TuakConfig, TuakContext, TuakKey, TuakTop, TuakTopc};
