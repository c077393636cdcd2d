//! TUAK parameter and key types (TS 35.231 section 5).
//!
//! The TUAK function constructions themselves (TOPC derivation and the
//! f1..f5* input records) are not modeled; the context holds its key
//! material and configuration.

use vstd::prelude::*;

verus! {

/// TUAK subscriber key (K), 16 or 32 bytes.
#[derive(Clone)]
pub struct TuakKey(pub Vec<u8>);

/// TUAK operator variant configuration field (TOP).
#[derive(Clone)]
pub struct TuakTop(pub Vec<u8>);

/// Derived operator variant (TOPC).
#[derive(Clone)]
pub struct TuakTopc(pub Vec<u8>);

/// TUAK parameter set.
#[derive(Debug, Clone, Copy, PartialEq, Eq, Structural)]
pub struct TuakConfig {
    pub key_len_bytes: usize,
    pub mac_len_bytes: usize,
    pub res_len_bytes: usize,
    pub ck_ik_len_bytes: usize,
}

/// The seven TUAK function outputs, with configurable lengths.
pub struct TuakAuthVector {
    pub mac_a: Vec<u8>,
    pub mac_s: Vec<u8>,
    pub res: Vec<u8>,
    pub ck: Vec<u8>,
    pub ik: Vec<u8>,
    pub ak: Vec<u8>,
    pub ak_star: Vec<u8>,
}

/// Per-subscriber TUAK context.
pub struct TuakContext {
    k: TuakKey,
    topc: TuakTopc,
    config: TuakConfig,
}

impl TuakContext {
    /// The configuration the context was built with.
    pub closed spec fn spec_config(&self) -> TuakConfig {
        self.config
    }

    /// The subscriber key K.
    pub closed spec fn key_bytes(&self) -> Seq<u8> {
        self.k.0@
    }

    /// The stored TOPC.
    pub closed spec fn topc_bytes(&self) -> Seq<u8> {
        self.topc.0@
    }

    /// Construct from a pre-derived TOPC.
    pub fn new(k: TuakKey, topc: TuakTopc, config: TuakConfig) -> (ctx: TuakContext)
        ensures
            ctx.spec_config() == config,
            ctx.key_bytes() == k.0@,
            ctx.topc_bytes() == topc.0@,
    {
        TuakContext { k, topc, config }
    }

    /// The configuration.
    pub fn config(&self) -> (c: TuakConfig)
        ensures
            c == self.spec_config(),
    {
        self.config
    }
}

} // verus!
