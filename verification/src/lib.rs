//! midn — verified building blocks of an experimental LTE/5G core network.
//!
//! * [`auth`]  — Milenage and the Keccak sponge behind TUAK (AKA authentication).
//! * [`proto`] — GTP-U, NAS (EPS and 5GS), ASN.1 ALIGNED PER, S1AP and NGAP codecs.
//! * [`kdf`]   — 3GPP key derivation (Kasme and the 5G-AKA key chain).
//! * [`hss`]   — in-memory Home Subscriber Server.
//! * [`ecs`], [`core_ecs`] — subscriber entity/component storage.
//! * [`mme`], [`amf`] — control-plane state machines.
//! * [`userplane`] — the packet decisions of the GTP-U fast path.

pub mod bytes_util;
pub mod auth;
pub mod proto;
pub mod kdf;
pub mod hss;
pub mod mme;
pub mod amf;
pub mod ecs;
pub mod core_ecs;
pub mod userplane;
