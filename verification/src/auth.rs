//! Authentication and key agreement: Milenage (3GPP TS 35.206) and the
//! Keccak sponge that TUAK (TS 35.231) builds on.

pub mod keys;
pub mod milenage;
pub mod tuak;
