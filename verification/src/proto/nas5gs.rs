//! NAS-5GS — 5G Non-Access Stratum, 5GS mobility management (3GPP TS 24.501).
//!
//! Carried inside NGAP the way EPS NAS rides inside S1AP, with the same LV /
//! TLV information element encoding; the header opens with the full-octet
//! Extended Protocol Discriminator 0x7E.

pub mod messages;
pub mod security;
pub mod codec;
