//! The MME's first subscriber store: entity ids with one hash map per
//! component. (The dense store shared by the MME and the AMF is
//! [`crate::ecs`].)
//!
//! Entities are subscribers (UEs); components are the IMSI, the
//! authentication state, the security context, the PDN session and the
//! GTP tunnel.

pub mod components;
pub mod registry;
pub mod world;
