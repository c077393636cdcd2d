//! MME — Mobility Management Entity (3GPP TS 23.401): the EPS-AKA attach,
//! NAS security activation, bearer setup and the detach / release paths,
//! driven by S1AP messages.
//!
//! Teardown has one path whichever side starts it: only
//! `UeContextReleaseComplete` despawns the entity, deregisters the IMSI,
//! frees the uplink TEID and emits `UpfEvent::RemoveSession`.

pub mod state_machine;
pub mod attach;
pub mod detach;
