//! LTE/5G protocol stack: GTP-U, NAS (EPS and 5GS), ASN.1 ALIGNED PER,
//! S1AP and NGAP.

pub mod error;
pub mod wire;
pub mod gtp;
pub mod nas;
pub mod nas5gs;
pub mod s1ap;
pub mod ngap;
pub mod ie_container;
