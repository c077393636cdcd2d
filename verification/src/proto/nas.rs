//! NAS — Non-Access Stratum, EPS mobility management (3GPP TS 24.301).

pub mod ie;
pub mod messages;
pub mod codec;
pub mod security;
