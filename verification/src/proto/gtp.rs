//! GTP-U — GPRS Tunneling Protocol, user plane (3GPP TS 29.281).

pub mod header;
pub mod parser;

pub use header::GtpuHeader;
pub use parser::{GtpuPacket, GtpuParser};
