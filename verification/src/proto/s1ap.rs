//! S1AP — the eNodeB to MME control protocol (3GPP TS 36.413), ALIGNED PER
//! encoded.

pub mod per;
pub mod ie_ids;
pub mod messages;
pub mod codec;
