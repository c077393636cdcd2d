//! NGAP — the gNodeB to AMF control protocol (3GPP TS 38.413), ALIGNED PER
//! encoded with the same framing as S1AP.

pub mod ie_ids;
pub mod messages;
pub mod codec;
