//! NGAP protocol constants (3GPP TS 38.413 §9.3).

use vstd::prelude::*;

verus! {

// Criticality.
pub const CRITICALITY_REJECT: u8 = 0;
pub const CRITICALITY_IGNORE: u8 = 1;
pub const CRITICALITY_NOTIFY: u8 = 2;

// Procedure codes.
pub const PROC_DOWNLINK_NAS_TRANSPORT: u32 = 4;
pub const PROC_INITIAL_UE_MESSAGE: u32 = 15;
pub const PROC_UPLINK_NAS_TRANSPORT: u32 = 46;

// Protocol IE ids.
pub const ID_AMF_UE_NGAP_ID: u32 = 10;
pub const ID_RAN_UE_NGAP_ID: u32 = 85;
pub const ID_NAS_PDU: u32 = 38;
pub const ID_USER_LOCATION_INFO: u32 = 121;
pub const ID_RRC_ESTABLISHMENT_CAUSE: u32 = 90;

// Value ranges.
pub const RAN_UE_NGAP_ID_MAX: u64 = 4_294_967_295;
pub const AMF_UE_NGAP_ID_MAX: u64 = 4_294_967_295;
pub const RRC_ESTABLISHMENT_CAUSE_MAX: u64 = 15;
pub const PROTOCOL_IE_ID_MAX: u64 = 65_535;
pub const PROCEDURE_CODE_MAX: u64 = 255;

} // verus!
