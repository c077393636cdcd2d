//! S1AP protocol constants (3GPP TS 36.413 §9.3).

use vstd::prelude::*;

verus! {

// Criticality.
pub const CRITICALITY_REJECT: u8 = 0;
pub const CRITICALITY_IGNORE: u8 = 1;
pub const CRITICALITY_NOTIFY: u8 = 2;

// Procedure codes.
pub const PROC_DOWNLINK_NAS_TRANSPORT: u32 = 11;
pub const PROC_INITIAL_UE_MESSAGE: u32 = 12;
pub const PROC_UPLINK_NAS_TRANSPORT: u32 = 13;

// Protocol IE ids.
pub const ID_MME_UE_S1AP_ID: u32 = 0;
pub const ID_ENB_UE_S1AP_ID: u32 = 8;
pub const ID_NAS_PDU: u32 = 26;
pub const ID_TAI: u32 = 67;
pub const ID_EUTRAN_CGI: u32 = 100;
pub const ID_RRC_ESTABLISHMENT_CAUSE: u32 = 134;

// Value ranges.
pub const ENB_UE_S1AP_ID_MAX: u64 = 16_777_215;
pub const MME_UE_S1AP_ID_MAX: u64 = 4_294_967_295;
pub const RRC_ESTABLISHMENT_CAUSE_MAX: u64 = 15;
pub const PROTOCOL_IE_ID_MAX: u64 = 65_535;
pub const PROCEDURE_CODE_MAX: u64 = 255;

} // verus!
