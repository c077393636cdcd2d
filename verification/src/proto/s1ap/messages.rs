//! S1AP message shapes (3GPP TS 36.413).

use vstd::prelude::*;

verus! {

/// An S1AP message.
#[derive(Clone)]
pub enum S1apMessage {
    S1SetupRequest(S1SetupRequest),
    S1SetupResponse(S1SetupResponse),
    S1SetupFailure { cause: S1apCause },
    InitialUeMessage(InitialUeMessage),
    DownlinkNasTransport(DownlinkNasTransport),
    UplinkNasTransport(UplinkNasTransport),
    InitialContextSetupRequest(InitialContextSetupRequest),
    InitialContextSetupResponse(InitialContextSetupResponse),
    InitialContextSetupFailure { cause: S1apCause },
    UeContextReleaseCommand { cause: S1apCause },
    UeContextReleaseComplete(UeContextReleaseComplete),
}

#[derive(Debug, Clone)]
pub struct S1SetupRequest {
    pub global_enb_id: [u8; 8],
    pub enb_name: Option<String>,
    pub supported_tas: Vec<SupportedTa>,
    pub default_paging_drx: u8,
}

#[derive(Debug, Clone)]
pub struct SupportedTa {
    pub tac: [u8; 2],
    pub plmns: Vec<[u8; 3]>,
}

#[derive(Debug, Clone)]
pub struct S1SetupResponse {
    pub mme_name: Option<String>,
    pub served_gummeis: Vec<Gummei>,
    pub relative_mme_cap: u8,
}

/// Globally Unique MME Identifier.
#[derive(Debug, Clone, Copy, PartialEq, Eq)]
pub struct Gummei {
    pub plmn: [u8; 3],
    pub mme_gid: u16,
    pub mme_code: u8,
}

/// eNodeB to MME: the first NAS message of a UE.
#[derive(Debug, Clone)]
pub struct InitialUeMessage {
    pub enb_ue_s1ap_id: u32,
    pub nas_pdu: Vec<u8>,
    /// Tracking Area Identity: PLMN (3) ‖ TAC (2).
    pub tai: [u8; 5],
    pub eutran_cgi: [u8; 7],
    pub rrc_cause: u8,
}

/// MME to eNodeB: a NAS message for the UE.
#[derive(Debug, Clone)]
pub struct DownlinkNasTransport {
    pub mme_ue_s1ap_id: u32,
    pub enb_ue_s1ap_id: u32,
    pub nas_pdu: Vec<u8>,
}

/// eNodeB to MME: a NAS message from the UE.
#[derive(Debug, Clone)]
pub struct UplinkNasTransport {
    pub mme_ue_s1ap_id: u32,
    pub enb_ue_s1ap_id: u32,
    pub nas_pdu: Vec<u8>,
    pub tai: [u8; 5],
    pub eutran_cgi: [u8; 7],
}

/// MME to eNodeB: set up the UE context and its bearers.
pub struct InitialContextSetupRequest {
    pub mme_ue_s1ap_id: u32,
    pub enb_ue_s1ap_id: u32,
    pub e_rabs: Vec<ErabToSetup>,
    pub nas_pdu: Option<Vec<u8>>,
    /// UE aggregate maximum bit rate (downlink, uplink).
    pub ue_ambr: (u64, u64),
    pub security_key: [u8; 32],
}

impl Clone for InitialContextSetupRequest {
    fn clone(&self) -> (r: Self)
        ensures
            r.mme_ue_s1ap_id == self.mme_ue_s1ap_id,
            r.enb_ue_s1ap_id == self.enb_ue_s1ap_id,
            r.e_rabs@.len() == self.e_rabs@.len(),
            r.nas_pdu is Some <==> self.nas_pdu is Some,
            r.nas_pdu is Some ==> r.nas_pdu->0@ == self.nas_pdu->0@,
            r.ue_ambr == self.ue_ambr,
            r.security_key == self.security_key,
    {
        InitialContextSetupRequest {
            mme_ue_s1ap_id: self.mme_ue_s1ap_id,
            enb_ue_s1ap_id: self.enb_ue_s1ap_id,
            e_rabs: self.e_rabs.clone(),
            nas_pdu: self.nas_pdu.clone(),
            ue_ambr: (self.ue_ambr.0, self.ue_ambr.1),
            security_key: self.security_key,
        }
    }
}

#[derive(Debug, Clone)]
pub struct ErabToSetup {
    pub erab_id: u8,
    pub qci: u8,
    pub gtp_teid: [u8; 4],
    pub transport_layer_addr: [u8; 4],
}

/// eNodeB to MME: the bearers it set up.
#[derive(Debug, Clone)]
pub struct InitialContextSetupResponse {
    pub mme_ue_s1ap_id: u32,
    pub enb_ue_s1ap_id: u32,
    pub e_rabs_setup: Vec<ErabSetupItem>,
    pub e_rabs_failed: Vec<u8>,
}

#[derive(Debug, Clone, Copy)]
pub struct ErabSetupItem {
    pub e_rab_id: u8,
    pub transport_layer_addr: [u8; 4],
    pub gtp_teid: [u8; 4],
}

/// eNodeB to MME: the UE context is released.
#[derive(Debug, Clone)]
pub struct UeContextReleaseComplete {
    pub mme_ue_s1ap_id: u32,
    pub enb_ue_s1ap_id: u32,
}

/// S1AP cause values.
#[derive(Debug, Clone, Copy, PartialEq, Eq, Structural)]
pub enum S1apCause {
    RadioNetworkUnspecified,
    TransportUnspecified,
    NasNormalRelease,
    NasDetach,
    NasAuthFailure,
    ProtocolUnspecified,
    MiscUnspecified,
}

} // verus!
