//! NGAP message shapes (3GPP TS 38.413).

use vstd::prelude::*;

verus! {

/// An NGAP message.
#[derive(Debug, Clone)]
pub enum NgapMessage {
    /// gNodeB to AMF: the first NAS message of a UE.
    InitialUeMessage(NgapInitialUeMessage),
    /// AMF to gNodeB: a NAS message for the UE.
    DownlinkNasTransport(NgapDownlinkNasTransport),
    /// gNodeB to AMF: a NAS message from the UE.
    UplinkNasTransport(NgapUplinkNasTransport),
    /// AMF to gNodeB: establish a PDU session.
    PduSessionResourceSetupRequest,
    /// gNodeB to AMF: PDU session established.
    PduSessionResourceSetupResponse,
    /// AMF to gNodeB: release the UE context.
    UeContextReleaseCommand { cause: NgapCause },
}

#[derive(Debug, Clone)]
pub struct NgapInitialUeMessage {
    pub ran_ue_ngap_id: u32,
    pub nas_pdu: Vec<u8>,
    /// Tracking Area Identity: PLMN (3) ‖ TAC (3).
    pub tai: [u8; 6],
    pub nr_cgi: [u8; 9],
    pub rrc_establishment_cause: u8,
}

#[derive(Debug, Clone)]
pub struct NgapUplinkNasTransport {
    pub amf_ue_ngap_id: u32,
    pub ran_ue_ngap_id: u32,
    pub nas_pdu: Vec<u8>,
    pub tai: [u8; 6],
    pub nr_cgi: [u8; 9],
}

#[derive(Debug, Clone)]
pub struct NgapDownlinkNasTransport {
    pub amf_ue_ngap_id: u32,
    pub ran_ue_ngap_id: u32,
    pub nas_pdu: Vec<u8>,
}

/// NGAP cause values.
#[derive(Debug, Clone, Copy, PartialEq, Eq, Structural)]
pub enum NgapCause {
    RadioNetworkUnspecified,
    NasNormalRelease,
    NasDeregister,
    NasAuthenticationFailure,
    ProtocolUnspecified,
    MiscUnspecified,
}

} // verus!
