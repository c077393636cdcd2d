//! EPS NAS message shapes (3GPP TS 24.301).

use vstd::prelude::*;

verus! {

/// A NAS message with its information elements.
#[derive(Debug, Clone, PartialEq)]
pub enum NasMessage {
    /// UE to MME: initiate attachment to the network.
    AttachRequest(AttachRequest),
    /// MME to UE: RAND and AUTN challenge.
    AuthenticationRequest(AuthenticationRequest),
    /// UE to MME: RES, the answer to the challenge.
    AuthenticationResponse(AuthenticationResponse),
    /// MME to UE: authentication failed.
    AuthenticationReject,
    /// MME to UE: activate NAS security.
    SecurityModeCommand(SecurityModeCommand),
    /// UE to MME: NAS security activated.
    SecurityModeComplete,
    /// MME to UE: attach accepted, GUTI and IP address assigned.
    AttachAccept(AttachAccept),
    /// UE to MME: attach complete.
    AttachComplete,
    /// Detach from the network.
    DetachRequest { reattach_required: bool },
    /// Detach accepted.
    DetachAccept,
    /// UE to MME: request service (paging response or data).
    ServiceRequest { ksi: u8, sequence_number: u8 },
}

/// Attach Request IEs (TS 24.301 §8.2.4).
#[derive(Debug, Clone, PartialEq)]
pub struct AttachRequest {
    /// EPS attach type: 1 = EPS, 2 = combined EPS/IMSI, 6 = EPS emergency.
    pub attach_type: u8,
    /// Mobile identity: IMSI (8 bytes BCD) or GUTI (10 bytes).
    pub imsi: Option<[u8; 8]>,
    pub guti: Option<[u8; 10]>,
    /// UE network capabilities.
    pub ue_network_cap: u32,
    /// PDN type of the bundled PDN connectivity request.
    pub pdn_type: u8,
}

/// Authentication Request IEs (TS 24.301 §8.2.7).
#[derive(Debug, Clone, PartialEq, Eq)]
pub struct AuthenticationRequest {
    /// KSI_ASME (3 bits).
    pub ksi_asme: u8,
    /// Random challenge.
    pub rand: [u8; 16],
    /// Authentication token (SQN xor AK || AMF || MAC-A).
    pub autn: [u8; 16],
}

/// Authentication Response IEs (TS 24.301 §8.2.8).
#[derive(Debug, Clone, PartialEq, Eq)]
pub struct AuthenticationResponse {
    /// The UE's response (f2 output).
    pub res: [u8; 8],
}

/// Security Mode Command IEs (TS 24.301 §8.2.20).
#[derive(Debug, Clone, PartialEq, Eq)]
pub struct SecurityModeCommand {
    /// Selected NAS ciphering algorithm (0 = EEA0, 1 = 128-EEA1, 2 = 128-EEA2).
    pub nas_cipher_alg: u8,
    /// Selected NAS integrity algorithm (0 = EIA0, 1 = 128-EIA1, 2 = 128-EIA2).
    pub nas_integrity_alg: u8,
    /// Replayed UE security capabilities.
    pub replayed_ue_sec_cap: u32,
}

/// Attach Accept IEs (TS 24.301 §8.2.1).
#[derive(Debug, Clone, PartialEq)]
pub struct AttachAccept {
    /// Attach result: 1 = EPS, 3 = combined EPS/IMSI.
    pub attach_result: u8,
    /// T3412 periodic tracking area update timer (encoded).
    pub t3412_value: u8,
    /// Tracking Area Identity list.
    pub tai_list: Vec<[u8; 5]>,
    /// Assigned GUTI.
    pub guti: [u8; 10],
    /// Access Point Name.
    pub apn: String,
    /// Assigned IPv4 address.
    pub ip_address: [u8; 4],
}

} // verus!
