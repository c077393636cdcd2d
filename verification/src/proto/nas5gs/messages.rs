//! 5GS NAS message shapes (3GPP TS 24.501).

use vstd::prelude::*;

verus! {

/// A 5GS NAS message with its information elements.
#[derive(Debug, Clone, PartialEq)]
pub enum Nas5gsMessage {
    RegistrationRequest(RegistrationRequest),
    IdentityRequest { identity_type: u8 },
    IdentityResponse(IdentityResponse),
    AuthenticationRequest(AuthenticationRequest),
    AuthenticationResponse(AuthenticationResponse),
    AuthenticationReject,
    SecurityModeCommand(SecurityModeCommand),
    SecurityModeComplete,
    RegistrationAccept(RegistrationAccept),
    RegistrationComplete,
    RegistrationReject { cause: u8 },
    DeregistrationRequest { switch_off: bool },
    DeregistrationAccept,
}

/// Registration Request IEs (TS 24.501 §8.2.6).
#[derive(Debug, Clone, PartialEq)]
pub struct RegistrationRequest {
    pub registration_type: u8,
    pub ng_ksi: u8,
    /// 5G-GUTI (11 bytes) when the UE has one.
    pub guti: Option<[u8; 11]>,
    pub ue_security_cap: u16,
}

/// Identity Response: exactly one of the identities is present.
#[derive(Debug, Clone, PartialEq)]
pub struct IdentityResponse {
    pub suci: Option<Suci>,
    pub guti: Option<[u8; 11]>,
    /// IMEI / IMEISV digits, as carried.
    pub pei: Option<Vec<u8>>,
}

/// SUbscription Concealed Identifier with the null protection scheme.
#[derive(Debug, Clone, Copy, PartialEq, Eq)]
pub struct Suci {
    pub mcc: [u8; 3],
    pub mnc: [u8; 3],
    pub routing_indicator: u16,
    pub protection_scheme: u8,
    pub home_network_pki: u8,
    pub msin: [u8; 5],
}

/// Authentication Request IEs.
#[derive(Debug, Clone, PartialEq, Eq)]
pub struct AuthenticationRequest {
    pub ng_ksi: u8,
    pub rand: [u8; 16],
    pub autn: [u8; 16],
}

/// Authentication Response IEs: RES* is 16 bytes in 5G-AKA.
#[derive(Debug, Clone, PartialEq, Eq)]
pub struct AuthenticationResponse {
    pub res_star: [u8; 16],
}

/// Security Mode Command IEs.
#[derive(Debug, Clone, PartialEq, Eq)]
pub struct SecurityModeCommand {
    pub nas_cipher_alg: u8,
    pub nas_integrity_alg: u8,
    pub replayed_ue_sec_cap: u16,
}

/// Registration Accept IEs.
#[derive(Debug, Clone, PartialEq)]
pub struct RegistrationAccept {
    pub registration_result: u8,
    pub guti: [u8; 11],
    pub tai_list: Vec<[u8; 6]>,
}

} // verus!
