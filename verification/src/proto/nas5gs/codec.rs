//! 5GS NAS message encoder/decoder (3GPP TS 24.501).
//!
//! Plain 5GMM header: octet 1 the Extended Protocol Discriminator 0x7E,
//! octet 2 the security header type (low nibble, spare high nibble),
//! octet 3 the message type; the information elements follow, LV / TLV
//! encoded as in EPS NAS.
//!
//! Protected envelope: `0x7E ‖ SHT ‖ MAC-I(4) ‖ SEQ ‖ payload`.

use vstd::prelude::*;

use crate::proto::error::{ProtoError, ProtoErrorKind};
use crate::proto::nas::ie::{law_lv_round_trip, lv_bytes, read_lv, read_lv_spec, write_lv};
use crate::proto::nas5gs::messages::Suci;
use crate::proto::nas5gs::security::{
    protect_downlink_5g_post, unprotect_uplink_5g_post, Nas5gsSecurityContext,
};
use crate::proto::wire::{be16, u16_be};

verus! {

/// Extended Protocol Discriminator of 5GS mobility management.
pub const NAS5GS_MM_EPD: u8 = 0x7E;

/// Security header types (TS 24.501 §9.3).
pub const NAS5GS_SHT_PLAIN: u8 = 0;
pub const NAS5GS_SHT_INTEGRITY: u8 = 1;
pub const NAS5GS_SHT_INTEGRITY_CIPHERED: u8 = 2;
pub const NAS5GS_SHT_INTEGRITY_NEW_CTX: u8 = 3;
pub const NAS5GS_SHT_INTEGRITY_CIPHERED_NEW_CTX: u8 = 4;

// Message types (TS 24.501 Table 9.7.1).
pub const MT_REGISTRATION_REQUEST: u8 = 0x41;
pub const MT_REGISTRATION_ACCEPT: u8 = 0x42;
pub const MT_REGISTRATION_COMPLETE: u8 = 0x43;
pub const MT_REGISTRATION_REJECT: u8 = 0x44;
pub const MT_DEREGISTRATION_REQUEST: u8 = 0x45;
pub const MT_DEREGISTRATION_ACCEPT: u8 = 0x46;
pub const MT_AUTHENTICATION_REQUEST: u8 = 0x56;
pub const MT_AUTHENTICATION_RESPONSE: u8 = 0x57;
pub const MT_AUTHENTICATION_REJECT: u8 = 0x58;
pub const MT_IDENTITY_REQUEST: u8 = 0x5B;
pub const MT_IDENTITY_RESPONSE: u8 = 0x5C;
pub const MT_SECURITY_MODE_COMMAND: u8 = 0x5D;
pub const MT_SECURITY_MODE_COMPLETE: u8 = 0x5E;

/// Identity types of the 5GS mobile identity (low 3 bits of its octet 1).
pub const IDTYPE_SUCI: u8 = 1;
pub const IDTYPE_5G_GUTI: u8 = 2;
pub const IDTYPE_PEI: u8 = 3;

/// A decoded plain 5GS NAS PDU.
#[derive(Debug, Clone)]
pub enum Nas5gsPdu {
    RegistrationRequest(DecodedRegistrationRequest),
    IdentityRequest { identity_type: u8 },
    IdentityResponse(DecodedIdentityResponse),
    AuthenticationRequest(DecodedAuthenticationRequest),
    AuthenticationResponse(DecodedAuthenticationResponse),
    AuthenticationReject,
    SecurityModeCommand(DecodedSecurityModeCommand),
    SecurityModeComplete,
    RegistrationAccept(DecodedRegistrationAccept),
    RegistrationComplete,
    RegistrationReject { cause: u8 },
    DeregistrationRequest { switch_off: bool },
    DeregistrationAccept,
}

#[derive(Debug, Clone)]
pub struct DecodedRegistrationRequest {
    pub registration_type: u8,
    pub ng_ksi: u8,
    pub guti: Option<[u8; 11]>,
    pub ue_security_cap: u16,
}

#[derive(Debug, Clone)]
pub struct DecodedIdentityResponse {
    pub suci: Option<Suci>,
    pub guti: Option<[u8; 11]>,
    pub pei: Option<Vec<u8>>,
}

#[derive(Debug, Clone)]
pub struct DecodedAuthenticationRequest {
    pub ng_ksi: u8,
    pub rand: [u8; 16],
    pub autn: [u8; 16],
}

#[derive(Debug, Clone)]
pub struct DecodedAuthenticationResponse {
    pub res_star: [u8; 16],
}

#[derive(Debug, Clone)]
pub struct DecodedSecurityModeCommand {
    pub nas_cipher_alg: u8,
    pub nas_integrity_alg: u8,
    pub replayed_ue_sec_cap: u16,
}

#[derive(Debug, Clone)]
pub struct DecodedRegistrationAccept {
    pub registration_result: u8,
    pub guti: [u8; 11],
    pub tai_list: Vec<[u8; 6]>,
}

/// What a SUCI says.
pub struct SuciView {
    pub mcc: Seq<u8>,
    pub mnc: Seq<u8>,
    pub routing_indicator: u16,
    pub protection_scheme: u8,
    pub home_network_pki: u8,
    pub msin: Seq<u8>,
}

impl View for Suci {
    type V = SuciView;

    open spec fn view(&self) -> SuciView {
        SuciView {
            mcc: self.mcc@,
            mnc: self.mnc@,
            routing_indicator: self.routing_indicator,
            protection_scheme: self.protection_scheme,
            home_network_pki: self.home_network_pki,
            msin: self.msin@,
        }
    }
}

/// What a decoded 5GS NAS PDU says.
pub enum Nas5gsView {
    RegistrationRequest { registration_type: u8, ng_ksi: u8, guti: Option<Seq<u8>>, ue_security_cap: u16 },
    IdentityRequest { identity_type: u8 },
    IdentityResponse { suci: Option<SuciView>, guti: Option<Seq<u8>>, pei: Option<Seq<u8>> },
    AuthenticationRequest { ng_ksi: u8, rand: Seq<u8>, autn: Seq<u8> },
    AuthenticationResponse { res_star: Seq<u8> },
    AuthenticationReject,
    SecurityModeCommand { nas_cipher_alg: u8, nas_integrity_alg: u8, replayed_ue_sec_cap: u16 },
    SecurityModeComplete,
    RegistrationAccept { registration_result: u8, guti: Seq<u8>, tai_list: Seq<Seq<u8>> },
    RegistrationComplete,
    RegistrationReject { cause: u8 },
    DeregistrationRequest { switch_off: bool },
    DeregistrationAccept,
}

pub open spec fn opt11(o: Option<[u8; 11]>) -> Option<Seq<u8>> {
    match o {
        Some(a) => Some(a@),
        None => None,
    }
}

pub open spec fn tai6_views(v: Seq<[u8; 6]>) -> Seq<Seq<u8>> {
    Seq::new(v.len(), |i: int| v[i]@)
}

impl View for Nas5gsPdu {
    type V = Nas5gsView;

    open spec fn view(&self) -> Nas5gsView {
        match self {
            Nas5gsPdu::RegistrationRequest(d) => Nas5gsView::RegistrationRequest {
                registration_type: d.registration_type,
                ng_ksi: d.ng_ksi,
                guti: opt11(d.guti),
                ue_security_cap: d.ue_security_cap,
            },
            Nas5gsPdu::IdentityRequest { identity_type } => Nas5gsView::IdentityRequest { identity_type: *identity_type },
            Nas5gsPdu::IdentityResponse(d) => Nas5gsView::IdentityResponse {
                suci: match d.suci {
                    Some(s) => Some(s@),
                    None => None,
                },
                guti: opt11(d.guti),
                pei: match d.pei {
                    Some(p) => Some(p@),
                    None => None,
                },
            },
            Nas5gsPdu::AuthenticationRequest(d) => Nas5gsView::AuthenticationRequest {
                ng_ksi: d.ng_ksi,
                rand: d.rand@,
                autn: d.autn@,
            },
            Nas5gsPdu::AuthenticationResponse(d) => Nas5gsView::AuthenticationResponse { res_star: d.res_star@ },
            Nas5gsPdu::AuthenticationReject => Nas5gsView::AuthenticationReject,
            Nas5gsPdu::SecurityModeCommand(d) => Nas5gsView::SecurityModeCommand {
                nas_cipher_alg: d.nas_cipher_alg,
                nas_integrity_alg: d.nas_integrity_alg,
                replayed_ue_sec_cap: d.replayed_ue_sec_cap,
            },
            Nas5gsPdu::SecurityModeComplete => Nas5gsView::SecurityModeComplete,
            Nas5gsPdu::RegistrationAccept(d) => Nas5gsView::RegistrationAccept {
                registration_result: d.registration_result,
                guti: d.guti@,
                tai_list: tai6_views(d.tai_list@),
            },
            Nas5gsPdu::RegistrationComplete => Nas5gsView::RegistrationComplete,
            Nas5gsPdu::RegistrationReject { cause } => Nas5gsView::RegistrationReject { cause: *cause },
            Nas5gsPdu::DeregistrationRequest { switch_off } => Nas5gsView::DeregistrationRequest { switch_off: *switch_off },
            Nas5gsPdu::DeregistrationAccept => Nas5gsView::DeregistrationAccept,
        }
    }
}

// ── Decoding: what each message body gives ───────────────────────────────────

/// A 2-byte capability LV value read big-endian, 0 when absent or short.
pub open spec fn cap_u16(rest: Seq<u8>) -> u16 {
    match read_lv_spec(rest) {
        Some((cap, _)) => if cap.len() >= 2 {
            be16(cap[0], cap[1])
        } else {
            0
        },
        None => 0,
    }
}

pub open spec fn registration_request_spec(body: Seq<u8>) -> Result<Nas5gsView, ProtoErrorKind> {
    if body.len() == 0 {
        Err(ProtoErrorKind::TooShort { expected: 1, got: 0 })
    } else {
        match read_lv_spec(body.skip(1)) {
            None => Err(ProtoErrorKind::MalformedNas5gs),
            Some((identity, rest)) => Ok(Nas5gsView::RegistrationRequest {
                registration_type: body[0] & 0x07,
                ng_ksi: (body[0] >> 4u8) & 0x07,
                guti: if identity.len() == 11 {
                    Some(identity)
                } else {
                    None
                },
                ue_security_cap: cap_u16(rest),
            }),
        }
    }
}

pub open spec fn suci_view_of(v: Seq<u8>) -> SuciView {
    SuciView {
        mcc: v.subrange(0, 3),
        mnc: v.subrange(3, 6),
        routing_indicator: be16(v[6], v[7]),
        protection_scheme: v[8],
        home_network_pki: v[9],
        msin: v.subrange(10, 15),
    }
}

pub open spec fn identity_response_spec(body: Seq<u8>) -> Result<Nas5gsView, ProtoErrorKind> {
    match read_lv_spec(body) {
        None => Err(ProtoErrorKind::MalformedNas5gs),
        Some((id, _)) => if id.len() == 0 {
            Err(ProtoErrorKind::MalformedNas5gs)
        } else if id[0] & 0x07 == IDTYPE_SUCI {
            if id.len() < 16 {
                Err(ProtoErrorKind::MalformedNas5gs)
            } else {
                Ok(Nas5gsView::IdentityResponse { suci: Some(suci_view_of(id.subrange(1, 16))), guti: None, pei: None })
            }
        } else if id[0] & 0x07 == IDTYPE_5G_GUTI {
            if id.len() != 11 {
                Err(ProtoErrorKind::MalformedNas5gs)
            } else {
                Ok(Nas5gsView::IdentityResponse { suci: None, guti: Some(id), pei: None })
            }
        } else {
            Ok(Nas5gsView::IdentityResponse { suci: None, guti: None, pei: Some(id.skip(1)) })
        },
    }
}

pub open spec fn auth_request_5g_spec(body: Seq<u8>) -> Result<Nas5gsView, ProtoErrorKind> {
    if body.len() == 0 {
        Err(ProtoErrorKind::TooShort { expected: 33, got: 0 })
    } else {
        match read_lv_spec(body.skip(1)) {
            None => Err(ProtoErrorKind::MalformedNas5gs),
            Some((rand, rest)) => if rand.len() != 16 {
                Err(ProtoErrorKind::MalformedNas5gs)
            } else {
                match read_lv_spec(rest) {
                    None => Err(ProtoErrorKind::MalformedNas5gs),
                    Some((autn, _)) => if autn.len() != 16 {
                        Err(ProtoErrorKind::MalformedNas5gs)
                    } else {
                        Ok(Nas5gsView::AuthenticationRequest { ng_ksi: (body[0] >> 4u8) & 0x07, rand, autn })
                    },
                }
            },
        }
    }
}

pub open spec fn auth_response_5g_spec(body: Seq<u8>) -> Result<Nas5gsView, ProtoErrorKind> {
    match read_lv_spec(body) {
        None => Err(ProtoErrorKind::MalformedNas5gs),
        Some((res, _)) => if res.len() != 16 {
            Err(ProtoErrorKind::MalformedNas5gs)
        } else {
            Ok(Nas5gsView::AuthenticationResponse { res_star: res })
        },
    }
}

pub open spec fn sec_mode_cmd_5g_spec(body: Seq<u8>) -> Result<Nas5gsView, ProtoErrorKind> {
    if body.len() == 0 {
        Err(ProtoErrorKind::TooShort { expected: 1, got: 0 })
    } else {
        Ok(Nas5gsView::SecurityModeCommand {
            nas_cipher_alg: (body[0] >> 4u8) & 0x0F,
            nas_integrity_alg: body[0] & 0x0F,
            replayed_ue_sec_cap: cap_u16(body.skip(1)),
        })
    }
}

/// Consecutive 6-byte TAIs, a trailing remainder shorter than 6 dropped.
pub open spec fn tai_chunks(s: Seq<u8>) -> Seq<Seq<u8>>
    decreases s.len(),
{
    if s.len() < 6 {
        Seq::empty()
    } else {
        seq![s.take(6)] + tai_chunks(s.skip(6))
    }
}

pub open spec fn registration_accept_spec(body: Seq<u8>) -> Result<Nas5gsView, ProtoErrorKind> {
    if body.len() == 0 {
        Err(ProtoErrorKind::TooShort { expected: 1, got: 0 })
    } else {
        match read_lv_spec(body.skip(1)) {
            None => Err(ProtoErrorKind::MalformedNas5gs),
            Some((guti, rest)) => if guti.len() != 11 {
                Err(ProtoErrorKind::MalformedNas5gs)
            } else {
                match read_lv_spec(rest) {
                    None => Err(ProtoErrorKind::MalformedNas5gs),
                    Some((tai, _)) => Ok(Nas5gsView::RegistrationAccept {
                        registration_result: body[0] & 0x07,
                        guti,
                        tai_list: if tai.len() == 0 {
                            Seq::empty()
                        } else {
                            tai_chunks(tai.skip(1))
                        },
                    }),
                }
            },
        }
    }
}

/// What `decode_nas5gs` gives for a buffer.
pub open spec fn decode_nas5gs_spec(buf: Seq<u8>) -> Result<Nas5gsView, ProtoErrorKind> {
    if buf.len() < 3 {
        Err(ProtoErrorKind::TooShort { expected: 3, got: buf.len() })
    } else if buf[0] != NAS5GS_MM_EPD {
        Err(ProtoErrorKind::MalformedNas5gs)
    } else if buf[1] & 0x0F != NAS5GS_SHT_PLAIN {
        Err(ProtoErrorKind::MalformedNas5gs)
    } else {
        let mt = buf[2];
        let body = buf.skip(3);
        if mt == MT_REGISTRATION_REQUEST {
            registration_request_spec(body)
        } else if mt == MT_IDENTITY_REQUEST {
            if body.len() == 0 {
                Err(ProtoErrorKind::TooShort { expected: 1, got: 0 })
            } else {
                Ok(Nas5gsView::IdentityRequest { identity_type: body[0] & 0x0F })
            }
        } else if mt == MT_IDENTITY_RESPONSE {
            identity_response_spec(body)
        } else if mt == MT_AUTHENTICATION_REQUEST {
            auth_request_5g_spec(body)
        } else if mt == MT_AUTHENTICATION_RESPONSE {
            auth_response_5g_spec(body)
        } else if mt == MT_AUTHENTICATION_REJECT {
            Ok(Nas5gsView::AuthenticationReject)
        } else if mt == MT_SECURITY_MODE_COMMAND {
            sec_mode_cmd_5g_spec(body)
        } else if mt == MT_SECURITY_MODE_COMPLETE {
            Ok(Nas5gsView::SecurityModeComplete)
        } else if mt == MT_REGISTRATION_ACCEPT {
            registration_accept_spec(body)
        } else if mt == MT_REGISTRATION_COMPLETE {
            Ok(Nas5gsView::RegistrationComplete)
        } else if mt == MT_REGISTRATION_REJECT {
            if body.len() == 0 {
                Err(ProtoErrorKind::TooShort { expected: 1, got: 0 })
            } else {
                Ok(Nas5gsView::RegistrationReject { cause: body[0] })
            }
        } else if mt == MT_DEREGISTRATION_REQUEST {
            if body.len() == 0 {
                Err(ProtoErrorKind::TooShort { expected: 1, got: 0 })
            } else {
                Ok(Nas5gsView::DeregistrationRequest { switch_off: body[0] & 0x01 != 0 })
            }
        } else if mt == MT_DEREGISTRATION_ACCEPT {
            Ok(Nas5gsView::DeregistrationAccept)
        } else {
            Err(ProtoErrorKind::UnknownMsgType(mt))
        }
    }
}

pub open spec fn decoded5g_as(r: Result<Nas5gsPdu, ProtoError>, expect: Result<Nas5gsView, ProtoErrorKind>) -> bool {
    match r {
        Ok(p) => expect == Ok::<Nas5gsView, ProtoErrorKind>(p@),
        Err(e) => expect == Err::<Nas5gsView, ProtoErrorKind>(e@),
    }
}

// ── Decoding ─────────────────────────────────────────────────────────────────

/// Parse a plain 5GS NAS PDU.
pub fn decode_nas5gs(buf: &[u8]) -> (r: Result<Nas5gsPdu, ProtoError>)
    ensures
        decoded5g_as(r, decode_nas5gs_spec(buf@)),
{
    if buf.len() < 3 {
        return Err(ProtoError::TooShort { expected: 3, got: buf.len() });
    }
    if buf[0] != NAS5GS_MM_EPD {
        return Err(ProtoError::MalformedNas5gs { reason: "expected 5GS mobility management EPD 0x7E" });
    }
    if buf[1] & 0x0F != NAS5GS_SHT_PLAIN {
        return Err(ProtoError::MalformedNas5gs { reason: "protected 5GS NAS PDU: unwrap it with decode_protected" });
    }
    let msg_type = buf[2];
    let body = crate::bytes_util::tail(buf, 3);
    if msg_type == MT_REGISTRATION_REQUEST {
        decode_registration_request(body)
    } else if msg_type == MT_IDENTITY_REQUEST {
        if body.len() == 0 {
            return Err(ProtoError::TooShort { expected: 1, got: 0 });
        }
        Ok(Nas5gsPdu::IdentityRequest { identity_type: body[0] & 0x0F })
    } else if msg_type == MT_IDENTITY_RESPONSE {
        decode_identity_response(body)
    } else if msg_type == MT_AUTHENTICATION_REQUEST {
        decode_auth_request(body)
    } else if msg_type == MT_AUTHENTICATION_RESPONSE {
        decode_auth_response(body)
    } else if msg_type == MT_AUTHENTICATION_REJECT {
        Ok(Nas5gsPdu::AuthenticationReject)
    } else if msg_type == MT_SECURITY_MODE_COMMAND {
        decode_sec_mode_cmd(body)
    } else if msg_type == MT_SECURITY_MODE_COMPLETE {
        Ok(Nas5gsPdu::SecurityModeComplete)
    } else if msg_type == MT_REGISTRATION_ACCEPT {
        decode_registration_accept(body)
    } else if msg_type == MT_REGISTRATION_COMPLETE {
        Ok(Nas5gsPdu::RegistrationComplete)
    } else if msg_type == MT_REGISTRATION_REJECT {
        if body.len() == 0 {
            return Err(ProtoError::TooShort { expected: 1, got: 0 });
        }
        Ok(Nas5gsPdu::RegistrationReject { cause: body[0] })
    } else if msg_type == MT_DEREGISTRATION_REQUEST {
        if body.len() == 0 {
            return Err(ProtoError::TooShort { expected: 1, got: 0 });
        }
        Ok(Nas5gsPdu::DeregistrationRequest { switch_off: (body[0] & 0x01) != 0 })
    } else if msg_type == MT_DEREGISTRATION_ACCEPT {
        Ok(Nas5gsPdu::DeregistrationAccept)
    } else {
        Err(ProtoError::UnknownGtpMsgType(msg_type))
    }
}

fn read_cap_u16(rest: &[u8]) -> (v: u16)
    ensures
        v == cap_u16(rest@),
{
    match read_lv(rest) {
        Some((cap, _)) => if cap.len() >= 2 {
            crate::proto::wire::read_be16(cap[0], cap[1])
        } else {
            0
        },
        None => 0,
    }
}

fn decode_registration_request(body: &[u8]) -> (r: Result<Nas5gsPdu, ProtoError>)
    ensures
        decoded5g_as(r, registration_request_spec(body@)),
{
    if body.len() == 0 {
        return Err(ProtoError::TooShort { expected: 1, got: 0 });
    }
    let registration_type = body[0] & 0x07;
    let ng_ksi = (body[0] >> 4u8) & 0x07;
    let rest = crate::bytes_util::tail(body, 1);
    let (identity_bytes, rest) = match read_lv(rest) {
        Some(p) => p,
        None => {
            return Err(ProtoError::MalformedNas5gs { reason: "missing 5GS mobile identity" });
        },
    };
    let guti: Option<[u8; 11]> = if identity_bytes.len() == 11 {
        Some(crate::bytes_util::to_array(identity_bytes))
    } else {
        None
    };
    let ue_security_cap = read_cap_u16(rest);
    Ok(Nas5gsPdu::RegistrationRequest(DecodedRegistrationRequest { registration_type, ng_ksi, guti, ue_security_cap }))
}

fn decode_identity_response(body: &[u8]) -> (r: Result<Nas5gsPdu, ProtoError>)
    ensures
        decoded5g_as(r, identity_response_spec(body@)),
{
    let (identity_bytes, _) = match read_lv(body) {
        Some(p) => p,
        None => {
            return Err(ProtoError::MalformedNas5gs { reason: "missing 5GS mobile identity" });
        },
    };
    if identity_bytes.len() == 0 {
        return Err(ProtoError::MalformedNas5gs { reason: "empty 5GS mobile identity" });
    }
    let id_type = identity_bytes[0] & 0x07;
    if id_type == IDTYPE_SUCI {
        if identity_bytes.len() < 16 {
            return Err(ProtoError::MalformedNas5gs { reason: "SUCI payload too short" });
        }
        let v = vstd::slice::slice_subrange(identity_bytes, 1, 16);
        let suci = Suci {
            mcc: [v[0], v[1], v[2]],
            mnc: [v[3], v[4], v[5]],
            routing_indicator: crate::proto::wire::read_be16(v[6], v[7]),
            protection_scheme: v[8],
            home_network_pki: v[9],
            msin: [v[10], v[11], v[12], v[13], v[14]],
        };
        proof {
            assert(suci.mcc@ =~= v@.subrange(0, 3));
            assert(suci.mnc@ =~= v@.subrange(3, 6));
            assert(suci.msin@ =~= v@.subrange(10, 15));
        }
        Ok(Nas5gsPdu::IdentityResponse(DecodedIdentityResponse { suci: Some(suci), guti: None, pei: None }))
    } else if id_type == IDTYPE_5G_GUTI {
        if identity_bytes.len() != 11 {
            return Err(ProtoError::MalformedNas5gs { reason: "5G-GUTI must be exactly 11 bytes" });
        }
        let g: [u8; 11] = crate::bytes_util::to_array(identity_bytes);
        Ok(Nas5gsPdu::IdentityResponse(DecodedIdentityResponse { suci: None, guti: Some(g), pei: None }))
    } else {
        let pei = crate::bytes_util::to_vec(crate::bytes_util::tail(identity_bytes, 1));
        Ok(Nas5gsPdu::IdentityResponse(DecodedIdentityResponse { suci: None, guti: None, pei: Some(pei) }))
    }
}

fn decode_auth_request(body: &[u8]) -> (r: Result<Nas5gsPdu, ProtoError>)
    ensures
        decoded5g_as(r, auth_request_5g_spec(body@)),
{
    if body.len() == 0 {
        return Err(ProtoError::TooShort { expected: 33, got: 0 });
    }
    let ng_ksi = (body[0] >> 4u8) & 0x07;
    let rest = crate::bytes_util::tail(body, 1);
    let (rand_bytes, rest) = match read_lv(rest) {
        Some(p) => p,
        None => {
            return Err(ProtoError::MalformedNas5gs { reason: "missing RAND" });
        },
    };
    if rand_bytes.len() != 16 {
        return Err(ProtoError::MalformedNas5gs { reason: "RAND must be exactly 16 bytes" });
    }
    let rand: [u8; 16] = crate::bytes_util::to_array(rand_bytes);
    let (autn_bytes, _) = match read_lv(rest) {
        Some(p) => p,
        None => {
            return Err(ProtoError::MalformedNas5gs { reason: "missing AUTN" });
        },
    };
    if autn_bytes.len() != 16 {
        return Err(ProtoError::MalformedNas5gs { reason: "AUTN must be exactly 16 bytes" });
    }
    let autn: [u8; 16] = crate::bytes_util::to_array(autn_bytes);
    Ok(Nas5gsPdu::AuthenticationRequest(DecodedAuthenticationRequest { ng_ksi, rand, autn }))
}

fn decode_auth_response(body: &[u8]) -> (r: Result<Nas5gsPdu, ProtoError>)
    ensures
        decoded5g_as(r, auth_response_5g_spec(body@)),
{
    let (res_bytes, _) = match read_lv(body) {
        Some(p) => p,
        None => {
            return Err(ProtoError::MalformedNas5gs { reason: "missing RES*" });
        },
    };
    if res_bytes.len() != 16 {
        return Err(ProtoError::MalformedNas5gs { reason: "RES* must be exactly 16 bytes" });
    }
    let res_star: [u8; 16] = crate::bytes_util::to_array(res_bytes);
    Ok(Nas5gsPdu::AuthenticationResponse(DecodedAuthenticationResponse { res_star }))
}

fn decode_sec_mode_cmd(body: &[u8]) -> (r: Result<Nas5gsPdu, ProtoError>)
    ensures
        decoded5g_as(r, sec_mode_cmd_5g_spec(body@)),
{
    if body.len() == 0 {
        return Err(ProtoError::TooShort { expected: 1, got: 0 });
    }
    let nas_cipher_alg = (body[0] >> 4u8) & 0x0F;
    let nas_integrity_alg = body[0] & 0x0F;
    let replayed_ue_sec_cap = read_cap_u16(crate::bytes_util::tail(body, 1));
    Ok(Nas5gsPdu::SecurityModeCommand(DecodedSecurityModeCommand { nas_cipher_alg, nas_integrity_alg, replayed_ue_sec_cap }))
}

fn decode_registration_accept(body: &[u8]) -> (r: Result<Nas5gsPdu, ProtoError>)
    ensures
        decoded5g_as(r, registration_accept_spec(body@)),
{
    if body.len() == 0 {
        return Err(ProtoError::TooShort { expected: 1, got: 0 });
    }
    let registration_result = body[0] & 0x07;
    let rest = crate::bytes_util::tail(body, 1);
    let (guti_bytes, rest) = match read_lv(rest) {
        Some(p) => p,
        None => {
            return Err(ProtoError::MalformedNas5gs { reason: "missing 5G-GUTI" });
        },
    };
    if guti_bytes.len() != 11 {
        return Err(ProtoError::MalformedNas5gs { reason: "5G-GUTI must be exactly 11 bytes" });
    }
    let guti: [u8; 11] = crate::bytes_util::to_array(guti_bytes);
    let (tai_bytes, _) = match read_lv(rest) {
        Some(p) => p,
        None => {
            return Err(ProtoError::MalformedNas5gs { reason: "missing TAI list" });
        },
    };
    let mut tai_list: Vec<[u8; 6]> = Vec::new();
    if tai_bytes.len() > 0 {
        let ghost start = tai_bytes@.skip(1);
        let mut rest = crate::bytes_util::tail(tai_bytes, 1);
        while rest.len() >= 6
            invariant
                tai6_views(tai_list@) + tai_chunks(rest@) == tai_chunks(start),
            decreases rest@.len(),
        {
            let chunk = vstd::slice::slice_subrange(rest, 0, 6);
            let tai: [u8; 6] = crate::bytes_util::to_array(chunk);
            let ghost before = tai6_views(tai_list@);
            tai_list.push(tai);
            let next = crate::bytes_util::tail(rest, 6);
            proof {
                assert(chunk@ =~= rest@.take(6));
                assert(tai6_views(tai_list@) =~= before.push(rest@.take(6)));
                assert(tai_chunks(rest@) == seq![rest@.take(6)] + tai_chunks(next@));
                assert(tai6_views(tai_list@) + tai_chunks(next@) =~= before + tai_chunks(rest@));
            }
            rest = next;
        }
        proof {
            assert(tai_chunks(rest@) =~= Seq::<Seq<u8>>::empty());
            assert(tai6_views(tai_list@) + tai_chunks(rest@) =~= tai6_views(tai_list@));
        }
    } else {
        proof {
            assert(tai6_views(tai_list@) =~= Seq::<Seq<u8>>::empty());
        }
    }
    Ok(Nas5gsPdu::RegistrationAccept(DecodedRegistrationAccept { registration_result, guti, tai_list }))
}

// ── Encoding ─────────────────────────────────────────────────────────────────

pub open spec fn header5g(mt: u8) -> Seq<u8> {
    seq![NAS5GS_MM_EPD, NAS5GS_SHT_PLAIN, mt]
}

fn header(mt: u8) -> (buf: Vec<u8>)
    ensures
        buf@ == header5g(mt),
{
    let mut buf: Vec<u8> = Vec::new();
    buf.push(NAS5GS_MM_EPD);
    buf.push(NAS5GS_SHT_PLAIN);
    buf.push(mt);
    proof {
        assert(buf@ =~= header5g(mt));
    }
    buf
}

pub open spec fn registration_request_bytes(registration_type: u8, ng_ksi: u8, guti: Option<Seq<u8>>, cap: u16) -> Seq<u8> {
    header5g(MT_REGISTRATION_REQUEST) + seq![((ng_ksi & 0x07) << 4u8) | (registration_type & 0x07)] + lv_bytes(
        match guti {
            Some(g) => g,
            None => Seq::empty(),
        },
    ) + lv_bytes(u16_be(cap))
}

/// Encode a 5GS Registration Request.
pub fn encode_registration_request(registration_type: u8, ng_ksi: u8, guti: Option<&[u8; 11]>, ue_security_cap: u16) -> (buf: Vec<u8>)
    ensures
        buf@ == registration_request_bytes(
            registration_type,
            ng_ksi,
            match guti {
                Some(g) => Some(g@),
                None => None,
            },
            ue_security_cap,
        ),
{
    let mut buf = header(MT_REGISTRATION_REQUEST);
    buf.push(((ng_ksi & 0x07) << 4u8) | (registration_type & 0x07));
    match guti {
        Some(g) => write_lv(&mut buf, g),
        None => {
            let empty: [u8; 0] = [];
            write_lv(&mut buf, &empty);
            proof {
                assert(empty@ =~= Seq::<u8>::empty());
            }
        },
    }
    let cap = crate::proto::wire::u16_to_be(ue_security_cap);
    write_lv(&mut buf, &cap);
    proof {
        assert(buf@ =~= registration_request_bytes(
            registration_type,
            ng_ksi,
            match guti {
                Some(g) => Some(g@),
                None => None,
            },
            ue_security_cap,
        ));
    }
    buf
}

/// Encode a 5GS Identity Request for the given identity type.
pub fn encode_identity_request(identity_type: u8) -> (buf: Vec<u8>)
    ensures
        buf@ == header5g(MT_IDENTITY_REQUEST) + seq![identity_type & 0x0F],
{
    let mut buf = header(MT_IDENTITY_REQUEST);
    buf.push(identity_type & 0x0F);
    proof {
        assert(buf@ =~= header5g(MT_IDENTITY_REQUEST) + seq![identity_type & 0x0F]);
    }
    buf
}

/// The SUCI mobile identity value: type octet then the SUCI fields.
pub open spec fn suci_identity(s: SuciView) -> Seq<u8> {
    seq![IDTYPE_SUCI] + s.mcc + s.mnc + u16_be(s.routing_indicator) + seq![s.protection_scheme, s.home_network_pki]
        + s.msin
}

/// Encode a 5GS Identity Response carrying a SUCI.
pub fn encode_identity_response_suci(suci: &Suci) -> (buf: Vec<u8>)
    ensures
        buf@ == header5g(MT_IDENTITY_RESPONSE) + lv_bytes(suci_identity(suci@)),
{
    let mut buf = header(MT_IDENTITY_RESPONSE);
    let mut identity: Vec<u8> = Vec::new();
    identity.push(IDTYPE_SUCI);
    crate::bytes_util::append_bytes(&mut identity, &suci.mcc);
    crate::bytes_util::append_bytes(&mut identity, &suci.mnc);
    let ri = crate::proto::wire::u16_to_be(suci.routing_indicator);
    crate::bytes_util::append_bytes(&mut identity, &ri);
    identity.push(suci.protection_scheme);
    identity.push(suci.home_network_pki);
    crate::bytes_util::append_bytes(&mut identity, &suci.msin);
    proof {
        assert(identity@ =~= suci_identity(suci@));
    }
    write_lv(&mut buf, identity.as_slice());
    buf
}

/// Encode a 5GS Identity Response carrying a 5G-GUTI.
pub fn encode_identity_response_guti(guti: &[u8; 11]) -> (buf: Vec<u8>)
    ensures
        buf@ == header5g(MT_IDENTITY_RESPONSE) + lv_bytes(guti@),
{
    let mut buf = header(MT_IDENTITY_RESPONSE);
    write_lv(&mut buf, guti);
    buf
}

/// Encode a 5GS Identity Response carrying a PEI.
pub fn encode_identity_response_pei(pei: &[u8]) -> (buf: Vec<u8>)
    ensures
        buf@ == header5g(MT_IDENTITY_RESPONSE) + lv_bytes(seq![IDTYPE_PEI] + pei@),
{
    let mut buf = header(MT_IDENTITY_RESPONSE);
    let mut identity: Vec<u8> = Vec::new();
    identity.push(IDTYPE_PEI);
    crate::bytes_util::append_bytes(&mut identity, pei);
    write_lv(&mut buf, identity.as_slice());
    buf
}

pub open spec fn auth_request_5g_bytes(ng_ksi: u8, rand: Seq<u8>, autn: Seq<u8>) -> Seq<u8> {
    header5g(MT_AUTHENTICATION_REQUEST) + seq![(ng_ksi & 0x07) << 4u8] + lv_bytes(rand) + lv_bytes(autn)
}

/// Encode a 5GS Authentication Request.
pub fn encode_auth_request(ng_ksi: u8, rand: &[u8; 16], autn: &[u8; 16]) -> (buf: Vec<u8>)
    ensures
        buf@ == auth_request_5g_bytes(ng_ksi, rand@, autn@),
{
    let mut buf = header(MT_AUTHENTICATION_REQUEST);
    buf.push((ng_ksi & 0x07) << 4u8);
    write_lv(&mut buf, rand);
    write_lv(&mut buf, autn);
    proof {
        assert(buf@ =~= auth_request_5g_bytes(ng_ksi, rand@, autn@));
    }
    buf
}

/// Encode a 5GS Authentication Response carrying RES*.
pub fn encode_auth_response(res_star: &[u8; 16]) -> (buf: Vec<u8>)
    ensures
        buf@ == header5g(MT_AUTHENTICATION_RESPONSE) + lv_bytes(res_star@),
{
    let mut buf = header(MT_AUTHENTICATION_RESPONSE);
    write_lv(&mut buf, res_star);
    buf
}

/// Encode a 5GS Authentication Reject.
pub fn encode_auth_reject() -> (buf: Vec<u8>)
    ensures
        buf@ == header5g(MT_AUTHENTICATION_REJECT),
{
    header(MT_AUTHENTICATION_REJECT)
}

pub open spec fn sec_mode_cmd_5g_bytes(cipher: u8, integrity: u8, cap: u16) -> Seq<u8> {
    header5g(MT_SECURITY_MODE_COMMAND) + seq![((cipher & 0x0F) << 4u8) | (integrity & 0x0F)] + lv_bytes(u16_be(cap))
}

/// Encode a 5GS Security Mode Command.
pub fn encode_sec_mode_cmd(nas_cipher_alg: u8, nas_integrity_alg: u8, replayed_ue_sec_cap: u16) -> (buf: Vec<u8>)
    ensures
        buf@ == sec_mode_cmd_5g_bytes(nas_cipher_alg, nas_integrity_alg, replayed_ue_sec_cap),
{
    let mut buf = header(MT_SECURITY_MODE_COMMAND);
    buf.push(((nas_cipher_alg & 0x0F) << 4u8) | (nas_integrity_alg & 0x0F));
    let cap = crate::proto::wire::u16_to_be(replayed_ue_sec_cap);
    write_lv(&mut buf, &cap);
    proof {
        assert(buf@ =~= sec_mode_cmd_5g_bytes(nas_cipher_alg, nas_integrity_alg, replayed_ue_sec_cap));
    }
    buf
}

/// Encode a 5GS Security Mode Complete.
pub fn encode_sec_mode_complete() -> (buf: Vec<u8>)
    ensures
        buf@ == header5g(MT_SECURITY_MODE_COMPLETE),
{
    header(MT_SECURITY_MODE_COMPLETE)
}

/// The TAIs back to back.
pub open spec fn tai6_concat(tais: Seq<[u8; 6]>) -> Seq<u8>
    decreases tais.len(),
{
    if tais.len() == 0 {
        Seq::empty()
    } else {
        tai6_concat(tais.drop_last()) + tais.last()@
    }
}

/// The 5GS TAI list value: empty, or the list-type/count octet (count less
/// one, saturating at 0) followed by the TAIs.
pub open spec fn tai6_list_value(tais: Seq<[u8; 6]>) -> Seq<u8> {
    if tais.len() == 0 {
        Seq::empty()
    } else {
        seq![(if tais.len() % 256 == 0 { 0u8 } else { (tais.len() % 256 - 1) as u8 }) | 0x18u8] + tai6_concat(tais)
    }
}

pub open spec fn registration_accept_bytes(result: u8, guti: Seq<u8>, tais: Seq<[u8; 6]>) -> Seq<u8> {
    header5g(MT_REGISTRATION_ACCEPT) + seq![result & 0x07] + lv_bytes(guti) + lv_bytes(tai6_list_value(tais))
}

/// Encode a 5GS Registration Accept.
pub fn encode_registration_accept(registration_result: u8, guti: &[u8; 11], tai_list: &[[u8; 6]]) -> (buf: Vec<u8>)
    ensures
        buf@ == registration_accept_bytes(registration_result, guti@, tai_list@),
{
    let mut buf = header(MT_REGISTRATION_ACCEPT);
    buf.push(registration_result & 0x07);
    write_lv(&mut buf, guti);
    let ghost b1 = buf@;
    if tai_list.len() == 0 {
        let empty: [u8; 0] = [];
        write_lv(&mut buf, &empty);
        proof {
            assert(empty@ =~= tai6_list_value(tai_list@));
        }
    } else {
        let mut tai_bytes: Vec<u8> = Vec::new();
        tai_bytes.push(((tai_list.len() % 256) as u8).saturating_sub(1) | 0x18);
        let n = tai_list.len();
        let mut i: usize = 0;
        while i < n
            invariant
                n == tai_list@.len(),
                n > 0,
                i <= n,
                tai_bytes@ == seq![(if n % 256 == 0 { 0u8 } else { (n % 256 - 1) as u8 }) | 0x18u8] + tai6_concat(
                    tai_list@.take(i as int),
                ),
            decreases n - i,
        {
            let tai: &[u8; 6] = &tai_list[i];
            crate::bytes_util::append_bytes(&mut tai_bytes, tai);
            proof {
                assert(tai_list@.take(i as int + 1).drop_last() =~= tai_list@.take(i as int));
            }
            i = i + 1;
        }
        proof {
            assert(tai_list@.take(n as int) =~= tai_list@);
        }
        write_lv(&mut buf, tai_bytes.as_slice());
    }
    proof {
        assert(buf@ =~= registration_accept_bytes(registration_result, guti@, tai_list@));
    }
    buf
}

/// Encode a 5GS Registration Complete.
pub fn encode_registration_complete() -> (buf: Vec<u8>)
    ensures
        buf@ == header5g(MT_REGISTRATION_COMPLETE),
{
    header(MT_REGISTRATION_COMPLETE)
}

/// Encode a 5GS Registration Reject with a 5GMM cause.
pub fn encode_registration_reject(cause: u8) -> (buf: Vec<u8>)
    ensures
        buf@ == header5g(MT_REGISTRATION_REJECT) + seq![cause],
{
    let mut buf = header(MT_REGISTRATION_REJECT);
    buf.push(cause);
    proof {
        assert(buf@ =~= header5g(MT_REGISTRATION_REJECT) + seq![cause]);
    }
    buf
}

/// Encode a 5GS Deregistration Request (UE originating).
pub fn encode_deregistration_request(switch_off: bool) -> (buf: Vec<u8>)
    ensures
        buf@ == header5g(MT_DEREGISTRATION_REQUEST) + seq![if switch_off { 1u8 } else { 0u8 }],
{
    let mut buf = header(MT_DEREGISTRATION_REQUEST);
    buf.push(if switch_off { 1u8 } else { 0u8 });
    proof {
        assert(buf@ =~= header5g(MT_DEREGISTRATION_REQUEST) + seq![if switch_off { 1u8 } else { 0u8 }]);
    }
    buf
}

/// Encode a 5GS Deregistration Accept.
pub fn encode_deregistration_accept() -> (buf: Vec<u8>)
    ensures
        buf@ == header5g(MT_DEREGISTRATION_ACCEPT),
{
    header(MT_DEREGISTRATION_ACCEPT)
}

// ── Protected envelope ───────────────────────────────────────────────────────

/// Protect an already encoded plain 5GS NAS message (AMF to UE) and frame
/// it: `0x7E ‖ SHT ‖ MAC-I ‖ low byte of the COUNT ‖ payload`.
pub fn encode_protected(ctx: &mut Nas5gsSecurityContext, sht: u8, inner_plain: &[u8]) -> (buf: Vec<u8>)
    ensures
        exists|count: u32, payload: Seq<u8>, mac: Seq<u8>|
            protect_downlink_5g_post(*old(ctx), *final(ctx), inner_plain@, count, payload, mac)
            && buf@ == seq![NAS5GS_MM_EPD, sht & 0x0F] + mac + seq![count as u8] + payload,
{
    let protected = ctx.protect_downlink(inner_plain);
    let mut buf: Vec<u8> = Vec::new();
    buf.push(NAS5GS_MM_EPD);
    buf.push(sht & 0x0F);
    crate::bytes_util::append_bytes(&mut buf, &protected.mac_i);
    buf.push((protected.count & 0xFF) as u8);
    crate::bytes_util::append_bytes(&mut buf, protected.payload.as_slice());
    proof {
        let c = protected.count;
        assert((c & 0xFF) as u8 == c as u8) by (bit_vector);
        assert(buf@ =~= seq![NAS5GS_MM_EPD, sht & 0x0F] + protected.mac_i@ + seq![protected.count as u8] + protected.payload@);
    }
    buf
}

/// Whether a buffer can be a protected 5GS envelope: at least 7 bytes, the
/// 5GMM EPD, a non-zero security header type.
pub open spec fn is_protected_5g_envelope(buf: Seq<u8>) -> bool {
    buf.len() >= 7 && buf[0] == NAS5GS_MM_EPD && buf[1] & 0x0F != NAS5GS_SHT_PLAIN
}

/// Unwrap a protected 5GS NAS envelope from the UE: `None` when it is not
/// one or its MAC-I does not verify, else the plain message.
pub fn decode_protected(ctx: &mut Nas5gsSecurityContext, buf: &[u8]) -> (r: Option<Vec<u8>>)
    ensures
        is_protected_5g_envelope(buf@) ==> unprotect_uplink_5g_post(
            *old(ctx),
            *final(ctx),
            buf@[6],
            buf@.subrange(2, 6),
            buf@.skip(7),
            r,
        ),
        !is_protected_5g_envelope(buf@) ==> r is None && *final(ctx) == *old(ctx),
{
    if buf.len() < 7 {
        return None;
    }
    if buf[0] != NAS5GS_MM_EPD {
        return None;
    }
    let sht = buf[1] & 0x0F;
    if sht == NAS5GS_SHT_PLAIN {
        return None;
    }
    let mac_i: [u8; 4] = [buf[2], buf[3], buf[4], buf[5]];
    let seq_byte = buf[6];
    let ciphertext = crate::bytes_util::tail(buf, 7);
    proof {
        assert(mac_i@ =~= buf@.subrange(2, 6));
    }
    ctx.unprotect_uplink(seq_byte, mac_i, ciphertext)
}

// ── Laws: what an encoder writes, the decoder reads back ─────────────────────

proof fn lemma_octet_fields(k: u8, t: u8)
    ensures
        ((((k & 0x07) << 4u8) | (t & 0x07)) & 0x07) == t & 0x07,
        (((((k & 0x07) << 4u8) | (t & 0x07)) >> 4u8) & 0x07) == k & 0x07,
        ((((k & 0x0F) << 4u8) | (t & 0x0F)) >> 4u8) & 0x0F == k & 0x0F,
        (((k & 0x0F) << 4u8) | (t & 0x0F)) & 0x0F == t & 0x0F,
        (((k & 0x07) << 4u8) >> 4u8) & 0x07 == k & 0x07,
        0u8 & 0x0F == 0,
{
    assert(((((k & 0x07) << 4u8) | (t & 0x07)) & 0x07) == t & 0x07) by (bit_vector);
    assert((((((k & 0x07) << 4u8) | (t & 0x07)) >> 4u8) & 0x07) == k & 0x07) by (bit_vector);
    assert(((((k & 0x0F) << 4u8) | (t & 0x0F)) >> 4u8) & 0x0F == k & 0x0F) by (bit_vector);
    assert((((k & 0x0F) << 4u8) | (t & 0x0F)) & 0x0F == t & 0x0F) by (bit_vector);
    assert((((k & 0x07) << 4u8) >> 4u8) & 0x07 == k & 0x07) by (bit_vector);
    assert(0u8 & 0x0F == 0) by (bit_vector);
}

proof fn lemma_cap_round_trip(cap: u16)
    ensures
        cap_u16(lv_bytes(u16_be(cap))) == cap,
{
    assert(lv_bytes(u16_be(cap)) =~= lv_bytes(u16_be(cap)) + Seq::<u8>::empty());
    law_lv_round_trip(u16_be(cap), Seq::empty());
    crate::proto::wire::lemma_be16_round_trip(cap);
}

/// A decoded Registration Request gives back the registration type and
/// ngKSI (3 bits each), the 5G-GUTI when one was sent, and the UE security
/// capability.
pub proof fn law_registration_request_round_trip(registration_type: u8, ng_ksi: u8, guti: Option<Seq<u8>>, cap: u16)
    requires
        guti matches Some(g) ==> g.len() == 11,
    ensures
        decode_nas5gs_spec(registration_request_bytes(registration_type, ng_ksi, guti, cap)) == Ok::<Nas5gsView, ProtoErrorKind>(
            Nas5gsView::RegistrationRequest {
                registration_type: registration_type & 0x07,
                ng_ksi: ng_ksi & 0x07,
                guti,
                ue_security_cap: cap,
            },
        ),
{
    lemma_octet_fields(ng_ksi, registration_type);
    let id: Seq<u8> = match guti {
        Some(g) => g,
        None => Seq::empty(),
    };
    let b = registration_request_bytes(registration_type, ng_ksi, guti, cap);
    assert(b.skip(3).skip(1) =~= lv_bytes(id) + lv_bytes(u16_be(cap)));
    law_lv_round_trip(id, lv_bytes(u16_be(cap)));
    lemma_cap_round_trip(cap);
}

/// A decoded Authentication Request gives back ngKSI (3 bits), RAND and AUTN.
pub proof fn law_auth_request_5g_round_trip(ng_ksi: u8, rand: Seq<u8>, autn: Seq<u8>)
    requires
        rand.len() == 16,
        autn.len() == 16,
    ensures
        decode_nas5gs_spec(auth_request_5g_bytes(ng_ksi, rand, autn))
            == Ok::<Nas5gsView, ProtoErrorKind>(Nas5gsView::AuthenticationRequest { ng_ksi: ng_ksi & 0x07, rand, autn }),
{
    lemma_octet_fields(ng_ksi, 0);
    let b = auth_request_5g_bytes(ng_ksi, rand, autn);
    assert(b.skip(3).skip(1) =~= lv_bytes(rand) + lv_bytes(autn));
    law_lv_round_trip(rand, lv_bytes(autn));
    assert(lv_bytes(autn) + Seq::<u8>::empty() =~= lv_bytes(autn));
    law_lv_round_trip(autn, Seq::empty());
}

/// A decoded Authentication Response gives back RES*.
pub proof fn law_auth_response_5g_round_trip(res_star: Seq<u8>)
    requires
        res_star.len() == 16,
    ensures
        decode_nas5gs_spec(header5g(MT_AUTHENTICATION_RESPONSE) + lv_bytes(res_star))
            == Ok::<Nas5gsView, ProtoErrorKind>(Nas5gsView::AuthenticationResponse { res_star }),
{
    lemma_octet_fields(0, 0);
    let b = header5g(MT_AUTHENTICATION_RESPONSE) + lv_bytes(res_star);
    assert(b.skip(3) =~= lv_bytes(res_star) + Seq::<u8>::empty());
    law_lv_round_trip(res_star, Seq::empty());
}

/// A decoded Security Mode Command gives back both algorithm identities
/// (4 bits each) and the replayed capability.
pub proof fn law_sec_mode_cmd_5g_round_trip(cipher: u8, integrity: u8, cap: u16)
    ensures
        decode_nas5gs_spec(sec_mode_cmd_5g_bytes(cipher, integrity, cap)) == Ok::<Nas5gsView, ProtoErrorKind>(
            Nas5gsView::SecurityModeCommand {
                nas_cipher_alg: cipher & 0x0F,
                nas_integrity_alg: integrity & 0x0F,
                replayed_ue_sec_cap: cap,
            },
        ),
{
    lemma_octet_fields(cipher, integrity);
    let b = sec_mode_cmd_5g_bytes(cipher, integrity, cap);
    assert(b.skip(3).skip(1) =~= lv_bytes(u16_be(cap)));
    lemma_cap_round_trip(cap);
}

proof fn lemma_tai_chunks_of_concat(tais: Seq<[u8; 6]>)
    ensures
        tai_chunks(tai6_concat(tais)) == tai6_views(tais),
        tai6_concat(tais).len() == 6 * tais.len(),
    decreases tais.len(),
{
    if tais.len() == 0 {
        assert(tai6_views(tais) =~= Seq::<Seq<u8>>::empty());
    } else {
        let first = tais[0];
        let rest = tais.skip(1);
        lemma_tai6_concat_cons(tais);
        lemma_tai_chunks_of_concat(rest);
        let c = tai6_concat(tais);
        assert(c.take(6) =~= first@);
        assert(c.skip(6) =~= tai6_concat(rest));
        assert(tai6_views(tais) =~= seq![first@] + tai6_views(rest));
    }
}

proof fn lemma_tai6_concat_cons(tais: Seq<[u8; 6]>)
    requires
        tais.len() > 0,
    ensures
        tai6_concat(tais) == tais[0]@ + tai6_concat(tais.skip(1)),
        tai6_concat(tais).len() == 6 * tais.len(),
    decreases tais.len(),
{
    if tais.len() == 1 {
        assert(tais.drop_last() =~= Seq::<[u8; 6]>::empty());
        assert(tais.skip(1) =~= Seq::<[u8; 6]>::empty());
        assert(tai6_concat(tais) =~= tais[0]@);
    } else {
        lemma_tai6_concat_cons(tais.drop_last());
        assert(tais.drop_last().skip(1) =~= tais.skip(1).drop_last());
        assert(tais.skip(1).last() == tais.last());
        assert(tai6_concat(tais) =~= tais[0]@ + tai6_concat(tais.skip(1)));
    }
}

/// A decoded Registration Accept gives back the result (3 bits), the
/// 5G-GUTI and a TAI list of up to 42 entries (what one LV octet can count).
pub proof fn law_registration_accept_round_trip(result: u8, guti: Seq<u8>, tais: Seq<[u8; 6]>)
    requires
        guti.len() == 11,
        tais.len() <= 42,
    ensures
        decode_nas5gs_spec(registration_accept_bytes(result, guti, tais)) == Ok::<Nas5gsView, ProtoErrorKind>(
            Nas5gsView::RegistrationAccept { registration_result: result & 0x07, guti, tai_list: tai6_views(tais) },
        ),
{
    lemma_octet_fields(0, result);
    assert((result & 0x07) & 0x07 == result & 0x07) by (bit_vector);
    let b = registration_accept_bytes(result, guti, tais);
    let tv = tai6_list_value(tais);
    lemma_tai_chunks_of_concat(tais);
    assert(b.skip(3).skip(1) =~= lv_bytes(guti) + lv_bytes(tv));
    law_lv_round_trip(guti, lv_bytes(tv));
    assert(lv_bytes(tv) + Seq::<u8>::empty() =~= lv_bytes(tv));
    law_lv_round_trip(tv, Seq::empty());
    if tais.len() == 0 {
        assert(tai6_views(tais) =~= Seq::<Seq<u8>>::empty());
    } else {
        assert(tv.skip(1) =~= tai6_concat(tais));
    }
}

/// A decoded Identity Response gives back the identity it was encoded with.
pub proof fn law_identity_response_round_trip(guti: Seq<u8>, pei: Seq<u8>, suci: SuciView)
    requires
        guti.len() == 11,
        guti[0] & 0x07 == IDTYPE_5G_GUTI,
        pei.len() <= 254,
        suci.mcc.len() == 3,
        suci.mnc.len() == 3,
        suci.msin.len() == 5,
    ensures
        decode_nas5gs_spec(header5g(MT_IDENTITY_RESPONSE) + lv_bytes(guti))
            == Ok::<Nas5gsView, ProtoErrorKind>(Nas5gsView::IdentityResponse { suci: None, guti: Some(guti), pei: None }),
        decode_nas5gs_spec(header5g(MT_IDENTITY_RESPONSE) + lv_bytes(seq![IDTYPE_PEI] + pei))
            == Ok::<Nas5gsView, ProtoErrorKind>(Nas5gsView::IdentityResponse { suci: None, guti: None, pei: Some(pei) }),
        decode_nas5gs_spec(header5g(MT_IDENTITY_RESPONSE) + lv_bytes(suci_identity(suci)))
            == Ok::<Nas5gsView, ProtoErrorKind>(Nas5gsView::IdentityResponse { suci: Some(suci), guti: None, pei: None }),
{
    lemma_octet_fields(0, 0);
    assert(3u8 & 0x07 == 3 && 1u8 & 0x07 == 1) by (bit_vector);
    let b1 = header5g(MT_IDENTITY_RESPONSE) + lv_bytes(guti);
    assert(b1.skip(3) =~= lv_bytes(guti) + Seq::<u8>::empty());
    law_lv_round_trip(guti, Seq::empty());
    let p = seq![IDTYPE_PEI] + pei;
    let b2 = header5g(MT_IDENTITY_RESPONSE) + lv_bytes(p);
    assert(b2.skip(3) =~= lv_bytes(p) + Seq::<u8>::empty());
    law_lv_round_trip(p, Seq::empty());
    assert(p.skip(1) =~= pei);
    let s = suci_identity(suci);
    let b3 = header5g(MT_IDENTITY_RESPONSE) + lv_bytes(s);
    assert(b3.skip(3) =~= lv_bytes(s) + Seq::<u8>::empty());
    law_lv_round_trip(s, Seq::empty());
    let v = s.subrange(1, 16);
    crate::proto::wire::lemma_be16_round_trip(suci.routing_indicator);
    assert(v.subrange(0, 3) =~= suci.mcc);
    assert(v.subrange(3, 6) =~= suci.mnc);
    assert(v.subrange(10, 15) =~= suci.msin);
    assert(be16(v[6], v[7]) == suci.routing_indicator);
    assert(suci_view_of(v) == suci);
}

/// A decoded Deregistration Request gives back the switch-off flag.
pub proof fn law_deregistration_request_round_trip(switch_off: bool)
    ensures
        decode_nas5gs_spec(header5g(MT_DEREGISTRATION_REQUEST) + seq![if switch_off { 1u8 } else { 0u8 }])
            == Ok::<Nas5gsView, ProtoErrorKind>(Nas5gsView::DeregistrationRequest { switch_off }),
{
    lemma_octet_fields(0, 0);
    assert(1u8 & 0x01 != 0 && 0u8 & 0x01 == 0) by (bit_vector);
}

} // verus!
