//! EPS NAS message encoder/decoder for the attach and detach procedures
//! (3GPP TS 24.301).
//!
//! Plain NAS PDU: octet 1 is the security header type (high nibble, 0) and
//! the protocol discriminator 0x7 (EPS mobility management); octet 2 the
//! message type; the information elements follow.
//!
//! Protected NAS PDU (`encode_protected` / `decode_protected`): octet 1 with
//! a non-zero security header type, the 4-byte MAC-I, the 8-bit sequence
//! number, then the (ciphered) plain message.

use vstd::prelude::*;
use vstd::string::StringSliceAdditionalSpecFns;
use vstd::utf8::{decode_utf8, valid_utf8};

use crate::proto::error::{ProtoError, ProtoErrorKind};
use crate::proto::nas::ie::{
    law_imsi_round_trip, law_lv_round_trip, law_security_algorithms_round_trip, law_tlv_round_trip,
    decode_imsi, decode_imsi_spec, decode_security_algorithms, eea_from_id, eea_id, eia_from_id,
    eia_id, encode_imsi, encode_security_algorithms, find_tlv, imsi_bcd, lv_bytes, read_lv,
    read_lv_spec, read_tlv, tlv_bytes, write_lv, write_tlv, NasEeaAlgorithm, NasEiaAlgorithm,
};
use crate::proto::nas::security::{
    protect_downlink_post, unprotect_uplink_post, NasSecurityContext,
};

verus! {

pub const NAS_EPS_MM_PD: u8 = 0x07;
pub const NAS_PLAIN_HEADER: u8 = 0x07;

// Message types (TS 24.301 Table 9.8.1).
pub const MT_ATTACH_REQUEST: u8 = 0x41;
pub const MT_ATTACH_ACCEPT: u8 = 0x42;
pub const MT_ATTACH_COMPLETE: u8 = 0x43;
pub const MT_DETACH_REQUEST: u8 = 0x45;
pub const MT_DETACH_ACCEPT: u8 = 0x46;
pub const MT_AUTHENTICATION_REQUEST: u8 = 0x52;
pub const MT_AUTHENTICATION_RESPONSE: u8 = 0x53;
pub const MT_AUTHENTICATION_REJECT: u8 = 0x54;
pub const MT_SECURITY_MODE_COMMAND: u8 = 0x5D;
pub const MT_SECURITY_MODE_COMPLETE: u8 = 0x5E;
pub const MT_SECURITY_MODE_REJECT: u8 = 0x5F;

// IEIs of the optional Attach Accept IEs.
pub const IEI_GUTI: u8 = 0x50;
pub const IEI_APN: u8 = 0x28;
pub const IEI_PDN_ADDR: u8 = 0x29;

/// A decoded plain NAS PDU.
#[derive(Debug, Clone)]
pub enum NasPdu {
    AttachRequest(DecodedAttachRequest),
    AuthenticationRequest(DecodedAuthenticationRequest),
    AuthenticationResponse(DecodedAuthenticationResponse),
    SecurityModeCommand(DecodedSecurityModeCommand),
    SecurityModeComplete,
    AttachAccept(DecodedAttachAccept),
    AttachComplete,
    DetachRequest(DecodedDetachRequest),
    DetachAccept,
}

/// Attach Request fields.
#[derive(Debug, Clone)]
pub struct DecodedAttachRequest {
    pub eps_attach_type: u8,
    pub nas_ksi: u8,
    /// The IMSI when the mobile identity is one, else `None` (GUTI attach).
    pub imsi: Option<u64>,
    pub ue_network_cap: Vec<u8>,
}

/// Authentication Request fields.
#[derive(Debug, Clone)]
pub struct DecodedAuthenticationRequest {
    pub nas_ksi: u8,
    pub rand: [u8; 16],
    pub autn: [u8; 16],
}

/// Authentication Response fields.
#[derive(Debug, Clone)]
pub struct DecodedAuthenticationResponse {
    pub res: [u8; 8],
}

/// Security Mode Command fields.
#[derive(Debug, Clone)]
pub struct DecodedSecurityModeCommand {
    pub eea: NasEeaAlgorithm,
    pub eia: NasEiaAlgorithm,
    pub nas_ksi: u8,
}

/// Attach Accept fields.
#[derive(Debug, Clone)]
pub struct DecodedAttachAccept {
    pub attach_result: u8,
    pub t3412_value: u8,
    pub guti: Option<[u8; 10]>,
    pub ip_address: Option<[u8; 4]>,
    pub apn: Option<String>,
}

/// Detach Request (UE originating) fields: octet 3 carries the NAS KSI in
/// the high nibble, the switch-off flag in bit 4 and the type of detach in
/// bits 3-1.
#[derive(Debug, Clone)]
pub struct DecodedDetachRequest {
    pub detach_type: u8,
    pub switch_off: bool,
    pub nas_ksi: u8,
}

/// What a decoded NAS PDU says.
pub enum NasView {
    AttachRequest { eps_attach_type: u8, nas_ksi: u8, imsi: Option<u64>, ue_network_cap: Seq<u8> },
    AuthenticationRequest { nas_ksi: u8, rand: Seq<u8>, autn: Seq<u8> },
    AuthenticationResponse { res: Seq<u8> },
    SecurityModeCommand { eea: NasEeaAlgorithm, eia: NasEiaAlgorithm, nas_ksi: u8 },
    SecurityModeComplete,
    AttachAccept {
        attach_result: u8,
        t3412_value: u8,
        guti: Option<Seq<u8>>,
        ip_address: Option<Seq<u8>>,
        apn: Option<Seq<char>>,
    },
    AttachComplete,
    DetachRequest { detach_type: u8, switch_off: bool, nas_ksi: u8 },
    DetachAccept,
}

pub open spec fn opt_array_view<const N: usize>(o: Option<[u8; N]>) -> Option<Seq<u8>> {
    match o {
        Some(a) => Some(a@),
        None => None,
    }
}

pub open spec fn opt_string_view(o: Option<String>) -> Option<Seq<char>> {
    match o {
        Some(s) => Some(s@),
        None => None,
    }
}

impl View for NasPdu {
    type V = NasView;

    open spec fn view(&self) -> NasView {
        match self {
            NasPdu::AttachRequest(d) => NasView::AttachRequest {
                eps_attach_type: d.eps_attach_type,
                nas_ksi: d.nas_ksi,
                imsi: d.imsi,
                ue_network_cap: d.ue_network_cap@,
            },
            NasPdu::AuthenticationRequest(d) => NasView::AuthenticationRequest {
                nas_ksi: d.nas_ksi,
                rand: d.rand@,
                autn: d.autn@,
            },
            NasPdu::AuthenticationResponse(d) => NasView::AuthenticationResponse { res: d.res@ },
            NasPdu::SecurityModeCommand(d) => NasView::SecurityModeCommand { eea: d.eea, eia: d.eia, nas_ksi: d.nas_ksi },
            NasPdu::SecurityModeComplete => NasView::SecurityModeComplete,
            NasPdu::AttachAccept(d) => NasView::AttachAccept {
                attach_result: d.attach_result,
                t3412_value: d.t3412_value,
                guti: opt_array_view(d.guti),
                ip_address: opt_array_view(d.ip_address),
                apn: opt_string_view(d.apn),
            },
            NasPdu::AttachComplete => NasView::AttachComplete,
            NasPdu::DetachRequest(d) => NasView::DetachRequest {
                detach_type: d.detach_type,
                switch_off: d.switch_off,
                nas_ksi: d.nas_ksi,
            },
            NasPdu::DetachAccept => NasView::DetachAccept,
        }
    }
}

/// Calls `String::from_utf8`.
/// Trusted: per its documentation, `Ok` exactly for valid UTF-8, holding the
/// characters the bytes encode.
#[verifier::external_body]
fn string_from_utf8(bytes: Vec<u8>) -> (r: Option<String>)
    ensures
        match r {
            Some(s) => valid_utf8(bytes@) && s@ == decode_utf8(bytes@),
            None => !valid_utf8(bytes@),
        },
{
    String::from_utf8(bytes).ok()
}

// ── Decoding: what each message body gives ───────────────────────────────────

pub open spec fn attach_request_spec(body: Seq<u8>) -> Result<NasView, ProtoErrorKind> {
    if body.len() == 0 {
        Err(ProtoErrorKind::TooShort { expected: 3, got: 0 })
    } else {
        match read_lv_spec(body.skip(1)) {
            None => Err(ProtoErrorKind::MalformedNas),
            Some((identity, rest)) => Ok(NasView::AttachRequest {
                eps_attach_type: body[0] & 0x07,
                nas_ksi: (body[0] >> 4u8) & 0x07,
                imsi: decode_imsi_spec(identity),
                ue_network_cap: match read_lv_spec(rest) {
                    Some((cap, _)) => cap,
                    None => Seq::empty(),
                },
            }),
        }
    }
}

pub open spec fn auth_request_spec(body: Seq<u8>) -> Result<NasView, ProtoErrorKind> {
    if body.len() < 1 {
        Err(ProtoErrorKind::TooShort { expected: 35, got: body.len() })
    } else {
        match read_lv_spec(body.skip(1)) {
            None => Err(ProtoErrorKind::MalformedNas),
            Some((rand, rest)) => if rand.len() != 16 {
                Err(ProtoErrorKind::MalformedNas)
            } else {
                match read_lv_spec(rest) {
                    None => Err(ProtoErrorKind::MalformedNas),
                    Some((autn, _)) => if autn.len() != 16 {
                        Err(ProtoErrorKind::MalformedNas)
                    } else {
                        Ok(NasView::AuthenticationRequest { nas_ksi: (body[0] >> 4u8) & 0x07, rand, autn })
                    },
                }
            },
        }
    }
}

pub open spec fn auth_response_spec(body: Seq<u8>) -> Result<NasView, ProtoErrorKind> {
    match read_lv_spec(body) {
        None => Err(ProtoErrorKind::MalformedNas),
        Some((res, _)) => if res.len() != 8 {
            Err(ProtoErrorKind::MalformedNas)
        } else {
            Ok(NasView::AuthenticationResponse { res })
        },
    }
}

pub open spec fn sec_mode_cmd_spec(body: Seq<u8>) -> Result<NasView, ProtoErrorKind> {
    if body.len() < 2 {
        Err(ProtoErrorKind::TooShort { expected: 2, got: body.len() })
    } else {
        Ok(NasView::SecurityModeCommand {
            eea: eea_from_id((body[0] >> 4u8) & 0x0F),
            eia: eia_from_id(body[0] & 0x0F),
            nas_ksi: (body[1] >> 4u8) & 0x07,
        })
    }
}

/// The optional Attach Accept IEs seen so far: GUTI, IPv4 address, APN.
pub type AcceptIes = (Option<Seq<u8>>, Option<Seq<u8>>, Option<Seq<char>>);

/// The optional IEs of an Attach Accept, walked TLV by TLV: a GUTI of 10
/// bytes, a PDN address of type IPv4 (its 4 address bytes) and an APN (when
/// valid UTF-8, else none) are taken, later ones replacing earlier ones;
/// other IEs are skipped; the walk ends at fewer than 2 bytes or at a TLV
/// longer than what is left.
pub open spec fn accept_ies(rem: Seq<u8>, acc: AcceptIes) -> AcceptIes
    decreases rem.len(),
{
    if rem.len() < 2 {
        acc
    } else {
        let len = rem[1] as int;
        if rem.len() < 2 + len {
            acc
        } else {
            let val = rem.subrange(2, 2 + len);
            let next = if rem[0] == IEI_GUTI {
                if val.len() == 10 {
                    (Some(val), acc.1, acc.2)
                } else {
                    acc
                }
            } else if rem[0] == IEI_PDN_ADDR {
                if val.len() >= 5 && val[0] == 0x01 {
                    (acc.0, Some(val.subrange(1, 5)), acc.2)
                } else {
                    acc
                }
            } else if rem[0] == IEI_APN {
                (acc.0, acc.1, if valid_utf8(val) { Some(decode_utf8(val)) } else { None })
            } else {
                acc
            };
            accept_ies(rem.skip(2 + len), next)
        }
    }
}

pub open spec fn attach_accept_spec(body: Seq<u8>) -> Result<NasView, ProtoErrorKind> {
    if body.len() < 2 {
        Err(ProtoErrorKind::TooShort { expected: 2, got: body.len() })
    } else {
        let rest = body.skip(2);
        let after_tai = match read_lv_spec(rest) {
            Some((_, r)) => r,
            None => rest,
        };
        let ies = accept_ies(after_tai, (None, None, None));
        Ok(NasView::AttachAccept {
            attach_result: body[0] & 0x07,
            t3412_value: body[1],
            guti: ies.0,
            ip_address: ies.1,
            apn: ies.2,
        })
    }
}

pub open spec fn detach_request_spec(body: Seq<u8>) -> Result<NasView, ProtoErrorKind> {
    if body.len() == 0 {
        Err(ProtoErrorKind::TooShort { expected: 1, got: 0 })
    } else {
        Ok(NasView::DetachRequest {
            detach_type: body[0] & 0x07,
            switch_off: (body[0] >> 3u8) & 0x01 == 1,
            nas_ksi: (body[0] >> 4u8) & 0x07,
        })
    }
}

/// What `decode_nas` gives for a buffer.
pub open spec fn decode_nas_spec(buf: Seq<u8>) -> Result<NasView, ProtoErrorKind> {
    if buf.len() < 2 {
        Err(ProtoErrorKind::TooShort { expected: 2, got: buf.len() })
    } else if buf[0] & 0x0F != NAS_EPS_MM_PD {
        Err(ProtoErrorKind::MalformedNas)
    } else if (buf[0] >> 4u8) & 0x0F != 0 {
        Err(ProtoErrorKind::MalformedNas)
    } else {
        let body = buf.skip(2);
        let mt = buf[1];
        if mt == MT_ATTACH_REQUEST {
            attach_request_spec(body)
        } else if mt == MT_AUTHENTICATION_REQUEST {
            auth_request_spec(body)
        } else if mt == MT_AUTHENTICATION_RESPONSE {
            auth_response_spec(body)
        } else if mt == MT_SECURITY_MODE_COMMAND {
            sec_mode_cmd_spec(body)
        } else if mt == MT_SECURITY_MODE_COMPLETE {
            Ok(NasView::SecurityModeComplete)
        } else if mt == MT_ATTACH_ACCEPT {
            attach_accept_spec(body)
        } else if mt == MT_ATTACH_COMPLETE {
            Ok(NasView::AttachComplete)
        } else if mt == MT_DETACH_REQUEST {
            detach_request_spec(body)
        } else if mt == MT_DETACH_ACCEPT {
            Ok(NasView::DetachAccept)
        } else {
            Err(ProtoErrorKind::UnknownMsgType(mt))
        }
    }
}

pub open spec fn decoded_as(r: Result<NasPdu, ProtoError>, expect: Result<NasView, ProtoErrorKind>) -> bool {
    match r {
        Ok(p) => expect == Ok::<NasView, ProtoErrorKind>(p@),
        Err(e) => expect == Err::<NasView, ProtoErrorKind>(e@),
    }
}

// ── Decoding ─────────────────────────────────────────────────────────────────

/// Parse a plain NAS PDU.
pub fn decode_nas(buf: &[u8]) -> (r: Result<NasPdu, ProtoError>)
    ensures
        decoded_as(r, decode_nas_spec(buf@)),
{
    if buf.len() < 2 {
        return Err(ProtoError::TooShort { expected: 2, got: buf.len() });
    }
    let pd = buf[0] & 0x0F;
    let sht = (buf[0] >> 4u8) & 0x0F;
    if pd != 0x07 {
        return Err(ProtoError::MalformedNas { reason: "expected EPS-MM protocol discriminator 0x7" });
    }
    if sht != 0 {
        return Err(ProtoError::MalformedNas { reason: "protected NAS PDU: unwrap it with decode_protected" });
    }
    let msg_type = buf[1];
    let body = crate::bytes_util::tail(buf, 2);
    if msg_type == MT_ATTACH_REQUEST {
        decode_attach_request(body)
    } else if msg_type == MT_AUTHENTICATION_REQUEST {
        decode_auth_request(body)
    } else if msg_type == MT_AUTHENTICATION_RESPONSE {
        decode_auth_response(body)
    } else if msg_type == MT_SECURITY_MODE_COMMAND {
        decode_sec_mode_cmd(body)
    } else if msg_type == MT_SECURITY_MODE_COMPLETE {
        Ok(NasPdu::SecurityModeComplete)
    } else if msg_type == MT_ATTACH_ACCEPT {
        decode_attach_accept(body)
    } else if msg_type == MT_ATTACH_COMPLETE {
        Ok(NasPdu::AttachComplete)
    } else if msg_type == MT_DETACH_REQUEST {
        decode_detach_request(body)
    } else if msg_type == MT_DETACH_ACCEPT {
        Ok(NasPdu::DetachAccept)
    } else {
        Err(ProtoError::UnknownGtpMsgType(msg_type))
    }
}

fn decode_attach_request(body: &[u8]) -> (r: Result<NasPdu, ProtoError>)
    ensures
        decoded_as(r, attach_request_spec(body@)),
{
    if body.len() == 0 {
        return Err(ProtoError::TooShort { expected: 3, got: 0 });
    }
    let eps_attach_type = body[0] & 0x07;
    let nas_ksi = (body[0] >> 4u8) & 0x07;
    let rest = crate::bytes_util::tail(body, 1);
    match read_lv(rest) {
        None => Err(ProtoError::MalformedNas { reason: "missing mobile identity" }),
        Some((identity, rest)) => {
            let imsi = decode_imsi(identity);
            let ue_network_cap = match read_lv(rest) {
                Some((cap, _)) => crate::bytes_util::to_vec(cap),
                None => Vec::new(),
            };
            proof {
                assert(ue_network_cap@ =~= match read_lv_spec(rest@) {
                    Some((cap, _)) => cap,
                    None => Seq::empty(),
                });
            }
            Ok(NasPdu::AttachRequest(DecodedAttachRequest { eps_attach_type, nas_ksi, imsi, ue_network_cap }))
        },
    }
}

fn decode_auth_request(body: &[u8]) -> (r: Result<NasPdu, ProtoError>)
    ensures
        decoded_as(r, auth_request_spec(body@)),
{
    if body.len() < 1 {
        return Err(ProtoError::TooShort { expected: 35, got: body.len() });
    }
    let nas_ksi = (body[0] >> 4u8) & 0x07;
    let rest = crate::bytes_util::tail(body, 1);
    let (rand_bytes, rest) = match read_lv(rest) {
        Some(p) => p,
        None => {
            return Err(ProtoError::MalformedNas { reason: "missing RAND" });
        },
    };
    if rand_bytes.len() != 16 {
        return Err(ProtoError::MalformedNas { reason: "RAND must be exactly 16 bytes" });
    }
    let rand: [u8; 16] = crate::bytes_util::to_array(rand_bytes);
    let (autn_bytes, _) = match read_lv(rest) {
        Some(p) => p,
        None => {
            return Err(ProtoError::MalformedNas { reason: "missing AUTN" });
        },
    };
    if autn_bytes.len() != 16 {
        return Err(ProtoError::MalformedNas { reason: "AUTN must be exactly 16 bytes" });
    }
    let autn: [u8; 16] = crate::bytes_util::to_array(autn_bytes);
    Ok(NasPdu::AuthenticationRequest(DecodedAuthenticationRequest { nas_ksi, rand, autn }))
}

fn decode_auth_response(body: &[u8]) -> (r: Result<NasPdu, ProtoError>)
    ensures
        decoded_as(r, auth_response_spec(body@)),
{
    let (res_bytes, _) = match read_lv(body) {
        Some(p) => p,
        None => {
            return Err(ProtoError::MalformedNas { reason: "missing RES" });
        },
    };
    if res_bytes.len() != 8 {
        return Err(ProtoError::MalformedNas { reason: "RES must be exactly 8 bytes" });
    }
    let res: [u8; 8] = crate::bytes_util::to_array(res_bytes);
    Ok(NasPdu::AuthenticationResponse(DecodedAuthenticationResponse { res }))
}

fn decode_sec_mode_cmd(body: &[u8]) -> (r: Result<NasPdu, ProtoError>)
    ensures
        decoded_as(r, sec_mode_cmd_spec(body@)),
{
    if body.len() < 2 {
        return Err(ProtoError::TooShort { expected: 2, got: body.len() });
    }
    let (eea, eia) = decode_security_algorithms(body[0]);
    let nas_ksi = (body[1] >> 4u8) & 0x07;
    Ok(NasPdu::SecurityModeCommand(DecodedSecurityModeCommand { eea, eia, nas_ksi }))
}

fn decode_detach_request(body: &[u8]) -> (r: Result<NasPdu, ProtoError>)
    ensures
        decoded_as(r, detach_request_spec(body@)),
{
    if body.len() == 0 {
        return Err(ProtoError::TooShort { expected: 1, got: 0 });
    }
    let detach_type = body[0] & 0x07;
    let switch_off = (body[0] >> 3u8) & 0x01 == 1;
    let nas_ksi = (body[0] >> 4u8) & 0x07;
    Ok(NasPdu::DetachRequest(DecodedDetachRequest { detach_type, switch_off, nas_ksi }))
}

fn decode_attach_accept(body: &[u8]) -> (r: Result<NasPdu, ProtoError>)
    ensures
        decoded_as(r, attach_accept_spec(body@)),
{
    if body.len() < 2 {
        return Err(ProtoError::TooShort { expected: 2, got: body.len() });
    }
    let attach_result = body[0] & 0x07;
    let t3412_value = body[1];
    let rest = crate::bytes_util::tail(body, 2);
    let mut guti: Option<[u8; 10]> = None;
    let mut ip_address: Option<[u8; 4]> = None;
    let mut apn: Option<String> = None;
    // TAI list: mandatory LV, skipped.
    let rest = match read_lv(rest) {
        Some((_, r)) => r,
        None => rest,
    };
    let ghost start = rest@;
    let mut remaining = rest;
    while remaining.len() >= 2
        invariant
            accept_ies(remaining@, (opt_array_view(guti), opt_array_view(ip_address), opt_string_view(apn)))
                == accept_ies(start, (None, None, None)),
        ensures
            accept_ies(remaining@, (opt_array_view(guti), opt_array_view(ip_address), opt_string_view(apn)))
                == (opt_array_view(guti), opt_array_view(ip_address), opt_string_view(apn)),
        decreases remaining@.len(),
    {
        let ghost acc = (opt_array_view(guti), opt_array_view(ip_address), opt_string_view(apn));
        let iei = remaining[0];
        let len = remaining[1] as usize;
        if iei == IEI_GUTI || iei == IEI_PDN_ADDR || iei == IEI_APN {
            let found = if iei == IEI_GUTI {
                find_tlv(remaining, IEI_GUTI)
            } else {
                Some(remaining)
            };
            proof {
                if iei == IEI_GUTI {
                    assert(crate::proto::nas::ie::find_tlv_spec(remaining@, IEI_GUTI) == Some(remaining@));
                }
            }
            let tlv = match found {
                Some(s) => read_tlv(s),
                None => None,
            };
            match tlv {
                Some((_, val, r)) => {
                    proof {
                        assert(remaining@.skip(1).subrange(1, 1 + len as int) =~= remaining@.subrange(2, 2 + len as int));
                        assert(remaining@.skip(1).skip(1 + len as int) =~= remaining@.skip(2 + len as int));
                    }
                    if iei == IEI_GUTI {
                        if val.len() == 10 {
                            guti = Some(crate::bytes_util::to_array(val));
                        }
                    } else if iei == IEI_PDN_ADDR {
                        if val.len() >= 5 && val[0] == 0x01 {
                            let addr = vstd::slice::slice_subrange(val, 1, 5);
                            ip_address = Some(crate::bytes_util::to_array(addr));
                        }
                    } else {
                        apn = string_from_utf8(crate::bytes_util::to_vec(val));
                    }
                    remaining = r;
                },
                None => {
                    break;
                },
            }
        } else {
            if remaining.len() < len + 2 {
                break;
            }
            remaining = crate::bytes_util::tail(remaining, len + 2);
        }
    }
    let ghost fin = (opt_array_view(guti), opt_array_view(ip_address), opt_string_view(apn));
    proof {
        assert(accept_ies(remaining@, fin) == fin);
    }
    Ok(NasPdu::AttachAccept(DecodedAttachAccept { attach_result, t3412_value, guti, ip_address, apn }))
}

// ── Encoding ─────────────────────────────────────────────────────────────────

pub open spec fn plain_header(mt: u8) -> Seq<u8> {
    seq![NAS_PLAIN_HEADER, mt]
}

fn header(mt: u8) -> (buf: Vec<u8>)
    ensures
        buf@ == plain_header(mt),
{
    let mut buf: Vec<u8> = Vec::new();
    buf.push(NAS_PLAIN_HEADER);
    buf.push(mt);
    proof {
        assert(buf@ =~= plain_header(mt));
    }
    buf
}

/// The UE network capability an encoded Attach Request advertises (EEA2
/// and EIA2).
pub open spec fn default_ue_network_cap() -> Seq<u8> {
    seq![0x20u8, 0x40u8]
}

pub open spec fn attach_request_bytes(imsi: u64, eps_attach_type: u8, nas_ksi: u8) -> Seq<u8> {
    plain_header(MT_ATTACH_REQUEST) + seq![((nas_ksi & 0x07) << 4u8) | (eps_attach_type & 0x07)]
        + lv_bytes(imsi_bcd(imsi)) + lv_bytes(default_ue_network_cap())
}

/// Encode a NAS Attach Request carrying an IMSI.
pub fn encode_attach_request(imsi: u64, eps_attach_type: u8, nas_ksi: u8) -> (buf: Vec<u8>)
    ensures
        buf@ == attach_request_bytes(imsi, eps_attach_type, nas_ksi),
{
    let mut buf = header(MT_ATTACH_REQUEST);
    buf.push(((nas_ksi & 0x07) << 4u8) | (eps_attach_type & 0x07));
    let imsi_bytes = encode_imsi(imsi);
    write_lv(&mut buf, imsi_bytes.as_slice());
    let cap = [0x20u8, 0x40u8];
    write_lv(&mut buf, &cap);
    proof {
        assert(cap@ =~= default_ue_network_cap());
        assert(buf@ =~= attach_request_bytes(imsi, eps_attach_type, nas_ksi));
    }
    buf
}

pub open spec fn auth_request_bytes(nas_ksi: u8, rand: Seq<u8>, autn: Seq<u8>) -> Seq<u8> {
    plain_header(MT_AUTHENTICATION_REQUEST) + seq![(nas_ksi & 0x07) << 4u8] + lv_bytes(rand) + lv_bytes(autn)
}

/// Encode a NAS Authentication Request.
pub fn encode_auth_request(nas_ksi: u8, rand: &[u8; 16], autn: &[u8; 16]) -> (buf: Vec<u8>)
    ensures
        buf@ == auth_request_bytes(nas_ksi, rand@, autn@),
{
    let mut buf = header(MT_AUTHENTICATION_REQUEST);
    buf.push((nas_ksi & 0x07) << 4u8);
    write_lv(&mut buf, rand);
    write_lv(&mut buf, autn);
    proof {
        assert(buf@ =~= auth_request_bytes(nas_ksi, rand@, autn@));
    }
    buf
}

pub open spec fn auth_response_bytes(res: Seq<u8>) -> Seq<u8> {
    plain_header(MT_AUTHENTICATION_RESPONSE) + lv_bytes(res)
}

/// Encode a NAS Authentication Response.
pub fn encode_auth_response(res: &[u8; 8]) -> (buf: Vec<u8>)
    ensures
        buf@ == auth_response_bytes(res@),
{
    let mut buf = header(MT_AUTHENTICATION_RESPONSE);
    write_lv(&mut buf, res);
    buf
}

pub open spec fn sec_mode_cmd_bytes(eea: NasEeaAlgorithm, eia: NasEiaAlgorithm, nas_ksi: u8, ue_cap: Seq<u8>) -> Seq<u8> {
    plain_header(MT_SECURITY_MODE_COMMAND) + seq![(eea_id(eea) << 4u8) | eia_id(eia), (nas_ksi & 0x07) << 4u8]
        + lv_bytes(ue_cap)
}

/// Encode a NAS Security Mode Command.
pub fn encode_sec_mode_cmd(eea: NasEeaAlgorithm, eia: NasEiaAlgorithm, nas_ksi: u8, ue_cap: &[u8]) -> (buf: Vec<u8>)
    ensures
        buf@ == sec_mode_cmd_bytes(eea, eia, nas_ksi, ue_cap@),
{
    let mut buf = header(MT_SECURITY_MODE_COMMAND);
    buf.push(encode_security_algorithms(eea, eia));
    buf.push((nas_ksi & 0x07) << 4u8);
    write_lv(&mut buf, ue_cap);
    proof {
        assert(buf@ =~= sec_mode_cmd_bytes(eea, eia, nas_ksi, ue_cap@));
    }
    buf
}

/// Encode a NAS Security Mode Complete.
pub fn encode_sec_mode_complete() -> (buf: Vec<u8>)
    ensures
        buf@ == plain_header(MT_SECURITY_MODE_COMPLETE),
{
    header(MT_SECURITY_MODE_COMPLETE)
}

/// Encode a NAS Attach Complete.
pub fn encode_attach_complete() -> (buf: Vec<u8>)
    ensures
        buf@ == plain_header(MT_ATTACH_COMPLETE),
{
    header(MT_ATTACH_COMPLETE)
}

/// Encode a NAS Detach Accept.
pub fn encode_detach_accept() -> (buf: Vec<u8>)
    ensures
        buf@ == plain_header(MT_DETACH_ACCEPT),
{
    header(MT_DETACH_ACCEPT)
}

pub open spec fn detach_request_bytes(detach_type: u8, switch_off: bool, nas_ksi: u8, guti: Seq<u8>) -> Seq<u8> {
    plain_header(MT_DETACH_REQUEST) + seq![
        ((nas_ksi & 0x07) << 4u8) | (if switch_off { 0x08u8 } else { 0u8 }) | (detach_type & 0x07),
    ] + lv_bytes(guti)
}

/// Encode a NAS Detach Request (UE originating) with a GUTI as the EPS
/// mobile identity.
pub fn encode_detach_request(detach_type: u8, switch_off: bool, nas_ksi: u8, guti: &[u8; 10]) -> (buf: Vec<u8>)
    ensures
        buf@ == detach_request_bytes(detach_type, switch_off, nas_ksi, guti@),
{
    let mut buf = header(MT_DETACH_REQUEST);
    let so: u8 = if switch_off { 0x08 } else { 0 };
    buf.push(((nas_ksi & 0x07) << 4u8) | so | (detach_type & 0x07));
    write_lv(&mut buf, guti);
    proof {
        assert(buf@ =~= detach_request_bytes(detach_type, switch_off, nas_ksi, guti@));
    }
    buf
}

/// The TAI list entries back to back.
pub open spec fn tai_concat(tais: Seq<[u8; 5]>) -> Seq<u8>
    decreases tais.len(),
{
    if tais.len() == 0 {
        Seq::empty()
    } else {
        tai_concat(tais.drop_last()) + tais.last()@
    }
}

/// The TAI list IE value: empty, or the list-type/count octet followed by
/// the entries.
pub open spec fn tai_list_value(tais: Seq<[u8; 5]>) -> Seq<u8> {
    if tais.len() == 0 {
        Seq::empty()
    } else {
        seq![((tais.len() % 256 - 1) as u8) | 0x18u8] + tai_concat(tais)
    }
}

pub open spec fn attach_accept_bytes(
    attach_result: u8,
    t3412_value: u8,
    tais: Seq<[u8; 5]>,
    ip_address: Option<Seq<u8>>,
    apn: Option<Seq<u8>>,
) -> Seq<u8> {
    plain_header(MT_ATTACH_ACCEPT) + seq![attach_result & 0x07, t3412_value] + lv_bytes(tai_list_value(tais))
        + match ip_address {
        Some(ip) => tlv_bytes(IEI_PDN_ADDR, seq![0x01u8] + ip),
        None => Seq::empty(),
    } + match apn {
        Some(a) => tlv_bytes(IEI_APN, a),
        None => Seq::empty(),
    }
}

pub open spec fn opt_str_bytes(apn: Option<&str>) -> Option<Seq<u8>> {
    match apn {
        Some(s) => Some(s.spec_bytes()),
        None => None,
    }
}

/// Encode a NAS Attach Accept. The TAI list count octet is the list length
/// less one, so a list of a multiple of 256 entries is not accepted.
pub fn encode_attach_accept(
    attach_result: u8,
    t3412_value: u8,
    tai_list: &[[u8; 5]],
    ip_address: Option<[u8; 4]>,
    apn: Option<&str>,
) -> (buf: Vec<u8>)
    requires
        tai_list@.len() == 0 || tai_list@.len() % 256 != 0,
    ensures
        buf@ == attach_accept_bytes(attach_result, t3412_value, tai_list@, opt_array_view(ip_address), opt_str_bytes(apn)),
{
    let mut buf = header(MT_ATTACH_ACCEPT);
    buf.push(attach_result & 0x07);
    buf.push(t3412_value);
    let ghost b0 = buf@;
    if tai_list.len() == 0 {
        let empty: [u8; 0] = [];
        write_lv(&mut buf, &empty);
        proof {
            assert(empty@ =~= tai_list_value(tai_list@));
        }
    } else {
        let mut tai_bytes: Vec<u8> = Vec::new();
        tai_bytes.push((((tai_list.len() % 256) as u8) - 1) | 0x18);
        let n = tai_list.len();
        let mut i: usize = 0;
        while i < n
            invariant
                n == tai_list@.len(),
                n > 0,
                n % 256 != 0,
                i <= n,
                tai_bytes@ == seq![((n % 256 - 1) as u8) | 0x18u8] + tai_concat(tai_list@.take(i as int)),
            decreases n - i,
        {
            let tai: &[u8; 5] = &tai_list[i];
            crate::bytes_util::append_bytes(&mut tai_bytes, tai);
            proof {
                assert(tai_list@.take(i as int + 1).drop_last() =~= tai_list@.take(i as int));
            }
            i = i + 1;
        }
        proof {
            assert(tai_list@.take(n as int) =~= tai_list@);
        }
        write_lv(&mut buf, tai_bytes.as_slice());
    }
    let ghost b1 = buf@;
    match ip_address {
        Some(ip) => {
            let mut addr: Vec<u8> = Vec::new();
            addr.push(0x01);
            crate::bytes_util::append_bytes(&mut addr, &ip);
            write_tlv(&mut buf, IEI_PDN_ADDR, addr.as_slice());
        },
        None => {},
    }
    let ghost b2 = buf@;
    match apn {
        Some(apn_str) => {
            write_tlv(&mut buf, IEI_APN, apn_str.as_bytes());
        },
        None => {},
    }
    proof {
        assert(b1 =~= b0 + lv_bytes(tai_list_value(tai_list@)));
        assert(buf@ =~= attach_accept_bytes(attach_result, t3412_value, tai_list@, opt_array_view(ip_address), opt_str_bytes(apn)));
    }
    buf
}

// ── Protected envelope ───────────────────────────────────────────────────────

/// Octet 1 of a protected PDU: the security header type over the EPS-MM
/// protocol discriminator.
pub open spec fn protected_octet1(sht: u8) -> u8 {
    ((sht & 0x0F) << 4u8) | NAS_EPS_MM_PD
}

/// Protect an already encoded plain NAS message (network to UE) and frame
/// it: octet 1, MAC-I, the low byte of the downlink COUNT, the payload.
pub fn encode_protected(ctx: &mut NasSecurityContext, sht: u8, bearer: u8, plain: &[u8]) -> (buf: Vec<u8>)
    ensures
        exists|count: u32, payload: Seq<u8>, mac: Seq<u8>|
            protect_downlink_post(*old(ctx), *final(ctx), bearer, plain@, count, payload, mac)
            && buf@ == seq![protected_octet1(sht)] + mac + seq![count as u8] + payload,
{
    let (count, payload, mac) = ctx.protect_downlink(bearer, plain);
    let mut buf: Vec<u8> = Vec::new();
    buf.push(((sht & 0x0F) << 4u8) | NAS_EPS_MM_PD);
    crate::bytes_util::append_bytes(&mut buf, &mac);
    buf.push(count as u8);
    crate::bytes_util::append_bytes(&mut buf, payload.as_slice());
    proof {
        assert(buf@ =~= seq![protected_octet1(sht)] + mac@ + seq![count as u8] + payload@);
    }
    buf
}

/// Whether a buffer can be a protected PDU: at least 6 bytes, the EPS-MM
/// protocol discriminator, a non-zero security header type.
pub open spec fn is_protected_envelope(buf: Seq<u8>) -> bool {
    buf.len() >= 6 && buf[0] & 0x0F == NAS_EPS_MM_PD && (buf[0] >> 4u8) & 0x0F != 0
}

/// Unwrap a protected NAS PDU from the UE: `None` when the buffer is not a
/// protected envelope or its MAC-I does not verify, else the plain message
/// (feed it to `decode_nas`).
pub fn decode_protected(ctx: &mut NasSecurityContext, buf: &[u8], bearer: u8) -> (r: Option<Vec<u8>>)
    ensures
        is_protected_envelope(buf@) ==> unprotect_uplink_post(
            *old(ctx),
            *final(ctx),
            bearer,
            buf@[5],
            buf@.subrange(1, 5),
            buf@.skip(6),
            r,
        ),
        !is_protected_envelope(buf@) ==> r is None && *final(ctx) == *old(ctx),
{
    if buf.len() < 6 {
        return None;
    }
    if buf[0] & 0x0F != NAS_EPS_MM_PD {
        return None;
    }
    if (buf[0] >> 4u8) & 0x0F == 0 {
        return None;
    }
    let mac_i: [u8; 4] = [buf[1], buf[2], buf[3], buf[4]];
    let seq_byte = buf[5];
    let payload = crate::bytes_util::tail(buf, 6);
    proof {
        assert(mac_i@ =~= buf@.subrange(1, 5));
    }
    ctx.unprotect_uplink(bearer, seq_byte, &mac_i, payload)
}

// ── Laws: what an encoder writes, the decoder reads back ─────────────────────

proof fn lemma_plain_octet1()
    ensures
        NAS_PLAIN_HEADER & 0x0F == NAS_EPS_MM_PD,
        (NAS_PLAIN_HEADER >> 4u8) & 0x0F == 0,
{
    assert(0x07u8 & 0x0Fu8 == 0x07u8 && (0x07u8 >> 4u8) & 0x0Fu8 == 0u8) by (bit_vector);
}

proof fn lemma_ksi_nibble(k: u8)
    ensures
        ((((k & 0x07) << 4u8) >> 4u8) & 0x07) == k & 0x07,
{
    assert(((((k & 0x07) << 4u8) >> 4u8) & 0x07) == k & 0x07) by (bit_vector);
}

/// A decoded Authentication Request gives back the NAS KSI (3 bits), RAND
/// and AUTN it was encoded with.
pub proof fn law_auth_request_round_trip(nas_ksi: u8, rand: Seq<u8>, autn: Seq<u8>)
    requires
        rand.len() == 16,
        autn.len() == 16,
    ensures
        decode_nas_spec(auth_request_bytes(nas_ksi, rand, autn))
            == Ok::<NasView, ProtoErrorKind>(NasView::AuthenticationRequest { nas_ksi: nas_ksi & 0x07, rand, autn }),
{
    lemma_plain_octet1();
    lemma_ksi_nibble(nas_ksi);
    let b = auth_request_bytes(nas_ksi, rand, autn);
    let body = b.skip(2);
    assert(body.skip(1) =~= lv_bytes(rand) + lv_bytes(autn));
    law_lv_round_trip(rand, lv_bytes(autn));
    assert(lv_bytes(autn) + Seq::<u8>::empty() =~= lv_bytes(autn));
    law_lv_round_trip(autn, Seq::empty());
}

/// A decoded Authentication Response gives back its RES.
pub proof fn law_auth_response_round_trip(res: Seq<u8>)
    requires
        res.len() == 8,
    ensures
        decode_nas_spec(auth_response_bytes(res)) == Ok::<NasView, ProtoErrorKind>(NasView::AuthenticationResponse { res }),
{
    lemma_plain_octet1();
    let b = auth_response_bytes(res);
    assert(b.skip(2) =~= lv_bytes(res) + Seq::<u8>::empty());
    law_lv_round_trip(res, Seq::empty());
}

/// A decoded Security Mode Command gives back the algorithm pair and the NAS
/// KSI (3 bits).
pub proof fn law_sec_mode_cmd_round_trip(eea: NasEeaAlgorithm, eia: NasEiaAlgorithm, nas_ksi: u8, ue_cap: Seq<u8>)
    ensures
        decode_nas_spec(sec_mode_cmd_bytes(eea, eia, nas_ksi, ue_cap))
            == Ok::<NasView, ProtoErrorKind>(NasView::SecurityModeCommand { eea, eia, nas_ksi: nas_ksi & 0x07 }),
{
    lemma_plain_octet1();
    lemma_ksi_nibble(nas_ksi);
    law_security_algorithms_round_trip(eea, eia);
    let b = sec_mode_cmd_bytes(eea, eia, nas_ksi, ue_cap);
    assert(b.skip(2)[0] == (eea_id(eea) << 4u8) | eia_id(eia));
    assert(b.skip(2)[1] == (nas_ksi & 0x07) << 4u8);
}

/// A decoded Attach Request gives back the attach type and NAS KSI (3 bits
/// each), the IMSI (of at most 15 digits) and the advertised capability.
pub proof fn law_attach_request_round_trip(imsi: u64, eps_attach_type: u8, nas_ksi: u8)
    requires
        imsi < 1_000_000_000_000_000,
    ensures
        decode_nas_spec(attach_request_bytes(imsi, eps_attach_type, nas_ksi)) == Ok::<NasView, ProtoErrorKind>(
            NasView::AttachRequest {
                eps_attach_type: eps_attach_type & 0x07,
                nas_ksi: nas_ksi & 0x07,
                imsi: Some(imsi),
                ue_network_cap: default_ue_network_cap(),
            },
        ),
{
    lemma_plain_octet1();
    let o3 = ((nas_ksi & 0x07) << 4u8) | (eps_attach_type & 0x07);
    assert(o3 & 0x07 == eps_attach_type & 0x07 && (o3 >> 4u8) & 0x07 == nas_ksi & 0x07) by (bit_vector)
        requires
            o3 == ((nas_ksi & 0x07) << 4u8) | (eps_attach_type & 0x07),
    ;
    let b = attach_request_bytes(imsi, eps_attach_type, nas_ksi);
    let body = b.skip(2);
    crate::proto::nas::ie::law_imsi_encoding_header(imsi);
    assert(body.skip(1) =~= lv_bytes(imsi_bcd(imsi)) + lv_bytes(default_ue_network_cap()));
    law_lv_round_trip(imsi_bcd(imsi), lv_bytes(default_ue_network_cap()));
    assert(lv_bytes(default_ue_network_cap()) + Seq::<u8>::empty() =~= lv_bytes(default_ue_network_cap()));
    law_lv_round_trip(default_ue_network_cap(), Seq::empty());
    law_imsi_round_trip(imsi);
}

/// A decoded Detach Request gives back the detach type, the switch-off flag
/// and the NAS KSI.
pub proof fn law_detach_request_round_trip(detach_type: u8, switch_off: bool, nas_ksi: u8, guti: Seq<u8>)
    ensures
        decode_nas_spec(detach_request_bytes(detach_type, switch_off, nas_ksi, guti)) == Ok::<NasView, ProtoErrorKind>(
            NasView::DetachRequest { detach_type: detach_type & 0x07, switch_off, nas_ksi: nas_ksi & 0x07 },
        ),
{
    lemma_plain_octet1();
    let so: u8 = if switch_off { 0x08u8 } else { 0u8 };
    let o3 = ((nas_ksi & 0x07) << 4u8) | so | (detach_type & 0x07);
    assert(o3 & 0x07 == detach_type & 0x07 && (o3 >> 4u8) & 0x07 == nas_ksi & 0x07 && ((o3 >> 3u8) & 0x01 == 1) == (so == 0x08u8)) by (bit_vector)
        requires
            o3 == ((nas_ksi & 0x07) << 4u8) | so | (detach_type & 0x07),
            so == 0x08u8 || so == 0u8,
    ;
}

/// The message-only PDUs decode to their message.
pub proof fn law_bare_messages_round_trip()
    ensures
        decode_nas_spec(plain_header(MT_SECURITY_MODE_COMPLETE)) == Ok::<NasView, ProtoErrorKind>(NasView::SecurityModeComplete),
        decode_nas_spec(plain_header(MT_ATTACH_COMPLETE)) == Ok::<NasView, ProtoErrorKind>(NasView::AttachComplete),
        decode_nas_spec(plain_header(MT_DETACH_ACCEPT)) == Ok::<NasView, ProtoErrorKind>(NasView::DetachAccept),
{
    lemma_plain_octet1();
}

/// A decoded Attach Accept with no TAI and no GUTI gives back the attach
/// result (3 bits), the T3412 value, the IPv4 address and the APN.
pub proof fn law_attach_accept_round_trip(
    attach_result: u8,
    t3412_value: u8,
    ip: Option<Seq<u8>>,
    apn: Option<Seq<char>>,
)
    requires
        ip matches Some(a) ==> a.len() == 4,
        apn matches Some(c) ==> vstd::utf8::encode_utf8(c).len() <= 255,
    ensures
        decode_nas_spec(
            attach_accept_bytes(
                attach_result,
                t3412_value,
                Seq::empty(),
                ip,
                match apn {
                    Some(c) => Some(vstd::utf8::encode_utf8(c)),
                    None => None,
                },
            ),
        ) == Ok::<NasView, ProtoErrorKind>(
            NasView::AttachAccept { attach_result: attach_result & 0x07, t3412_value, guti: None, ip_address: ip, apn },
        ),
{
    lemma_plain_octet1();
    assert((attach_result & 0x07) & 0x07 == attach_result & 0x07) by (bit_vector);
    let apn_b: Option<Seq<u8>> = match apn {
        Some(c) => Some(vstd::utf8::encode_utf8(c)),
        None => None,
    };
    let ip_part: Seq<u8> = match ip {
        Some(a) => tlv_bytes(IEI_PDN_ADDR, seq![0x01u8] + a),
        None => Seq::empty(),
    };
    let apn_part: Seq<u8> = match apn_b {
        Some(a) => tlv_bytes(IEI_APN, a),
        None => Seq::empty(),
    };
    let b = attach_accept_bytes(attach_result, t3412_value, Seq::empty(), ip, apn_b);
    assert(tai_list_value(Seq::<[u8; 5]>::empty()) =~= Seq::<u8>::empty());
    let rest = b.skip(2).skip(2);
    assert(rest =~= lv_bytes(Seq::empty()) + (ip_part + apn_part));
    law_lv_round_trip(Seq::empty(), ip_part + apn_part);
    let after_tai = ip_part + apn_part;
    // The APN IE alone.
    match apn {
        Some(c) => {
            vstd::utf8::encode_utf8_valid_utf8(c);
            vstd::utf8::encode_utf8_decode_utf8(c);
            let a = vstd::utf8::encode_utf8(c);
            let t = tlv_bytes(IEI_APN, a);
            assert(t.subrange(2, 2 + a.len() as int) =~= a);
            assert(t.skip(2 + a.len() as int) =~= Seq::<u8>::empty());
            assert(t[1] as int == a.len());
            assert(t[0] == IEI_APN);
            let fin: AcceptIes = (None, ip, Some(c));
            assert(accept_ies(Seq::<u8>::empty(), fin) == fin);
            assert(accept_ies(t, (None, ip, None)) == accept_ies(t.skip(2 + a.len() as int), fin));
        },
        None => {},
    }
    let after_ip: AcceptIes = (None, ip, None);
    assert(accept_ies(apn_part, after_ip) == (match apn {
        Some(c) => (None, ip, Some(c)),
        None => after_ip,
    }));
    match ip {
        Some(a) => {
            let v = seq![0x01u8] + a;
            let t = tlv_bytes(IEI_PDN_ADDR, v);
            let whole = t + apn_part;
            assert(whole.subrange(2, 2 + v.len() as int) =~= v);
            assert(v.subrange(1, 5) =~= a);
            assert(whole.skip(2 + v.len() as int) =~= apn_part);
            assert(whole[1] as int == v.len());
            assert(whole[0] == IEI_PDN_ADDR);
            assert(accept_ies(whole, (None, None, None)) == accept_ies(apn_part, after_ip));
        },
        None => {
            assert(after_tai =~= apn_part);
        },
    }
}

// ── Attach Accept: what the optional IEs carry ───────────────────────────────

/// A run of TLV information elements, written in order.
pub open spec fn tlvs_bytes(ies: Seq<(u8, Seq<u8>)>) -> Seq<u8>
    decreases ies.len(),
{
    if ies.len() == 0 {
        Seq::empty()
    } else {
        tlv_bytes(ies[0].0, ies[0].1) + tlvs_bytes(ies.skip(1))
    }
}

/// Every value fits a one-octet length.
pub open spec fn short_tlvs(ies: Seq<(u8, Seq<u8>)>) -> bool {
    forall|i: int| 0 <= i < ies.len() ==> (#[trigger] ies[i]).1.len() <= 255
}

/// No IE of the run has IEI `iei`.
pub open spec fn no_tlv_with(ies: Seq<(u8, Seq<u8>)>, iei: u8) -> bool {
    forall|i: int| 0 <= i < ies.len() ==> (#[trigger] ies[i]).0 != iei
}

/// An Attach Accept body: attach result, T3412, the TAI list as an LV,
/// then the optional IEs.
pub open spec fn attach_accept_with(attach_result: u8, t3412: u8, tai: Seq<u8>, opt: Seq<u8>) -> Seq<u8> {
    plain_header(MT_ATTACH_ACCEPT) + seq![attach_result, t3412] + lv_bytes(tai) + opt
}

/// IEs of other kinds leave a field that the walk has taken as it was.
proof fn lemma_accept_ies_keep(ies: Seq<(u8, Seq<u8>)>, acc: AcceptIes)
    requires
        short_tlvs(ies),
    ensures
        no_tlv_with(ies, IEI_GUTI) ==> accept_ies(tlvs_bytes(ies), acc).0 == acc.0,
        no_tlv_with(ies, IEI_PDN_ADDR) ==> accept_ies(tlvs_bytes(ies), acc).1 == acc.1,
        no_tlv_with(ies, IEI_APN) ==> accept_ies(tlvs_bytes(ies), acc).2 == acc.2,
    decreases ies.len(),
{
    if ies.len() > 0 {
        let iei = ies[0].0;
        let v = ies[0].1;
        assert(short_tlvs(ies.skip(1))) by {
            assert forall|i: int| 0 <= i < ies.skip(1).len() implies (#[trigger] ies.skip(1)[i]).1.len() <= 255 by {
                assert(ies.skip(1)[i] == ies[i + 1]);
            }
        }
        assert(v.len() <= 255);
        let rest = tlvs_bytes(ies.skip(1));
        let rem = tlvs_bytes(ies);
        assert(rem == tlv_bytes(iei, v) + rest);
        assert(rem[0] == iei);
        assert(rem[1] as int == v.len());
        assert(rem.subrange(2, 2 + v.len() as int) =~= v);
        assert(rem.skip(2 + v.len() as int) =~= rest);
        let next = if iei == IEI_GUTI {
            if v.len() == 10 {
                (Some(v), acc.1, acc.2)
            } else {
                acc
            }
        } else if iei == IEI_PDN_ADDR {
            if v.len() >= 5 && v[0] == 0x01 {
                (acc.0, Some(v.subrange(1, 5)), acc.2)
            } else {
                acc
            }
        } else if iei == IEI_APN {
            (acc.0, acc.1, if valid_utf8(v) { Some(decode_utf8(v)) } else { None })
        } else {
            acc
        };
        assert(accept_ies(rem, acc) == accept_ies(rest, next));
        lemma_accept_ies_keep(ies.skip(1), next);
        if no_tlv_with(ies, IEI_GUTI) {
            assert(ies[0].0 != IEI_GUTI);
            assert(no_tlv_with(ies.skip(1), IEI_GUTI)) by {
                assert forall|i: int| 0 <= i < ies.skip(1).len() implies (#[trigger] ies.skip(1)[i]).0 != IEI_GUTI by {
                    assert(ies.skip(1)[i] == ies[i + 1]);
                }
            }
        }
        if no_tlv_with(ies, IEI_PDN_ADDR) {
            assert(ies[0].0 != IEI_PDN_ADDR);
            assert(no_tlv_with(ies.skip(1), IEI_PDN_ADDR)) by {
                assert forall|i: int| 0 <= i < ies.skip(1).len() implies (#[trigger] ies.skip(1)[i]).0 != IEI_PDN_ADDR by {
                    assert(ies.skip(1)[i] == ies[i + 1]);
                }
            }
        }
        if no_tlv_with(ies, IEI_APN) {
            assert(ies[0].0 != IEI_APN);
            assert(no_tlv_with(ies.skip(1), IEI_APN)) by {
                assert forall|i: int| 0 <= i < ies.skip(1).len() implies (#[trigger] ies.skip(1)[i]).0 != IEI_APN by {
                    assert(ies.skip(1)[i] == ies[i + 1]);
                }
            }
        }
    }
}

/// The fixed part of an Attach Accept decodes to its attach result (3 bits)
/// and T3412, and the walk over the optional IEs starts right after the TAI
/// list.
proof fn lemma_attach_accept_fixed(attach_result: u8, t3412: u8, tai: Seq<u8>, opt: Seq<u8>)
    requires
        tai.len() <= 255,
    ensures
        decode_nas_spec(attach_accept_with(attach_result, t3412, tai, opt)) == Ok::<NasView, ProtoErrorKind>(
            NasView::AttachAccept {
                attach_result: attach_result & 0x07,
                t3412_value: t3412,
                guti: accept_ies(opt, (None, None, None)).0,
                ip_address: accept_ies(opt, (None, None, None)).1,
                apn: accept_ies(opt, (None, None, None)).2,
            },
        ),
{
    lemma_plain_octet1();
    let b = attach_accept_with(attach_result, t3412, tai, opt);
    assert(b.skip(2).skip(2) =~= lv_bytes(tai) + opt);
    law_lv_round_trip(tai, opt);
}

/// An Attach Accept that assigns a GUTI (a GUTI IE of 10 octets, after the
/// TAI list, followed by any IEs of other kinds) decodes with that GUTI,
/// its attach result and its T3412 value.
pub proof fn law_attach_accept_keeps_guti(
    attach_result: u8,
    t3412: u8,
    tai: Seq<u8>,
    guti: Seq<u8>,
    ies: Seq<(u8, Seq<u8>)>,
)
    requires
        tai.len() <= 255,
        guti.len() == 10,
        short_tlvs(ies),
        no_tlv_with(ies, IEI_GUTI),
    ensures
        decode_nas_spec(attach_accept_with(attach_result, t3412, tai, tlv_bytes(IEI_GUTI, guti) + tlvs_bytes(ies)))
            matches Ok(NasView::AttachAccept { attach_result: r, t3412_value: t, guti: g, .. })
            && r == attach_result & 0x07 && t == t3412 && g == Some(guti),
{
    let opt = tlv_bytes(IEI_GUTI, guti) + tlvs_bytes(ies);
    lemma_attach_accept_fixed(attach_result, t3412, tai, opt);
    assert(opt[0] == IEI_GUTI);
    assert(opt[1] as int == 10);
    assert(opt.subrange(2, 12) =~= guti);
    assert(opt.skip(12) =~= tlvs_bytes(ies));
    let acc: AcceptIes = (Some(guti), None, None);
    assert(accept_ies(opt, (None, None, None)) == accept_ies(tlvs_bytes(ies), acc));
    lemma_accept_ies_keep(ies, acc);
}

/// An Attach Accept that assigns an IPv4 address (a PDN address IE of type
/// IPv4 with the 4 address octets, after the TAI list, followed by any IEs
/// of other kinds) decodes with that address.
pub proof fn law_attach_accept_keeps_ipv4(
    attach_result: u8,
    t3412: u8,
    tai: Seq<u8>,
    ip: Seq<u8>,
    ies: Seq<(u8, Seq<u8>)>,
)
    requires
        tai.len() <= 255,
        ip.len() == 4,
        short_tlvs(ies),
        no_tlv_with(ies, IEI_PDN_ADDR),
    ensures
        decode_nas_spec(
            attach_accept_with(attach_result, t3412, tai, tlv_bytes(IEI_PDN_ADDR, seq![0x01u8] + ip) + tlvs_bytes(ies)),
        ) matches Ok(NasView::AttachAccept { attach_result: r, t3412_value: t, ip_address: a, .. })
            && r == attach_result & 0x07 && t == t3412 && a == Some(ip),
{
    let v = seq![0x01u8] + ip;
    let opt = tlv_bytes(IEI_PDN_ADDR, v) + tlvs_bytes(ies);
    lemma_attach_accept_fixed(attach_result, t3412, tai, opt);
    assert(opt[0] == IEI_PDN_ADDR);
    assert(opt[1] as int == 5);
    assert(opt.subrange(2, 7) =~= v);
    assert(v.subrange(1, 5) =~= ip);
    assert(opt.skip(7) =~= tlvs_bytes(ies));
    let acc: AcceptIes = (None, Some(ip), None);
    assert(accept_ies(opt, (None, None, None)) == accept_ies(tlvs_bytes(ies), acc));
    lemma_accept_ies_keep(ies, acc);
}

/// An Attach Accept naming an APN (an APN IE of valid UTF-8, after the TAI
/// list, followed by any IEs of other kinds) decodes with that APN.
pub proof fn law_attach_accept_keeps_apn(
    attach_result: u8,
    t3412: u8,
    tai: Seq<u8>,
    apn: Seq<char>,
    ies: Seq<(u8, Seq<u8>)>,
)
    requires
        tai.len() <= 255,
        vstd::utf8::encode_utf8(apn).len() <= 255,
        short_tlvs(ies),
        no_tlv_with(ies, IEI_APN),
    ensures
        decode_nas_spec(
            attach_accept_with(attach_result, t3412, tai, tlv_bytes(IEI_APN, vstd::utf8::encode_utf8(apn)) + tlvs_bytes(ies)),
        ) matches Ok(NasView::AttachAccept { attach_result: r, t3412_value: t, apn: a, .. })
            && r == attach_result & 0x07 && t == t3412 && a == Some(apn),
{
    let v = vstd::utf8::encode_utf8(apn);
    vstd::utf8::encode_utf8_valid_utf8(apn);
    vstd::utf8::encode_utf8_decode_utf8(apn);
    let opt = tlv_bytes(IEI_APN, v) + tlvs_bytes(ies);
    lemma_attach_accept_fixed(attach_result, t3412, tai, opt);
    assert(opt[0] == IEI_APN);
    assert(opt[1] as int == v.len());
    assert(opt.subrange(2, 2 + v.len() as int) =~= v);
    assert(opt.skip(2 + v.len() as int) =~= tlvs_bytes(ies));
    let acc: AcceptIes = (None, None, Some(apn));
    assert(accept_ies(opt, (None, None, None)) == accept_ies(tlvs_bytes(ies), acc));
    lemma_accept_ies_keep(ies, acc);
}

} // verus!
