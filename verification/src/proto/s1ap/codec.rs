//! S1AP ALIGNED PER codec for InitialUEMessage, UplinkNASTransport and
//! DownlinkNASTransport (3GPP TS 36.413), each an initiating message whose
//! value is a protocol IE container.

use vstd::prelude::*;

use crate::proto::error::{ProtoError, ProtoErrorKind};
use crate::proto::ie_container::{
    container_bits, decode_pdu_wrapper, decode_wrapper_spec, encode_pdu_wrapper, entries_bytes,
    ie_framable, law_container_round_trip, law_ie_octet_string_round_trip, law_ie_octets_round_trip,
    law_ie_uint_round_trip, law_wrapper_round_trip,
    ie_entry_bytes, ie_octet_string, ie_octets, ie_uint, ie_views, lemma_bit_len_consts,
    lemma_container_len, octet_string_bytes, pack, per_constrained, per_octet_string, per_octets,
    read_container_spec, read_ie_container, read_ie_octet_string, read_ie_octets, read_ie_uint,
    write_ie_container, wrapper_bits, IeEntry, IeView,
};
use crate::proto::s1ap::ie_ids::{
    CRITICALITY_IGNORE, CRITICALITY_REJECT, ENB_UE_S1AP_ID_MAX, ID_ENB_UE_S1AP_ID, ID_EUTRAN_CGI,
    ID_MME_UE_S1AP_ID, ID_NAS_PDU, ID_RRC_ESTABLISHMENT_CAUSE, ID_TAI, MME_UE_S1AP_ID_MAX,
    PROC_DOWNLINK_NAS_TRANSPORT, PROC_INITIAL_UE_MESSAGE, PROC_UPLINK_NAS_TRANSPORT,
    RRC_ESTABLISHMENT_CAUSE_MAX,
};
use crate::proto::s1ap::messages::{DownlinkNasTransport, InitialUeMessage, S1apMessage, UplinkNasTransport};
use crate::proto::s1ap::per::{
    align_up, constrained_bits, length_bits, octet_bits, PerReader, PerWriter, lemma_align_up,
};

verus! {

/// What a decoded S1AP message says (the three NAS-carrying messages this
/// codec handles; anything else is `Other`).
pub enum S1apView {
    InitialUeMessage { enb_ue_s1ap_id: u32, nas_pdu: Seq<u8>, tai: Seq<u8>, eutran_cgi: Seq<u8>, rrc_cause: u8 },
    UplinkNasTransport { mme_ue_s1ap_id: u32, enb_ue_s1ap_id: u32, nas_pdu: Seq<u8>, tai: Seq<u8>, eutran_cgi: Seq<u8> },
    DownlinkNasTransport { mme_ue_s1ap_id: u32, enb_ue_s1ap_id: u32, nas_pdu: Seq<u8> },
    Other,
}

impl View for S1apMessage {
    type V = S1apView;

    open spec fn view(&self) -> S1apView {
        match self {
            S1apMessage::InitialUeMessage(m) => S1apView::InitialUeMessage {
                enb_ue_s1ap_id: m.enb_ue_s1ap_id,
                nas_pdu: m.nas_pdu@,
                tai: m.tai@,
                eutran_cgi: m.eutran_cgi@,
                rrc_cause: m.rrc_cause,
            },
            S1apMessage::UplinkNasTransport(m) => S1apView::UplinkNasTransport {
                mme_ue_s1ap_id: m.mme_ue_s1ap_id,
                enb_ue_s1ap_id: m.enb_ue_s1ap_id,
                nas_pdu: m.nas_pdu@,
                tai: m.tai@,
                eutran_cgi: m.eutran_cgi@,
            },
            S1apMessage::DownlinkNasTransport(m) => S1apView::DownlinkNasTransport {
                mme_ue_s1ap_id: m.mme_ue_s1ap_id,
                enb_ue_s1ap_id: m.enb_ue_s1ap_id,
                nas_pdu: m.nas_pdu@,
            },
            _ => S1apView::Other,
        }
    }
}

pub open spec fn opt_u32(o: Option<u64>) -> Option<u32> {
    match o {
        Some(v) => Some(v as u32),
        None => None,
    }
}

pub open spec fn opt_u8(o: Option<u64>) -> Option<u8> {
    match o {
        Some(v) => Some(v as u8),
        None => None,
    }
}

// ── Decoding: the IEs each message takes ─────────────────────────────────────

/// InitialUEMessage fields seen so far: eNB id, NAS PDU, TAI, E-UTRAN CGI,
/// RRC cause.
pub type InitialUeFields = (Option<u32>, Option<Seq<u8>>, Option<Seq<u8>>, Option<Seq<u8>>, Option<u8>);

/// One IE of an InitialUEMessage: a known IE replaces its field with what
/// its value decodes to (`None` when that fails); unknown IEs are ignored.
pub open spec fn initial_ue_step(st: InitialUeFields, e: IeView) -> InitialUeFields {
    if e.0 == ID_ENB_UE_S1AP_ID {
        (opt_u32(ie_uint(e.2, ENB_UE_S1AP_ID_MAX)), st.1, st.2, st.3, st.4)
    } else if e.0 == ID_NAS_PDU {
        (st.0, ie_octet_string(e.2), st.2, st.3, st.4)
    } else if e.0 == ID_TAI {
        (st.0, st.1, ie_octets(e.2, 5), st.3, st.4)
    } else if e.0 == ID_EUTRAN_CGI {
        (st.0, st.1, st.2, ie_octets(e.2, 7), st.4)
    } else if e.0 == ID_RRC_ESTABLISHMENT_CAUSE {
        (st.0, st.1, st.2, st.3, opt_u8(ie_uint(e.2, RRC_ESTABLISHMENT_CAUSE_MAX)))
    } else {
        st
    }
}

pub open spec fn initial_ue_fold(es: Seq<IeView>) -> InitialUeFields
    decreases es.len(),
{
    if es.len() == 0 {
        (None, None, None, None, None)
    } else {
        initial_ue_step(initial_ue_fold(es.drop_last()), es.last())
    }
}

/// An InitialUEMessage needs every field.
pub open spec fn initial_ue_result(es: Seq<IeView>) -> Result<S1apView, ProtoErrorKind> {
    match initial_ue_fold(es) {
        (Some(enb), Some(nas), Some(tai), Some(cgi), Some(rrc)) => Ok(
            S1apView::InitialUeMessage { enb_ue_s1ap_id: enb, nas_pdu: nas, tai, eutran_cgi: cgi, rrc_cause: rrc },
        ),
        _ => Err(ProtoErrorKind::MalformedS1ap),
    }
}

/// UplinkNASTransport fields: MME id, eNB id, NAS PDU, TAI, E-UTRAN CGI.
pub type UplinkFields = (Option<u32>, Option<u32>, Option<Seq<u8>>, Option<Seq<u8>>, Option<Seq<u8>>);

pub open spec fn uplink_step(st: UplinkFields, e: IeView) -> UplinkFields {
    if e.0 == ID_MME_UE_S1AP_ID {
        (opt_u32(ie_uint(e.2, MME_UE_S1AP_ID_MAX)), st.1, st.2, st.3, st.4)
    } else if e.0 == ID_ENB_UE_S1AP_ID {
        (st.0, opt_u32(ie_uint(e.2, ENB_UE_S1AP_ID_MAX)), st.2, st.3, st.4)
    } else if e.0 == ID_NAS_PDU {
        (st.0, st.1, ie_octet_string(e.2), st.3, st.4)
    } else if e.0 == ID_TAI {
        (st.0, st.1, st.2, ie_octets(e.2, 5), st.4)
    } else if e.0 == ID_EUTRAN_CGI {
        (st.0, st.1, st.2, st.3, ie_octets(e.2, 7))
    } else {
        st
    }
}

pub open spec fn uplink_fold(es: Seq<IeView>) -> UplinkFields
    decreases es.len(),
{
    if es.len() == 0 {
        (None, None, None, None, None)
    } else {
        uplink_step(uplink_fold(es.drop_last()), es.last())
    }
}

pub open spec fn uplink_result(es: Seq<IeView>) -> Result<S1apView, ProtoErrorKind> {
    match uplink_fold(es) {
        (Some(mme), Some(enb), Some(nas), Some(tai), Some(cgi)) => Ok(
            S1apView::UplinkNasTransport { mme_ue_s1ap_id: mme, enb_ue_s1ap_id: enb, nas_pdu: nas, tai, eutran_cgi: cgi },
        ),
        _ => Err(ProtoErrorKind::MalformedS1ap),
    }
}

/// DownlinkNASTransport fields: MME id, eNB id, NAS PDU.
pub type DownlinkFields = (Option<u32>, Option<u32>, Option<Seq<u8>>);

pub open spec fn downlink_step(st: DownlinkFields, e: IeView) -> DownlinkFields {
    if e.0 == ID_MME_UE_S1AP_ID {
        (opt_u32(ie_uint(e.2, MME_UE_S1AP_ID_MAX)), st.1, st.2)
    } else if e.0 == ID_ENB_UE_S1AP_ID {
        (st.0, opt_u32(ie_uint(e.2, ENB_UE_S1AP_ID_MAX)), st.2)
    } else if e.0 == ID_NAS_PDU {
        (st.0, st.1, ie_octet_string(e.2))
    } else {
        st
    }
}

pub open spec fn downlink_fold(es: Seq<IeView>) -> DownlinkFields
    decreases es.len(),
{
    if es.len() == 0 {
        (None, None, None)
    } else {
        downlink_step(downlink_fold(es.drop_last()), es.last())
    }
}

pub open spec fn downlink_result(es: Seq<IeView>) -> Result<S1apView, ProtoErrorKind> {
    match downlink_fold(es) {
        (Some(mme), Some(enb), Some(nas)) => Ok(
            S1apView::DownlinkNasTransport { mme_ue_s1ap_id: mme, enb_ue_s1ap_id: enb, nas_pdu: nas },
        ),
        _ => Err(ProtoErrorKind::MalformedS1ap),
    }
}

/// What `decode_s1ap_pdu` gives for a buffer.
pub open spec fn decode_s1ap_spec(buf: Seq<u8>) -> Result<S1apView, ProtoErrorKind> {
    match decode_wrapper_spec(buf) {
        None => Err(ProtoErrorKind::MalformedS1ap),
        Some((proc, _, value)) => match read_container_spec(value, 0) {
            None => Err(ProtoErrorKind::MalformedS1ap),
            Some((es, _)) => if proc == PROC_INITIAL_UE_MESSAGE {
                initial_ue_result(es)
            } else if proc == PROC_UPLINK_NAS_TRANSPORT {
                uplink_result(es)
            } else if proc == PROC_DOWNLINK_NAS_TRANSPORT {
                downlink_result(es)
            } else {
                Err(ProtoErrorKind::MalformedS1ap)
            },
        },
    }
}

pub open spec fn s1ap_decoded_as(r: Result<S1apMessage, ProtoError>, expect: Result<S1apView, ProtoErrorKind>) -> bool {
    match r {
        Ok(m) => expect == Ok::<S1apView, ProtoErrorKind>(m@),
        Err(e) => expect == Err::<S1apView, ProtoErrorKind>(e@),
    }
}

/// Every IE value fits an octet string.
pub open spec fn short_values(es: Seq<IeEntry>) -> bool {
    forall|i: int| 0 <= i < es.len() ==> (#[trigger] es[i]).2@.len() < 16384
}

// ── Decoding ─────────────────────────────────────────────────────────────────

/// Decode ALIGNED PER bytes into an S1AP message.
pub fn decode_s1ap_pdu(buf: &[u8]) -> (r: Result<S1apMessage, ProtoError>)
    requires
        8 * buf@.len() <= usize::MAX,
    ensures
        s1ap_decoded_as(r, decode_s1ap_spec(buf@)),
{
    let (proc_code, _crit, value) = match decode_pdu_wrapper(buf) {
        Some(t) => t,
        None => {
            return Err(ProtoError::MalformedS1ap { reason: "failed to decode PDU wrapper" });
        },
    };
    let mut vr = PerReader::new(value.as_slice());
    let entries = match read_ie_container(&mut vr) {
        Some(es) => es,
        None => {
            return Err(ProtoError::MalformedS1ap { reason: "failed to decode IE container" });
        },
    };
    if proc_code == PROC_INITIAL_UE_MESSAGE {
        decode_initial_ue_message(&entries)
    } else if proc_code == PROC_UPLINK_NAS_TRANSPORT {
        decode_uplink_nas_transport(&entries)
    } else if proc_code == PROC_DOWNLINK_NAS_TRANSPORT {
        decode_downlink_nas_transport(&entries)
    } else {
        Err(ProtoError::MalformedS1ap { reason: "unsupported procedure code" })
    }
}

/// The InitialUEMessage fields gathered while walking the IEs.
struct InitialUeState {
    enb_ue_s1ap_id: Option<u32>,
    nas_pdu: Option<Vec<u8>>,
    tai: Option<[u8; 5]>,
    eutran_cgi: Option<[u8; 7]>,
    rrc_cause: Option<u8>,
}

impl InitialUeState {
    spec fn fields(&self) -> InitialUeFields {
        (self.enb_ue_s1ap_id, opt_vec_view(self.nas_pdu), opt_arr_view(self.tai), opt_arr_view(self.eutran_cgi), self.rrc_cause)
    }
}

fn initial_ue_apply(st: InitialUeState, e: &IeEntry) -> (r: InitialUeState)
    requires
        e.2@.len() < 16384,
    ensures
        r.fields() == initial_ue_step(st.fields(), (e.0, e.1, e.2@)),
{
    let id = e.0;
    let val = e.2.as_slice();
    let mut st = st;
    if id == ID_ENB_UE_S1AP_ID {
        st.enb_ue_s1ap_id = match read_ie_uint(val, ENB_UE_S1AP_ID_MAX) {
            Some(v) => Some(v as u32),
            None => None,
        };
    } else if id == ID_NAS_PDU {
        st.nas_pdu = read_ie_octet_string(val);
    } else if id == ID_TAI {
        st.tai = match read_ie_octets(val, 5) {
            Some(v) => Some(crate::bytes_util::to_array(v.as_slice())),
            None => None,
        };
    } else if id == ID_EUTRAN_CGI {
        st.eutran_cgi = match read_ie_octets(val, 7) {
            Some(v) => Some(crate::bytes_util::to_array(v.as_slice())),
            None => None,
        };
    } else if id == ID_RRC_ESTABLISHMENT_CAUSE {
        st.rrc_cause = match read_ie_uint(val, RRC_ESTABLISHMENT_CAUSE_MAX) {
            Some(v) => Some(v as u8),
            None => None,
        };
    }
    st
}

fn decode_initial_ue_message(entries: &Vec<IeEntry>) -> (r: Result<S1apMessage, ProtoError>)
    requires
        short_values(entries@),
    ensures
        s1ap_decoded_as(r, initial_ue_result(ie_views(entries@))),
{
    let mut st = InitialUeState { enb_ue_s1ap_id: None, nas_pdu: None, tai: None, eutran_cgi: None, rrc_cause: None };
    let n = entries.len();
    let mut i: usize = 0;
    while i < n
        invariant
            n == entries@.len(),
            i <= n,
            short_values(entries@),
            initial_ue_fold(ie_views(entries@).take(i as int)) == st.fields(),
        decreases n - i,
    {
        let e = &entries[i];
        proof {
            assert(entries@[i as int].2@.len() < 16384);
            assert(ie_views(entries@).take(i as int + 1).drop_last() =~= ie_views(entries@).take(i as int));
            assert(ie_views(entries@).take(i as int + 1).last() == (e.0, e.1, e.2@));
        }
        st = initial_ue_apply(st, e);
        i = i + 1;
    }
    proof {
        assert(ie_views(entries@).take(n as int) =~= ie_views(entries@));
    }
    match (st.enb_ue_s1ap_id, st.nas_pdu, st.tai, st.eutran_cgi, st.rrc_cause) {
        (Some(enb_ue_s1ap_id), Some(nas_pdu), Some(tai), Some(eutran_cgi), Some(rrc_cause)) => Ok(
            S1apMessage::InitialUeMessage(InitialUeMessage { enb_ue_s1ap_id, nas_pdu, tai, eutran_cgi, rrc_cause }),
        ),
        _ => Err(ProtoError::MalformedS1ap { reason: "missing mandatory InitialUEMessage IE" }),
    }
}

fn decode_uplink_nas_transport(entries: &Vec<IeEntry>) -> (r: Result<S1apMessage, ProtoError>)
    requires
        short_values(entries@),
    ensures
        s1ap_decoded_as(r, uplink_result(ie_views(entries@))),
{
    let mut mme_ue_s1ap_id: Option<u32> = None;
    let mut enb_ue_s1ap_id: Option<u32> = None;
    let mut nas_pdu: Option<Vec<u8>> = None;
    let mut tai: Option<[u8; 5]> = None;
    let mut eutran_cgi: Option<[u8; 7]> = None;
    let n = entries.len();
    let mut i: usize = 0;
    while i < n
        invariant
            n == entries@.len(),
            i <= n,
            short_values(entries@),
            uplink_fold(ie_views(entries@).take(i as int)) == (
                mme_ue_s1ap_id,
                enb_ue_s1ap_id,
                opt_vec_view(nas_pdu),
                opt_arr_view(tai),
                opt_arr_view(eutran_cgi),
            ),
        decreases n - i,
    {
        let e = &entries[i];
        let id = e.0;
        let val = e.2.as_slice();
        proof {
            assert(entries@[i as int].2@.len() < 16384);
            assert(ie_views(entries@).take(i as int + 1).drop_last() =~= ie_views(entries@).take(i as int));
            assert(ie_views(entries@).take(i as int + 1).last() == (e.0, e.1, e.2@));
        }
        if id == ID_MME_UE_S1AP_ID {
            mme_ue_s1ap_id = match read_ie_uint(val, MME_UE_S1AP_ID_MAX) {
                Some(v) => Some(v as u32),
                None => None,
            };
        } else if id == ID_ENB_UE_S1AP_ID {
            enb_ue_s1ap_id = match read_ie_uint(val, ENB_UE_S1AP_ID_MAX) {
                Some(v) => Some(v as u32),
                None => None,
            };
        } else if id == ID_NAS_PDU {
            nas_pdu = read_ie_octet_string(val);
        } else if id == ID_TAI {
            tai = match read_ie_octets(val, 5) {
                Some(v) => Some(crate::bytes_util::to_array(v.as_slice())),
                None => None,
            };
        } else if id == ID_EUTRAN_CGI {
            eutran_cgi = match read_ie_octets(val, 7) {
                Some(v) => Some(crate::bytes_util::to_array(v.as_slice())),
                None => None,
            };
        }
        i = i + 1;
    }
    proof {
        assert(ie_views(entries@).take(n as int) =~= ie_views(entries@));
    }
    match (mme_ue_s1ap_id, enb_ue_s1ap_id, nas_pdu, tai, eutran_cgi) {
        (Some(mme_ue_s1ap_id), Some(enb_ue_s1ap_id), Some(nas_pdu), Some(tai), Some(eutran_cgi)) => Ok(
            S1apMessage::UplinkNasTransport(UplinkNasTransport { mme_ue_s1ap_id, enb_ue_s1ap_id, nas_pdu, tai, eutran_cgi }),
        ),
        _ => Err(ProtoError::MalformedS1ap { reason: "missing mandatory UplinkNASTransport IE" }),
    }
}

fn decode_downlink_nas_transport(entries: &Vec<IeEntry>) -> (r: Result<S1apMessage, ProtoError>)
    requires
        short_values(entries@),
    ensures
        s1ap_decoded_as(r, downlink_result(ie_views(entries@))),
{
    let mut mme_ue_s1ap_id: Option<u32> = None;
    let mut enb_ue_s1ap_id: Option<u32> = None;
    let mut nas_pdu: Option<Vec<u8>> = None;
    let n = entries.len();
    let mut i: usize = 0;
    while i < n
        invariant
            n == entries@.len(),
            i <= n,
            short_values(entries@),
            downlink_fold(ie_views(entries@).take(i as int)) == (mme_ue_s1ap_id, enb_ue_s1ap_id, opt_vec_view(nas_pdu)),
        decreases n - i,
    {
        let e = &entries[i];
        let id = e.0;
        let val = e.2.as_slice();
        proof {
            assert(entries@[i as int].2@.len() < 16384);
            assert(ie_views(entries@).take(i as int + 1).drop_last() =~= ie_views(entries@).take(i as int));
            assert(ie_views(entries@).take(i as int + 1).last() == (e.0, e.1, e.2@));
        }
        if id == ID_MME_UE_S1AP_ID {
            mme_ue_s1ap_id = match read_ie_uint(val, MME_UE_S1AP_ID_MAX) {
                Some(v) => Some(v as u32),
                None => None,
            };
        } else if id == ID_ENB_UE_S1AP_ID {
            enb_ue_s1ap_id = match read_ie_uint(val, ENB_UE_S1AP_ID_MAX) {
                Some(v) => Some(v as u32),
                None => None,
            };
        } else if id == ID_NAS_PDU {
            nas_pdu = read_ie_octet_string(val);
        }
        i = i + 1;
    }
    proof {
        assert(ie_views(entries@).take(n as int) =~= ie_views(entries@));
    }
    match (mme_ue_s1ap_id, enb_ue_s1ap_id, nas_pdu) {
        (Some(mme_ue_s1ap_id), Some(enb_ue_s1ap_id), Some(nas_pdu)) => Ok(
            S1apMessage::DownlinkNasTransport(DownlinkNasTransport { mme_ue_s1ap_id, enb_ue_s1ap_id, nas_pdu }),
        ),
        _ => Err(ProtoError::MalformedS1ap { reason: "missing mandatory DownlinkNASTransport IE" }),
    }
}

pub open spec fn opt_vec_view(o: Option<Vec<u8>>) -> Option<Seq<u8>> {
    match o {
        Some(v) => Some(v@),
        None => None,
    }
}

pub open spec fn opt_arr_view<const N: usize>(o: Option<[u8; N]>) -> Option<Seq<u8>> {
    match o {
        Some(a) => Some(a@),
        None => None,
    }
}

// ── Encoding ─────────────────────────────────────────────────────────────────

/// The IE value of an eNB-UE-S1AP-ID.
#[verifier::opaque]
pub open spec fn enb_id_ie(v: u32) -> Seq<u8> {
    pack(constrained_bits(0, v as u64, 0, ENB_UE_S1AP_ID_MAX))
}

/// The IE value of an MME-UE-S1AP-ID.
#[verifier::opaque]
pub open spec fn mme_id_ie(v: u32) -> Seq<u8> {
    pack(constrained_bits(0, v as u64, 0, MME_UE_S1AP_ID_MAX))
}

/// The IE value of a NAS-PDU (an octet string).
#[verifier::opaque]
pub open spec fn nas_pdu_ie(nas: Seq<u8>) -> Seq<u8> {
    pack(length_bits(0, nas.len() as u64) + octet_bits(nas))
}

/// The IE value of a fixed-size octet field (TAI, CGI).
#[verifier::opaque]
pub open spec fn octets_ie(d: Seq<u8>) -> Seq<u8> {
    pack(octet_bits(d))
}

/// The IE value of an RRC-Establishment-Cause.
#[verifier::opaque]
pub open spec fn rrc_cause_ie(v: u8) -> Seq<u8> {
    pack(constrained_bits(0, v as u64, 0, RRC_ESTABLISHMENT_CAUSE_MAX))
}

/// An initiating-message PDU for procedure `proc` whose value is the IE
/// container of `es`.
#[verifier::opaque]
pub open spec fn s1ap_pdu_bytes(proc: u32, es: Seq<IeView>) -> Seq<u8> {
    pack(wrapper_bits(proc, CRITICALITY_IGNORE, pack(container_bits(0, es))))
}

pub open spec fn initial_ue_entries(enb: u32, nas: Seq<u8>, tai: Seq<u8>, cgi: Seq<u8>, rrc: u8) -> Seq<IeView> {
    seq![
        (ID_ENB_UE_S1AP_ID, CRITICALITY_REJECT, enb_id_ie(enb)),
        (ID_NAS_PDU, CRITICALITY_REJECT, nas_pdu_ie(nas)),
        (ID_TAI, CRITICALITY_IGNORE, octets_ie(tai)),
        (ID_EUTRAN_CGI, CRITICALITY_IGNORE, octets_ie(cgi)),
        (ID_RRC_ESTABLISHMENT_CAUSE, CRITICALITY_IGNORE, rrc_cause_ie(rrc)),
    ]
}

pub open spec fn uplink_entries(mme: u32, enb: u32, nas: Seq<u8>, tai: Seq<u8>, cgi: Seq<u8>) -> Seq<IeView> {
    seq![
        (ID_MME_UE_S1AP_ID, CRITICALITY_REJECT, mme_id_ie(mme)),
        (ID_ENB_UE_S1AP_ID, CRITICALITY_REJECT, enb_id_ie(enb)),
        (ID_NAS_PDU, CRITICALITY_REJECT, nas_pdu_ie(nas)),
        (ID_TAI, CRITICALITY_IGNORE, octets_ie(tai)),
        (ID_EUTRAN_CGI, CRITICALITY_IGNORE, octets_ie(cgi)),
    ]
}

pub open spec fn downlink_entries(mme: u32, enb: u32, nas: Seq<u8>) -> Seq<IeView> {
    seq![
        (ID_MME_UE_S1AP_ID, CRITICALITY_REJECT, mme_id_ie(mme)),
        (ID_ENB_UE_S1AP_ID, CRITICALITY_REJECT, enb_id_ie(enb)),
        (ID_NAS_PDU, CRITICALITY_REJECT, nas_pdu_ie(nas)),
    ]
}

/// The packed length of a bit string.
pub proof fn lemma_packed_len(b: Seq<bool>)
    ensures
        pack(b).len() == align_up(b.len() as int) / 8,
{
    lemma_align_up(b.len() as int);
}

/// The lengths of the IE values.
pub proof fn lemma_ie_value_lens(enb: u32, mme: u32, nas: Seq<u8>, d: Seq<u8>, rrc: u8)
    requires
        nas.len() < 16384,
    ensures
        enb_id_ie(enb).len() == 3,
        mme_id_ie(mme).len() == 4,
        nas_pdu_ie(nas).len() == octet_string_bytes(nas.len()),
        octets_ie(d).len() == d.len(),
        rrc_cause_ie(rrc).len() == 1,
{
    reveal(enb_id_ie);
    reveal(mme_id_ie);
    reveal(nas_pdu_ie);
    reveal(octets_ie);
    reveal(rrc_cause_ie);
    lemma_bit_len_consts();
    lemma_align_up(0);
    crate::proto::s1ap::per::lemma_octet_bits(nas);
    crate::proto::s1ap::per::lemma_octet_bits(d);
    lemma_packed_len(constrained_bits(0, enb as u64, 0, ENB_UE_S1AP_ID_MAX));
    lemma_packed_len(constrained_bits(0, mme as u64, 0, MME_UE_S1AP_ID_MAX));
    lemma_packed_len(length_bits(0, nas.len() as u64) + octet_bits(nas));
    lemma_packed_len(octet_bits(d));
    lemma_packed_len(constrained_bits(0, rrc as u64, 0, RRC_ESTABLISHMENT_CAUSE_MAX));
    lemma_align_up(4);
    assert(align_up(4) == 8);
    let ln = length_bits(0, nas.len() as u64).len() + 8 * nas.len();
    assert(align_up(ln as int) == ln) by (nonlinear_arith)
        requires
            ln == (if nas.len() < 128 { 8int } else { 16int }) + 8 * nas.len(),
            align_up(ln as int) % 8 == 0,
            ln <= align_up(ln as int) < ln + 8,
    ;
    assert(align_up((8 * d.len()) as int) == 8 * d.len()) by (nonlinear_arith)
        requires
            align_up((8 * d.len()) as int) % 8 == 0,
            8 * d.len() <= align_up((8 * d.len()) as int) < 8 * d.len() + 8,
    ;
}

/// Each IE value reads back as the field it was written from.
pub proof fn lemma_ie_values_read_back(enb: u32, mme: u32, nas: Seq<u8>, d: Seq<u8>, rrc: u8)
    requires
        enb <= ENB_UE_S1AP_ID_MAX,
        rrc <= RRC_ESTABLISHMENT_CAUSE_MAX,
        nas.len() < 16384,
    ensures
        ie_uint(enb_id_ie(enb), ENB_UE_S1AP_ID_MAX) == Some(enb as u64),
        ie_uint(mme_id_ie(mme), MME_UE_S1AP_ID_MAX) == Some(mme as u64),
        ie_octet_string(nas_pdu_ie(nas)) == Some(nas),
        ie_octets(octets_ie(d), d.len()) == Some(d),
        ie_uint(rrc_cause_ie(rrc), RRC_ESTABLISHMENT_CAUSE_MAX) == Some(rrc as u64),
{
    reveal(enb_id_ie);
    reveal(mme_id_ie);
    reveal(nas_pdu_ie);
    reveal(octets_ie);
    reveal(rrc_cause_ie);
    law_ie_uint_round_trip(enb as u64, ENB_UE_S1AP_ID_MAX);
    law_ie_uint_round_trip(mme as u64, MME_UE_S1AP_ID_MAX);
    law_ie_octet_string_round_trip(nas);
    law_ie_octets_round_trip(d);
    law_ie_uint_round_trip(rrc as u64, RRC_ESTABLISHMENT_CAUSE_MAX);
}

proof fn lemma_entries_bytes_push(es: Seq<IeView>, e: IeView)
    ensures
        entries_bytes(es.push(e)) == entries_bytes(es) + ie_entry_bytes(e.2.len()),
{
    assert(es.push(e).drop_last() =~= es);
}

/// Build an IE from an id, a criticality and its value bytes.
fn ie(id: u32, crit: u8, val: Vec<u8>) -> (e: IeEntry)
    ensures
        e.0 == id,
        e.1 == crit,
        e.2@ == val@,
{
    (id, crit, val)
}

/// Encode an InitialUEMessage. The eNB id must fit 24 bits and the RRC
/// cause 4 bits, and the whole IE container one octet string (a NAS PDU
/// of at most 16343 bytes).
pub fn encode_initial_ue_message(msg: &InitialUeMessage) -> (out: Vec<u8>)
    requires
        msg.enb_ue_s1ap_id <= ENB_UE_S1AP_ID_MAX,
        msg.rrc_cause <= RRC_ESTABLISHMENT_CAUSE_MAX,
        msg.nas_pdu@.len() < 16344,
    ensures
        out@ == s1ap_pdu_bytes(
            PROC_INITIAL_UE_MESSAGE,
            initial_ue_entries(msg.enb_ue_s1ap_id, msg.nas_pdu@, msg.tai@, msg.eutran_cgi@, msg.rrc_cause),
        ),
{
    let mut entries: Vec<IeEntry> = Vec::new();
    entries.push(ie(ID_ENB_UE_S1AP_ID, CRITICALITY_REJECT, per_constrained(msg.enb_ue_s1ap_id as u64, 0, ENB_UE_S1AP_ID_MAX)));
    entries.push(ie(ID_NAS_PDU, CRITICALITY_REJECT, per_octet_string(msg.nas_pdu.as_slice())));
    entries.push(ie(ID_TAI, CRITICALITY_IGNORE, per_octets(&msg.tai)));
    entries.push(ie(ID_EUTRAN_CGI, CRITICALITY_IGNORE, per_octets(&msg.eutran_cgi)));
    entries.push(ie(ID_RRC_ESTABLISHMENT_CAUSE, CRITICALITY_IGNORE, per_constrained(msg.rrc_cause as u64, 0, RRC_ESTABLISHMENT_CAUSE_MAX)));
    let ghost es = initial_ue_entries(msg.enb_ue_s1ap_id, msg.nas_pdu@, msg.tai@, msg.eutran_cgi@, msg.rrc_cause);
    proof {
        reveal(enb_id_ie);
        reveal(mme_id_ie);
        reveal(nas_pdu_ie);
        reveal(octets_ie);
        reveal(rrc_cause_ie);
        reveal(s1ap_pdu_bytes);
        assert(ie_views(entries@) =~= es);
        lemma_ie_value_lens(msg.enb_ue_s1ap_id, 0, msg.nas_pdu@, msg.tai@, msg.rrc_cause);
        lemma_ie_value_lens(0, 0, msg.nas_pdu@, msg.eutran_cgi@, 0);
        assert forall|i: int| 0 <= i < es.len() implies (#[trigger] es[i]).2.len() < 16384 by {}
        lemma_container_len(es);
        lemma_entries_bytes_push(es.take(0), es[0]);
        assert(es.take(1) =~= es.take(0).push(es[0]));
        lemma_entries_bytes_push(es.take(1), es[1]);
        assert(es.take(2) =~= es.take(1).push(es[1]));
        lemma_entries_bytes_push(es.take(2), es[2]);
        assert(es.take(3) =~= es.take(2).push(es[2]));
        lemma_entries_bytes_push(es.take(3), es[3]);
        assert(es.take(4) =~= es.take(3).push(es[3]));
        lemma_entries_bytes_push(es.take(4), es[4]);
        assert(es.take(5) =~= es.take(4).push(es[4]));
        assert(es.take(5) =~= es);
        assert(es.take(0) =~= Seq::<IeView>::empty());
    }
    let mut value_w = PerWriter::new();
    write_ie_container(&mut value_w, entries.as_slice());
    proof {
        assert(value_w@ =~= container_bits(0, es));
    }
    let value = value_w.into_bytes();
    encode_pdu_wrapper(PROC_INITIAL_UE_MESSAGE, CRITICALITY_IGNORE, value.as_slice())
}

/// Encode an UplinkNASTransport. The eNB id must fit 24 bits and the IE
/// container one octet string (a NAS PDU of at most 16340 bytes).
pub fn encode_uplink_nas_transport(msg: &UplinkNasTransport) -> (out: Vec<u8>)
    requires
        msg.enb_ue_s1ap_id <= ENB_UE_S1AP_ID_MAX,
        msg.nas_pdu@.len() < 16341,
    ensures
        out@ == s1ap_pdu_bytes(
            PROC_UPLINK_NAS_TRANSPORT,
            uplink_entries(msg.mme_ue_s1ap_id, msg.enb_ue_s1ap_id, msg.nas_pdu@, msg.tai@, msg.eutran_cgi@),
        ),
{
    let mut entries: Vec<IeEntry> = Vec::new();
    entries.push(ie(ID_MME_UE_S1AP_ID, CRITICALITY_REJECT, per_constrained(msg.mme_ue_s1ap_id as u64, 0, MME_UE_S1AP_ID_MAX)));
    entries.push(ie(ID_ENB_UE_S1AP_ID, CRITICALITY_REJECT, per_constrained(msg.enb_ue_s1ap_id as u64, 0, ENB_UE_S1AP_ID_MAX)));
    entries.push(ie(ID_NAS_PDU, CRITICALITY_REJECT, per_octet_string(msg.nas_pdu.as_slice())));
    entries.push(ie(ID_TAI, CRITICALITY_IGNORE, per_octets(&msg.tai)));
    entries.push(ie(ID_EUTRAN_CGI, CRITICALITY_IGNORE, per_octets(&msg.eutran_cgi)));
    let ghost es = uplink_entries(msg.mme_ue_s1ap_id, msg.enb_ue_s1ap_id, msg.nas_pdu@, msg.tai@, msg.eutran_cgi@);
    proof {
        reveal(enb_id_ie);
        reveal(mme_id_ie);
        reveal(nas_pdu_ie);
        reveal(octets_ie);
        reveal(rrc_cause_ie);
        reveal(s1ap_pdu_bytes);
        assert(ie_views(entries@) =~= es);
        lemma_ie_value_lens(msg.enb_ue_s1ap_id, msg.mme_ue_s1ap_id, msg.nas_pdu@, msg.tai@, 0);
        lemma_ie_value_lens(0, 0, msg.nas_pdu@, msg.eutran_cgi@, 0);
        assert forall|i: int| 0 <= i < es.len() implies (#[trigger] es[i]).2.len() < 16384 by {}
        lemma_container_len(es);
        lemma_entries_bytes_push(es.take(0), es[0]);
        assert(es.take(1) =~= es.take(0).push(es[0]));
        lemma_entries_bytes_push(es.take(1), es[1]);
        assert(es.take(2) =~= es.take(1).push(es[1]));
        lemma_entries_bytes_push(es.take(2), es[2]);
        assert(es.take(3) =~= es.take(2).push(es[2]));
        lemma_entries_bytes_push(es.take(3), es[3]);
        assert(es.take(4) =~= es.take(3).push(es[3]));
        lemma_entries_bytes_push(es.take(4), es[4]);
        assert(es.take(5) =~= es.take(4).push(es[4]));
        assert(es.take(5) =~= es);
        assert(es.take(0) =~= Seq::<IeView>::empty());
    }
    let mut value_w = PerWriter::new();
    write_ie_container(&mut value_w, entries.as_slice());
    proof {
        assert(value_w@ =~= container_bits(0, es));
    }
    let value = value_w.into_bytes();
    encode_pdu_wrapper(PROC_UPLINK_NAS_TRANSPORT, CRITICALITY_IGNORE, value.as_slice())
}

/// Encode a DownlinkNASTransport. The eNB id must fit 24 bits and the IE
/// container one octet string (a NAS PDU of at most 16360 bytes).
pub fn encode_downlink_nas_transport(msg: &DownlinkNasTransport) -> (out: Vec<u8>)
    requires
        msg.enb_ue_s1ap_id <= ENB_UE_S1AP_ID_MAX,
        msg.nas_pdu@.len() < 16361,
    ensures
        out@ == s1ap_pdu_bytes(
            PROC_DOWNLINK_NAS_TRANSPORT,
            downlink_entries(msg.mme_ue_s1ap_id, msg.enb_ue_s1ap_id, msg.nas_pdu@),
        ),
{
    let mut entries: Vec<IeEntry> = Vec::new();
    entries.push(ie(ID_MME_UE_S1AP_ID, CRITICALITY_REJECT, per_constrained(msg.mme_ue_s1ap_id as u64, 0, MME_UE_S1AP_ID_MAX)));
    entries.push(ie(ID_ENB_UE_S1AP_ID, CRITICALITY_REJECT, per_constrained(msg.enb_ue_s1ap_id as u64, 0, ENB_UE_S1AP_ID_MAX)));
    entries.push(ie(ID_NAS_PDU, CRITICALITY_REJECT, per_octet_string(msg.nas_pdu.as_slice())));
    let ghost es = downlink_entries(msg.mme_ue_s1ap_id, msg.enb_ue_s1ap_id, msg.nas_pdu@);
    proof {
        reveal(enb_id_ie);
        reveal(mme_id_ie);
        reveal(nas_pdu_ie);
        reveal(octets_ie);
        reveal(rrc_cause_ie);
        reveal(s1ap_pdu_bytes);
        assert(ie_views(entries@) =~= es);
        lemma_ie_value_lens(msg.enb_ue_s1ap_id, msg.mme_ue_s1ap_id, msg.nas_pdu@, seq![], 0);
        assert forall|i: int| 0 <= i < es.len() implies (#[trigger] es[i]).2.len() < 16384 by {}
        lemma_container_len(es);
        lemma_entries_bytes_push(es.take(0), es[0]);
        assert(es.take(1) =~= es.take(0).push(es[0]));
        lemma_entries_bytes_push(es.take(1), es[1]);
        assert(es.take(2) =~= es.take(1).push(es[1]));
        lemma_entries_bytes_push(es.take(2), es[2]);
        assert(es.take(3) =~= es.take(2).push(es[2]));
        assert(es.take(3) =~= es);
        assert(es.take(0) =~= Seq::<IeView>::empty());
    }
    let mut value_w = PerWriter::new();
    write_ie_container(&mut value_w, entries.as_slice());
    proof {
        assert(value_w@ =~= container_bits(0, es));
    }
    let value = value_w.into_bytes();
    encode_pdu_wrapper(PROC_DOWNLINK_NAS_TRANSPORT, CRITICALITY_IGNORE, value.as_slice())
}

/// Whether `encode_s1ap_pdu` can frame a message: the IE values must fit
/// their ranges and the IE container one octet string.
pub open spec fn s1ap_encodable(msg: &S1apMessage) -> bool {
    match msg {
        S1apMessage::InitialUeMessage(m) => m.enb_ue_s1ap_id <= ENB_UE_S1AP_ID_MAX && m.rrc_cause
            <= RRC_ESTABLISHMENT_CAUSE_MAX && m.nas_pdu@.len() < 16344,
        S1apMessage::UplinkNasTransport(m) => m.enb_ue_s1ap_id <= ENB_UE_S1AP_ID_MAX && m.nas_pdu@.len() < 16341,
        S1apMessage::DownlinkNasTransport(m) => m.enb_ue_s1ap_id <= ENB_UE_S1AP_ID_MAX && m.nas_pdu@.len() < 16361,
        _ => true,
    }
}

/// Encode an S1AP message; only InitialUEMessage, UplinkNASTransport and
/// DownlinkNASTransport have an encoding, every other message is refused.
pub fn encode_s1ap_pdu(msg: &S1apMessage) -> (r: Result<Vec<u8>, ProtoError>)
    requires
        s1ap_encodable(msg),
    ensures
        match msg {
            S1apMessage::InitialUeMessage(m) => r matches Ok(b) && b@ == s1ap_pdu_bytes(
                PROC_INITIAL_UE_MESSAGE,
                initial_ue_entries(m.enb_ue_s1ap_id, m.nas_pdu@, m.tai@, m.eutran_cgi@, m.rrc_cause),
            ),
            S1apMessage::UplinkNasTransport(m) => r matches Ok(b) && b@ == s1ap_pdu_bytes(
                PROC_UPLINK_NAS_TRANSPORT,
                uplink_entries(m.mme_ue_s1ap_id, m.enb_ue_s1ap_id, m.nas_pdu@, m.tai@, m.eutran_cgi@),
            ),
            S1apMessage::DownlinkNasTransport(m) => r matches Ok(b) && b@ == s1ap_pdu_bytes(
                PROC_DOWNLINK_NAS_TRANSPORT,
                downlink_entries(m.mme_ue_s1ap_id, m.enb_ue_s1ap_id, m.nas_pdu@),
            ),
            _ => r matches Err(e) && e@ == ProtoErrorKind::MalformedS1ap,
        },
{
    match msg {
        S1apMessage::InitialUeMessage(m) => Ok(encode_initial_ue_message(m)),
        S1apMessage::UplinkNasTransport(m) => Ok(encode_uplink_nas_transport(m)),
        S1apMessage::DownlinkNasTransport(m) => Ok(encode_downlink_nas_transport(m)),
        _ => Err(ProtoError::MalformedS1ap { reason: "no PER encoding for this S1AP message" }),
    }
}

// ── Round trip ───────────────────────────────────────────────────────────────

/// The bytes `encode_s1ap_pdu` writes for each of the three messages it
/// frames (empty for the others, which it refuses).
pub open spec fn s1ap_pdu_encoding(msg: S1apMessage) -> Seq<u8> {
    match msg {
        S1apMessage::InitialUeMessage(m) => s1ap_pdu_bytes(
            PROC_INITIAL_UE_MESSAGE,
            initial_ue_entries(m.enb_ue_s1ap_id, m.nas_pdu@, m.tai@, m.eutran_cgi@, m.rrc_cause),
        ),
        S1apMessage::UplinkNasTransport(m) => s1ap_pdu_bytes(
            PROC_UPLINK_NAS_TRANSPORT,
            uplink_entries(m.mme_ue_s1ap_id, m.enb_ue_s1ap_id, m.nas_pdu@, m.tai@, m.eutran_cgi@),
        ),
        S1apMessage::DownlinkNasTransport(m) => s1ap_pdu_bytes(
            PROC_DOWNLINK_NAS_TRANSPORT,
            downlink_entries(m.mme_ue_s1ap_id, m.enb_ue_s1ap_id, m.nas_pdu@),
        ),
        _ => Seq::empty(),
    }
}

/// The container of `es` packs into fewer than 16384 octets and each of its
/// IEs can be framed, so the wrapper and the container read back.
pub proof fn lemma_pdu_reads_back(proc: u32, es: Seq<IeView>)
    requires
        proc <= 255,
        es.len() < 128,
        forall|i: int| 0 <= i < es.len() ==> ie_framable(#[trigger] es[i]),
        1 + entries_bytes(es) < 16384,
    ensures
        decode_wrapper_spec(s1ap_pdu_bytes(proc, es)) == Some((proc, CRITICALITY_IGNORE, pack(container_bits(0, es)))),
        read_container_spec(pack(container_bits(0, es)), 0) matches Some((got, _)) && got == es,
{
    assert forall|i: int| 0 <= i < es.len() implies (#[trigger] es[i]).2.len() < 16384 by {
        assert(ie_framable(es[i]));
    }
    lemma_container_len(es);
    reveal(s1ap_pdu_bytes);
    law_wrapper_round_trip(proc, CRITICALITY_IGNORE, pack(container_bits(0, es)));
    law_container_round_trip(es);
}

proof fn lemma_entries_bytes_of_3(es: Seq<IeView>)
    requires
        es.len() == 3,
    ensures
        entries_bytes(es) == ie_entry_bytes(es[0].2.len()) + ie_entry_bytes(es[1].2.len()) + ie_entry_bytes(es[2].2.len()),
{
    lemma_entries_bytes_push(es.take(0), es[0]);
    assert(es.take(1) =~= es.take(0).push(es[0]));
    lemma_entries_bytes_push(es.take(1), es[1]);
    assert(es.take(2) =~= es.take(1).push(es[1]));
    lemma_entries_bytes_push(es.take(2), es[2]);
    assert(es.take(3) =~= es.take(2).push(es[2]));
    assert(es.take(3) =~= es);
    assert(es.take(0) =~= Seq::<IeView>::empty());
}

proof fn lemma_entries_bytes_of_5(es: Seq<IeView>)
    requires
        es.len() == 5,
    ensures
        entries_bytes(es) == ie_entry_bytes(es[0].2.len()) + ie_entry_bytes(es[1].2.len()) + ie_entry_bytes(es[2].2.len())
            + ie_entry_bytes(es[3].2.len()) + ie_entry_bytes(es[4].2.len()),
{
    lemma_entries_bytes_push(es.take(3), es[3]);
    assert(es.take(4) =~= es.take(3).push(es[3]));
    lemma_entries_bytes_push(es.take(4), es[4]);
    assert(es.take(5) =~= es.take(4).push(es[4]));
    assert(es.take(5) =~= es);
    lemma_entries_bytes_of_3(es.take(3));
}

/// What the decoder does with the PDU of a container: the message the
/// procedure code names, from the container's IEs.
proof fn lemma_decode_pdu_bytes(proc: u32, es: Seq<IeView>)
    requires
        proc <= 255,
        es.len() < 128,
        forall|i: int| 0 <= i < es.len() ==> ie_framable(#[trigger] es[i]),
        1 + entries_bytes(es) < 16384,
    ensures
        decode_s1ap_spec(s1ap_pdu_bytes(proc, es)) == (if proc == PROC_INITIAL_UE_MESSAGE {
            initial_ue_result(es)
        } else if proc == PROC_UPLINK_NAS_TRANSPORT {
            uplink_result(es)
        } else if proc == PROC_DOWNLINK_NAS_TRANSPORT {
            downlink_result(es)
        } else {
            Err(ProtoErrorKind::MalformedS1ap)
        }),
{
    lemma_pdu_reads_back(proc, es);
}

proof fn lemma_initial_ue_fold(enb: u32, nas: Seq<u8>, tai: Seq<u8>, cgi: Seq<u8>, rrc: u8)
    requires
        enb <= ENB_UE_S1AP_ID_MAX,
        rrc <= RRC_ESTABLISHMENT_CAUSE_MAX,
        nas.len() < 16384,
    ensures
        initial_ue_fold(initial_ue_entries(enb, nas, tai, cgi, rrc)) == (
            Some(enb),
            Some(nas),
            ie_octets(octets_ie(tai), 5),
            ie_octets(octets_ie(cgi), 7),
            Some(rrc),
        ),
{
    let es = initial_ue_entries(enb, nas, tai, cgi, rrc);
    lemma_ie_values_read_back(enb, 0, nas, tai, rrc);
    assert(es.take(0) =~= Seq::<IeView>::empty());
    assert(es.take(1).drop_last() =~= es.take(0));
    assert(es.take(2).drop_last() =~= es.take(1));
    assert(es.take(3).drop_last() =~= es.take(2));
    assert(es.take(4).drop_last() =~= es.take(3));
    assert(es.take(5).drop_last() =~= es.take(4));
    assert(es.take(5) =~= es);
    assert(es.take(1).last() == (ID_ENB_UE_S1AP_ID, CRITICALITY_REJECT, enb_id_ie(enb)));
    assert(initial_ue_fold(es.take(0)) == (None::<u32>, None::<Seq<u8>>, None::<Seq<u8>>, None::<Seq<u8>>, None::<u8>));
    assert(ie_uint(enb_id_ie(enb), ENB_UE_S1AP_ID_MAX) == Some(enb as u64));
    assert(initial_ue_fold(es.take(1)) == (Some(enb), None::<Seq<u8>>, None::<Seq<u8>>, None::<Seq<u8>>, None::<u8>));
    assert(initial_ue_fold(es.take(2)) == (Some(enb), Some(nas), None::<Seq<u8>>, None::<Seq<u8>>, None::<u8>));
    assert(initial_ue_fold(es.take(3)) == (Some(enb), Some(nas), ie_octets(octets_ie(tai), 5), None::<Seq<u8>>, None::<u8>));
    assert(initial_ue_fold(es.take(4)) == (
        Some(enb),
        Some(nas),
        ie_octets(octets_ie(tai), 5),
        ie_octets(octets_ie(cgi), 7),
        None::<u8>,
    ));
}

proof fn lemma_initial_ue_round_trip(m: InitialUeMessage)
    requires
        m.enb_ue_s1ap_id <= ENB_UE_S1AP_ID_MAX,
        m.rrc_cause <= RRC_ESTABLISHMENT_CAUSE_MAX,
        m.nas_pdu@.len() < 16344,
    ensures
        decode_s1ap_spec(s1ap_pdu_encoding(S1apMessage::InitialUeMessage(m))) == Ok::<S1apView, ProtoErrorKind>(
            S1apMessage::InitialUeMessage(m)@,
        ),
{
    let es = initial_ue_entries(m.enb_ue_s1ap_id, m.nas_pdu@, m.tai@, m.eutran_cgi@, m.rrc_cause);
    assert(decode_s1ap_spec(s1ap_pdu_bytes(PROC_INITIAL_UE_MESSAGE, es)) == initial_ue_result(es)) by {
        lemma_ie_value_lens(m.enb_ue_s1ap_id, 0, m.nas_pdu@, m.tai@, m.rrc_cause);
        lemma_ie_value_lens(0, 0, m.nas_pdu@, m.eutran_cgi@, 0);
        lemma_entries_bytes_of_5(es);
        assert forall|i: int| 0 <= i < es.len() implies ie_framable(#[trigger] es[i]) by {}
        lemma_decode_pdu_bytes(PROC_INITIAL_UE_MESSAGE, es);
    }
    assert(initial_ue_result(es) == Ok::<S1apView, ProtoErrorKind>(S1apMessage::InitialUeMessage(m)@)) by {
        lemma_ie_values_read_back(0, 0, seq![], m.tai@, 0);
        lemma_ie_values_read_back(0, 0, seq![], m.eutran_cgi@, 0);
        lemma_initial_ue_fold(m.enb_ue_s1ap_id, m.nas_pdu@, m.tai@, m.eutran_cgi@, m.rrc_cause);
    }
}

proof fn lemma_uplink_fold(mme: u32, enb: u32, nas: Seq<u8>, tai: Seq<u8>, cgi: Seq<u8>)
    requires
        enb <= ENB_UE_S1AP_ID_MAX,
        nas.len() < 16384,
    ensures
        uplink_fold(uplink_entries(mme, enb, nas, tai, cgi)) == (
            Some(mme),
            Some(enb),
            Some(nas),
            ie_octets(octets_ie(tai), 5),
            ie_octets(octets_ie(cgi), 7),
        ),
{
    let es = uplink_entries(mme, enb, nas, tai, cgi);
    lemma_ie_values_read_back(enb, mme, nas, tai, 0);
    assert(es.take(0) =~= Seq::<IeView>::empty());
    assert(es.take(1).drop_last() =~= es.take(0));
    assert(es.take(2).drop_last() =~= es.take(1));
    assert(es.take(3).drop_last() =~= es.take(2));
    assert(es.take(4).drop_last() =~= es.take(3));
    assert(es.take(5).drop_last() =~= es.take(4));
    assert(es.take(5) =~= es);
    assert(es.take(1).last() == (ID_MME_UE_S1AP_ID, CRITICALITY_REJECT, mme_id_ie(mme)));
    assert(uplink_fold(es.take(0)) == (None::<u32>, None::<u32>, None::<Seq<u8>>, None::<Seq<u8>>, None::<Seq<u8>>));
    assert(ie_uint(mme_id_ie(mme), MME_UE_S1AP_ID_MAX) == Some(mme as u64));
    assert(uplink_fold(es.take(1)) == (Some(mme), None::<u32>, None::<Seq<u8>>, None::<Seq<u8>>, None::<Seq<u8>>));
    assert(uplink_fold(es.take(2)) == (Some(mme), Some(enb), None::<Seq<u8>>, None::<Seq<u8>>, None::<Seq<u8>>));
    assert(uplink_fold(es.take(3)) == (Some(mme), Some(enb), Some(nas), None::<Seq<u8>>, None::<Seq<u8>>));
    assert(uplink_fold(es.take(4)) == (Some(mme), Some(enb), Some(nas), ie_octets(octets_ie(tai), 5), None::<Seq<u8>>));
}

proof fn lemma_uplink_round_trip(m: UplinkNasTransport)
    requires
        m.enb_ue_s1ap_id <= ENB_UE_S1AP_ID_MAX,
        m.nas_pdu@.len() < 16341,
    ensures
        decode_s1ap_spec(s1ap_pdu_encoding(S1apMessage::UplinkNasTransport(m))) == Ok::<S1apView, ProtoErrorKind>(
            S1apMessage::UplinkNasTransport(m)@,
        ),
{
    let es = uplink_entries(m.mme_ue_s1ap_id, m.enb_ue_s1ap_id, m.nas_pdu@, m.tai@, m.eutran_cgi@);
    assert(decode_s1ap_spec(s1ap_pdu_bytes(PROC_UPLINK_NAS_TRANSPORT, es)) == uplink_result(es)) by {
        lemma_ie_value_lens(m.enb_ue_s1ap_id, m.mme_ue_s1ap_id, m.nas_pdu@, m.tai@, 0);
        lemma_ie_value_lens(0, 0, m.nas_pdu@, m.eutran_cgi@, 0);
        lemma_entries_bytes_of_5(es);
        assert forall|i: int| 0 <= i < es.len() implies ie_framable(#[trigger] es[i]) by {}
        lemma_decode_pdu_bytes(PROC_UPLINK_NAS_TRANSPORT, es);
    }
    assert(uplink_result(es) == Ok::<S1apView, ProtoErrorKind>(S1apMessage::UplinkNasTransport(m)@)) by {
        lemma_ie_values_read_back(0, 0, seq![], m.tai@, 0);
        lemma_ie_values_read_back(0, 0, seq![], m.eutran_cgi@, 0);
        lemma_uplink_fold(m.mme_ue_s1ap_id, m.enb_ue_s1ap_id, m.nas_pdu@, m.tai@, m.eutran_cgi@);
    }
}

proof fn lemma_downlink_fold(mme: u32, enb: u32, nas: Seq<u8>)
    requires
        enb <= ENB_UE_S1AP_ID_MAX,
        nas.len() < 16384,
    ensures
        downlink_fold(downlink_entries(mme, enb, nas)) == (Some(mme), Some(enb), Some(nas)),
{
    let es = downlink_entries(mme, enb, nas);
    lemma_ie_values_read_back(enb, mme, nas, seq![], 0);
    assert(es.take(0) =~= Seq::<IeView>::empty());
    assert(es.take(1).drop_last() =~= es.take(0));
    assert(es.take(2).drop_last() =~= es.take(1));
    assert(es.take(3).drop_last() =~= es.take(2));
    assert(es.take(3) =~= es);
    assert(es.take(1).last() == (ID_MME_UE_S1AP_ID, CRITICALITY_REJECT, mme_id_ie(mme)));
    assert(downlink_fold(es.take(0)) == (None::<u32>, None::<u32>, None::<Seq<u8>>));
    assert(ie_uint(mme_id_ie(mme), MME_UE_S1AP_ID_MAX) == Some(mme as u64));
    assert(downlink_fold(es.take(1)) == (Some(mme), None::<u32>, None::<Seq<u8>>));
    assert(downlink_fold(es.take(2)) == (Some(mme), Some(enb), None::<Seq<u8>>));
}

proof fn lemma_downlink_round_trip(m: DownlinkNasTransport)
    requires
        m.enb_ue_s1ap_id <= ENB_UE_S1AP_ID_MAX,
        m.nas_pdu@.len() < 16361,
    ensures
        decode_s1ap_spec(s1ap_pdu_encoding(S1apMessage::DownlinkNasTransport(m))) == Ok::<S1apView, ProtoErrorKind>(
            S1apMessage::DownlinkNasTransport(m)@,
        ),
{
    let es = downlink_entries(m.mme_ue_s1ap_id, m.enb_ue_s1ap_id, m.nas_pdu@);
    assert(decode_s1ap_spec(s1ap_pdu_bytes(PROC_DOWNLINK_NAS_TRANSPORT, es)) == downlink_result(es)) by {
        lemma_ie_value_lens(m.enb_ue_s1ap_id, m.mme_ue_s1ap_id, m.nas_pdu@, seq![], 0);
        lemma_entries_bytes_of_3(es);
        assert forall|i: int| 0 <= i < es.len() implies ie_framable(#[trigger] es[i]) by {}
        lemma_decode_pdu_bytes(PROC_DOWNLINK_NAS_TRANSPORT, es);
    }
    lemma_downlink_fold(m.mme_ue_s1ap_id, m.enb_ue_s1ap_id, m.nas_pdu@);
}

/// Decoding what `encode_s1ap_pdu` writes gives the message back, for each
/// of the three messages it frames.
pub proof fn law_s1ap_round_trip(msg: S1apMessage)
    requires
        s1ap_encodable(&msg),
        !(msg@ is Other),
    ensures
        decode_s1ap_spec(s1ap_pdu_encoding(msg)) == Ok::<S1apView, ProtoErrorKind>(msg@),
{
    match msg {
        S1apMessage::InitialUeMessage(m) => lemma_initial_ue_round_trip(m),
        S1apMessage::UplinkNasTransport(m) => lemma_uplink_round_trip(m),
        S1apMessage::DownlinkNasTransport(m) => lemma_downlink_round_trip(m),
        _ => {},
    }
}


/// An IE whose id a InitialUEMessage does not read changes nothing, wherever it
/// stands among the others.
pub proof fn law_initial_ue_ignores_unknown_ies(es: Seq<IeView>, i: int, e: IeView)
    requires
        0 <= i <= es.len(),
        e.0 != ID_ENB_UE_S1AP_ID,
        e.0 != ID_NAS_PDU,
        e.0 != ID_TAI,
        e.0 != ID_EUTRAN_CGI,
        e.0 != ID_RRC_ESTABLISHMENT_CAUSE,
    ensures
        initial_ue_fold(es.insert(i, e)) == initial_ue_fold(es),
    decreases es.len(),
{
    let s2 = es.insert(i, e);
    if i == es.len() {
        assert(s2.drop_last() =~= es);
        assert(s2.last() == e);
        assert(initial_ue_step(initial_ue_fold(es), e) == initial_ue_fold(es));
    } else {
        assert(s2.drop_last() =~= es.drop_last().insert(i, e));
        assert(s2.last() == es.last());
        law_initial_ue_ignores_unknown_ies(es.drop_last(), i, e);
    }
}


/// An IE whose id a UplinkNASTransport does not read changes nothing, wherever it
/// stands among the others.
pub proof fn law_uplink_ignores_unknown_ies(es: Seq<IeView>, i: int, e: IeView)
    requires
        0 <= i <= es.len(),
        e.0 != ID_MME_UE_S1AP_ID,
        e.0 != ID_ENB_UE_S1AP_ID,
        e.0 != ID_NAS_PDU,
        e.0 != ID_TAI,
        e.0 != ID_EUTRAN_CGI,
    ensures
        uplink_fold(es.insert(i, e)) == uplink_fold(es),
    decreases es.len(),
{
    let s2 = es.insert(i, e);
    if i == es.len() {
        assert(s2.drop_last() =~= es);
        assert(s2.last() == e);
        assert(uplink_step(uplink_fold(es), e) == uplink_fold(es));
    } else {
        assert(s2.drop_last() =~= es.drop_last().insert(i, e));
        assert(s2.last() == es.last());
        law_uplink_ignores_unknown_ies(es.drop_last(), i, e);
    }
}


/// An IE whose id a DownlinkNASTransport does not read changes nothing, wherever it
/// stands among the others.
pub proof fn law_downlink_ignores_unknown_ies(es: Seq<IeView>, i: int, e: IeView)
    requires
        0 <= i <= es.len(),
        e.0 != ID_MME_UE_S1AP_ID,
        e.0 != ID_ENB_UE_S1AP_ID,
        e.0 != ID_NAS_PDU,
    ensures
        downlink_fold(es.insert(i, e)) == downlink_fold(es),
    decreases es.len(),
{
    let s2 = es.insert(i, e);
    if i == es.len() {
        assert(s2.drop_last() =~= es);
        assert(s2.last() == e);
        assert(downlink_step(downlink_fold(es), e) == downlink_fold(es));
    } else {
        assert(s2.drop_last() =~= es.drop_last().insert(i, e));
        assert(s2.last() == es.last());
        law_downlink_ignores_unknown_ies(es.drop_last(), i, e);
    }
}

/// Decoding an S1AP PDU does not depend on IEs that none of the three
/// messages reads: adding one anywhere in the container gives the same
/// message, or the same error.
pub proof fn law_s1ap_decode_ignores_unknown_ies(proc: u32, es: Seq<IeView>, i: int, e: IeView)
    requires
        proc <= 255,
        0 <= i <= es.len(),
        es.len() + 1 < 128,
        forall|j: int| 0 <= j < es.len() ==> ie_framable(#[trigger] es[j]),
        ie_framable(e),
        1 + entries_bytes(es) < 16384,
        1 + entries_bytes(es.insert(i, e)) < 16384,
        e.0 != ID_ENB_UE_S1AP_ID,
        e.0 != ID_NAS_PDU,
        e.0 != ID_TAI,
        e.0 != ID_EUTRAN_CGI,
        e.0 != ID_RRC_ESTABLISHMENT_CAUSE,
        e.0 != ID_MME_UE_S1AP_ID,
    ensures
        decode_s1ap_spec(s1ap_pdu_bytes(proc, es.insert(i, e))) == decode_s1ap_spec(s1ap_pdu_bytes(proc, es)),
{
    let s2 = es.insert(i, e);
    assert forall|j: int| 0 <= j < s2.len() implies ie_framable(#[trigger] s2[j]) by {
        if j < i {
            assert(s2[j] == es[j]);
        } else if j > i {
            assert(s2[j] == es[j - 1]);
        }
    }
    lemma_decode_pdu_bytes(proc, s2);
    lemma_decode_pdu_bytes(proc, es);
    law_initial_ue_ignores_unknown_ies(es, i, e);
    law_uplink_ignores_unknown_ies(es, i, e);
    law_downlink_ignores_unknown_ies(es, i, e);
}

} // verus!
