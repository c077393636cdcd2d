//! NGAP ALIGNED PER codec for InitialUEMessage, UplinkNASTransport and
//! DownlinkNASTransport (3GPP TS 38.413), framed as in S1AP.

use vstd::prelude::*;

use crate::proto::error::{ProtoError, ProtoErrorKind};
use crate::proto::ie_container::{
    container_bits, decode_pdu_wrapper, decode_wrapper_spec, encode_pdu_wrapper, entries_bytes,
    ie_entry_bytes, ie_framable, ie_octet_string, ie_uint, ie_views, lemma_container_len, pack,
    per_constrained, per_octet_string, read_container_spec, read_ie_container,
    read_ie_octet_string, read_ie_uint, write_ie_container, wrapper_bits, IeEntry, IeView,
};
use crate::proto::ngap::ie_ids::{
    AMF_UE_NGAP_ID_MAX, CRITICALITY_IGNORE, CRITICALITY_REJECT, ID_AMF_UE_NGAP_ID, ID_NAS_PDU,
    ID_RAN_UE_NGAP_ID, ID_RRC_ESTABLISHMENT_CAUSE, ID_USER_LOCATION_INFO,
    PROC_DOWNLINK_NAS_TRANSPORT, PROC_INITIAL_UE_MESSAGE, PROC_UPLINK_NAS_TRANSPORT,
    RAN_UE_NGAP_ID_MAX, RRC_ESTABLISHMENT_CAUSE_MAX,
};
use crate::proto::ngap::messages::{
    NgapDownlinkNasTransport, NgapInitialUeMessage, NgapMessage, NgapUplinkNasTransport,
};
use crate::proto::s1ap::codec::{
    lemma_ie_value_lens, lemma_ie_values_read_back, lemma_pdu_reads_back, mme_id_ie, nas_pdu_ie, s1ap_pdu_bytes, opt_arr_view, opt_u32, opt_u8, opt_vec_view, rrc_cause_ie,
};
use crate::proto::s1ap::per::{
    align_up, constrained_bits, lemma_align_up, octet_bits, read_octets_spec, PerReader, PerWriter,
};

verus! {

/// What a decoded NGAP message says (the three NAS-carrying messages; any
/// other is `Other`).
pub enum NgapView {
    InitialUeMessage { ran_ue_ngap_id: u32, nas_pdu: Seq<u8>, tai: Seq<u8>, nr_cgi: Seq<u8>, rrc_establishment_cause: u8 },
    UplinkNasTransport { amf_ue_ngap_id: u32, ran_ue_ngap_id: u32, nas_pdu: Seq<u8>, tai: Seq<u8>, nr_cgi: Seq<u8> },
    DownlinkNasTransport { amf_ue_ngap_id: u32, ran_ue_ngap_id: u32, nas_pdu: Seq<u8> },
    Other,
}

impl View for NgapMessage {
    type V = NgapView;

    open spec fn view(&self) -> NgapView {
        match self {
            NgapMessage::InitialUeMessage(m) => NgapView::InitialUeMessage {
                ran_ue_ngap_id: m.ran_ue_ngap_id,
                nas_pdu: m.nas_pdu@,
                tai: m.tai@,
                nr_cgi: m.nr_cgi@,
                rrc_establishment_cause: m.rrc_establishment_cause,
            },
            NgapMessage::UplinkNasTransport(m) => NgapView::UplinkNasTransport {
                amf_ue_ngap_id: m.amf_ue_ngap_id,
                ran_ue_ngap_id: m.ran_ue_ngap_id,
                nas_pdu: m.nas_pdu@,
                tai: m.tai@,
                nr_cgi: m.nr_cgi@,
            },
            NgapMessage::DownlinkNasTransport(m) => NgapView::DownlinkNasTransport {
                amf_ue_ngap_id: m.amf_ue_ngap_id,
                ran_ue_ngap_id: m.ran_ue_ngap_id,
                nas_pdu: m.nas_pdu@,
            },
            _ => NgapView::Other,
        }
    }
}

// ── User Location Information ────────────────────────────────────────────────

/// Bits of a User Location Information value: NR-CGI (9) then TAI (6).
pub open spec fn uli_bits(nr_cgi: Seq<u8>, tai: Seq<u8>) -> Seq<bool> {
    octet_bits(nr_cgi) + octet_bits(tai)
}

/// Reading a User Location Information at bit `pos`: `(NR-CGI, TAI)`.
pub open spec fn read_uli_spec(data: Seq<u8>, pos: int) -> Option<(Seq<u8>, Seq<u8>)> {
    let (cgi, p) = read_octets_spec(data, pos, 9);
    let (tai, _) = read_octets_spec(data, p, 6);
    match (cgi, tai) {
        (Some(c), Some(t)) => Some((c, t)),
        _ => None,
    }
}

/// Write a User Location Information: NR-CGI then TAI.
pub fn write_user_location_info(w: &mut PerWriter, nr_cgi: &[u8; 9], tai: &[u8; 6])
    ensures
        final(w)@ == old(w)@ + uli_bits(nr_cgi@, tai@),
{
    w.write_octets(nr_cgi);
    w.write_octets(tai);
    proof {
        assert(w@ =~= old(w)@ + uli_bits(nr_cgi@, tai@));
    }
}

/// Read a User Location Information.
pub fn read_user_location_info(r: &mut PerReader) -> (out: Option<([u8; 9], [u8; 6])>)
    requires
        old(r).wf(),
    ensures
        final(r).wf(),
        final(r).spec_data() == old(r).spec_data(),
        match out {
            Some((c, t)) => read_uli_spec(old(r).spec_data(), old(r).spec_pos()) == Some((c@, t@)),
            None => read_uli_spec(old(r).spec_data(), old(r).spec_pos()) is None,
        },
{
    let cgi_v = match r.read_octets(9) {
        Some(v) => v,
        None => {
            return None;
        },
    };
    let tai_v = match r.read_octets(6) {
        Some(v) => v,
        None => {
            return None;
        },
    };
    proof {
        let (_, p) = read_octets_spec(old(r).spec_data(), old(r).spec_pos(), 9);
        let a = align_up(old(r).spec_pos());
        lemma_align_up(old(r).spec_pos());
        lemma_align_up(p);
    }
    let nr_cgi: [u8; 9] = crate::bytes_util::to_array(cgi_v.as_slice());
    let tai: [u8; 6] = crate::bytes_util::to_array(tai_v.as_slice());
    Some((nr_cgi, tai))
}

/// An IE value holding a User Location Information.
pub open spec fn ie_uli(val: Seq<u8>) -> Option<(Seq<u8>, Seq<u8>)> {
    read_uli_spec(val, 0)
}

fn read_ie_uli(val: &[u8]) -> (out: Option<([u8; 9], [u8; 6])>)
    requires
        val@.len() < 16384,
    ensures
        match out {
            Some((c, t)) => ie_uli(val@) == Some((c@, t@)),
            None => ie_uli(val@) is None,
        },
{
    let mut rd = PerReader::new(val);
    read_user_location_info(&mut rd)
}

pub open spec fn opt_uli_view(o: Option<([u8; 9], [u8; 6])>) -> Option<(Seq<u8>, Seq<u8>)> {
    match o {
        Some((c, t)) => Some((c@, t@)),
        None => None,
    }
}

// ── Decoding: the IEs each message takes ─────────────────────────────────────

/// InitialUEMessage fields: RAN id, NAS PDU, location, RRC cause.
pub type NgInitialFields = (Option<u32>, Option<Seq<u8>>, Option<(Seq<u8>, Seq<u8>)>, Option<u8>);

pub open spec fn ng_initial_step(st: NgInitialFields, e: IeView) -> NgInitialFields {
    if e.0 == ID_RAN_UE_NGAP_ID {
        (opt_u32(ie_uint(e.2, RAN_UE_NGAP_ID_MAX)), st.1, st.2, st.3)
    } else if e.0 == ID_NAS_PDU {
        (st.0, ie_octet_string(e.2), st.2, st.3)
    } else if e.0 == ID_USER_LOCATION_INFO {
        (st.0, st.1, ie_uli(e.2), st.3)
    } else if e.0 == ID_RRC_ESTABLISHMENT_CAUSE {
        (st.0, st.1, st.2, opt_u8(ie_uint(e.2, RRC_ESTABLISHMENT_CAUSE_MAX)))
    } else {
        st
    }
}

pub open spec fn ng_initial_fold(es: Seq<IeView>) -> NgInitialFields
    decreases es.len(),
{
    if es.len() == 0 {
        (None, None, None, None)
    } else {
        ng_initial_step(ng_initial_fold(es.drop_last()), es.last())
    }
}

pub open spec fn ng_initial_result(es: Seq<IeView>) -> Result<NgapView, ProtoErrorKind> {
    match ng_initial_fold(es) {
        (Some(ran), Some(nas), Some((cgi, tai)), Some(rrc)) => Ok(
            NgapView::InitialUeMessage { ran_ue_ngap_id: ran, nas_pdu: nas, tai, nr_cgi: cgi, rrc_establishment_cause: rrc },
        ),
        _ => Err(ProtoErrorKind::MalformedNgap),
    }
}

/// UplinkNASTransport fields: AMF id, RAN id, NAS PDU, location.
pub type NgUplinkFields = (Option<u32>, Option<u32>, Option<Seq<u8>>, Option<(Seq<u8>, Seq<u8>)>);

pub open spec fn ng_uplink_step(st: NgUplinkFields, e: IeView) -> NgUplinkFields {
    if e.0 == ID_AMF_UE_NGAP_ID {
        (opt_u32(ie_uint(e.2, AMF_UE_NGAP_ID_MAX)), st.1, st.2, st.3)
    } else if e.0 == ID_RAN_UE_NGAP_ID {
        (st.0, opt_u32(ie_uint(e.2, RAN_UE_NGAP_ID_MAX)), st.2, st.3)
    } else if e.0 == ID_NAS_PDU {
        (st.0, st.1, ie_octet_string(e.2), st.3)
    } else if e.0 == ID_USER_LOCATION_INFO {
        (st.0, st.1, st.2, ie_uli(e.2))
    } else {
        st
    }
}

pub open spec fn ng_uplink_fold(es: Seq<IeView>) -> NgUplinkFields
    decreases es.len(),
{
    if es.len() == 0 {
        (None, None, None, None)
    } else {
        ng_uplink_step(ng_uplink_fold(es.drop_last()), es.last())
    }
}

pub open spec fn ng_uplink_result(es: Seq<IeView>) -> Result<NgapView, ProtoErrorKind> {
    match ng_uplink_fold(es) {
        (Some(amf), Some(ran), Some(nas), Some((cgi, tai))) => Ok(
            NgapView::UplinkNasTransport { amf_ue_ngap_id: amf, ran_ue_ngap_id: ran, nas_pdu: nas, tai, nr_cgi: cgi },
        ),
        _ => Err(ProtoErrorKind::MalformedNgap),
    }
}

/// DownlinkNASTransport fields: AMF id, RAN id, NAS PDU.
pub type NgDownlinkFields = (Option<u32>, Option<u32>, Option<Seq<u8>>);

pub open spec fn ng_downlink_step(st: NgDownlinkFields, e: IeView) -> NgDownlinkFields {
    if e.0 == ID_AMF_UE_NGAP_ID {
        (opt_u32(ie_uint(e.2, AMF_UE_NGAP_ID_MAX)), st.1, st.2)
    } else if e.0 == ID_RAN_UE_NGAP_ID {
        (st.0, opt_u32(ie_uint(e.2, RAN_UE_NGAP_ID_MAX)), st.2)
    } else if e.0 == ID_NAS_PDU {
        (st.0, st.1, ie_octet_string(e.2))
    } else {
        st
    }
}

pub open spec fn ng_downlink_fold(es: Seq<IeView>) -> NgDownlinkFields
    decreases es.len(),
{
    if es.len() == 0 {
        (None, None, None)
    } else {
        ng_downlink_step(ng_downlink_fold(es.drop_last()), es.last())
    }
}

pub open spec fn ng_downlink_result(es: Seq<IeView>) -> Result<NgapView, ProtoErrorKind> {
    match ng_downlink_fold(es) {
        (Some(amf), Some(ran), Some(nas)) => Ok(
            NgapView::DownlinkNasTransport { amf_ue_ngap_id: amf, ran_ue_ngap_id: ran, nas_pdu: nas },
        ),
        _ => Err(ProtoErrorKind::MalformedNgap),
    }
}

/// What `decode_ngap_pdu` gives for a buffer.
pub open spec fn decode_ngap_spec(buf: Seq<u8>) -> Result<NgapView, ProtoErrorKind> {
    match decode_wrapper_spec(buf) {
        None => Err(ProtoErrorKind::MalformedNgap),
        Some((proc, _, value)) => match read_container_spec(value, 0) {
            None => Err(ProtoErrorKind::MalformedNgap),
            Some((es, _)) => if proc == PROC_INITIAL_UE_MESSAGE {
                ng_initial_result(es)
            } else if proc == PROC_UPLINK_NAS_TRANSPORT {
                ng_uplink_result(es)
            } else if proc == PROC_DOWNLINK_NAS_TRANSPORT {
                ng_downlink_result(es)
            } else {
                Err(ProtoErrorKind::MalformedNgap)
            },
        },
    }
}

pub open spec fn ngap_decoded_as(r: Result<NgapMessage, ProtoError>, expect: Result<NgapView, ProtoErrorKind>) -> bool {
    match r {
        Ok(m) => expect == Ok::<NgapView, ProtoErrorKind>(m@),
        Err(e) => expect == Err::<NgapView, ProtoErrorKind>(e@),
    }
}

pub open spec fn short_values(es: Seq<IeEntry>) -> bool {
    forall|i: int| 0 <= i < es.len() ==> (#[trigger] es[i]).2@.len() < 16384
}

// ── Decoding ─────────────────────────────────────────────────────────────────

/// Decode ALIGNED PER bytes into an NGAP message.
pub fn decode_ngap_pdu(buf: &[u8]) -> (r: Result<NgapMessage, ProtoError>)
    requires
        8 * buf@.len() <= usize::MAX,
    ensures
        ngap_decoded_as(r, decode_ngap_spec(buf@)),
{
    let (proc_code, _crit, value) = match decode_pdu_wrapper(buf) {
        Some(t) => t,
        None => {
            return Err(ProtoError::MalformedNgap { reason: "failed to decode PDU wrapper" });
        },
    };
    let mut vr = PerReader::new(value.as_slice());
    let entries = match read_ie_container(&mut vr) {
        Some(es) => es,
        None => {
            return Err(ProtoError::MalformedNgap { reason: "failed to decode IE container" });
        },
    };
    if proc_code == PROC_INITIAL_UE_MESSAGE {
        decode_initial_ue_message(&entries)
    } else if proc_code == PROC_UPLINK_NAS_TRANSPORT {
        decode_uplink_nas_transport(&entries)
    } else if proc_code == PROC_DOWNLINK_NAS_TRANSPORT {
        decode_downlink_nas_transport(&entries)
    } else {
        Err(ProtoError::MalformedNgap { reason: "unsupported procedure code" })
    }
}

struct NgInitialState {
    ran_ue_ngap_id: Option<u32>,
    nas_pdu: Option<Vec<u8>>,
    location: Option<([u8; 9], [u8; 6])>,
    rrc_cause: Option<u8>,
}

impl NgInitialState {
    spec fn fields(&self) -> NgInitialFields {
        (self.ran_ue_ngap_id, opt_vec_view(self.nas_pdu), opt_uli_view(self.location), self.rrc_cause)
    }
}

fn ng_initial_apply(st: NgInitialState, e: &IeEntry) -> (r: NgInitialState)
    requires
        e.2@.len() < 16384,
    ensures
        r.fields() == ng_initial_step(st.fields(), (e.0, e.1, e.2@)),
{
    let id = e.0;
    let val = e.2.as_slice();
    let mut st = st;
    if id == ID_RAN_UE_NGAP_ID {
        st.ran_ue_ngap_id = match read_ie_uint(val, RAN_UE_NGAP_ID_MAX) {
            Some(v) => Some(v as u32),
            None => None,
        };
    } else if id == ID_NAS_PDU {
        st.nas_pdu = read_ie_octet_string(val);
    } else if id == ID_USER_LOCATION_INFO {
        st.location = read_ie_uli(val);
    } else if id == ID_RRC_ESTABLISHMENT_CAUSE {
        st.rrc_cause = match read_ie_uint(val, RRC_ESTABLISHMENT_CAUSE_MAX) {
            Some(v) => Some(v as u8),
            None => None,
        };
    }
    st
}

fn decode_initial_ue_message(entries: &Vec<IeEntry>) -> (r: Result<NgapMessage, ProtoError>)
    requires
        short_values(entries@),
    ensures
        ngap_decoded_as(r, ng_initial_result(ie_views(entries@))),
{
    let mut st = NgInitialState { ran_ue_ngap_id: None, nas_pdu: None, location: None, rrc_cause: None };
    let n = entries.len();
    let mut i: usize = 0;
    while i < n
        invariant
            n == entries@.len(),
            i <= n,
            short_values(entries@),
            ng_initial_fold(ie_views(entries@).take(i as int)) == st.fields(),
        decreases n - i,
    {
        let e = &entries[i];
        proof {
            assert(entries@[i as int].2@.len() < 16384);
            assert(ie_views(entries@).take(i as int + 1).drop_last() =~= ie_views(entries@).take(i as int));
            assert(ie_views(entries@).take(i as int + 1).last() == (e.0, e.1, e.2@));
        }
        st = ng_initial_apply(st, e);
        i = i + 1;
    }
    proof {
        assert(ie_views(entries@).take(n as int) =~= ie_views(entries@));
    }
    match (st.ran_ue_ngap_id, st.nas_pdu, st.location, st.rrc_cause) {
        (Some(ran_ue_ngap_id), Some(nas_pdu), Some((nr_cgi, tai)), Some(rrc_establishment_cause)) => Ok(
            NgapMessage::InitialUeMessage(NgapInitialUeMessage { ran_ue_ngap_id, nas_pdu, tai, nr_cgi, rrc_establishment_cause }),
        ),
        _ => Err(ProtoError::MalformedNgap { reason: "missing mandatory InitialUEMessage IE" }),
    }
}

struct NgUplinkState {
    amf_ue_ngap_id: Option<u32>,
    ran_ue_ngap_id: Option<u32>,
    nas_pdu: Option<Vec<u8>>,
    location: Option<([u8; 9], [u8; 6])>,
}

impl NgUplinkState {
    spec fn fields(&self) -> NgUplinkFields {
        (self.amf_ue_ngap_id, self.ran_ue_ngap_id, opt_vec_view(self.nas_pdu), opt_uli_view(self.location))
    }
}

fn ng_uplink_apply(st: NgUplinkState, e: &IeEntry) -> (r: NgUplinkState)
    requires
        e.2@.len() < 16384,
    ensures
        r.fields() == ng_uplink_step(st.fields(), (e.0, e.1, e.2@)),
{
    let id = e.0;
    let val = e.2.as_slice();
    let mut st = st;
    if id == ID_AMF_UE_NGAP_ID {
        st.amf_ue_ngap_id = match read_ie_uint(val, AMF_UE_NGAP_ID_MAX) {
            Some(v) => Some(v as u32),
            None => None,
        };
    } else if id == ID_RAN_UE_NGAP_ID {
        st.ran_ue_ngap_id = match read_ie_uint(val, RAN_UE_NGAP_ID_MAX) {
            Some(v) => Some(v as u32),
            None => None,
        };
    } else if id == ID_NAS_PDU {
        st.nas_pdu = read_ie_octet_string(val);
    } else if id == ID_USER_LOCATION_INFO {
        st.location = read_ie_uli(val);
    }
    st
}

fn decode_uplink_nas_transport(entries: &Vec<IeEntry>) -> (r: Result<NgapMessage, ProtoError>)
    requires
        short_values(entries@),
    ensures
        ngap_decoded_as(r, ng_uplink_result(ie_views(entries@))),
{
    let mut st = NgUplinkState { amf_ue_ngap_id: None, ran_ue_ngap_id: None, nas_pdu: None, location: None };
    let n = entries.len();
    let mut i: usize = 0;
    while i < n
        invariant
            n == entries@.len(),
            i <= n,
            short_values(entries@),
            ng_uplink_fold(ie_views(entries@).take(i as int)) == st.fields(),
        decreases n - i,
    {
        let e = &entries[i];
        proof {
            assert(entries@[i as int].2@.len() < 16384);
            assert(ie_views(entries@).take(i as int + 1).drop_last() =~= ie_views(entries@).take(i as int));
            assert(ie_views(entries@).take(i as int + 1).last() == (e.0, e.1, e.2@));
        }
        st = ng_uplink_apply(st, e);
        i = i + 1;
    }
    proof {
        assert(ie_views(entries@).take(n as int) =~= ie_views(entries@));
    }
    match (st.amf_ue_ngap_id, st.ran_ue_ngap_id, st.nas_pdu, st.location) {
        (Some(amf_ue_ngap_id), Some(ran_ue_ngap_id), Some(nas_pdu), Some((nr_cgi, tai))) => Ok(
            NgapMessage::UplinkNasTransport(NgapUplinkNasTransport { amf_ue_ngap_id, ran_ue_ngap_id, nas_pdu, tai, nr_cgi }),
        ),
        _ => Err(ProtoError::MalformedNgap { reason: "missing mandatory UplinkNASTransport IE" }),
    }
}

fn decode_downlink_nas_transport(entries: &Vec<IeEntry>) -> (r: Result<NgapMessage, ProtoError>)
    requires
        short_values(entries@),
    ensures
        ngap_decoded_as(r, ng_downlink_result(ie_views(entries@))),
{
    let mut amf_ue_ngap_id: Option<u32> = None;
    let mut ran_ue_ngap_id: Option<u32> = None;
    let mut nas_pdu: Option<Vec<u8>> = None;
    let n = entries.len();
    let mut i: usize = 0;
    while i < n
        invariant
            n == entries@.len(),
            i <= n,
            short_values(entries@),
            ng_downlink_fold(ie_views(entries@).take(i as int)) == (amf_ue_ngap_id, ran_ue_ngap_id, opt_vec_view(nas_pdu)),
        decreases n - i,
    {
        let e = &entries[i];
        let id = e.0;
        let val = e.2.as_slice();
        proof {
            assert(entries@[i as int].2@.len() < 16384);
            assert(ie_views(entries@).take(i as int + 1).drop_last() =~= ie_views(entries@).take(i as int));
            assert(ie_views(entries@).take(i as int + 1).last() == (e.0, e.1, e.2@));
        }
        if id == ID_AMF_UE_NGAP_ID {
            amf_ue_ngap_id = match read_ie_uint(val, AMF_UE_NGAP_ID_MAX) {
                Some(v) => Some(v as u32),
                None => None,
            };
        } else if id == ID_RAN_UE_NGAP_ID {
            ran_ue_ngap_id = match read_ie_uint(val, RAN_UE_NGAP_ID_MAX) {
                Some(v) => Some(v as u32),
                None => None,
            };
        } else if id == ID_NAS_PDU {
            nas_pdu = read_ie_octet_string(val);
        }
        i = i + 1;
    }
    proof {
        assert(ie_views(entries@).take(n as int) =~= ie_views(entries@));
    }
    match (amf_ue_ngap_id, ran_ue_ngap_id, nas_pdu) {
        (Some(amf_ue_ngap_id), Some(ran_ue_ngap_id), Some(nas_pdu)) => Ok(
            NgapMessage::DownlinkNasTransport(NgapDownlinkNasTransport { amf_ue_ngap_id, ran_ue_ngap_id, nas_pdu }),
        ),
        _ => Err(ProtoError::MalformedNgap { reason: "missing mandatory DownlinkNASTransport IE" }),
    }
}

// ── Encoding ─────────────────────────────────────────────────────────────────

/// The IE value of a User Location Information.
#[verifier::opaque]
pub open spec fn uli_ie(nr_cgi: Seq<u8>, tai: Seq<u8>) -> Seq<u8> {
    pack(uli_bits(nr_cgi, tai))
}

/// An initiating-message PDU for procedure `proc` whose value is the IE
/// container of `es`.
#[verifier::opaque]
pub open spec fn ngap_pdu_bytes(proc: u32, es: Seq<IeView>) -> Seq<u8> {
    pack(wrapper_bits(proc, CRITICALITY_IGNORE, pack(container_bits(0, es))))
}

pub open spec fn ng_initial_entries(ran: u32, nas: Seq<u8>, tai: Seq<u8>, cgi: Seq<u8>, rrc: u8) -> Seq<IeView> {
    seq![
        (ID_RAN_UE_NGAP_ID, CRITICALITY_REJECT, mme_id_ie(ran)),
        (ID_NAS_PDU, CRITICALITY_REJECT, nas_pdu_ie(nas)),
        (ID_USER_LOCATION_INFO, CRITICALITY_IGNORE, uli_ie(cgi, tai)),
        (ID_RRC_ESTABLISHMENT_CAUSE, CRITICALITY_IGNORE, rrc_cause_ie(rrc)),
    ]
}

pub open spec fn ng_uplink_entries(amf: u32, ran: u32, nas: Seq<u8>, tai: Seq<u8>, cgi: Seq<u8>) -> Seq<IeView> {
    seq![
        (ID_AMF_UE_NGAP_ID, CRITICALITY_REJECT, mme_id_ie(amf)),
        (ID_RAN_UE_NGAP_ID, CRITICALITY_REJECT, mme_id_ie(ran)),
        (ID_NAS_PDU, CRITICALITY_REJECT, nas_pdu_ie(nas)),
        (ID_USER_LOCATION_INFO, CRITICALITY_IGNORE, uli_ie(cgi, tai)),
    ]
}

pub open spec fn ng_downlink_entries(amf: u32, ran: u32, nas: Seq<u8>) -> Seq<IeView> {
    seq![
        (ID_AMF_UE_NGAP_ID, CRITICALITY_REJECT, mme_id_ie(amf)),
        (ID_RAN_UE_NGAP_ID, CRITICALITY_REJECT, mme_id_ie(ran)),
        (ID_NAS_PDU, CRITICALITY_REJECT, nas_pdu_ie(nas)),
    ]
}

proof fn lemma_uli_len(nr_cgi: Seq<u8>, tai: Seq<u8>)
    requires
        nr_cgi.len() == 9,
        tai.len() == 6,
    ensures
        uli_ie(nr_cgi, tai).len() == 15,
{
    reveal(uli_ie);
    crate::proto::s1ap::per::lemma_octet_bits(nr_cgi);
    crate::proto::s1ap::per::lemma_octet_bits(tai);
    lemma_align_up(120);
    crate::proto::s1ap::codec::lemma_packed_len(uli_bits(nr_cgi, tai));
}

proof fn lemma_entries_bytes_push(es: Seq<IeView>, e: IeView)
    ensures
        entries_bytes(es.push(e)) == entries_bytes(es) + ie_entry_bytes(e.2.len()),
{
    assert(es.push(e).drop_last() =~= es);
}

fn ie(id: u32, crit: u8, val: Vec<u8>) -> (e: IeEntry)
    ensures
        e.0 == id,
        e.1 == crit,
        e.2@ == val@,
{
    (id, crit, val)
}

fn uli_value(nr_cgi: &[u8; 9], tai: &[u8; 6]) -> (out: Vec<u8>)
    ensures
        out@ == uli_ie(nr_cgi@, tai@),
{
    let mut w = PerWriter::new();
    write_user_location_info(&mut w, nr_cgi, tai);
    proof {
        reveal(uli_ie);
        assert(w@ =~= uli_bits(nr_cgi@, tai@));
    }
    w.into_bytes()
}

/// Encode an NGAP InitialUEMessage. The RRC cause must fit 4 bits and the
/// IE container one octet string (a NAS PDU of at most 16343 bytes).
pub fn encode_initial_ue_message(msg: &NgapInitialUeMessage) -> (out: Vec<u8>)
    requires
        msg.rrc_establishment_cause <= RRC_ESTABLISHMENT_CAUSE_MAX,
        msg.nas_pdu@.len() < 16344,
    ensures
        out@ == ngap_pdu_bytes(
            PROC_INITIAL_UE_MESSAGE,
            ng_initial_entries(msg.ran_ue_ngap_id, msg.nas_pdu@, msg.tai@, msg.nr_cgi@, msg.rrc_establishment_cause),
        ),
{
    let mut entries: Vec<IeEntry> = Vec::new();
    entries.push(ie(ID_RAN_UE_NGAP_ID, CRITICALITY_REJECT, per_constrained(msg.ran_ue_ngap_id as u64, 0, RAN_UE_NGAP_ID_MAX)));
    entries.push(ie(ID_NAS_PDU, CRITICALITY_REJECT, per_octet_string(msg.nas_pdu.as_slice())));
    entries.push(ie(ID_USER_LOCATION_INFO, CRITICALITY_IGNORE, uli_value(&msg.nr_cgi, &msg.tai)));
    entries.push(ie(ID_RRC_ESTABLISHMENT_CAUSE, CRITICALITY_IGNORE, per_constrained(msg.rrc_establishment_cause as u64, 0, RRC_ESTABLISHMENT_CAUSE_MAX)));
    let ghost es = ng_initial_entries(msg.ran_ue_ngap_id, msg.nas_pdu@, msg.tai@, msg.nr_cgi@, msg.rrc_establishment_cause);
    proof {
        reveal(mme_id_ie);
        reveal(nas_pdu_ie);
        reveal(rrc_cause_ie);
        reveal(ngap_pdu_bytes);
        assert(ie_views(entries@) =~= es);
        lemma_ie_value_lens(0, msg.ran_ue_ngap_id, msg.nas_pdu@, seq![], msg.rrc_establishment_cause);
        lemma_uli_len(msg.nr_cgi@, msg.tai@);
        assert forall|i: int| 0 <= i < es.len() implies (#[trigger] es[i]).2.len() < 16384 by {}
        lemma_container_len(es);
        lemma_entries_bytes_push(es.take(0), es[0]);
        assert(es.take(1) =~= es.take(0).push(es[0]));
        lemma_entries_bytes_push(es.take(1), es[1]);
        assert(es.take(2) =~= es.take(1).push(es[1]));
        lemma_entries_bytes_push(es.take(2), es[2]);
        assert(es.take(3) =~= es.take(2).push(es[2]));
        lemma_entries_bytes_push(es.take(3), es[3]);
        assert(es.take(4) =~= es.take(3).push(es[3]));
        assert(es.take(4) =~= es);
        assert(es.take(0) =~= Seq::<IeView>::empty());
    }
    let mut value_w = PerWriter::new();
    write_ie_container(&mut value_w, entries.as_slice());
    proof {
        assert(value_w@ =~= container_bits(0, es));
    }
    let value = value_w.into_bytes();
    encode_pdu_wrapper(PROC_INITIAL_UE_MESSAGE, CRITICALITY_IGNORE, value.as_slice())
}

/// Encode an NGAP UplinkNASTransport (a NAS PDU of at most 16340 bytes).
pub fn encode_uplink_nas_transport(msg: &NgapUplinkNasTransport) -> (out: Vec<u8>)
    requires
        msg.nas_pdu@.len() < 16341,
    ensures
        out@ == ngap_pdu_bytes(
            PROC_UPLINK_NAS_TRANSPORT,
            ng_uplink_entries(msg.amf_ue_ngap_id, msg.ran_ue_ngap_id, msg.nas_pdu@, msg.tai@, msg.nr_cgi@),
        ),
{
    let mut entries: Vec<IeEntry> = Vec::new();
    entries.push(ie(ID_AMF_UE_NGAP_ID, CRITICALITY_REJECT, per_constrained(msg.amf_ue_ngap_id as u64, 0, AMF_UE_NGAP_ID_MAX)));
    entries.push(ie(ID_RAN_UE_NGAP_ID, CRITICALITY_REJECT, per_constrained(msg.ran_ue_ngap_id as u64, 0, RAN_UE_NGAP_ID_MAX)));
    entries.push(ie(ID_NAS_PDU, CRITICALITY_REJECT, per_octet_string(msg.nas_pdu.as_slice())));
    entries.push(ie(ID_USER_LOCATION_INFO, CRITICALITY_IGNORE, uli_value(&msg.nr_cgi, &msg.tai)));
    let ghost es = ng_uplink_entries(msg.amf_ue_ngap_id, msg.ran_ue_ngap_id, msg.nas_pdu@, msg.tai@, msg.nr_cgi@);
    proof {
        reveal(mme_id_ie);
        reveal(nas_pdu_ie);
        reveal(rrc_cause_ie);
        reveal(ngap_pdu_bytes);
        assert(ie_views(entries@) =~= es);
        lemma_ie_value_lens(0, msg.amf_ue_ngap_id, msg.nas_pdu@, seq![], 0);
        lemma_ie_value_lens(0, msg.ran_ue_ngap_id, msg.nas_pdu@, seq![], 0);
        lemma_uli_len(msg.nr_cgi@, msg.tai@);
        assert forall|i: int| 0 <= i < es.len() implies (#[trigger] es[i]).2.len() < 16384 by {}
        lemma_container_len(es);
        lemma_entries_bytes_push(es.take(0), es[0]);
        assert(es.take(1) =~= es.take(0).push(es[0]));
        lemma_entries_bytes_push(es.take(1), es[1]);
        assert(es.take(2) =~= es.take(1).push(es[1]));
        lemma_entries_bytes_push(es.take(2), es[2]);
        assert(es.take(3) =~= es.take(2).push(es[2]));
        lemma_entries_bytes_push(es.take(3), es[3]);
        assert(es.take(4) =~= es.take(3).push(es[3]));
        assert(es.take(4) =~= es);
        assert(es.take(0) =~= Seq::<IeView>::empty());
    }
    let mut value_w = PerWriter::new();
    write_ie_container(&mut value_w, entries.as_slice());
    proof {
        assert(value_w@ =~= container_bits(0, es));
    }
    let value = value_w.into_bytes();
    encode_pdu_wrapper(PROC_UPLINK_NAS_TRANSPORT, CRITICALITY_IGNORE, value.as_slice())
}

/// Encode an NGAP DownlinkNASTransport (a NAS PDU of at most 16359 bytes).
pub fn encode_downlink_nas_transport(msg: &NgapDownlinkNasTransport) -> (out: Vec<u8>)
    requires
        msg.nas_pdu@.len() < 16360,
    ensures
        out@ == ngap_pdu_bytes(
            PROC_DOWNLINK_NAS_TRANSPORT,
            ng_downlink_entries(msg.amf_ue_ngap_id, msg.ran_ue_ngap_id, msg.nas_pdu@),
        ),
{
    let mut entries: Vec<IeEntry> = Vec::new();
    entries.push(ie(ID_AMF_UE_NGAP_ID, CRITICALITY_REJECT, per_constrained(msg.amf_ue_ngap_id as u64, 0, AMF_UE_NGAP_ID_MAX)));
    entries.push(ie(ID_RAN_UE_NGAP_ID, CRITICALITY_REJECT, per_constrained(msg.ran_ue_ngap_id as u64, 0, RAN_UE_NGAP_ID_MAX)));
    entries.push(ie(ID_NAS_PDU, CRITICALITY_REJECT, per_octet_string(msg.nas_pdu.as_slice())));
    let ghost es = ng_downlink_entries(msg.amf_ue_ngap_id, msg.ran_ue_ngap_id, msg.nas_pdu@);
    proof {
        reveal(mme_id_ie);
        reveal(nas_pdu_ie);
        reveal(rrc_cause_ie);
        reveal(ngap_pdu_bytes);
        assert(ie_views(entries@) =~= es);
        lemma_ie_value_lens(0, msg.amf_ue_ngap_id, msg.nas_pdu@, seq![], 0);
        lemma_ie_value_lens(0, msg.ran_ue_ngap_id, msg.nas_pdu@, seq![], 0);
        assert forall|i: int| 0 <= i < es.len() implies (#[trigger] es[i]).2.len() < 16384 by {}
        lemma_container_len(es);
        lemma_entries_bytes_push(es.take(0), es[0]);
        assert(es.take(1) =~= es.take(0).push(es[0]));
        lemma_entries_bytes_push(es.take(1), es[1]);
        assert(es.take(2) =~= es.take(1).push(es[1]));
        lemma_entries_bytes_push(es.take(2), es[2]);
        assert(es.take(3) =~= es.take(2).push(es[2]));
        assert(es.take(3) =~= es);
        assert(es.take(0) =~= Seq::<IeView>::empty());
    }
    let mut value_w = PerWriter::new();
    write_ie_container(&mut value_w, entries.as_slice());
    proof {
        assert(value_w@ =~= container_bits(0, es));
    }
    let value = value_w.into_bytes();
    encode_pdu_wrapper(PROC_DOWNLINK_NAS_TRANSPORT, CRITICALITY_IGNORE, value.as_slice())
}

/// Whether `encode_ngap_pdu` can frame a message.
pub open spec fn ngap_encodable(msg: &NgapMessage) -> bool {
    match msg {
        NgapMessage::InitialUeMessage(m) => m.rrc_establishment_cause <= RRC_ESTABLISHMENT_CAUSE_MAX && m.nas_pdu@.len() < 16344,
        NgapMessage::UplinkNasTransport(m) => m.nas_pdu@.len() < 16341,
        NgapMessage::DownlinkNasTransport(m) => m.nas_pdu@.len() < 16360,
        _ => true,
    }
}

/// Encode an NGAP message; only the three NAS-carrying messages have an
/// encoding, every other message is refused.
pub fn encode_ngap_pdu(msg: &NgapMessage) -> (r: Result<Vec<u8>, ProtoError>)
    requires
        ngap_encodable(msg),
    ensures
        match msg {
            NgapMessage::InitialUeMessage(m) => r matches Ok(b) && b@ == ngap_pdu_bytes(
                PROC_INITIAL_UE_MESSAGE,
                ng_initial_entries(m.ran_ue_ngap_id, m.nas_pdu@, m.tai@, m.nr_cgi@, m.rrc_establishment_cause),
            ),
            NgapMessage::UplinkNasTransport(m) => r matches Ok(b) && b@ == ngap_pdu_bytes(
                PROC_UPLINK_NAS_TRANSPORT,
                ng_uplink_entries(m.amf_ue_ngap_id, m.ran_ue_ngap_id, m.nas_pdu@, m.tai@, m.nr_cgi@),
            ),
            NgapMessage::DownlinkNasTransport(m) => r matches Ok(b) && b@ == ngap_pdu_bytes(
                PROC_DOWNLINK_NAS_TRANSPORT,
                ng_downlink_entries(m.amf_ue_ngap_id, m.ran_ue_ngap_id, m.nas_pdu@),
            ),
            _ => r matches Err(e) && e@ == ProtoErrorKind::MalformedNgap,
        },
{
    match msg {
        NgapMessage::InitialUeMessage(m) => Ok(encode_initial_ue_message(m)),
        NgapMessage::UplinkNasTransport(m) => Ok(encode_uplink_nas_transport(m)),
        NgapMessage::DownlinkNasTransport(m) => Ok(encode_downlink_nas_transport(m)),
        _ => Err(ProtoError::MalformedNgap { reason: "no PER encoding for this NGAP message" }),
    }
}

// ── Round trip ───────────────────────────────────────────────────────────────

/// The bytes `encode_ngap_pdu` writes for each of the three messages it
/// frames (empty for the others, which it refuses).
pub open spec fn ngap_pdu_encoding(msg: NgapMessage) -> Seq<u8> {
    match msg {
        NgapMessage::InitialUeMessage(m) => ngap_pdu_bytes(
            PROC_INITIAL_UE_MESSAGE,
            ng_initial_entries(m.ran_ue_ngap_id, m.nas_pdu@, m.tai@, m.nr_cgi@, m.rrc_establishment_cause),
        ),
        NgapMessage::UplinkNasTransport(m) => ngap_pdu_bytes(
            PROC_UPLINK_NAS_TRANSPORT,
            ng_uplink_entries(m.amf_ue_ngap_id, m.ran_ue_ngap_id, m.nas_pdu@, m.tai@, m.nr_cgi@),
        ),
        NgapMessage::DownlinkNasTransport(m) => ngap_pdu_bytes(
            PROC_DOWNLINK_NAS_TRANSPORT,
            ng_downlink_entries(m.amf_ue_ngap_id, m.ran_ue_ngap_id, m.nas_pdu@),
        ),
        _ => Seq::empty(),
    }
}

/// A User Location Information value reads back as written.
proof fn lemma_uli_reads_back(nr_cgi: Seq<u8>, tai: Seq<u8>)
    requires
        nr_cgi.len() == 9,
        tai.len() == 6,
    ensures
        ie_uli(uli_ie(nr_cgi, tai)) == Some((nr_cgi, tai)),
{
    reveal(uli_ie);
    let b = uli_bits(nr_cgi, tai);
    let data = pack(b);
    crate::proto::s1ap::per::law_into_bytes_carries_bits(b);
    crate::proto::s1ap::per::lemma_octet_bits(nr_cgi);
    let empty = Seq::<bool>::empty();
    let c = octet_bits(nr_cgi);
    assert(empty + c =~= c);
    assert forall|i: int| 0 <= i < c.len() implies crate::proto::s1ap::per::bit_at(data, i) == #[trigger] c[i] by {
        assert(b[i] == c[i]);
    }
    crate::proto::s1ap::per::law_octets_round_trip(data, empty, nr_cgi);
    crate::proto::s1ap::per::law_octets_round_trip(data, c, tai);
}

/// The NGAP framing of a container is the same bytes as the S1AP one.
proof fn lemma_same_framing(proc: u32, es: Seq<IeView>)
    ensures
        ngap_pdu_bytes(proc, es) == s1ap_pdu_bytes(proc, es),
{
    reveal(ngap_pdu_bytes);
    reveal(s1ap_pdu_bytes);
    assert(crate::proto::s1ap::ie_ids::CRITICALITY_IGNORE == CRITICALITY_IGNORE);
}

/// What the decoder does with the PDU of a container: the message the
/// procedure code names, from the container's IEs.
proof fn lemma_decode_ng_pdu_bytes(proc: u32, es: Seq<IeView>)
    requires
        proc <= 255,
        es.len() < 128,
        forall|i: int| 0 <= i < es.len() ==> ie_framable(#[trigger] es[i]),
        1 + entries_bytes(es) < 16384,
    ensures
        decode_ngap_spec(ngap_pdu_bytes(proc, es)) == (if proc == PROC_INITIAL_UE_MESSAGE {
            ng_initial_result(es)
        } else if proc == PROC_UPLINK_NAS_TRANSPORT {
            ng_uplink_result(es)
        } else if proc == PROC_DOWNLINK_NAS_TRANSPORT {
            ng_downlink_result(es)
        } else {
            Err(ProtoErrorKind::MalformedNgap)
        }),
{
    lemma_same_framing(proc, es);
    lemma_pdu_reads_back(proc, es);
}

proof fn lemma_entries_bytes_of_3(es: Seq<IeView>)
    requires
        es.len() == 3,
    ensures
        entries_bytes(es) == ie_entry_bytes(es[0].2.len()) + ie_entry_bytes(es[1].2.len()) + ie_entry_bytes(es[2].2.len()),
{
    lemma_entries_bytes_push(es.take(0), es[0]);
    assert(es.take(1) =~= es.take(0).push(es[0]));
    lemma_entries_bytes_push(es.take(1), es[1]);
    assert(es.take(2) =~= es.take(1).push(es[1]));
    lemma_entries_bytes_push(es.take(2), es[2]);
    assert(es.take(3) =~= es.take(2).push(es[2]));
    assert(es.take(3) =~= es);
    assert(es.take(0) =~= Seq::<IeView>::empty());
}

proof fn lemma_entries_bytes_of_4(es: Seq<IeView>)
    requires
        es.len() == 4,
    ensures
        entries_bytes(es) == ie_entry_bytes(es[0].2.len()) + ie_entry_bytes(es[1].2.len()) + ie_entry_bytes(es[2].2.len())
            + ie_entry_bytes(es[3].2.len()),
{
    lemma_entries_bytes_push(es.take(3), es[3]);
    assert(es.take(4) =~= es.take(3).push(es[3]));
    assert(es.take(4) =~= es);
    lemma_entries_bytes_of_3(es.take(3));
}

proof fn lemma_ng_initial_fold(ran: u32, nas: Seq<u8>, tai: Seq<u8>, cgi: Seq<u8>, rrc: u8)
    requires
        rrc <= RRC_ESTABLISHMENT_CAUSE_MAX,
        nas.len() < 16384,
        tai.len() == 6,
        cgi.len() == 9,
    ensures
        ng_initial_fold(ng_initial_entries(ran, nas, tai, cgi, rrc)) == (Some(ran), Some(nas), Some((cgi, tai)), Some(rrc)),
{
    let es = ng_initial_entries(ran, nas, tai, cgi, rrc);
    lemma_ie_values_read_back(0, ran, nas, seq![], rrc);
    lemma_uli_reads_back(cgi, tai);
    assert(es.take(0) =~= Seq::<IeView>::empty());
    assert(es.take(1).drop_last() =~= es.take(0));
    assert(es.take(2).drop_last() =~= es.take(1));
    assert(es.take(3).drop_last() =~= es.take(2));
    assert(es.take(4).drop_last() =~= es.take(3));
    assert(es.take(4) =~= es);
    assert(es.take(1).last() == (ID_RAN_UE_NGAP_ID, CRITICALITY_REJECT, mme_id_ie(ran)));
    assert(ng_initial_fold(es.take(0)) == (None::<u32>, None::<Seq<u8>>, None::<(Seq<u8>, Seq<u8>)>, None::<u8>));
    assert(ng_initial_fold(es.take(1)) == (Some(ran), None::<Seq<u8>>, None::<(Seq<u8>, Seq<u8>)>, None::<u8>));
    assert(ng_initial_fold(es.take(2)) == (Some(ran), Some(nas), None::<(Seq<u8>, Seq<u8>)>, None::<u8>));
    assert(ng_initial_fold(es.take(3)) == (Some(ran), Some(nas), Some((cgi, tai)), None::<u8>));
}

proof fn lemma_ng_initial_round_trip(m: NgapInitialUeMessage)
    requires
        m.rrc_establishment_cause <= RRC_ESTABLISHMENT_CAUSE_MAX,
        m.nas_pdu@.len() < 16344,
    ensures
        decode_ngap_spec(ngap_pdu_encoding(NgapMessage::InitialUeMessage(m))) == Ok::<NgapView, ProtoErrorKind>(
            NgapMessage::InitialUeMessage(m)@,
        ),
{
    let es = ng_initial_entries(m.ran_ue_ngap_id, m.nas_pdu@, m.tai@, m.nr_cgi@, m.rrc_establishment_cause);
    assert(decode_ngap_spec(ngap_pdu_bytes(PROC_INITIAL_UE_MESSAGE, es)) == ng_initial_result(es)) by {
        lemma_ie_value_lens(0, m.ran_ue_ngap_id, m.nas_pdu@, seq![], m.rrc_establishment_cause);
        lemma_uli_len(m.nr_cgi@, m.tai@);
        lemma_entries_bytes_of_4(es);
        assert forall|i: int| 0 <= i < es.len() implies ie_framable(#[trigger] es[i]) by {}
        lemma_decode_ng_pdu_bytes(PROC_INITIAL_UE_MESSAGE, es);
    }
    lemma_ng_initial_fold(m.ran_ue_ngap_id, m.nas_pdu@, m.tai@, m.nr_cgi@, m.rrc_establishment_cause);
}

proof fn lemma_ng_uplink_fold(amf: u32, ran: u32, nas: Seq<u8>, tai: Seq<u8>, cgi: Seq<u8>)
    requires
        nas.len() < 16384,
        tai.len() == 6,
        cgi.len() == 9,
    ensures
        ng_uplink_fold(ng_uplink_entries(amf, ran, nas, tai, cgi)) == (Some(amf), Some(ran), Some(nas), Some((cgi, tai))),
{
    let es = ng_uplink_entries(amf, ran, nas, tai, cgi);
    lemma_ie_values_read_back(0, amf, nas, seq![], 0);
    lemma_ie_values_read_back(0, ran, nas, seq![], 0);
    lemma_uli_reads_back(cgi, tai);
    assert(es.take(0) =~= Seq::<IeView>::empty());
    assert(es.take(1).drop_last() =~= es.take(0));
    assert(es.take(2).drop_last() =~= es.take(1));
    assert(es.take(3).drop_last() =~= es.take(2));
    assert(es.take(4).drop_last() =~= es.take(3));
    assert(es.take(4) =~= es);
    assert(es.take(1).last() == (ID_AMF_UE_NGAP_ID, CRITICALITY_REJECT, mme_id_ie(amf)));
    assert(ng_uplink_fold(es.take(0)) == (None::<u32>, None::<u32>, None::<Seq<u8>>, None::<(Seq<u8>, Seq<u8>)>));
    assert(ng_uplink_fold(es.take(1)) == (Some(amf), None::<u32>, None::<Seq<u8>>, None::<(Seq<u8>, Seq<u8>)>));
    assert(ng_uplink_fold(es.take(2)) == (Some(amf), Some(ran), None::<Seq<u8>>, None::<(Seq<u8>, Seq<u8>)>));
    assert(ng_uplink_fold(es.take(3)) == (Some(amf), Some(ran), Some(nas), None::<(Seq<u8>, Seq<u8>)>));
}

proof fn lemma_ng_uplink_round_trip(m: NgapUplinkNasTransport)
    requires
        m.nas_pdu@.len() < 16341,
    ensures
        decode_ngap_spec(ngap_pdu_encoding(NgapMessage::UplinkNasTransport(m))) == Ok::<NgapView, ProtoErrorKind>(
            NgapMessage::UplinkNasTransport(m)@,
        ),
{
    let es = ng_uplink_entries(m.amf_ue_ngap_id, m.ran_ue_ngap_id, m.nas_pdu@, m.tai@, m.nr_cgi@);
    assert(decode_ngap_spec(ngap_pdu_bytes(PROC_UPLINK_NAS_TRANSPORT, es)) == ng_uplink_result(es)) by {
        lemma_ie_value_lens(0, m.amf_ue_ngap_id, m.nas_pdu@, seq![], 0);
        lemma_ie_value_lens(0, m.ran_ue_ngap_id, m.nas_pdu@, seq![], 0);
        lemma_uli_len(m.nr_cgi@, m.tai@);
        lemma_entries_bytes_of_4(es);
        assert forall|i: int| 0 <= i < es.len() implies ie_framable(#[trigger] es[i]) by {}
        lemma_decode_ng_pdu_bytes(PROC_UPLINK_NAS_TRANSPORT, es);
    }
    lemma_ng_uplink_fold(m.amf_ue_ngap_id, m.ran_ue_ngap_id, m.nas_pdu@, m.tai@, m.nr_cgi@);
}

proof fn lemma_ng_downlink_fold(amf: u32, ran: u32, nas: Seq<u8>)
    requires
        nas.len() < 16384,
    ensures
        ng_downlink_fold(ng_downlink_entries(amf, ran, nas)) == (Some(amf), Some(ran), Some(nas)),
{
    let es = ng_downlink_entries(amf, ran, nas);
    lemma_ie_values_read_back(0, amf, nas, seq![], 0);
    lemma_ie_values_read_back(0, ran, nas, seq![], 0);
    assert(es.take(0) =~= Seq::<IeView>::empty());
    assert(es.take(1).drop_last() =~= es.take(0));
    assert(es.take(2).drop_last() =~= es.take(1));
    assert(es.take(3).drop_last() =~= es.take(2));
    assert(es.take(3) =~= es);
    assert(es.take(1).last() == (ID_AMF_UE_NGAP_ID, CRITICALITY_REJECT, mme_id_ie(amf)));
    assert(ng_downlink_fold(es.take(0)) == (None::<u32>, None::<u32>, None::<Seq<u8>>));
    assert(ng_downlink_fold(es.take(1)) == (Some(amf), None::<u32>, None::<Seq<u8>>));
    assert(ng_downlink_fold(es.take(2)) == (Some(amf), Some(ran), None::<Seq<u8>>));
}

proof fn lemma_ng_downlink_round_trip(m: NgapDownlinkNasTransport)
    requires
        m.nas_pdu@.len() < 16360,
    ensures
        decode_ngap_spec(ngap_pdu_encoding(NgapMessage::DownlinkNasTransport(m))) == Ok::<NgapView, ProtoErrorKind>(
            NgapMessage::DownlinkNasTransport(m)@,
        ),
{
    let es = ng_downlink_entries(m.amf_ue_ngap_id, m.ran_ue_ngap_id, m.nas_pdu@);
    assert(decode_ngap_spec(ngap_pdu_bytes(PROC_DOWNLINK_NAS_TRANSPORT, es)) == ng_downlink_result(es)) by {
        lemma_ie_value_lens(0, m.amf_ue_ngap_id, m.nas_pdu@, seq![], 0);
        lemma_ie_value_lens(0, m.ran_ue_ngap_id, m.nas_pdu@, seq![], 0);
        lemma_entries_bytes_of_3(es);
        assert forall|i: int| 0 <= i < es.len() implies ie_framable(#[trigger] es[i]) by {}
        lemma_decode_ng_pdu_bytes(PROC_DOWNLINK_NAS_TRANSPORT, es);
    }
    lemma_ng_downlink_fold(m.amf_ue_ngap_id, m.ran_ue_ngap_id, m.nas_pdu@);
}

/// Decoding what `encode_ngap_pdu` writes gives the message back, for each
/// of the three messages it frames.
pub proof fn law_ngap_round_trip(msg: NgapMessage)
    requires
        ngap_encodable(&msg),
        !(msg@ is Other),
    ensures
        decode_ngap_spec(ngap_pdu_encoding(msg)) == Ok::<NgapView, ProtoErrorKind>(msg@),
{
    match msg {
        NgapMessage::InitialUeMessage(m) => lemma_ng_initial_round_trip(m),
        NgapMessage::UplinkNasTransport(m) => lemma_ng_uplink_round_trip(m),
        NgapMessage::DownlinkNasTransport(m) => lemma_ng_downlink_round_trip(m),
        _ => {},
    }
}


/// An IE whose id a InitialUEMessage does not read changes nothing, wherever it
/// stands among the others.
pub proof fn law_ng_initial_ignores_unknown_ies(es: Seq<IeView>, i: int, e: IeView)
    requires
        0 <= i <= es.len(),
        e.0 != ID_RAN_UE_NGAP_ID,
        e.0 != ID_NAS_PDU,
        e.0 != ID_USER_LOCATION_INFO,
        e.0 != ID_RRC_ESTABLISHMENT_CAUSE,
    ensures
        ng_initial_fold(es.insert(i, e)) == ng_initial_fold(es),
    decreases es.len(),
{
    let s2 = es.insert(i, e);
    if i == es.len() {
        assert(s2.drop_last() =~= es);
        assert(s2.last() == e);
        assert(ng_initial_step(ng_initial_fold(es), e) == ng_initial_fold(es));
    } else {
        assert(s2.drop_last() =~= es.drop_last().insert(i, e));
        assert(s2.last() == es.last());
        law_ng_initial_ignores_unknown_ies(es.drop_last(), i, e);
    }
}


/// An IE whose id a UplinkNASTransport does not read changes nothing, wherever it
/// stands among the others.
pub proof fn law_ng_uplink_ignores_unknown_ies(es: Seq<IeView>, i: int, e: IeView)
    requires
        0 <= i <= es.len(),
        e.0 != ID_AMF_UE_NGAP_ID,
        e.0 != ID_RAN_UE_NGAP_ID,
        e.0 != ID_NAS_PDU,
        e.0 != ID_USER_LOCATION_INFO,
    ensures
        ng_uplink_fold(es.insert(i, e)) == ng_uplink_fold(es),
    decreases es.len(),
{
    let s2 = es.insert(i, e);
    if i == es.len() {
        assert(s2.drop_last() =~= es);
        assert(s2.last() == e);
        assert(ng_uplink_step(ng_uplink_fold(es), e) == ng_uplink_fold(es));
    } else {
        assert(s2.drop_last() =~= es.drop_last().insert(i, e));
        assert(s2.last() == es.last());
        law_ng_uplink_ignores_unknown_ies(es.drop_last(), i, e);
    }
}


/// An IE whose id a DownlinkNASTransport does not read changes nothing, wherever it
/// stands among the others.
pub proof fn law_ng_downlink_ignores_unknown_ies(es: Seq<IeView>, i: int, e: IeView)
    requires
        0 <= i <= es.len(),
        e.0 != ID_AMF_UE_NGAP_ID,
        e.0 != ID_RAN_UE_NGAP_ID,
        e.0 != ID_NAS_PDU,
    ensures
        ng_downlink_fold(es.insert(i, e)) == ng_downlink_fold(es),
    decreases es.len(),
{
    let s2 = es.insert(i, e);
    if i == es.len() {
        assert(s2.drop_last() =~= es);
        assert(s2.last() == e);
        assert(ng_downlink_step(ng_downlink_fold(es), e) == ng_downlink_fold(es));
    } else {
        assert(s2.drop_last() =~= es.drop_last().insert(i, e));
        assert(s2.last() == es.last());
        law_ng_downlink_ignores_unknown_ies(es.drop_last(), i, e);
    }
}

/// Decoding an NGAP PDU does not depend on IEs that none of the three
/// messages reads: adding one anywhere in the container gives the same
/// message, or the same error.
pub proof fn law_ngap_decode_ignores_unknown_ies(proc: u32, es: Seq<IeView>, i: int, e: IeView)
    requires
        proc <= 255,
        0 <= i <= es.len(),
        es.len() + 1 < 128,
        forall|j: int| 0 <= j < es.len() ==> ie_framable(#[trigger] es[j]),
        ie_framable(e),
        1 + entries_bytes(es) < 16384,
        1 + entries_bytes(es.insert(i, e)) < 16384,
        e.0 != ID_RAN_UE_NGAP_ID,
        e.0 != ID_NAS_PDU,
        e.0 != ID_USER_LOCATION_INFO,
        e.0 != ID_RRC_ESTABLISHMENT_CAUSE,
        e.0 != ID_AMF_UE_NGAP_ID,
    ensures
        decode_ngap_spec(ngap_pdu_bytes(proc, es.insert(i, e))) == decode_ngap_spec(ngap_pdu_bytes(proc, es)),
{
    let s2 = es.insert(i, e);
    assert forall|j: int| 0 <= j < s2.len() implies ie_framable(#[trigger] s2[j]) by {
        if j < i {
            assert(s2[j] == es[j]);
        } else if j > i {
            assert(s2[j] == es[j - 1]);
        }
    }
    lemma_decode_ng_pdu_bytes(proc, s2);
    lemma_decode_ng_pdu_bytes(proc, es);
    law_ng_initial_ignores_unknown_ies(es, i, e);
    law_ng_uplink_ignores_unknown_ies(es, i, e);
    law_ng_downlink_ignores_unknown_ies(es, i, e);
}

} // verus!
