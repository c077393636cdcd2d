//! UE-initiated detach (TS 23.401 §5.3.8.2, TS 24.301 §5.5.2.2).
//!
//! ```text
//! UE → MME      : NAS Detach Request      (in an UplinkNASTransport)
//! MME → UE      : NAS Detach Accept       (not after a switch-off; protected
//!                                          once NAS security is active)
//! MME → eNodeB  : S1AP UEContextReleaseCommand (cause NAS detach)
//! eNodeB → MME  : S1AP UEContextReleaseComplete
//! ```
//!
//! This module only drives the trigger. The teardown itself — despawn,
//! IMSI deregistration, TEID release, `UpfEvent::RemoveSession` — happens on
//! `UEContextReleaseComplete`, the path network-initiated release takes too.

use vstd::prelude::*;

use crate::mme::attach::{is_downlink, protected_with};
use crate::mme::state_machine::{AttachContext, World, WorldView};
use crate::proto::nas::codec::{
    decode_nas, decode_nas_spec, encode_detach_accept, encode_protected, plain_header, NasPdu, NasView,
    MT_DETACH_ACCEPT,
};
use crate::proto::nas::security::{NasSecurityContext, NAS_BEARER, SHT_INTEGRITY_CIPHERED};
use crate::proto::s1ap::messages::{DownlinkNasTransport, S1apCause, S1apMessage};

verus! {

/// The switch-off flag of a Detach Request, `None` for any other PDU.
pub open spec fn detach_switch_off(nas: Seq<u8>) -> Option<bool> {
    match decode_nas_spec(nas) {
        Ok(NasView::DetachRequest { switch_off, .. }) => Some(switch_off),
        _ => None,
    }
}

/// `m` asks the eNodeB to release the UE context because of a NAS detach.
pub open spec fn is_detach_release_command(m: S1apMessage) -> bool {
    m matches S1apMessage::UeContextReleaseCommand { cause: S1apCause::NasDetach }
}

/// What a Detach Request leads to. Nothing for another PDU or an entity
/// without an attach context; after a switch-off only the release command;
/// otherwise the Detach Accept (protected under the UE's NAS security
/// context, whose downlink COUNT then advances, or plain when there is none)
/// and then the release command.
pub open spec fn detach_outcome(
    old_w: WorldView,
    new_w: WorldView,
    enb: u32,
    mme: u32,
    nas: Seq<u8>,
    out: Seq<S1apMessage>,
) -> bool {
    if detach_switch_off(nas) is None || !old_w.contexts.contains_key(mme) {
        new_w == old_w && out.len() == 0
    } else if detach_switch_off(nas) == Some(true) {
        new_w == old_w && out.len() == 1 && is_detach_release_command(out[0])
    } else {
        let ctx = old_w.contexts[mme];
        let accept = plain_header(MT_DETACH_ACCEPT);
        &&& out.len() == 2
        &&& is_detach_release_command(out[1])
        &&& match ctx.nas_security {
            None => new_w == old_w && is_downlink(out[0], enb, mme, accept),
            Some(sec) => exists|after: NasSecurityContext, env: Seq<u8>|
                #[trigger] protected_with(sec, after, accept, env) && is_downlink(out[0], enb, mme, env) && new_w
                    == (WorldView {
                    contexts: old_w.contexts.insert(mme, AttachContext { nas_security: Some(after), ..ctx }),
                    ..old_w
                }),
        }
    }
}

/// Handle an UplinkNASTransport whose NAS PDU is a Detach Request; returns
/// the S1AP messages to send. It never raises a `UpfEvent`: sessions are torn
/// down only once the eNodeB confirms the release.
pub fn handle_detach_request(
    world: &mut World,
    enb_ue_s1ap_id: u32,
    mme_ue_s1ap_id: u32,
    nas_pdu: &[u8],
) -> (out: Vec<S1apMessage>)
    ensures
        detach_outcome(old(world)@, final(world)@, enb_ue_s1ap_id, mme_ue_s1ap_id, nas_pdu@, out@),
{
    let switch_off = match decode_nas(nas_pdu) {
        Ok(NasPdu::DetachRequest(d)) => d.switch_off,
        _ => {
            return Vec::new();
        },
    };
    let ctx = match world.get_attach_context(mme_ue_s1ap_id) {
        Some(c) => c,
        None => {
            return Vec::new();
        },
    };
    assert(detach_switch_off(nas_pdu@) == Some(switch_off));
    let mut out: Vec<S1apMessage> = Vec::new();
    if !switch_off {
        let plain = encode_detach_accept();
        let pdu = match ctx.nas_security {
            Some(sec) => {
                let ghost before = sec;
                let mut sec = sec;
                let env = encode_protected(&mut sec, SHT_INTEGRITY_CIPHERED, NAS_BEARER, plain.as_slice());
                world.insert_attach_context(mme_ue_s1ap_id, AttachContext { nas_security: Some(sec), ..ctx });
                assert(protected_with(before, sec, plain_header(MT_DETACH_ACCEPT), env@));
                env
            },
            None => plain,
        };
        out.push(S1apMessage::DownlinkNasTransport(DownlinkNasTransport { enb_ue_s1ap_id, mme_ue_s1ap_id, nas_pdu: pdu }));
    }
    out.push(S1apMessage::UeContextReleaseCommand { cause: S1apCause::NasDetach });
    out
}

} // verus!
