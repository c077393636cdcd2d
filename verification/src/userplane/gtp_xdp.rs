//! Uplink fast path: an eight-step decision per Ethernet frame.
//!
//! 1. EtherType 0x0800 (IPv4)?                      no   → pass
//! 2. IPv4 protocol 17 (UDP), header at least 20?   no   → pass
//! 3. UDP destination port 2152 (GTP-U)?            no   → pass
//! 4. Parse the mandatory GTP-U header (8 bytes).
//! 5. Message type 0xFF (G-PDU)?                    no   → pass
//! 6. Is the TEID a known session?                  no   → pass
//! 7. Strip the outer Ethernet / IP / UDP / GTP-U headers (and the 4
//!    optional GTP-U bytes when E, S or PN is set), keeping 14 bytes in
//!    front of the inner packet for a new Ethernet header;
//! 8. write it from the PDN gateway configuration and transmit (`XDP_TX`).
//!
//! A frame that ends before a field the steps read is a parse fault
//! (`Err`), which the entry point turns into a pass.

use std::collections::HashMap;

use vstd::prelude::*;

use crate::proto::wire::{be16, be32, read_be16, read_be32};
use crate::userplane::maps::{PdnGwConfig, VerdictView, XdpRouteEntry, XdpVerdict};

verus! {

broadcast use vstd::std_specs::hash::group_hash_axioms;

pub const ETH_P_IP: u16 = 0x0800;
pub const IPPROTO_UDP: u8 = 17;
pub const GTP_PORT: u16 = 2152;
pub const GTP_MSG_GPDU: u8 = 0xFF;
pub const ETH_HDR_LEN: usize = 14;
pub const IPV4_MIN_HDR_LEN: usize = 20;
pub const UDP_HDR_LEN: usize = 8;
pub const GTP_MANDATORY_LEN: usize = 8;
/// GTP-U flag bits E, S and PN: when any is set, 4 optional bytes follow
/// the mandatory header.
pub const GTP_OPT_FLAGS_MASK: u8 = 0x07;

/// The new Ethernet header toward the PDN gateway.
pub open spec fn pdn_eth_header(cfg: PdnGwConfig) -> Seq<u8> {
    cfg.gw_mac@ + cfg.nic_mac@ + seq![0x08u8, 0x00u8]
}

/// Length of the outer headers of a GTP-U frame whose IPv4 header is `ihl`
/// bytes and whose GTP-U flags are `flags`.
pub open spec fn ul_outer_len(ihl: int, flags: u8) -> int {
    14 + ihl + 8 + 8 + if flags & 0x07 != 0 {
        4int
    } else {
        0int
    }
}

/// What the uplink fast path does with `frame`, given the sessions it
/// serves and the PDN gateway configuration (`None` until set).
pub open spec fn ul_verdict(frame: Seq<u8>, routes: Map<u32, XdpRouteEntry>, gw: Option<PdnGwConfig>) -> Result<VerdictView, ()> {
    if frame.len() < 14 {
        Err(())
    } else if be16(frame[12], frame[13]) != ETH_P_IP {
        Ok(VerdictView::Pass)
    } else if frame.len() < 15 {
        Err(())
    } else {
        let ihl = (frame[14] & 0x0F) as int * 4;
        if ihl < 20 {
            Ok(VerdictView::Pass)
        } else if frame.len() < 24 {
            Err(())
        } else if frame[23] != IPPROTO_UDP {
            Ok(VerdictView::Pass)
        } else {
            let udp = 14 + ihl;
            if frame.len() < udp + 4 {
                Err(())
            } else if be16(frame[udp + 2], frame[udp + 3]) != GTP_PORT {
                Ok(VerdictView::Pass)
            } else {
                let gtp = udp + 8;
                if frame.len() < gtp + 8 {
                    Err(())
                } else if frame[gtp + 1] != GTP_MSG_GPDU {
                    Ok(VerdictView::Pass)
                } else if !routes.contains_key(be32(frame[gtp + 4], frame[gtp + 5], frame[gtp + 6], frame[gtp + 7])) {
                    Ok(VerdictView::Pass)
                } else {
                    match gw {
                        None => Ok(VerdictView::Pass),
                        Some(cfg) => {
                            let outer = ul_outer_len(ihl, frame[gtp]);
                            if frame.len() < outer {
                                Ok(VerdictView::Pass)
                            } else {
                                Ok(VerdictView::Tx(pdn_eth_header(cfg) + frame.skip(outer)))
                            }
                        },
                    }
                }
            }
        }
    }
}

/// Process one frame arriving on the eNodeB-facing interface.
pub fn process(frame: &[u8], teid_to_route: &HashMap<u32, XdpRouteEntry>, pdn_gw_config: Option<PdnGwConfig>) -> (r: Result<
    XdpVerdict,
    (),
>)
    ensures
        match r {
            Ok(v) => ul_verdict(frame@, teid_to_route@, pdn_gw_config) == Ok::<VerdictView, ()>(v@),
            Err(_) => ul_verdict(frame@, teid_to_route@, pdn_gw_config) is Err,
        },
{
    let len = frame.len();
    // Step 1: IPv4.
    if len < 14 {
        return Err(());
    }
    let ether_type = read_be16(frame[12], frame[13]);
    if ether_type != ETH_P_IP {
        return Ok(XdpVerdict::Pass);
    }
    // Step 2: UDP, and the header length.
    if len < 15 {
        return Err(());
    }
    let ihl: usize = ((frame[14] & 0x0F) as usize) * 4;
    if ihl < IPV4_MIN_HDR_LEN {
        return Ok(XdpVerdict::Pass);
    }
    if len < 24 {
        return Err(());
    }
    if frame[23] != IPPROTO_UDP {
        return Ok(XdpVerdict::Pass);
    }
    // Step 3: GTP-U port.
    let udp = ETH_HDR_LEN + ihl;
    if len < udp + 4 {
        return Err(());
    }
    let dst_port = read_be16(frame[udp + 2], frame[udp + 3]);
    if dst_port != GTP_PORT {
        return Ok(XdpVerdict::Pass);
    }
    // Step 4: the mandatory GTP-U header.
    let gtp = udp + UDP_HDR_LEN;
    if len < gtp + 8 {
        return Err(());
    }
    let gtp_flags = frame[gtp];
    let msg_type = frame[gtp + 1];
    let teid = read_be32(frame[gtp + 4], frame[gtp + 5], frame[gtp + 6], frame[gtp + 7]);
    // Step 5: G-PDU only; echo and the other control messages go to userspace.
    if msg_type != GTP_MSG_GPDU {
        return Ok(XdpVerdict::Pass);
    }
    // Step 6: a known session.
    if !teid_to_route.contains_key(&teid) {
        return Ok(XdpVerdict::Pass);
    }
    // Steps 7-8: strip the tunnel, write the new Ethernet header, transmit.
    let cfg = match pdn_gw_config {
        Some(c) => c,
        None => {
            return Ok(XdpVerdict::Pass);
        },
    };
    let gtp_total: usize = if gtp_flags & GTP_OPT_FLAGS_MASK != 0 {
        GTP_MANDATORY_LEN + 4
    } else {
        GTP_MANDATORY_LEN
    };
    let outer_len = gtp + gtp_total;
    if len < outer_len {
        return Ok(XdpVerdict::Pass);
    }
    let mut out: Vec<u8> = Vec::new();
    crate::bytes_util::append_bytes(&mut out, &cfg.gw_mac);
    crate::bytes_util::append_bytes(&mut out, &cfg.nic_mac);
    out.push(0x08);
    out.push(0x00);
    let inner = crate::bytes_util::tail(frame, outer_len);
    crate::bytes_util::append_bytes(&mut out, inner);
    proof {
        assert(out@ =~= pdn_eth_header(cfg) + frame@.skip(outer_len as int));
    }
    Ok(XdpVerdict::Tx(out))
}

/// The uplink program: `process`, with a parse fault passed to the kernel.
pub fn midn_gtp_xdp(frame: &[u8], teid_to_route: &HashMap<u32, XdpRouteEntry>, pdn_gw_config: Option<PdnGwConfig>) -> (v: XdpVerdict)
    ensures
        v@ == (match ul_verdict(frame@, teid_to_route@, pdn_gw_config) {
            Ok(v) => v,
            Err(_) => VerdictView::Pass,
        }),
{
    match process(frame, teid_to_route, pdn_gw_config) {
        Ok(v) => v,
        Err(_) => XdpVerdict::Pass,
    }
}

/// An uplink transmit: the frame was a GTP-U G-PDU (IPv4, UDP to port
/// 2152) for a known session, and what goes out is a new Ethernet header
/// from the UPF's NIC to the PDN gateway's MAC, then the inner packet
/// unchanged, found after the outer IPv4 header (IHL words), UDP (8) and
/// GTP-U (8, or 12 when E, S or PN is set).
pub proof fn law_ul_transmit_layout(frame: Seq<u8>, routes: Map<u32, XdpRouteEntry>, gw: Option<PdnGwConfig>)
    ensures
        ul_verdict(frame, routes, gw) matches Ok(VerdictView::Tx(out)) ==> {
            let c = gw->0;
            let ihl = (frame[14] & 0x0F) as int * 4;
            let gtp = 14 + ihl + 8;
            let inner = gtp + 8 + if frame[gtp] & 0x07 != 0 { 4int } else { 0int };
            &&& gw is Some
            &&& be16(frame[12], frame[13]) == 0x0800
            &&& ihl >= 20
            &&& frame[23] == 17
            &&& be16(frame[14 + ihl + 2], frame[14 + ihl + 3]) == 2152
            &&& frame[gtp + 1] == 0xFF
            &&& routes.contains_key(be32(frame[gtp + 4], frame[gtp + 5], frame[gtp + 6], frame[gtp + 7]))
            &&& inner <= frame.len()
            &&& out.len() == 14 + frame.len() - inner
            &&& out.subrange(0, 6) == c.gw_mac@
            &&& out.subrange(6, 12) == c.nic_mac@
            &&& out[12] == 0x08u8 && out[13] == 0x00u8
            &&& out.skip(14) == frame.skip(inner)
        },
{
    match ul_verdict(frame, routes, gw) {
        Ok(VerdictView::Tx(out)) => {
            let c = gw->0;
            let h = pdn_eth_header(c);
            let ihl = (frame[14] & 0x0F) as int * 4;
            let outer = ul_outer_len(ihl, frame[14 + ihl + 8]);
            assert(out == h + frame.skip(outer));
            assert(out.subrange(0, 6) =~= c.gw_mac@);
            assert(out.subrange(6, 12) =~= c.nic_mac@);
            assert(out.skip(14) =~= frame.skip(outer));
        },
        _ => {},
    }
}

} // verus!
