//! Downlink fast path, on the PDN-facing interface: plain IPv4 packets
//! for a known UE are wrapped in a GTP-U tunnel toward its eNodeB.
//!
//! 1. EtherType 0x0800 (IPv4)?                            no   → pass
//! 2. Read the IPv4 destination (offset 16 of the IP header, whatever
//!    its length).
//! 3. Is it a known UE?                                   no   → pass
//! 4. Is the route a placeholder (`dl_teid == 0`: the bearer is not
//!    confirmed, the eNodeB address not known yet)?       yes  → pass
//! 5. Is the downlink tunnel configured?                  no   → pass
//! 6. Grow the frame by 36 bytes in front, so that with the old Ethernet
//!    header's 14 bytes there are 50 to write;
//! 7. write Ethernet (14), IPv4 (20, with its RFC 1071 checksum), UDP (8,
//!    checksum 0) and GTP-U (8) headers in front of the unmoved inner
//!    packet;
//! 8. redirect the frame to the eNodeB-facing interface.
//!
//! There is no L4 filter: the UE's own traffic is whatever its peer sent;
//! the route lookup is the filter. An inner packet so large that the outer
//! length fields would overflow goes to the kernel too.

use std::collections::HashMap;

use vstd::prelude::*;

use crate::proto::wire::{be16, be32, read_be16, read_be32, u16_be, u16_to_be, u32_be, u32_to_be};
use crate::userplane::maps::{DlTunnelConfig, VerdictView, XdpRouteEntry, XdpVerdict};

verus! {

broadcast use vstd::std_specs::hash::group_hash_axioms;

/// GTP-U flags: version 1, protocol type GTP, no optional fields.
pub const GTP_FLAGS_STANDARD: u8 = 0x30;
/// Ethernet + IPv4 + UDP + GTP-U headers written per downlink packet.
pub const NEW_HDRS_LEN: usize = 50;
/// Offset of the destination address in an IPv4 header.
pub const IP_DST_OFF: usize = 16;

// ── IPv4 header checksum ─────────────────────────────────────────────────────

/// Sum of the ten big-endian 16-bit words of a 20-byte header.
pub open spec fn header_word_sum(h: Seq<u8>) -> int {
    be16(h[0], h[1]) + be16(h[2], h[3]) + be16(h[4], h[5]) + be16(h[6], h[7]) + be16(h[8], h[9]) + be16(h[10], h[11])
        + be16(h[12], h[13]) + be16(h[14], h[15]) + be16(h[16], h[17]) + be16(h[18], h[19])
}

/// One end-around carry: the low 16 bits plus the carry above them.
pub open spec fn fold_carry(s: int) -> int {
    s % 0x10000 + s / 0x10000
}

/// The RFC 1071 checksum of a 20-byte header: the one's complement of its
/// words' one's-complement sum.
pub open spec fn ip_checksum_of(h: Seq<u8>) -> u16 {
    (0xFFFF - fold_carry(fold_carry(header_word_sum(h)))) as u16
}

proof fn lemma_fold_bits(s: u32)
    ensures
        s & 0xFFFF == s % 0x10000,
        s >> 16u32 == s / 0x10000,
{
    assert(s & 0xFFFF == s % 0x10000) by (bit_vector);
    assert(s >> 16u32 == s / 0x10000) by (bit_vector);
}

proof fn lemma_not16(x: u16)
    ensures
        !x == 0xFFFF - x,
{
    assert(!x == 0xFFFF - x) by (bit_vector);
}

/// RFC 1071 checksum over a 20-byte IPv4 header whose checksum field
/// (bytes 10 and 11) is zero. Two end-around carries suffice: ten 16-bit
/// words sum to at most 20 bits.
pub fn ip_header_checksum(h: &[u8; 20]) -> (c: u16)
    ensures
        c == ip_checksum_of(h@),
{
    let mut sum: u32 = (read_be16(h[0], h[1]) as u32) + (read_be16(h[2], h[3]) as u32) + (read_be16(h[4], h[5]) as u32)
        + (read_be16(h[6], h[7]) as u32) + (read_be16(h[8], h[9]) as u32) + (read_be16(h[10], h[11]) as u32) + (
    read_be16(h[12], h[13]) as u32) + (read_be16(h[14], h[15]) as u32) + (read_be16(h[16], h[17]) as u32) + (read_be16(
        h[18],
        h[19],
    ) as u32);
    let ghost s0 = sum as int;
    assert(s0 == header_word_sum(h@));
    proof {
        lemma_fold_bits(sum);
    }
    sum = (sum & 0xFFFF) + (sum >> 16u32);
    assert(sum == fold_carry(s0));
    proof {
        lemma_fold_bits(sum);
    }
    sum = (sum & 0xFFFF) + (sum >> 16u32);
    assert(sum == fold_carry(fold_carry(s0)));
    assert(sum <= 0xFFFF);
    let folded = sum as u16;
    proof {
        lemma_not16(folded);
    }
    !folded
}

// ── The downlink decision ────────────────────────────────────────────────────

/// The outer IPv4 header with a zero checksum field: version 4, IHL 5,
/// total length `total`, DF, TTL 64, UDP, from `src` to `dst`.
pub open spec fn outer_ip_template(total: u16, src: Seq<u8>, dst: Seq<u8>) -> Seq<u8> {
    seq![0x45u8, 0x00u8] + u16_be(total) + seq![0x00u8, 0x00u8, 0x40u8, 0x00u8, 64u8, 17u8, 0x00u8, 0x00u8] + src + dst
}

/// The outer IPv4 header, its checksum filled in.
pub open spec fn outer_ip_header(total: u16, src: Seq<u8>, dst: Seq<u8>) -> Seq<u8> {
    let t = outer_ip_template(total, src, dst);
    t.subrange(0, 10) + u16_be(ip_checksum_of(t)) + t.subrange(12, 20)
}

/// The 50 bytes written in front of an inner packet of `inner_len` bytes:
/// Ethernet toward the eNodeB, IPv4 from the UPF to the eNodeB, UDP from
/// port 2152 to the eNodeB's port (checksum 0), GTP-U G-PDU with the
/// downlink TEID.
pub open spec fn dl_headers(cfg: DlTunnelConfig, route: XdpRouteEntry, inner_len: u16) -> Seq<u8> {
    let udp_len = (16 + inner_len) as u16;
    let total = (36 + inner_len) as u16;
    cfg.eth_dst_mac@ + cfg.eth_src_mac@ + seq![0x08u8, 0x00u8] + outer_ip_header(total, cfg.upf_ip@, route.enb_ip@)
        + u16_be(2152) + u16_be(route.enb_port) + u16_be(udp_len) + seq![0x00u8, 0x00u8] + seq![
        GTP_FLAGS_STANDARD,
        0xFFu8,
    ] + u16_be(inner_len) + u32_be(route.dl_teid)
}

/// The key of a UE's route: its IPv4 address read as a big-endian `u32`.
pub open spec fn ue_key(frame: Seq<u8>) -> u32 {
    be32(frame[30], frame[31], frame[32], frame[33])
}

/// What the downlink fast path does with `frame`, given the routes by UE
/// address and the tunnel configuration (`None` until set).
pub open spec fn dl_verdict(frame: Seq<u8>, routes: Map<u32, XdpRouteEntry>, cfg: Option<DlTunnelConfig>) -> Result<VerdictView, ()> {
    if frame.len() < 14 {
        Err(())
    } else if be16(frame[12], frame[13]) != 0x0800 {
        Ok(VerdictView::Pass)
    } else if frame.len() < 34 {
        Err(())
    } else if !routes.contains_key(ue_key(frame)) {
        Ok(VerdictView::Pass)
    } else if routes[ue_key(frame)].dl_teid == 0 {
        Ok(VerdictView::Pass)
    } else {
        match cfg {
            None => Ok(VerdictView::Pass),
            Some(c) => {
                let inner_len = frame.len() - 14;
                if inner_len > 0xFFFF - 36 {
                    Ok(VerdictView::Pass)
                } else {
                    Ok(
                        VerdictView::Redirect {
                            ifindex: c.redirect_ifindex,
                            frame: dl_headers(c, routes[ue_key(frame)], inner_len as u16) + frame.skip(14),
                        },
                    )
                }
            },
        }
    }
}

/// The outer IPv4 header, checksum included.
fn build_outer_ip(total: u16, src: [u8; 4], dst: [u8; 4]) -> (h: Vec<u8>)
    ensures
        h@ == outer_ip_header(total, src@, dst@),
{
    let t = u16_to_be(total);
    let mut iph: [u8; 20] = [0u8; 20];
    iph[0] = 0x45;
    iph[2] = t[0];
    iph[3] = t[1];
    iph[6] = 0x40;
    iph[8] = 64;
    iph[9] = 17;
    iph[12] = src[0];
    iph[13] = src[1];
    iph[14] = src[2];
    iph[15] = src[3];
    iph[16] = dst[0];
    iph[17] = dst[1];
    iph[18] = dst[2];
    iph[19] = dst[3];
    assert(iph@ =~= outer_ip_template(total, src@, dst@));
    let csum = ip_header_checksum(&iph);
    let c = u16_to_be(csum);
    iph[10] = c[0];
    iph[11] = c[1];
    let mut h: Vec<u8> = Vec::new();
    crate::bytes_util::append_bytes(&mut h, &iph);
    assert(h@ =~= outer_ip_header(total, src@, dst@));
    h
}

/// Process one frame arriving on the PDN-facing interface.
pub fn process_dl(frame: &[u8], ue_ip_to_route: &HashMap<u32, XdpRouteEntry>, dl_tunnel_config: Option<DlTunnelConfig>) -> (r: Result<
    XdpVerdict,
    (),
>)
    ensures
        match r {
            Ok(v) => dl_verdict(frame@, ue_ip_to_route@, dl_tunnel_config) == Ok::<VerdictView, ()>(v@),
            Err(_) => dl_verdict(frame@, ue_ip_to_route@, dl_tunnel_config) is Err,
        },
{
    let len = frame.len();
    // Step 1: IPv4.
    if len < 14 {
        return Err(());
    }
    if read_be16(frame[12], frame[13]) != 0x0800 {
        return Ok(XdpVerdict::Pass);
    }
    // Step 2: the destination address.
    if len < 34 {
        return Err(());
    }
    let key = read_be32(frame[30], frame[31], frame[32], frame[33]);
    // Step 3: a known UE.
    let route = match ue_ip_to_route.get(&key) {
        Some(r) => *r,
        None => {
            return Ok(XdpVerdict::Pass);
        },
    };
    // Step 4: not before the eNodeB has confirmed the bearer.
    if route.dl_teid == 0 {
        return Ok(XdpVerdict::Pass);
    }
    // Step 5: the tunnel configuration.
    let cfg = match dl_tunnel_config {
        Some(c) => c,
        None => {
            return Ok(XdpVerdict::Pass);
        },
    };
    // Steps 6-7: the 50 header bytes in front of the inner packet.
    let inner_len_us = len - 14;
    if inner_len_us > 0xFFFF - 36 {
        return Ok(XdpVerdict::Pass);
    }
    let inner_len = inner_len_us as u16;
    let udp_len: u16 = 16 + inner_len;
    let outer_len: u16 = 36 + inner_len;
    let mut out: Vec<u8> = Vec::new();
    crate::bytes_util::append_bytes(&mut out, &cfg.eth_dst_mac);
    crate::bytes_util::append_bytes(&mut out, &cfg.eth_src_mac);
    out.push(0x08);
    out.push(0x00);
    let iph = build_outer_ip(outer_len, cfg.upf_ip, route.enb_ip);
    crate::bytes_util::append_bytes(&mut out, iph.as_slice());
    crate::bytes_util::append_bytes(&mut out, &u16_to_be(2152));
    crate::bytes_util::append_bytes(&mut out, &u16_to_be(route.enb_port));
    crate::bytes_util::append_bytes(&mut out, &u16_to_be(udp_len));
    out.push(0x00);
    out.push(0x00);
    out.push(GTP_FLAGS_STANDARD);
    out.push(0xFF);
    crate::bytes_util::append_bytes(&mut out, &u16_to_be(inner_len));
    crate::bytes_util::append_bytes(&mut out, &u32_to_be(route.dl_teid));
    let inner = crate::bytes_util::tail(frame, 14);
    crate::bytes_util::append_bytes(&mut out, inner);
    proof {
        assert(out@ =~= dl_headers(cfg, route, inner_len) + frame@.skip(14));
    }
    // Step 8: toward the eNodeB-facing interface.
    Ok(XdpVerdict::Redirect { ifindex: cfg.redirect_ifindex, frame: out })
}

/// The downlink program: `process_dl`, with a parse fault passed to the
/// kernel.
pub fn midn_gtp_dl_xdp(frame: &[u8], ue_ip_to_route: &HashMap<u32, XdpRouteEntry>, dl_tunnel_config: Option<DlTunnelConfig>) -> (v: XdpVerdict)
    ensures
        v@ == (match dl_verdict(frame@, ue_ip_to_route@, dl_tunnel_config) {
            Ok(v) => v,
            Err(_) => VerdictView::Pass,
        }),
{
    match process_dl(frame, ue_ip_to_route, dl_tunnel_config) {
        Ok(v) => v,
        Err(_) => XdpVerdict::Pass,
    }
}

proof fn lemma_end_around(s: u32)
    requires
        s <= 655350,
    ensures
        ({
            let f1 = s % 0x10000 + s / 0x10000;
            let f2 = f1 % 0x10000 + f1 / 0x10000;
            let t = s + 0xFFFF - f2;
            let g1 = t % 0x10000 + t / 0x10000;
            f2 <= 0xFFFF && g1 % 0x10000 + g1 / 0x10000 == 0xFFFF
        }),
{
    assert({
        let f1 = s % 0x10000 + s / 0x10000;
        let f2 = f1 % 0x10000 + f1 / 0x10000;
        let t = s + 0xFFFF - f2;
        let g1 = t % 0x10000 + t / 0x10000;
        f2 <= 0xFFFF && g1 % 0x10000 + g1 / 0x10000 == 0xFFFF
    }) by (bit_vector)
        requires
            s <= 655350,
    ;
}

/// RFC 1071's receiver check passes on a header whose checksum field was
/// zero when `ip_header_checksum` ran and then received its result: the
/// header's words, summed with end-around carries, give 0xFFFF.
pub proof fn law_checksum_verifies(h: Seq<u8>)
    requires
        h.len() == 20,
        h[10] == 0,
        h[11] == 0,
    ensures
        fold_carry(fold_carry(header_word_sum(h.subrange(0, 10) + u16_be(ip_checksum_of(h)) + h.subrange(12, 20)))) == 0xFFFF,
{
    let s = header_word_sum(h);
    let c = ip_checksum_of(h);
    let h2 = h.subrange(0, 10) + u16_be(c) + h.subrange(12, 20);
    let a = h[10];
    let b = h[11];
    assert(be16(a, b) == 0) by (bit_vector)
        requires
            a == 0u8 && b == 0u8,
    ;
    assert(be16((c >> 8u16) as u8, c as u8) == c) by (bit_vector);
    assert(forall|i: int| 0 <= i < 10 ==> h2[i] == h[i]);
    assert(forall|i: int| 12 <= i < 20 ==> h2[i] == h[i]);
    assert(header_word_sum(h2) == s + c);
    assert(s <= 655350);
    lemma_end_around(s as u32);
}

/// Every outer IPv4 header the downlink path writes passes the receiver's
/// checksum verification.
pub proof fn law_outer_ip_checksum_verifies(total: u16, src: Seq<u8>, dst: Seq<u8>)
    requires
        src.len() == 4,
        dst.len() == 4,
    ensures
        fold_carry(fold_carry(header_word_sum(outer_ip_header(total, src, dst)))) == 0xFFFF,
{
    let t = outer_ip_template(total, src, dst);
    assert(t[10] == 0 && t[11] == 0);
    law_checksum_verifies(t);
}

/// The layout of the 50 header bytes `dl_headers` writes for an inner
/// packet of `n` bytes, field by field.
proof fn lemma_dl_headers_layout(cfg: DlTunnelConfig, route: XdpRouteEntry, n: u16)
    requires
        n <= 0xFFFF - 36,
    ensures
        ({
            let h = dl_headers(cfg, route, n);
            &&& h.len() == 50
            &&& h.subrange(0, 6) == cfg.eth_dst_mac@
            &&& h.subrange(6, 12) == cfg.eth_src_mac@
            &&& h[12] == 0x08u8 && h[13] == 0x00u8
            &&& h.subrange(14, 34) == outer_ip_header((36 + n) as u16, cfg.upf_ip@, route.enb_ip@)
            &&& h.subrange(34, 36) == u16_be(2152)
            &&& h.subrange(36, 38) == u16_be(route.enb_port)
            &&& h.subrange(38, 40) == u16_be((16 + n) as u16)
            &&& h[40] == 0u8 && h[41] == 0u8
            &&& h[42] == GTP_FLAGS_STANDARD && h[43] == 0xFFu8
            &&& h.subrange(44, 46) == u16_be(n)
            &&& h.subrange(46, 50) == u32_be(route.dl_teid)
        }),
{
    let h = dl_headers(cfg, route, n);
    let ip = outer_ip_header((36 + n) as u16, cfg.upf_ip@, route.enb_ip@);
    let t = outer_ip_template((36 + n) as u16, cfg.upf_ip@, route.enb_ip@);
    assert(t.len() == 20);
    assert(ip.len() == 20);
    assert(h.subrange(0, 6) =~= cfg.eth_dst_mac@);
    assert(h.subrange(6, 12) =~= cfg.eth_src_mac@);
    assert(h.subrange(14, 34) =~= ip);
    assert(h.subrange(34, 36) =~= u16_be(2152));
    assert(h.subrange(36, 38) =~= u16_be(route.enb_port));
    assert(h.subrange(38, 40) =~= u16_be((16 + n) as u16));
    assert(h.subrange(44, 46) =~= u16_be(n));
    assert(h.subrange(46, 50) =~= u32_be(route.dl_teid));
}

/// The outer IPv4 header's fields: version 4 with a 20-byte header, total
/// length, TTL 64, protocol UDP, source and destination addresses.
proof fn lemma_outer_ip_fields(total: u16, src: Seq<u8>, dst: Seq<u8>)
    requires
        src.len() == 4,
        dst.len() == 4,
    ensures
        ({
            let ip = outer_ip_header(total, src, dst);
            &&& ip.len() == 20
            &&& ip[0] == 0x45u8
            &&& be16(ip[2], ip[3]) == total
            &&& ip[8] == 64u8
            &&& ip[9] == 17u8
            &&& ip.subrange(12, 16) == src
            &&& ip.subrange(16, 20) == dst
        }),
{
    let ip = outer_ip_header(total, src, dst);
    let t = outer_ip_template(total, src, dst);
    assert(ip.subrange(12, 16) =~= src);
    assert(ip.subrange(16, 20) =~= dst);
    assert(ip[2] == u16_be(total)[0] && ip[3] == u16_be(total)[1]);
    crate::proto::wire::lemma_be16_round_trip(total);
}

/// A downlink redirect: the frame goes out on the configured interface,
/// 36 bytes longer, as Ethernet from the UPF's MAC to the next hop's MAC,
/// IPv4 from the UPF's address to the UE's eNodeB with a checksum the
/// receiver verifies, UDP from port 2152 to the eNodeB's port, and GTP-U
/// G-PDU under the UE's downlink TEID, around the unchanged inner packet.
/// Every IPv4 frame for a UE whose bearer is confirmed, with the tunnel
/// configured and an inner packet whose length fits the outer length
/// fields, is redirected.
pub proof fn law_dl_redirect_layout(frame: Seq<u8>, routes: Map<u32, XdpRouteEntry>, cfg: Option<DlTunnelConfig>)
    ensures
        (frame.len() >= 34 && be16(frame[12], frame[13]) == 0x0800 && routes.contains_key(
            be32(frame[30], frame[31], frame[32], frame[33]),
        ) && routes[be32(frame[30], frame[31], frame[32], frame[33])].dl_teid != 0 && cfg is Some && frame.len() - 14
            <= 0xFFFF - 36) ==> dl_verdict(frame, routes, cfg) is Ok && dl_verdict(frame, routes, cfg)->Ok_0 is Redirect,
        dl_verdict(frame, routes, cfg) matches Ok(VerdictView::Redirect { ifindex, frame: out }) ==> {
            let c = cfg->0;
            let r = routes[be32(frame[30], frame[31], frame[32], frame[33])];
            let n = frame.len() - 14;
            &&& frame.len() >= 34
            &&& be16(frame[12], frame[13]) == 0x0800
            &&& routes.contains_key(be32(frame[30], frame[31], frame[32], frame[33]))
            &&& r.dl_teid != 0
            &&& cfg is Some
            &&& ifindex == c.redirect_ifindex
            &&& out.len() == frame.len() + 36
            &&& out.subrange(0, 6) == c.eth_dst_mac@
            &&& out.subrange(6, 12) == c.eth_src_mac@
            &&& out[12] == 0x08u8 && out[13] == 0x00u8
            &&& out[14] == 0x45u8
            &&& be16(out[16], out[17]) == n + 36
            &&& out[22] == 64u8 && out[23] == 17u8
            &&& out.subrange(26, 30) == c.upf_ip@
            &&& out.subrange(30, 34) == r.enb_ip@
            &&& fold_carry(fold_carry(header_word_sum(out.subrange(14, 34)))) == 0xFFFF
            &&& be16(out[34], out[35]) == 2152
            &&& be16(out[36], out[37]) == r.enb_port
            &&& be16(out[38], out[39]) == n + 16
            &&& out[40] == 0u8 && out[41] == 0u8
            &&& out[42] == 0x30u8 && out[43] == 0xFFu8
            &&& be16(out[44], out[45]) == n
            &&& be32(out[46], out[47], out[48], out[49]) == r.dl_teid
            &&& out.skip(50) == frame.skip(14)
        },
{
    match dl_verdict(frame, routes, cfg) {
        Ok(VerdictView::Redirect { ifindex, frame: out }) => {
        let c = cfg->0;
        let r = routes[ue_key(frame)];
        let n = (frame.len() - 14) as u16;
        let h = dl_headers(c, r, n);
        lemma_dl_headers_layout(c, r, n);
        let ip = h.subrange(14, 34);
        lemma_outer_ip_fields((36 + n) as u16, c.upf_ip@, r.enb_ip@);
        law_outer_ip_checksum_verifies((36 + n) as u16, c.upf_ip@, r.enb_ip@);
        assert(out == h + frame.skip(14));
        assert(out.subrange(0, 6) =~= h.subrange(0, 6));
        assert(out.subrange(6, 12) =~= h.subrange(6, 12));
        assert(out.subrange(14, 34) =~= ip);
        assert(out.subrange(26, 30) =~= ip.subrange(12, 16));
        assert(out.subrange(30, 34) =~= ip.subrange(16, 20));
        assert(out.skip(50) =~= frame.skip(14));
        assert(out[16] == ip[2] && out[17] == ip[3]);
        assert(out[22] == ip[8] && out[23] == ip[9]);
        let hs = h.subrange(34, 36);
        assert(out[34] == hs[0] && out[35] == hs[1]);
        crate::proto::wire::lemma_be16_round_trip(2152);
        let hp = h.subrange(36, 38);
        assert(out[36] == hp[0] && out[37] == hp[1]);
        crate::proto::wire::lemma_be16_round_trip(r.enb_port);
        let hu = h.subrange(38, 40);
        assert(out[38] == hu[0] && out[39] == hu[1]);
        crate::proto::wire::lemma_be16_round_trip((16 + n) as u16);
        let hg = h.subrange(44, 46);
        assert(out[44] == hg[0] && out[45] == hg[1]);
        crate::proto::wire::lemma_be16_round_trip(n);
        let ht = h.subrange(46, 50);
        assert(out[46] == ht[0] && out[47] == ht[1] && out[48] == ht[2] && out[49] == ht[3]);
        crate::proto::wire::lemma_be32_round_trip(r.dl_teid);
        },
        _ => {},
    }
}

} // verus!
