//! Values of the fast path's tables, shared between the XDP programs and
//! the userspace loader.
//!
//! | Table            | Key          | Value          | Purpose                              |
//! |------------------|--------------|----------------|--------------------------------------|
//! | TEID_TO_ROUTE    | UL TEID      | XdpRouteEntry  | sessions the UL fast path serves     |
//! | PDN_GW_CONFIG    | slot 0       | PdnGwConfig    | MAC addresses of the UL rewrite      |
//! | UE_IP_TO_ROUTE   | UE IPv4      | XdpRouteEntry  | DL route toward the eNodeB           |
//! | DL_TUNNEL_CONFIG | slot 0       | DlTunnelConfig | headers and interface of the DL path |

use vstd::prelude::*;

verus! {

/// Where a session's downlink goes: the eNodeB's TEID, address and port.
/// A `dl_teid` of 0 is the placeholder written at session creation, before
/// the eNodeB has answered.
#[derive(Clone, Copy)]
pub struct XdpRouteEntry {
    /// Downlink TEID, written into the GTP-U header toward the eNodeB.
    pub dl_teid: u32,
    /// eNodeB IPv4 transport address.
    pub enb_ip: [u8; 4],
    /// eNodeB GTP-U port (usually 2152).
    pub enb_port: u16,
    /// Zero padding.
    pub _pad: [u8; 2],
}

/// Ethernet addresses for the uplink rewrite.
#[derive(Clone, Copy)]
pub struct PdnGwConfig {
    /// Destination: the PDN gateway or next-hop router.
    pub gw_mac: [u8; 6],
    /// Source: the UPF's interface.
    pub nic_mac: [u8; 6],
    /// Zero padding.
    pub _pad: [u8; 4],
}

/// Headers and interface of the downlink tunnel.
#[derive(Clone, Copy)]
pub struct DlTunnelConfig {
    /// Ethernet destination: the eNodeB or next hop toward it.
    pub eth_dst_mac: [u8; 6],
    /// Ethernet source: the eNodeB-facing interface.
    pub eth_src_mac: [u8; 6],
    /// The UPF's transport address, the outer IPv4 source.
    pub upf_ip: [u8; 4],
    /// The eNodeB-facing interface to redirect to.
    pub redirect_ifindex: u32,
}

/// XDP action codes (Linux `enum xdp_action`).
pub const XDP_ABORTED: u32 = 0;
pub const XDP_DROP: u32 = 1;
pub const XDP_PASS: u32 = 2;
pub const XDP_TX: u32 = 3;
pub const XDP_REDIRECT: u32 = 4;

/// What the fast path does with a frame.
pub enum XdpVerdict {
    /// Hand the frame, unchanged, to the kernel stack.
    Pass,
    /// Send this frame back out of the same interface.
    Tx(Vec<u8>),
    /// Send this frame out of interface `ifindex`.
    Redirect { ifindex: u32, frame: Vec<u8> },
}

/// An `XdpVerdict` with its frame as a sequence.
pub enum VerdictView {
    Pass,
    Tx(Seq<u8>),
    Redirect { ifindex: u32, frame: Seq<u8> },
}

impl View for XdpVerdict {
    type V = VerdictView;

    open spec fn view(&self) -> VerdictView {
        match self {
            XdpVerdict::Pass => VerdictView::Pass,
            XdpVerdict::Tx(f) => VerdictView::Tx(f@),
            XdpVerdict::Redirect { ifindex, frame } => VerdictView::Redirect { ifindex: *ifindex, frame: frame@ },
        }
    }
}

/// The XDP action code of a verdict.
pub open spec fn action_code(v: VerdictView) -> u32 {
    match v {
        VerdictView::Pass => XDP_PASS,
        VerdictView::Tx(_) => XDP_TX,
        VerdictView::Redirect { .. } => XDP_REDIRECT,
    }
}

impl XdpVerdict {
    /// The XDP action code.
    pub fn action(&self) -> (a: u32)
        ensures
            a == action_code(self@),
    {
        match self {
            XdpVerdict::Pass => XDP_PASS,
            XdpVerdict::Tx(_) => XDP_TX,
            XdpVerdict::Redirect { .. } => XDP_REDIRECT,
        }
    }
}

} // verus!
