//! Subscriber state split into components.

use vstd::prelude::*;

verus! {

/// The subscriber's IMSI (15 digits, as an integer).
#[derive(Debug, Clone, Copy, PartialEq, Eq, Hash, Structural)]
pub struct ImsiComponent(pub u64);

/// Where a subscriber stands in authentication.
#[derive(Debug, Clone, Copy, PartialEq, Eq)]
pub enum AuthState {
    Unauthenticated,
    Challenged { rand: [u8; 16], xres: [u8; 8] },
    Authenticated,
    Failed,
}

/// NAS security: the cipher and integrity keys and the NAS COUNTs.
#[derive(Clone)]
pub struct SecurityContext {
    pub ck: [u8; 16],
    pub ik: [u8; 16],
    pub kasme: [u8; 32],
    pub dl_count: u32,
    pub ul_count: u32,
    pub cipher_alg: u8,
    pub integr_alg: u8,
    _pad: [u8; 10],
}

/// PDN session state: the UE's address and APN.
#[derive(Debug, Clone)]
pub struct SessionState {
    pub ip_address: [u8; 4],
    pub apn: [u8; 64],
    pub apn_len: u8,
    pub bearer_id: u8,
    pub active: bool,
    _pad: [u8; 5],
}

/// GTP tunnel of a subscriber.
#[derive(Debug, Clone, Copy, PartialEq, Eq)]
pub struct TunnelComponent {
    /// Downlink TEID, assigned by the eNodeB / gNodeB.
    pub dl_teid: u32,
    /// Uplink TEID, assigned by the UPF / P-GW.
    pub ul_teid: u32,
    /// eNodeB / gNodeB transport address.
    pub enb_addr: [u8; 4],
    pub enb_port: u16,
    _pad: [u8; 2],
}

} // verus!
