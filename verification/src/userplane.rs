//! The packet decisions of the GTP-U XDP fast path, on a frame's bytes.
//!
//! Two programs: the uplink one (eNodeB-facing interface) strips the
//! GTP-U tunnel from UE → internet traffic and sends the inner packet to
//! the PDN gateway (`XDP_TX`); the downlink one (PDN-facing interface)
//! wraps internet → UE traffic in a new tunnel toward the eNodeB
//! (`XDP_REDIRECT`). Anything they do not recognise, and any frame too
//! short to parse, goes to the kernel stack (`XDP_PASS`): a parse failure
//! never drops traffic.
//!
//! The route tables and configuration slots are passed in as values: the
//! `TEID_TO_ROUTE` and `UE_IP_TO_ROUTE` hash maps and the single-slot
//! `PDN_GW_CONFIG` and `DL_TUNNEL_CONFIG` arrays that userspace fills.

pub mod maps;
pub mod gtp_xdp;
pub mod gtp_dl_xdp;
