//! High-level GTP-U parser: header, then payload, skipping the 4 optional
//! bytes (sequence number, N-PDU number, next extension type) when any of
//! the E/S/PN flags is set.

use vstd::prelude::*;

use crate::proto::gtp::header::{header_from_bytes, GtpuHeader};

verus! {

/// Result of parsing a UDP payload as a GTP-U packet.
#[derive(Debug)]
pub struct GtpuPacket<'a> {
    /// Parsed mandatory header.
    pub header: GtpuHeader,
    /// The inner IP packet (or other payload).
    pub payload: &'a [u8],
}

/// Where the payload of a GTP-U packet starts: after the 8 mandatory bytes,
/// plus 4 when any optional-field flag is set.
pub open spec fn gtpu_payload_offset(flags: u8) -> int {
    if flags & 0x07 != 0 {
        12
    } else {
        8
    }
}

pub struct GtpuParser;

impl GtpuParser {
    /// Parse a raw UDP payload as a GTP-U packet; `None` if too short.
    pub fn parse(udp_payload: &[u8]) -> (r: Option<GtpuPacket<'_>>)
        ensures
            r is None <==> (udp_payload@.len() < 8 || udp_payload@.len() < gtpu_payload_offset(udp_payload@[0])),
            r matches Some(p) ==> p.header == header_from_bytes(udp_payload@) && p.payload@
                == udp_payload@.skip(gtpu_payload_offset(udp_payload@[0])),
    {
        let (hdr, rest) = match GtpuHeader::parse(udp_payload) {
            Some(x) => x,
            None => return None,
        };
        let payload = if hdr.flags & 0x07 != 0 {
            if rest.len() < 4 {
                return None;
            }
            let p = vstd::slice::slice_subrange(rest, 4, rest.len());
            proof {
                assert(p@ =~= udp_payload@.skip(12));
            }
            p
        } else {
            rest
        };
        Some(GtpuPacket { header: hdr, payload })
    }
}

} // verus!
