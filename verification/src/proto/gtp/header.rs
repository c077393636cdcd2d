//! GTP-U mandatory header — 3GPP TS 29.281 section 5.1.
//!
//! ```text
//! Bit  7-5 : Version (001 for GTPv1)
//! Bit  4   : Protocol Type (PT): 1 = GTP, 0 = GTP'
//! Bit  3   : Reserved
//! Bit  2   : Extension Header flag (E)
//! Bit  1   : Sequence number flag (S)
//! Bit  0   : N-PDU flag (PN)
//! ```

use vstd::prelude::*;

use crate::proto::wire::{be16, be32, lemma_be16_bytes, lemma_be16_round_trip, lemma_be32_bytes, lemma_be32_round_trip, read_be16, read_be32, u16_be, u16_to_be, u32_be, u32_to_be};

verus! {

/// GTP-U mandatory header: 8 bytes.
#[derive(Debug, Clone, Copy, PartialEq, Eq, Structural)]
pub struct GtpuHeader {
    /// Flags: version | PT | reserved | E | S | PN
    pub flags: u8,
    /// Message type: 0xFF = G-PDU (user data)
    pub msg_type: u8,
    /// Total GTP packet length excluding the mandatory header
    pub length: u16,
    /// Tunnel Endpoint Identifier
    pub teid: u32,
}

/// The header that the first 8 bytes of `b` spell (big-endian fields).
pub open spec fn header_from_bytes(b: Seq<u8>) -> GtpuHeader {
    GtpuHeader { flags: b[0], msg_type: b[1], length: be16(b[2], b[3]), teid: be32(b[4], b[5], b[6], b[7]) }
}

/// The 8-byte wire form of a header.
pub open spec fn header_bytes(h: GtpuHeader) -> Seq<u8> {
    seq![h.flags, h.msg_type] + u16_be(h.length) + u32_be(h.teid)
}

impl GtpuHeader {
    /// Size of the mandatory header in bytes.
    pub const SIZE: usize = 8;
    /// G-PDU: carries a user IP packet.
    pub const MSG_GPDU: u8 = 0xFF;
    /// Echo Request (keep-alive).
    pub const MSG_ECHO_REQ: u8 = 0x01;
    /// Echo Response.
    pub const MSG_ECHO_RSP: u8 = 0x02;
    /// Error Indication.
    pub const MSG_ERR_IND: u8 = 0x1A;
    /// GTPv1 version bits (bits 7-5 = 001).
    pub const VERSION_1: u8 = 0x20;
    /// Protocol Type = GTP (bit 4 = 1).
    pub const PT_GTP: u8 = 0x10;
    /// Extension Header flag (bit 2).
    pub const FLAG_E: u8 = 0x04;
    /// Sequence Number flag (bit 1).
    pub const FLAG_S: u8 = 0x02;
    /// N-PDU Number flag (bit 0).
    pub const FLAG_PN: u8 = 0x01;
    /// Standard flags for a plain G-PDU (version 1, PT = GTP, no optional fields).
    pub const FLAGS_STANDARD: u8 = 0x30;

    /// Parse a GTP-U header; returns the header and the rest of the buffer,
    /// or `None` when the buffer is shorter than 8 bytes.
    pub fn parse(buf: &[u8]) -> (r: Option<(GtpuHeader, &[u8])>)
        ensures
            buf@.len() < 8 <==> r is None,
            r matches Some((h, rest)) ==> h == header_from_bytes(buf@) && rest@ == buf@.skip(8),
    {
        if buf.len() < 8 {
            return None;
        }
        let hdr = GtpuHeader {
            flags: buf[0],
            msg_type: buf[1],
            length: read_be16(buf[2], buf[3]),
            teid: read_be32(buf[4], buf[5], buf[6], buf[7]),
        };
        let rest = vstd::slice::slice_subrange(buf, 8, buf.len());
        proof {
            assert(rest@ =~= buf@.skip(8));
        }
        Some((hdr, rest))
    }

    /// A G-PDU (user data packet).
    pub fn is_gpdu(self) -> (r: bool)
        ensures
            r == (self.msg_type == 0xFF),
    {
        self.msg_type == Self::MSG_GPDU
    }

    /// Optional extension headers are present.
    pub fn has_ext_hdr(self) -> (r: bool)
        ensures
            r == (self.flags & 0x04 != 0),
    {
        self.flags & Self::FLAG_E != 0
    }

    /// Sequence number / N-PDU / extension fields are present.
    pub fn has_optional_fields(self) -> (r: bool)
        ensures
            r == (self.flags & 0x07 != 0),
    {
        self.flags & 0x07 != 0
    }

    /// The GTP version (bits 7-5 of the flags).
    pub fn version(self) -> (v: u8)
        ensures
            v == (self.flags >> 5u8) & 0x07,
            v < 8,
    {
        let f = self.flags;
        let v = (f >> 5u8) & 0x07;
        proof {
            assert((f >> 5u8) & 0x07 < 8) by (bit_vector);
        }
        v
    }

    /// Serialize to 8 bytes, big-endian fields.
    pub fn to_bytes(self) -> (b: [u8; 8])
        ensures
            b@ == header_bytes(self),
    {
        let len = u16_to_be(self.length);
        let teid = u32_to_be(self.teid);
        let b = [self.flags, self.msg_type, len[0], len[1], teid[0], teid[1], teid[2], teid[3]];
        proof {
            assert(b@ =~= header_bytes(self));
        }
        b
    }

    /// A standard G-PDU header for a TEID and payload length.
    pub fn new_gpdu(teid: u32, payload_len: u16) -> (h: GtpuHeader)
        ensures
            h == (GtpuHeader { flags: 0x30, msg_type: 0xFF, length: payload_len, teid }),
    {
        GtpuHeader { flags: Self::FLAGS_STANDARD, msg_type: Self::MSG_GPDU, length: payload_len, teid }
    }
}

/// Parsing what `to_bytes` wrote, followed by any payload, gives back the
/// header and the payload.
pub proof fn law_header_round_trip(h: GtpuHeader, payload: Seq<u8>)
    ensures
        header_from_bytes(header_bytes(h) + payload) == h,
        (header_bytes(h) + payload).skip(8) == payload,
        header_bytes(h).len() == 8,
{
    lemma_be16_round_trip(h.length);
    lemma_be32_round_trip(h.teid);
    let b = header_bytes(h) + payload;
    assert(b.skip(8) =~= payload);
}

/// Writing a parsed header back gives the first 8 bytes of the buffer.
pub proof fn law_header_bytes_of_parsed(b: Seq<u8>)
    requires
        b.len() >= 8,
    ensures
        header_bytes(header_from_bytes(b)) == b.take(8),
{
    lemma_be16_bytes(b[2], b[3]);
    lemma_be32_bytes(b[4], b[5], b[6], b[7]);
    assert(header_bytes(header_from_bytes(b)) =~= b.take(8));
}

/// A header made by `new_gpdu` is version 1, a G-PDU, with no optional fields.
pub proof fn law_new_gpdu_is_plain(teid: u32, len: u16)
    ensures
        ((0x30u8 >> 5u8) & 0x07u8) == 1u8,
        0x30u8 & 0x07u8 == 0u8,
        0x30u8 & 0x04u8 == 0u8,
{
    assert(((0x30u8 >> 5u8) & 0x07u8) == 1u8) by (bit_vector);
    assert(0x30u8 & 0x07u8 == 0u8) by (bit_vector);
    assert(0x30u8 & 0x04u8 == 0u8) by (bit_vector);
}

} // verus!
