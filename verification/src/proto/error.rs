//! Unified error type for the protocol codecs.

use vstd::prelude::*;

verus! {

/// Why a buffer could not be decoded or a message could not be encoded.
#[derive(Debug)]
pub enum ProtoError {
    /// The packet is shorter than the format needs.
    TooShort { expected: usize, got: usize },
    /// GTP-U version other than 1.
    InvalidGtpVersion(u8),
    /// A message type this codec does not know.
    UnknownGtpMsgType(u8),
    /// Malformed NAS (EPS) message.
    MalformedNas { reason: &'static str },
    /// Malformed NAS (5GS) message.
    MalformedNas5gs { reason: &'static str },
    /// Malformed S1AP message.
    MalformedS1ap { reason: &'static str },
    /// Malformed NGAP message.
    MalformedNgap { reason: &'static str },
}

/// What a `ProtoError` says, without the reason text.
pub enum ProtoErrorKind {
    TooShort { expected: nat, got: nat },
    InvalidGtpVersion(u8),
    UnknownMsgType(u8),
    MalformedNas,
    MalformedNas5gs,
    MalformedS1ap,
    MalformedNgap,
}

impl View for ProtoError {
    type V = ProtoErrorKind;

    open spec fn view(&self) -> ProtoErrorKind {
        match *self {
            ProtoError::TooShort { expected, got } => ProtoErrorKind::TooShort { expected: expected as nat, got: got as nat },
            ProtoError::InvalidGtpVersion(v) => ProtoErrorKind::InvalidGtpVersion(v),
            ProtoError::UnknownGtpMsgType(t) => ProtoErrorKind::UnknownMsgType(t),
            ProtoError::MalformedNas { .. } => ProtoErrorKind::MalformedNas,
            ProtoError::MalformedNas5gs { .. } => ProtoErrorKind::MalformedNas5gs,
            ProtoError::MalformedS1ap { .. } => ProtoErrorKind::MalformedS1ap,
            ProtoError::MalformedNgap { .. } => ProtoErrorKind::MalformedNgap,
        }
    }
}

} // verus!
