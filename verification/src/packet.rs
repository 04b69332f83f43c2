use vstd::prelude::*;
use crate::error::Error;

verus! {

/// Type tag carried in the header of every packet.
pub type HeaderType = u32;

pub const HT_RAW_BYTES: HeaderType = 0;
pub const HT_PING_REQUEST: HeaderType = 1;
pub const HT_PING_RESULT: HeaderType = 2;
pub const HT_COMPUTE_REQUEST: HeaderType = 3;
pub const HT_COMPUTE_RESULT: HeaderType = 4;
pub const HT_HOST_REQUEST: HeaderType = 5;
pub const HT_HOST_RESULT: HeaderType = 6;

/// The kinds of request a host serves.
#[derive(Clone, Copy, Debug, PartialEq, Eq, Structural)]
pub enum RequestKind {
    Ping,
    Compute,
}

impl RequestKind {
    /// The header type of the result packet answering a request of this kind.
    pub fn result_type(&self) -> (ty: HeaderType)
        ensures
            ty == (match *self {
                RequestKind::Ping => HT_PING_RESULT,
                RequestKind::Compute => HT_COMPUTE_RESULT,
            }),
    {
        match self {
            RequestKind::Ping => HT_PING_RESULT,
            RequestKind::Compute => HT_COMPUTE_RESULT,
        }
    }
}

/// The kind of request a packet of header type `ty` carries, if the host serves it.
pub open spec fn spec_request_kind(ty: HeaderType) -> Option<RequestKind> {
    if ty == HT_PING_REQUEST {
        Some(RequestKind::Ping)
    } else if ty == HT_COMPUTE_REQUEST {
        Some(RequestKind::Compute)
    } else {
        None
    }
}

/// Decide which handler an incoming packet goes to by its header type.
/// A packet of any other type is refused with `Error::InvalidPacketType`.
pub fn request_kind(ty: HeaderType) -> (res: Result<RequestKind, Error>)
    ensures
        res matches Ok(k) ==> spec_request_kind(ty) == Some(k),
        res matches Err(e) ==> spec_request_kind(ty) is None && e == Error::InvalidPacketType(ty),
{
    match ty {
        HT_PING_REQUEST => Ok(RequestKind::Ping),
        HT_COMPUTE_REQUEST => Ok(RequestKind::Compute),
        _ => Err(Error::InvalidPacketType(ty)),
    }
}

} // verus!
