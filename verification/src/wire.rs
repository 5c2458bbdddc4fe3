//! The wire framing used over the shared-memory transport.
//!
//! Each message is a frame `{ tag, flags, client_id, payload }`; the
//! transport adds its own length framing and stamps the sender's client
//! identifier.  Exactly one tag value is reserved for centralized routing;
//! every other tag is application-defined and forwarded verbatim.

use vstd::prelude::*;

use crate::codec::spec_decode_event;
use crate::compress::inflate_of;
use crate::events::EventView;

verus! {

/// The one tag reserved for forwarding candidate inputs to the main
/// evaluator.
pub const TAG_TO_MAIN: u32 = 0x3453453;

/// Flag bit always set by a sender.
pub const FLAG_INITIALIZED: u32 = 0x0;

/// Flag bit marking a deflated payload.
pub const FLAG_COMPRESSED: u32 = 0x1;

/// One message as it crosses the transport.
#[derive(Debug, PartialEq, Eq)]
pub struct Frame {
    pub tag: u32,
    pub flags: u32,
    pub client_id: u32,
    pub payload: Vec<u8>,
}

/// The mathematical shape of a [`Frame`].
#[verifier::ext_equal]
pub ghost struct FrameView {
    pub tag: u32,
    pub flags: u32,
    pub client_id: u32,
    pub payload: Seq<u8>,
}

impl View for Frame {
    type V = FrameView;

    open spec fn view(&self) -> FrameView {
        FrameView {
            tag: self.tag,
            flags: self.flags,
            client_id: self.client_id,
            payload: self.payload@,
        }
    }
}

/// Whether a frame's payload is marked as deflated.
pub open spec fn frame_compressed(f: FrameView) -> bool {
    f.flags & FLAG_COMPRESSED == FLAG_COMPRESSED
}

/// The serialized event record a frame carries: its payload, inflated first
/// when the compressed flag is set.
pub open spec fn frame_record(f: FrameView) -> Option<Seq<u8>> {
    if frame_compressed(f) {
        inflate_of(f.payload)
    } else {
        Some(f.payload)
    }
}

/// The event a frame carries, if its record inflates and decodes.
pub open spec fn frame_event(f: FrameView) -> Option<EventView> {
    match frame_record(f) {
        None => None,
        Some(record) => spec_decode_event(record),
    }
}

/// A frame carries event `e`: its record is exactly the encoding of `e`.
pub open spec fn frame_carries(f: FrameView, e: EventView) -> bool {
    frame_record(f) == Some(crate::codec::spec_encode_event(e))
}

/// What a frame carries is what its receiver decodes: once a sender's
/// contract says the frame carries a well-formed event, the broker and the
/// main evaluator recover exactly that event from the wire.
pub proof fn lemma_frame_event_of_carries(f: FrameView, e: EventView)
    requires
        frame_carries(f, e),
        crate::events::event_wf(e),
    ensures
        frame_event(f) == Some(e),
{
    crate::codec::lemma_event_round_trip(e);
}

} // verus!
