//! The centralized broker's dispatch policy.
//!
//! The broker owns the transport and runs a dispatch loop; for each arriving
//! frame it decides between broadcasting the frame verbatim to all clients
//! and consuming it.  Only the decision is made here: the loop itself, bound
//! to the real transport, lives outside the verified core.

use vstd::prelude::*;

use crate::compress::gzip_decompress;
use crate::codec::{decode_event, spec_decode_event};
use crate::errors::Error;
use crate::events::{clone_bytes, Event};
use crate::wire::{frame_compressed, frame_record, Frame, FLAG_COMPRESSED, TAG_TO_MAIN};

verus! {

/// What the broker does with an arriving event on the to-main tag.
#[derive(Clone, Copy, Debug, PartialEq, Eq, Structural)]
pub enum BrokerEventResult {
    /// Deliver the frame to the main evaluator and all peer clients.
    Forward,
    /// Consume the event at the broker; nothing fans out.
    Handled,
}

/// Decide what to do with an event that arrived on the to-main tag: only a
/// `NewTestcase` carries an input worth re-evaluating, everything else is
/// liveness or housekeeping and stops here.
pub fn handle_in_broker(client_id: u32, event: &Event) -> (r: Result<BrokerEventResult, Error>)
    ensures
        r matches Ok(d) && d == (if event@ is NewTestcase {
            BrokerEventResult::Forward
        } else {
            BrokerEventResult::Handled
        }),
{
    match event {
        Event::NewTestcase { .. } => Ok(BrokerEventResult::Forward),
        _ => Ok(BrokerEventResult::Handled),
    }
}

/// One dispatch step of the broker loop.
///
/// Returns the frame to broadcast to all clients, or `None` when the frame is
/// consumed at the broker.  A frame on any tag other than the to-main tag is
/// broadcast without being read; a to-main frame is inflated and decoded, and
/// fans out exactly when it is a `NewTestcase`.  Whatever is broadcast is the
/// arriving frame itself, bit-identical.
pub fn broker_route(frame: Frame) -> (r: Result<Option<Frame>, Error>)
    ensures
        r matches Ok(Some(f)) ==> f@ == frame@,
        frame@.tag != TAG_TO_MAIN ==> (r matches Ok(Some(f)) && f@ == frame@),
        frame@.tag == TAG_TO_MAIN ==> match frame_record(frame@) {
            None => (r matches Err(e) && e == Error::Compression),
            Some(record) => match spec_decode_event(record) {
                None => (r matches Err(e) && e == Error::Serialize),
                Some(ev) => if ev is NewTestcase {
                    (r matches Ok(Some(f)) && f@ == frame@)
                } else {
                    r matches Ok(None::<Frame>)
                },
            },
        },
{
    if frame.tag != TAG_TO_MAIN {
        return Ok(Some(frame));
    }
    let event_bytes: Vec<u8> = if frame.flags & FLAG_COMPRESSED == FLAG_COMPRESSED {
        match gzip_decompress(&frame.payload) {
            Some(d) => d,
            None => {
                return Err(Error::compression());
            },
        }
    } else {
        proof {
            assert(!frame_compressed(frame@));
        }
        clone_bytes(&frame.payload)
    };
    let event: Event = match decode_event(&event_bytes) {
        Some(e) => e,
        None => {
            return Err(Error::serialize());
        },
    };
    match handle_in_broker(frame.client_id, &event) {
        Ok(BrokerEventResult::Forward) => Ok(Some(frame)),
        Ok(BrokerEventResult::Handled) => Ok(None),
        Err(e) => Err(e),
    }
}

} // verus!
