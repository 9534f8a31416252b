//! The transport abstraction the multiplexer sits on: something that
//! sends opaque byte messages to a peer and yields the received ones,
//! terminated by a close marker. Concrete transports live outside the
//! library; the multiplexer is handed their events as plain values.
use vstd::prelude::*;

verus! {

/// One observation from a transport's inbound side.
#[derive(Debug, Clone, PartialEq)]
pub enum TransportEvent {
    /// One opaque message received intact from the peer.
    Message(Vec<u8>),
    /// End of input: the peer closed, or the transport failed; the two
    /// are not distinguished at this layer.
    Close,
}

/// The receiving end of a transport's event channel, handed out at most
/// once.
pub struct TransportEventRx {
    _held: (),
}

impl TransportEventRx {
    pub fn grant() -> TransportEventRx {
        TransportEventRx { _held: () }
    }
}

/// A message-oriented connection to a peer. Implementations adapt real
/// connections outside the library; nothing is assumed of them beyond
/// the shape of the calls.
pub trait Transport {
    /// Best-effort enqueue of one opaque message for the peer.
    fn send(&mut self, message: Vec<u8>);

    /// Take the inbound event stream: `Some` the first time, `None`
    /// ever after.
    fn event_stream(&mut self) -> Option<TransportEventRx>;
}

} // verus!
