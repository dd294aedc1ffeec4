//! What the receive loop does with the result of one read.

use crate::packet::{decodes_to, Packet, PacketError};
use vstd::prelude::*;
use vstd::slice::{slice_subrange, slice_to_vec};

verus! {

/// The outcome of one read from the peer.
#[derive(Debug)]
pub enum ReadOutcome {
    /// The read returned no bytes: the peer closed the connection, and the
    /// loop ends without error.
    Closed,
    /// The bytes of the read, taken as one frame, and what decoding them gave.
    Received(Result<Packet, PacketError>),
}

/// Handles a read that filled the first `n` bytes of `buf`: a read of no
/// bytes closes the loop, and any other is decoded as exactly one frame.
pub fn on_read(buf: &[u8], n: usize) -> (r: ReadOutcome)
    requires
        n <= buf@.len(),
    ensures
        n == 0 <==> r is Closed,
        r matches ReadOutcome::Received(res) ==> decodes_to(buf@.subrange(0, n as int), res),
{
    if n == 0 {
        return ReadOutcome::Closed;
    }
    let frame = slice_to_vec(slice_subrange(buf, 0, n));
    ReadOutcome::Received(Packet::from_bytes(frame))
}

} // verus!
