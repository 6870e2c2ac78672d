//! Pure decisions of the bridge loop: what to write to the transport for
//! the messages drained from the outgoing queue.

use vstd::prelude::*;

use crate::framing::{frame_payload, spec_frame};
use crate::transceiver::{encode_message, spec_message_bytes, Message};

verus! {

/// Turns the messages drained from the outgoing queue into the byte
/// buffers to write to the transport, keeping the queue order: the buffer
/// at each position is exactly the framed encoding of the message that
/// was at that position.
pub fn encode_pending(pending: Vec<Message>) -> (r: Vec<Vec<u8>>)
    ensures
        r@.len() == pending@.len(),
        forall|i: int|
            0 <= i < pending@.len() ==> (#[trigger] r@[i])@ == spec_frame(
                spec_message_bytes(pending@[i]),
            ),
{
    let ghost orig = pending@;
    let mut queue = pending;
    let mut r: Vec<Vec<u8>> = Vec::new();
    proof {
        assert(orig.skip(0) =~= orig);
    }
    while queue.len() > 0
        invariant
            r@.len() + queue@.len() == orig.len(),
            queue@ == orig.skip(r@.len() as int),
            forall|i: int|
                0 <= i < r@.len() ==> (#[trigger] r@[i])@ == spec_frame(
                    spec_message_bytes(orig[i]),
                ),
        decreases queue@.len(),
    {
        let ghost k = r@.len() as int;
        let m = queue.remove(0);
        proof {
            assert(m == orig[k]);
            assert(orig.skip(k).remove(0) =~= orig.skip(k + 1));
        }
        let bytes = encode_message(m);
        let framed = frame_payload(bytes.as_slice());
        r.push(framed);
    }
    r
}

} // verus!
