use vstd::prelude::*;
use vstd::slice::slice_subrange;

verus! {

/// Return exactly the initialized portion of a receive buffer.
///
/// The reply is the first `received_length` bytes of `buffer`; a length that
/// does not fit the buffer is refused with `None`.
pub fn echo_payload(buffer: &[u8], received_length: usize) -> (reply: Option<&[u8]>)
    ensures
        received_length <= buffer@.len() <==> reply is Some,
        reply matches Some(bytes) ==> bytes@ == buffer@.subrange(0, received_length as int),
{
    if received_length <= buffer.len() {
        Some(slice_subrange(buffer, 0, received_length))
    } else {
        None
    }
}

} // verus!
