//! What the session host and the relay have in common as SSH servers.

use vstd::prelude::*;
use vstd::string::*;

verus! {

/// The answer to an attempt to authenticate. A rejection names no method to go on with.
#[derive(Clone, Copy, Debug, PartialEq, Eq, Structural)]
pub enum Auth {
    Accept,
    Reject,
}

/// The answer to a request on a channel.
#[derive(Clone, Copy, Debug, PartialEq, Eq, Structural)]
pub enum ChannelReply {
    Success,
    Failure,
}

/// How a read into a buffer ended: with a number of bytes, zero at the end of the stream, or with
/// an error.
#[derive(Clone, Copy, Debug, PartialEq, Eq, Structural)]
pub enum ReadOutcome {
    Read(usize),
    Failed,
}

/// The text of an optional string.
pub open spec fn text_of(s: Option<String>) -> Option<Seq<char>> {
    match s {
        Some(s) => Some(s@),
        None => None,
    }
}

/// Accepts if `condition` holds.
pub open spec fn accept_if(condition: bool) -> Auth {
    if condition {
        Auth::Accept
    } else {
        Auth::Reject
    }
}

/// What to call a peer: its address, or `unknown` where there is none.
pub fn peer_name(peer: Option<String>) -> (r: String)
    ensures
        r@ == match peer {
            Some(address) => address@,
            None => "unknown"@,
        },
{
    match peer {
        Some(address) => address,
        None => "unknown".to_owned(),
    }
}

/// What a read into `buf` brought in, or nothing when the stream has come to its end: a loop that
/// copies a stream hands on the bytes and stops at `None`.
pub fn received(buf: &[u8], outcome: ReadOutcome) -> (r: Option<Vec<u8>>)
    requires
        outcome matches ReadOutcome::Read(n) ==> n <= buf.len(),
    ensures
        match outcome {
            ReadOutcome::Read(n) => if n == 0 {
                r is None
            } else {
                r is Some && r->0@ == buf@.take(n as int)
            },
            ReadOutcome::Failed => r is None,
        },
{
    match outcome {
        ReadOutcome::Read(n) => if n == 0 {
            None
        } else {
            Some(vstd::slice::slice_to_vec(vstd::slice::slice_subrange(buf, 0, n)))
        },
        ReadOutcome::Failed => None,
    }
}

/// Byte by byte, what is handed on is what the read put into the buffer: as many bytes as were read,
/// from the front. There is nothing to hand on exactly at the end of the stream and after an error.
pub proof fn law_received_is_what_was_read(buf: &[u8], outcome: ReadOutcome, r: Option<Vec<u8>>)
    requires
        outcome matches ReadOutcome::Read(n) ==> n <= buf@.len(),
        call_ensures(received, (buf, outcome), r),
    ensures
        r is None <==> outcome is Failed || outcome == ReadOutcome::Read(0),
        r matches Some(bytes) ==> outcome == ReadOutcome::Read(bytes@.len() as usize),
        r matches Some(bytes) ==> forall|i: int|
            0 <= i < bytes@.len() ==> #[trigger] bytes@[i] == buf@[i],
{
}

/// A peer is called by its address, or `unknown` if that is not known.
pub proof fn law_peer_name(peer: Option<String>, r: String)
    requires
        call_ensures(peer_name, (peer,), r),
    ensures
        peer matches Some(address) ==> r@ == address@,
        peer is None ==> r@ == seq!['u', 'n', 'k', 'n', 'o', 'w', 'n'],
{
    reveal_strlit("unknown");
    assert("unknown"@ =~= seq!['u', 'n', 'k', 'n', 'o', 'w', 'n']);
}

/// Every read that fits its buffer can be handed on, and so can the end of a stream and an error.
pub proof fn law_reads_are_taken(buf: &[u8], n: usize)
    requires
        n <= buf@.len(),
    ensures
        call_requires(received, (buf, ReadOutcome::Read(n))),
        call_requires(received, (buf, ReadOutcome::Failed)),
{
}

} // verus!
