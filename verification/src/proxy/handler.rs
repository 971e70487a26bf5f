//! Reading a client's request head and choosing how to serve it.

use vstd::prelude::*;

use crate::error::{FailureKind, ProxyError};

verus! {

/// Whether an HTTP head terminator (CR LF CR LF) starts at `i` in `s`.
pub open spec fn terminator_at(s: Seq<u8>, i: int) -> bool {
    0 <= i && i + 4 <= s.len() && s[i] == 13 && s[i + 1] == 10 && s[i + 2] == 13 && s[i + 3]
        == 10
}

/// Whether `s` holds the blank line that ends an HTTP request head.
pub open spec fn has_head_terminator(s: Seq<u8>) -> bool {
    exists|i: int| terminator_at(s, i)
}

/// Whether `buf` holds the blank line (CR LF CR LF) that ends a request head.
pub fn contains_head_terminator(buf: &Vec<u8>) -> (r: bool)
    ensures
        r == has_head_terminator(buf@),
{
    let len = buf.len();
    if len < 4 {
        assert(!has_head_terminator(buf@)) by {
            assert forall|i: int| !terminator_at(buf@, i) by {}
        }
        return false;
    }
    let mut i: usize = 0;
    while i <= len - 4
        invariant
            len == buf.len() >= 4,
            i <= len - 3,
            forall|j: int| 0 <= j < i ==> !terminator_at(buf@, j),
        decreases len - i,
    {
        if buf[i] == 13 && buf[i + 1] == 10 && buf[i + 2] == 13 && buf[i + 3] == 10 {
            assert(terminator_at(buf@, i as int));
            return true;
        }
        i = i + 1;
    }
    assert forall|j: int| !terminator_at(buf@, j) by {
        if 0 <= j < i {
        }
    }
    false
}

/// What one bounded read from a client gave.
#[derive(Debug)]
pub enum ReadOutcome {
    /// These bytes (never empty).
    Data(Vec<u8>),
    /// The client closed its side of the connection.
    Closed,
    /// Nothing arrived within the time allowed.
    TimedOut,
}

/// Where reading a request head stands after one read.
#[derive(Debug)]
pub enum HeadProgress {
    /// The client closed the connection before sending anything.
    ClosedQuietly,
    /// The head is unusable; the connection is dropped with this failure.
    Failed(ProxyError),
    /// The head is complete.
    Complete,
    /// More bytes are needed.
    NeedMore,
}

/// Takes in what one read from the client returned (`received` is empty when
/// the client closed the connection) and says how reading the head goes on:
/// an early close is quiet when nothing had arrived and a failure
/// otherwise; the head is complete once it holds the blank line that ends
/// it; and a head that grows past 8 KiB without one is refused.
pub fn absorb_request_bytes(buffer: &mut Vec<u8>, received: &[u8]) -> (r: HeadProgress)
    ensures
        received@.len() == 0 ==> {
            &&& final(buffer)@ == old(buffer)@
            &&& old(buffer)@.len() == 0 ==> r is ClosedQuietly
            &&& old(buffer)@.len() > 0 ==> (r matches HeadProgress::Failed(e) && e.is(
                FailureKind::UnexpectedEof,
                "Connection closed before complete headers received"@,
            ))
        },
        received@.len() > 0 ==> {
            &&& final(buffer)@ == old(buffer)@ + received@
            &&& has_head_terminator(final(buffer)@) ==> r is Complete
            &&& !has_head_terminator(final(buffer)@) && final(buffer)@.len() > 8192
                ==> (r matches HeadProgress::Failed(e) && e.is(
                FailureKind::InvalidData,
                "Header too large"@,
            ))
            &&& !has_head_terminator(final(buffer)@) && final(buffer)@.len() <= 8192
                ==> r is NeedMore
        },
{
    if received.len() == 0 {
        if buffer.len() == 0 {
            return HeadProgress::ClosedQuietly;
        } else {
            return HeadProgress::Failed(
                ProxyError::new(
                    FailureKind::UnexpectedEof,
                    "Connection closed before complete headers received",
                ),
            );
        }
    }
    append_bytes(buffer, received);
    if contains_head_terminator(buffer) {
        HeadProgress::Complete
    } else if buffer.len() > 8192 {
        HeadProgress::Failed(ProxyError::new(FailureKind::InvalidData, "Header too large"))
    } else {
        HeadProgress::NeedMore
    }
}

/// Appends `bytes` to `buffer`.
pub fn append_bytes(buffer: &mut Vec<u8>, bytes: &[u8])
    ensures
        final(buffer)@ == old(buffer)@ + bytes@,
{
    let mut i: usize = 0;
    while i < bytes.len()
        invariant
            i <= bytes.len(),
            buffer@ == old(buffer)@ + bytes@.take(i as int),
        decreases bytes.len() - i,
    {
        buffer.push(bytes[i]);
        i = i + 1;
        assert(buffer@ =~= old(buffer)@ + bytes@.take(i as int));
    }
    assert(bytes@.take(bytes.len() as int) =~= bytes@);
}

/// The bytes `CONNECT ` (the method and the space behind it).
pub open spec fn connect_prefix() -> Seq<u8> {
    seq![67u8, 79, 78, 78, 69, 67, 84, 32]
}

/// Whether a request head opens with the CONNECT method.
pub open spec fn is_connect_request(head: Seq<u8>) -> bool {
    head.len() >= 8 && head.take(8) == connect_prefix()
}

/// How a request is served.
#[derive(Debug)]
pub enum Route {
    /// A CONNECT request: an HTTPS tunnel.
    Tunnel,
    /// Plain HTTP, forwarded upstream.
    Forward,
    /// Plain HTTP refused under the HTTPS-only policy.
    Blocked(ProxyError),
}

/// Routes a complete request head: CONNECT requests open a tunnel; other
/// requests are forwarded as plain HTTP, unless `https_only` is set, in which
/// case they are refused.
pub fn route_request(head: &Vec<u8>, https_only: bool) -> (r: Route)
    ensures
        is_connect_request(head@) ==> r is Tunnel,
        !is_connect_request(head@) && https_only ==> (r matches Route::Blocked(e) && e.is(
            FailureKind::ConnectionAborted,
            "Insecure HTTP blocked"@,
        )),
        !is_connect_request(head@) && !https_only ==> r is Forward,
{
    let is_connect = head.len() >= 8 && head[0] == 67 && head[1] == 79 && head[2] == 78 && head[3]
        == 78 && head[4] == 69 && head[5] == 67 && head[6] == 84 && head[7] == 32;
    proof {
        if head@.len() >= 8 {
            if is_connect {
                assert(head@.take(8) =~= connect_prefix());
            } else {
                assert(head@.take(8) != connect_prefix()) by {
                    if head@.take(8) == connect_prefix() {
                        assert(head@.take(8)[0] == head@[0]);
                    }
                }
            }
        }
    }
    if is_connect {
        Route::Tunnel
    } else if https_only {
        Route::Blocked(ProxyError::new(FailureKind::ConnectionAborted, "Insecure HTTP blocked"))
    } else {
        Route::Forward
    }
}

} // verus!
