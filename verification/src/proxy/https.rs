//! HTTPS tunnels: reading the CONNECT request, finding its target, and
//! fragmenting the ClientHello that the browser sends through the tunnel.

use vstd::prelude::*;
use vstd::utf8::*;

use crate::error::{FailureKind, ProxyError};
use crate::proxy::buffer::{
    buffer_to_chunks, chunks_of, tls_fragments, tls_record_fragmentation, views,
};
use crate::proxy::handler::{append_bytes, has_head_terminator, contains_head_terminator, ReadOutcome};
use crate::text::{
    decimal_text, is_white_space, is_digit, lemma_decimal_round_trip, lemma_find_char_at,
    lemma_skip_white_space_at, lemma_word_end_at, word_end, skip_white_space, chars_of, find_char, find_char_exec, first_line_end, first_line_end_exec, next_word,
    next_word_exec, parse_unsigned, parse_unsigned_exec, range_equals, string_of,
};
use crate::AppConfig;

verus! {

/// Where buffering a CONNECT request stands before the next read.
#[derive(Debug)]
pub enum ConnectHead {
    /// The request head is complete.
    Complete,
    /// The head is too long; the tunnel is refused with this failure.
    TooLarge(ProxyError),
    /// More bytes are needed.
    NeedMore,
}

/// Checks a buffered CONNECT request before reading more: complete once it
/// holds the blank line that ends the head; refused once it has grown past
/// 4 KiB without one.
pub fn connect_head_status(buffer: &Vec<u8>) -> (r: ConnectHead)
    ensures
        has_head_terminator(buffer@) ==> r is Complete,
        !has_head_terminator(buffer@) && buffer@.len() > 4096 ==> (r matches ConnectHead::TooLarge(
            e,
        ) && e.is(
            FailureKind::InvalidData,
            "Inbound HTTP CONNECT target payload breached header line safety margins"@,
        )),
        !has_head_terminator(buffer@) && buffer@.len() <= 4096 ==> r is NeedMore,
{
    if contains_head_terminator(buffer) {
        ConnectHead::Complete
    } else if buffer.len() > 4096 {
        ConnectHead::TooLarge(
            ProxyError::new(
                FailureKind::InvalidData,
                "Inbound HTTP CONNECT target payload breached header line safety margins",
            ),
        )
    } else {
        ConnectHead::NeedMore
    }
}

/// Takes in one read while a CONNECT request is being buffered: bytes are
/// appended; a close or a time-out ends the tunnel with a failure.
pub fn absorb_connect_read(buffer: &mut Vec<u8>, outcome: ReadOutcome) -> (r: Result<(), ProxyError>)
    ensures
        outcome matches ReadOutcome::Data(d) ==> r is Ok && final(buffer)@ == old(buffer)@ + d@,
        outcome is Closed ==> final(buffer)@ == old(buffer)@ && (r matches Err(e) && e.is(
            FailureKind::UnexpectedEof,
            "Early client EOF during proxy tunnel allocation request"@,
        )),
        outcome is TimedOut ==> final(buffer)@ == old(buffer)@ && (r matches Err(e) && e.is(
            FailureKind::TimedOut,
            "CONNECT sequence buffer timeout"@,
        )),
{
    match outcome {
        ReadOutcome::Data(d) => {
            append_bytes(buffer, d.as_slice());
            Ok(())
        },
        ReadOutcome::Closed => Err(
            ProxyError::new(
                FailureKind::UnexpectedEof,
                "Early client EOF during proxy tunnel allocation request",
            ),
        ),
        ReadOutcome::TimedOut => Err(
            ProxyError::new(FailureKind::TimedOut, "CONNECT sequence buffer timeout"),
        ),
    }
}

/// The host and port named by the target word `t[a..b]` of a CONNECT
/// request: split at the first colon, the port read as a 16-bit number and
/// 443 when it is missing or unreadable.
pub open spec fn connect_host_port(t: Seq<char>, a: int, b: int) -> (Seq<char>, nat) {
    let c = find_char(t, a, b, ':');
    if c < b {
        (
            t.subrange(a, c),
            match parse_unsigned(t.subrange(c + 1, b), 65535) {
                Some(p) => p,
                None => 443,
            },
        )
    } else {
        (t.subrange(a, b), 443)
    }
}

/// The target of a CONNECT request, or the message it is refused with: the
/// bytes must be UTF-8; the first line must hold a method and a target word;
/// the method must be `CONNECT`; and the host part of the target must not be
/// empty.
pub open spec fn connect_target(data: Seq<u8>) -> Result<(Seq<char>, nat), Seq<char>> {
    if !valid_utf8(data) {
        Err("CONNECT request is not valid UTF-8"@)
    } else {
        let t = decode_utf8(data);
        let e = first_line_end(t);
        if t.len() == 0 {
            Err("Empty CONNECT request"@)
        } else {
            match next_word(t, 0, e) {
                None => Err("CONNECT request is missing target host:port"@),
                Some((ma, mb)) => match next_word(t, mb, e) {
                    None => Err("CONNECT request is missing target host:port"@),
                    Some((ta, tb)) => if t.subrange(ma, mb) != "CONNECT"@ {
                        Err("Expected CONNECT method"@)
                    } else {
                        let hp = connect_host_port(t, ta, tb);
                        if hp.0.len() == 0 {
                            Err("CONNECT target host is empty"@)
                        } else {
                            Ok(hp)
                        }
                    },
                },
            }
        }
    }
}

/// Reads the `host:port` target from the first line of a CONNECT request.
pub fn parse_connect_target(initial_data: &[u8]) -> (r: Result<(String, u16), ProxyError>)
    ensures
        match r {
            Ok((host, port)) => connect_target(initial_data@) == Ok::<_, Seq<char>>(
                (host@, port as nat),
            ),
            Err(e) => e.kind == FailureKind::InvalidData && connect_target(initial_data@) == Err::<
                (Seq<char>, nat),
                _,
            >(e.message@),
        },
{
    let text = match crate::text::utf8_text(initial_data) {
        Some(t) => t,
        None => {
            return Err(
                ProxyError::new(FailureKind::InvalidData, "CONNECT request is not valid UTF-8"),
            );
        },
    };
    let chars = chars_of(text);
    let ghost t = chars@;
    if chars.len() == 0 {
        return Err(ProxyError::new(FailureKind::InvalidData, "Empty CONNECT request"));
    }
    let e = first_line_end_exec(&chars);
    let (ma, mb) = match next_word_exec(&chars, 0, e) {
        Some(w) => w,
        None => {
            return Err(
                ProxyError::new(
                    FailureKind::InvalidData,
                    "CONNECT request is missing target host:port",
                ),
            );
        },
    };
    let (ta, tb) = match next_word_exec(&chars, mb, e) {
        Some(w) => w,
        None => {
            return Err(
                ProxyError::new(
                    FailureKind::InvalidData,
                    "CONNECT request is missing target host:port",
                ),
            );
        },
    };
    let method = chars_of("CONNECT");
    if !range_equals(&chars, ma, mb, &method) {
        return Err(ProxyError::new(FailureKind::InvalidData, "Expected CONNECT method"));
    }
    let c = find_char_exec(&chars, ta, tb, ':');
    let host_end = if c < tb {
        c
    } else {
        tb
    };
    if host_end == ta {
        return Err(ProxyError::new(FailureKind::InvalidData, "CONNECT target host is empty"));
    }
    let (host, port) = if c < tb {
        let port: u16 = match parse_unsigned_exec(&chars, c + 1, tb, 65535) {
            Some(p) => p as u16,
            None => 443,
        };
        (string_of(&chars, ta, c), port)
    } else {
        (string_of(&chars, ta, tb), 443u16)
    };
    Ok((host, port))
}

/// Whether `h` can be the host of a CONNECT target: not empty, with no colon
/// and no white space.
pub open spec fn plain_host(h: Seq<char>) -> bool {
    &&& h.len() > 0
    &&& forall|k: int| 0 <= k < h.len() ==> #[trigger] h[k] != ':' && !is_white_space(h[k])
}

/// The UTF-8 bytes of `CONNECT <host>:<port> HTTP/1.1`, its blank line
/// included, with the port written in decimal.
pub open spec fn connect_request_bytes(host: Seq<char>, port: u16) -> Seq<u8> {
    encode_utf8("CONNECT "@ + host + ":"@ + decimal_text(port as nat) + " HTTP/1.1\r\n\r\n"@)
}

/// A CONNECT request for any plain host and any 16-bit port is read back as
/// that host and that port.
pub proof fn lemma_connect_target_reads_request(host: Seq<char>, port: u16)
    requires
        plain_host(host),
    ensures
        connect_target(connect_request_bytes(host, port)) == Ok::<(Seq<char>, nat), Seq<char>>(
            (host, port as nat),
        ),
{
    reveal_strlit("CONNECT ");
    reveal_strlit(":");
    reveal_strlit(" HTTP/1.1\r\n\r\n");
    reveal_strlit("CONNECT");
    let d = decimal_text(port as nat);
    lemma_decimal_round_trip(port as nat, 65535);
    let head = "CONNECT "@;
    let colon = ":"@;
    let tail = " HTTP/1.1\r\n\r\n"@;
    assert(head.len() == 8 && colon.len() == 1 && tail.len() == 13);
    let t = head + host + colon + d + tail;
    vstd::utf8::encode_utf8_valid_utf8(t);
    vstd::utf8::encode_utf8_decode_utf8(t);
    assert(valid_utf8(connect_request_bytes(host, port)));
    assert(decode_utf8(connect_request_bytes(host, port)) == t);
    let hl = host.len() as int;
    let dl = d.len() as int;
    let c = 8 + hl;
    let b = c + 1 + dl;
    let nl = b + 10;
    assert(t.len() == b + 13);
    assert forall|k: int| 0 <= k < 8 implies #[trigger] t[k] == head[k] by {}
    assert forall|k: int| 8 <= k < c implies #[trigger] t[k] == host[k - 8] by {}
    assert(t[c] == ':');
    assert forall|k: int| c + 1 <= k < b implies #[trigger] t[k] == d[k - c - 1] by {}
    assert forall|k: int| b <= k < t.len() implies #[trigger] t[k] == tail[k - b] by {}
    assert(forall|k: int| 0 <= k < dl ==> is_digit(#[trigger] d[k]));
    // the first line ends before the carriage return of the request line
    assert forall|k: int| 0 <= k < nl implies #[trigger] t[k] != '\n' by {
        if 8 <= k < c {
            assert(!is_white_space(host[k - 8]));
        } else if c + 1 <= k < b {
            assert(is_digit(d[k - c - 1]));
        }
    }
    assert(t[nl] == '\n');
    lemma_find_char_at(t, 0, nl, t.len() as int, '\n');
    assert(t[nl - 1] == '\r');
    let e = nl - 1;
    assert(first_line_end(t) == e);
    // the method word
    lemma_skip_white_space_at(t, 0, 0, e);
    assert forall|k: int| 0 <= k < 7 implies !is_white_space(#[trigger] t[k]) by {}
    assert(is_white_space(t[7]));
    lemma_word_end_at(t, 0, 7, e);
    assert(next_word(t, 0, e) == Some((0int, 7int)));
    assert(t.subrange(0, 7) =~= "CONNECT"@);
    // the target word
    assert forall|k: int| 7 <= k < 8 implies is_white_space(#[trigger] t[k]) by {}
    assert(!is_white_space(t[8]));
    lemma_skip_white_space_at(t, 7, 8, e);
    assert forall|k: int| 8 <= k < b implies !is_white_space(#[trigger] t[k]) by {
        if k < c {
            assert(!is_white_space(host[k - 8]));
        } else if k > c {
            assert(is_digit(d[k - c - 1]));
        }
    }
    assert(is_white_space(t[b]));
    lemma_word_end_at(t, 8, b, e);
    assert(next_word(t, 7, e) == Some((8int, b)));
    // host and port
    assert forall|k: int| 8 <= k < c implies #[trigger] t[k] != ':' by {
        assert(host[k - 8] != ':');
    }
    lemma_find_char_at(t, 8, c, b, ':');
    assert(t.subrange(8, c) =~= host);
    assert(t.subrange(c + 1, b) =~= d);
}

/// The payload length a TLS record header declares (its last two bytes, high
/// byte first); a record claiming more than 16 KiB is refused.
pub fn tls_payload_length(header: &[u8]) -> (r: Result<usize, ProxyError>)
    requires
        header@.len() == 5,
    ensures
        header@[3] as nat * 256 + header@[4] as nat <= 16384 ==> r == Ok::<usize, ProxyError>(
            (header@[3] as nat * 256 + header@[4] as nat) as usize,
        ),
        header@[3] as nat * 256 + header@[4] as nat > 16384 ==> (r matches Err(e) && e.is(
            FailureKind::InvalidData,
            "TLS record payload exceeded maximum allowed size"@,
        )),
{
    let len: usize = (header[3] as usize) * 256 + (header[4] as usize);
    if len > 16384 {
        Err(
            ProxyError::new(
                FailureKind::InvalidData,
                "TLS record payload exceeded maximum allowed size",
            ),
        )
    } else {
        Ok(len)
    }
}

/// The fragments a ClientHello (its five-byte record header and its payload)
/// is sent upstream in: re-framed as several TLS records when the settings
/// ask for that, cut blindly otherwise; `fragmentation_size` bytes each.
pub open spec fn client_hello_fragments_spec(
    header: Seq<u8>,
    payload: Seq<u8>,
    tls_records: bool,
    size: nat,
) -> Seq<Seq<u8>> {
    if tls_records {
        tls_fragments(header + payload, size)
    } else {
        chunks_of(header + payload, size)
    }
}

/// Joins a ClientHello's header and payload and fragments the record as the
/// settings ask.
pub fn client_hello_fragments(header: &[u8], payload: &[u8], config: &AppConfig) -> (r: Vec<
    Vec<u8>,
>)
    requires
        config.fragmentation_size > 0 || (config.tls_record_fragmentation && header@.len()
            + payload@.len() <= 5) || header@.len() + payload@.len() == 0,
    ensures
        views(r@) == client_hello_fragments_spec(
            header@,
            payload@,
            config.tls_record_fragmentation,
            config.fragmentation_size as nat,
        ),
{
    let mut record: Vec<u8> = Vec::new();
    append_bytes(&mut record, header);
    append_bytes(&mut record, payload);
    if config.tls_record_fragmentation {
        tls_record_fragmentation(&record, config.fragmentation_size)
    } else {
        buffer_to_chunks(&record, config.fragmentation_size)
    }
}

} // verus!
