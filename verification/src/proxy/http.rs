//! Plain HTTP: parsing the request head with `httparse` and finding the
//! upstream host from its `Host` header.

use vstd::prelude::*;
use vstd::utf8::*;

use crate::error::{FailureKind, ProxyError};
use crate::proxy::handler::{append_bytes, ReadOutcome};
use crate::text::{
    decimal_text, is_white_space, lemma_decimal_round_trip, lemma_find_char_at,
    lemma_skip_white_space_at, trim_end, chars_of, copy_chars, eq_ignore_ascii_case, eq_ignore_ascii_case_exec, find_char,
    find_char_exec, parse_unsigned, parse_unsigned_exec, trimmed, trimmed_string, utf8_text,
};

verus! {

/// One parsed header: its name and its raw value.
#[derive(Debug)]
pub struct HeaderField {
    pub name: String,
    pub value: Vec<u8>,
}

impl View for HeaderField {
    type V = (Seq<char>, Seq<u8>);

    open spec fn view(&self) -> (Seq<char>, Seq<u8>) {
        (self.name@, self.value@)
    }
}

/// The names and values of `h`.
pub open spec fn header_views(h: Seq<HeaderField>) -> Seq<(Seq<char>, Seq<u8>)> {
    h.map_values(|f: HeaderField| f@)
}

/// What parsing a request head gave: the headers of a complete head, or the
/// news that the head is not complete yet.
#[derive(Debug)]
pub enum RequestHead {
    Complete(Vec<HeaderField>),
    Partial,
}

/// A parse result as values: the headers of a complete head, `None` for an
/// incomplete one, or the parser's error message.
pub open spec fn request_head_view(r: Result<RequestHead, String>) -> Result<
    Option<Seq<(Seq<char>, Seq<u8>)>>,
    Seq<char>,
> {
    match r {
        Ok(RequestHead::Complete(h)) => Ok(Some(header_views(h@))),
        Ok(RequestHead::Partial) => Ok(None),
        Err(m) => Err(m@),
    }
}

/// What `httparse::Request::parse` makes of `buf` with room for `max_headers`
/// headers: the headers when the head is complete, `None` when more bytes
/// are needed, or the message of the error it reports.
pub uninterp spec fn httparse_request(buf: Seq<u8>, max_headers: nat) -> Result<
    Option<Seq<(Seq<char>, Seq<u8>)>>,
    Seq<char>,
>;

/// `httparse::Request::parse` on `buf`, with room for `max_headers` headers;
/// the result is `httparse_request` of the same arguments, converted to
/// owned values.
#[verifier::external_body]
fn parse_request_head(buf: &[u8], max_headers: usize) -> (r: Result<RequestHead, String>)
    ensures
        request_head_view(r) == httparse_request(buf@, max_headers as nat),
{
    let mut headers = vec![httparse::EMPTY_HEADER; max_headers];
    let mut req = httparse::Request::new(&mut headers);
    match req.parse(buf) {
        Ok(httparse::Status::Complete(_)) => Ok(RequestHead::Complete(
            req.headers.iter().map(|h| HeaderField { name: h.name.to_string(), value: h.value.to_vec() }).collect(),
        )),
        Ok(httparse::Status::Partial) => Ok(RequestHead::Partial),
        Err(e) => Err(e.to_string()),
    }
}

/// The upstream host and port a `Host` header value names: the value must be
/// UTF-8; it is split at its first colon, the host part trimmed of white
/// space and the rest read as a 16-bit port, 80 when it is missing or
/// unreadable.
pub open spec fn host_value_target(v: Seq<u8>) -> Result<(Seq<char>, nat), Seq<char>> {
    if !valid_utf8(v) {
        Err("Host header contains invalid UTF-8"@)
    } else {
        let t = decode_utf8(v);
        let c = find_char(t, 0, t.len() as int, ':');
        if c < t.len() {
            Ok(
                (
                    trimmed(t.subrange(0, c)),
                    match parse_unsigned(t.subrange(c + 1, t.len() as int), 65535) {
                        Some(p) => p,
                        None => 80,
                    },
                ),
            )
        } else {
            Ok((trimmed(t), 80))
        }
    }
}

/// The upstream target of a plain HTTP request: read from the first header
/// named `Host` in any ASCII case; refused when there is none.
pub open spec fn host_target(headers: Seq<(Seq<char>, Seq<u8>)>) -> Result<
    (Seq<char>, nat),
    Seq<char>,
>
    decreases headers.len(),
{
    if headers.len() == 0 {
        Err("No Host header found in HTTP request"@)
    } else if eq_ignore_ascii_case(headers[0].0, "host"@) {
        host_value_target(headers[0].1)
    } else {
        host_target(headers.drop_first())
    }
}

/// A `Host` value `<host>:<port>`, with the port in decimal, names that host
/// and port for every 16-bit port; a value without a colon names the host on
/// port 80. The host here is any non-empty text with no colon and no white
/// space.
pub proof fn lemma_host_value_reads_host_and_port(host: Seq<char>, port: u16)
    requires
        host.len() > 0,
        forall|k: int| 0 <= k < host.len() ==> #[trigger] host[k] != ':' && !is_white_space(
            host[k],
        ),
    ensures
        host_value_target(encode_utf8(host + ":"@ + decimal_text(port as nat))) == Ok::<
            (Seq<char>, nat),
            Seq<char>,
        >((host, port as nat)),
        host_value_target(encode_utf8(host)) == Ok::<(Seq<char>, nat), Seq<char>>((host, 80)),
{
    reveal_strlit(":");
    let d = decimal_text(port as nat);
    lemma_decimal_round_trip(port as nat, 65535);
    let t = host + ":"@ + d;
    encode_utf8_valid_utf8(t);
    encode_utf8_decode_utf8(t);
    encode_utf8_valid_utf8(host);
    encode_utf8_decode_utf8(host);
    let hl = host.len() as int;
    assert(t[hl] == ':');
    assert forall|k: int| 0 <= k < hl implies #[trigger] t[k] != ':' by {
        assert(t[k] == host[k]);
    }
    lemma_find_char_at(t, 0, hl, t.len() as int, ':');
    assert(t.subrange(0, hl) =~= host);
    assert(t.subrange(hl + 1, t.len() as int) =~= d);
    lemma_find_char_at(host, 0, hl, hl, ':');
    lemma_skip_white_space_at(host, 0, 0, hl);
    assert(trim_end(host, 0, hl) == hl);
    assert(host.subrange(0, hl) =~= host);
    assert(trimmed(host) == host);
}

/// Reads the upstream host and port from a `Host` header value.
fn parse_host_value(value: &Vec<u8>) -> (r: Result<(String, u16), ProxyError>)
    ensures
        match r {
            Ok((host, port)) => host_value_target(value@) == Ok::<_, Seq<char>>(
                (host@, port as nat),
            ),
            Err(e) => e.kind == FailureKind::InvalidData && host_value_target(value@) == Err::<
                (Seq<char>, nat),
                _,
            >(e.message@),
        },
{
    let text = match utf8_text(value.as_slice()) {
        Some(t) => t,
        None => {
            return Err(
                ProxyError::new(FailureKind::InvalidData, "Host header contains invalid UTF-8"),
            );
        },
    };
    let chars = chars_of(text);
    let len = chars.len();
    let c = find_char_exec(&chars, 0, len, ':');
    if c < len {
        let host_part = copy_chars(&chars, 0, c);
        let port: u16 = match parse_unsigned_exec(&chars, c + 1, len, 65535) {
            Some(p) => p as u16,
            None => 80,
        };
        Ok((trimmed_string(&host_part), port))
    } else {
        proof {
            assert(chars@.subrange(0, len as int) =~= chars@);
        }
        Ok((trimmed_string(&chars), 80))
    }
}

/// Finds the upstream host and port of a plain HTTP request in its headers.
pub fn parse_host_header(headers: &Vec<HeaderField>) -> (r: Result<(String, u16), ProxyError>)
    ensures
        match r {
            Ok((host, port)) => host_target(header_views(headers@)) == Ok::<_, Seq<char>>(
                (host@, port as nat),
            ),
            Err(e) => e.kind == FailureKind::InvalidData && host_target(header_views(headers@))
                == Err::<(Seq<char>, nat), _>(e.message@),
        },
{
    let host_word = chars_of("host");
    let mut i: usize = 0;
    assert(header_views(headers@).skip(0) =~= header_views(headers@));
    while i < headers.len()
        invariant
            i <= headers.len(),
            host_word@ == "host"@,
            host_target(header_views(headers@)) == host_target(header_views(headers@).skip(i as int)),
        decreases headers.len() - i,
    {
        let ghost rest = header_views(headers@).skip(i as int);
        let name = chars_of(headers[i].name.as_str());
        assert(rest[0] == headers@[i as int]@);
        assert(name@.subrange(0, name@.len() as int) =~= name@);
        if eq_ignore_ascii_case_exec(&name, 0, name.len(), &host_word) {
            return parse_host_value(&headers[i].value);
        }
        assert(rest.drop_first() =~= header_views(headers@).skip(i + 1));
        i = i + 1;
    }
    Err(ProxyError::new(FailureKind::InvalidData, "No Host header found in HTTP request"))
}

/// Where reading a plain HTTP request head stands.
#[derive(Debug)]
pub enum HttpHead {
    /// The head is complete and names this upstream host and port.
    Target(String, u16),
    /// More bytes are needed.
    NeedMore,
    /// The request is refused with this failure.
    Failed(ProxyError),
}

/// An `HttpHead` as values.
pub open spec fn http_head_view(h: HttpHead) -> Result<Option<(Seq<char>, nat)>, (FailureKind, Seq<char>)> {
    match h {
        HttpHead::Target(host, port) => Ok(Some((host@, port as nat))),
        HttpHead::NeedMore => Ok(None),
        HttpHead::Failed(e) => Err((e.kind, e.message@)),
    }
}

/// What a parse of the buffered head (`parsed`, as `request_head_view`
/// gives it) means once `buffered` bytes are held: a complete head yields
/// the target of its `Host` header; an incomplete one asks for more bytes
/// unless more than 8 KiB are already held; a parser error refuses the
/// request with the parser's message.
pub open spec fn http_head_decision(
    parsed: Result<Option<Seq<(Seq<char>, Seq<u8>)>>, Seq<char>>,
    buffered: nat,
) -> Result<Option<(Seq<char>, nat)>, (FailureKind, Seq<char>)> {
    match parsed {
        Ok(Some(h)) => match host_target(h) {
            Ok(t) => Ok(Some(t)),
            Err(m) => Err((FailureKind::InvalidData, m)),
        },
        Ok(None) => if buffered > 8192 {
            Err(
                (
                    FailureKind::InvalidData,
                    "HTTP header metrics breached maximum allowed ceiling (8KB limit)"@,
                ),
            )
        } else {
            Ok(None)
        },
        Err(m) => Err((FailureKind::InvalidData, "Failed to parse HTTP request: "@ + m)),
    }
}

/// Decides what a parse of the buffered request head means.
pub fn decide_http_head(parsed: Result<RequestHead, String>, buffered: usize) -> (r: HttpHead)
    ensures
        http_head_view(r) == http_head_decision(request_head_view(parsed), buffered as nat),
{
    match parsed {
        Ok(RequestHead::Complete(headers)) => match parse_host_header(&headers) {
            Ok((host, port)) => HttpHead::Target(host, port),
            Err(e) => HttpHead::Failed(e),
        },
        Ok(RequestHead::Partial) => {
            if buffered > 8192 {
                HttpHead::Failed(
                    ProxyError::new(
                        FailureKind::InvalidData,
                        "HTTP header metrics breached maximum allowed ceiling (8KB limit)",
                    ),
                )
            } else {
                HttpHead::NeedMore
            }
        },
        Err(m) => {
            let mut message = "Failed to parse HTTP request: ".to_owned();
            message.append(m.as_str());
            HttpHead::Failed(ProxyError { kind: FailureKind::InvalidData, message })
        },
    }
}

/// Parses the buffered request head (with room for 64 headers) and decides
/// what it means.
pub fn http_head_step(buffer: &Vec<u8>) -> (r: HttpHead)
    ensures
        http_head_view(r) == http_head_decision(httparse_request(buffer@, 64), buffer@.len()),
{
    let parsed = parse_request_head(buffer.as_slice(), 64);
    decide_http_head(parsed, buffer.len())
}

/// Takes in one read while a plain HTTP head is being buffered: bytes are
/// appended; a close or a time-out ends the request with a failure.
pub fn absorb_http_read(buffer: &mut Vec<u8>, outcome: ReadOutcome) -> (r: Result<(), ProxyError>)
    ensures
        outcome matches ReadOutcome::Data(d) ==> r is Ok && final(buffer)@ == old(buffer)@ + d@,
        outcome is Closed ==> final(buffer)@ == old(buffer)@ && (r matches Err(e) && e.is(
            FailureKind::UnexpectedEof,
            "Early client EOF during HTTP header acquisition"@,
        )),
        outcome is TimedOut ==> final(buffer)@ == old(buffer)@ && (r matches Err(e) && e.is(
            FailureKind::TimedOut,
            "HTTP header read timeout"@,
        )),
{
    match outcome {
        ReadOutcome::Data(d) => {
            append_bytes(buffer, d.as_slice());
            Ok(())
        },
        ReadOutcome::Closed => Err(
            ProxyError::new(
                FailureKind::UnexpectedEof,
                "Early client EOF during HTTP header acquisition",
            ),
        ),
        ReadOutcome::TimedOut => Err(
            ProxyError::new(FailureKind::TimedOut, "HTTP header read timeout"),
        ),
    }
}

} // verus!
