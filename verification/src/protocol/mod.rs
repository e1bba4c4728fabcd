//! Recognition of application protocols by the first bytes of a connection.

use vstd::prelude::*;
use vstd::utf8::encode_utf8;

use crate::bytes;
use crate::common::error::InterlinkError;

pub mod laws;

verus! {

/// The application-layer protocol of a connection.
///
/// Detection happens after TLS termination, on the plaintext inside the tunnel.
#[derive(Debug, Clone, Copy, PartialEq, Eq, Structural)]
pub enum DetectedProtocol {
    Http11,
    Http2,
    Tcp,
}

/// Recognises protocols (RFC 9113 §3.4, RFC 9112 §3):
/// - the connection preface `PRI * HTTP/2.0` is HTTP/2
/// - GET/POST/PUT/DELETE/HEAD/PATCH/OPTIONS/TRACE/CONNECT and a space is HTTP/1.1
/// - everything else is raw TCP
pub struct ProtocolDetector;

/// Whether the bytes open with a request method and a space.
pub open spec fn opens_with_method(buf: Seq<u8>) -> bool {
    ||| bytes::opens_with(buf, "GET "@)
    ||| bytes::opens_with(buf, "POST "@)
    ||| bytes::opens_with(buf, "PUT "@)
    ||| bytes::opens_with(buf, "DELETE "@)
    ||| bytes::opens_with(buf, "HEAD "@)
    ||| bytes::opens_with(buf, "PATCH "@)
    ||| bytes::opens_with(buf, "OPTIONS "@)
    ||| bytes::opens_with(buf, "TRACE "@)
    ||| bytes::opens_with(buf, "CONNECT "@)
}

/// The protocol that the first bytes of a connection speak. Fewer than eight decide nothing.
pub open spec fn protocol_of(buf: Seq<u8>) -> DetectedProtocol {
    if buf.len() < 8 {
        DetectedProtocol::Tcp
    } else if bytes::opens_with(buf, "PRI * HTTP/2.0"@) {
        DetectedProtocol::Http2
    } else if opens_with_method(buf) {
        DetectedProtocol::Http11
    } else {
        DetectedProtocol::Tcp
    }
}

impl ProtocolDetector {
    /// Detects the protocol from the first bytes of plaintext.
    pub fn detect(buf: &[u8]) -> (protocol: DetectedProtocol)
        ensures
            protocol == protocol_of(buf@),
    {
        if buf.len() < 8 {
            return DetectedProtocol::Tcp;
        }
        if bytes::open_with(buf, "PRI * HTTP/2.0") {
            return DetectedProtocol::Http2;
        }
        if bytes::open_with(buf, "GET ") || bytes::open_with(buf, "POST ") || bytes::open_with(
            buf,
            "PUT ",
        ) || bytes::open_with(buf, "DELETE ") || bytes::open_with(buf, "HEAD ")
            || bytes::open_with(buf, "PATCH ") || bytes::open_with(buf, "OPTIONS ")
            || bytes::open_with(buf, "TRACE ") || bytes::open_with(buf, "CONNECT ") {
            return DetectedProtocol::Http11;
        }
        DetectedProtocol::Tcp
    }
}

/// A method token: upper-case letters and `-`, at least one.
pub open spec fn method_token(method: Seq<u8>) -> bool {
    &&& method.len() > 0
    &&& forall|i: int|
        0 <= i < method.len() ==> 0x41 <= #[trigger] method[i] <= 0x5a || method[i] == 0x2d
}

/// The HTTP version of a request line, which may carry the carriage return that ends the line.
pub open spec fn supported_version(version: Seq<u8>) -> bool {
    let bare = if version.len() > 0 && version.last() == 0x0d {
        version.drop_last()
    } else {
        version
    };
    bare == encode_utf8("HTTP/1.0"@) || bare == encode_utf8("HTTP/1.1"@)
}

/// The error text for a request line `method SP request-target SP HTTP-version`, if it is
/// malformed.
pub open spec fn request_line_fault(line: Seq<u8>) -> Option<Seq<char>> {
    let first = bytes::first_byte(line, 0x20);
    let rest = line.skip(first + 1);
    let second = bytes::first_byte(rest, 0x20);
    if first == line.len() || second == rest.len() {
        Some("invalid request-line: need 3 parts"@)
    } else if !method_token(line.take(first)) {
        Some("invalid method token"@)
    } else if second == 0 {
        Some("empty request-target"@)
    } else if !supported_version(rest.skip(second + 1)) {
        Some("unsupported HTTP version"@)
    } else {
        None
    }
}

/// Checks that an HTTP/1.1 request line is well-formed per RFC 9112 §3.
pub fn validate_http11_request_line(line: &[u8]) -> (result: Result<(), InterlinkError>)
    ensures
        match request_line_fault(line@) {
            None => result is Ok,
            Some(message) => result matches Err(InterlinkError::Protocol(m)) && m@ == message,
        },
{
    assert(line@.skip(0) =~= line@);
    let first: usize = bytes::find_byte(line, 0, 0x20);
    if first == line.len() {
        return Err(protocol_error("invalid request-line: need 3 parts"));
    }
    let second: usize = bytes::find_byte(line, first + 1, 0x20);
    if second == line.len() {
        return Err(protocol_error("invalid request-line: need 3 parts"));
    }
    let ghost rest = line@.skip(first + 1);
    assert(line@.subrange(0, first as int) =~= line@.take(first as int));
    if !is_method_token(line, first) {
        return Err(protocol_error("invalid method token"));
    }
    if second == first + 1 {
        return Err(protocol_error("empty request-target"));
    }
    let ghost version = rest.skip(second - first);
    assert(version =~= line@.subrange(second + 1, line@.len() as int));
    let end: usize = if second + 1 < line.len() && line[line.len() - 1] == 0x0d {
        line.len() - 1
    } else {
        line.len()
    };
    proof {
        if second + 1 < line@.len() {
            assert(version.last() == line@[line@.len() - 1]);
        }
        if end < line@.len() {
            assert(version.drop_last() =~= line@.subrange(second + 1, end as int));
        }
    }
    if !bytes::spells(line, second + 1, end, "HTTP/1.0") && !bytes::spells(
        line,
        second + 1,
        end,
        "HTTP/1.1",
    ) {
        return Err(protocol_error("unsupported HTTP version"));
    }
    Ok(())
}

fn protocol_error(message: &str) -> (error: InterlinkError)
    ensures
        error matches InterlinkError::Protocol(m) && m@ == message@,
{
    InterlinkError::Protocol(message.to_owned())
}

/// Whether the bytes before `end` are a method token.
fn is_method_token(line: &[u8], end: usize) -> (r: bool)
    requires
        end <= line@.len(),
    ensures
        r == method_token(line@.take(end as int)),
{
    let ghost method = line@.take(end as int);
    if end == 0 {
        return false;
    }
    let mut i: usize = 0;
    while i < end
        invariant
            i <= end <= line@.len(),
            method == line@.take(end as int),
            forall|j: int|
                0 <= j < i ==> 0x41 <= #[trigger] method[j] <= 0x5a || method[j] == 0x2d,
        decreases end - i,
    {
        let b: u8 = line[i];
        assert(method[i as int] == b);
        if !(0x41 <= b && b <= 0x5a || b == 0x2d) {
            return false;
        }
        i = i + 1;
    }
    true
}

} // verus!
