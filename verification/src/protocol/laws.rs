//! What is recognised as a protocol, and what is a request line.

use vstd::prelude::*;
use vstd::utf8::encode_utf8;

use crate::bytes;
use crate::common::error::InterlinkError;
use crate::protocol;
use crate::protocol::{DetectedProtocol, ProtocolDetector};

verus! {

/// Whether bytes are those of a text and some more.
pub open spec fn begins_with(buf: Seq<u8>, head: Seq<char>) -> bool {
    exists|rest: Seq<u8>| buf == #[trigger] (encode_utf8(head) + rest)
}

proof fn lemma_begins_with(buf: Seq<u8>, head: Seq<char>)
    ensures
        begins_with(buf, head) == bytes::opens_with(buf, head),
{
    let n = encode_utf8(head).len() as int;
    if bytes::opens_with(buf, head) {
        assert(buf =~= encode_utf8(head) + buf.skip(n));
    }
    if begins_with(buf, head) {
        let rest = choose|rest: Seq<u8>| buf == #[trigger] (encode_utf8(head) + rest);
        assert(buf.take(n) =~= encode_utf8(head));
    }
}

/// Bytes that begin with the preface of HTTP/2 are HTTP/2, and bytes that begin with a method and a
/// space are HTTP/1.1, if there are at least eight. All else is TCP.
pub proof fn law_protocols_are_recognised_by_their_first_bytes(
    buf: &[u8],
    protocol: DetectedProtocol,
)
    requires
        call_ensures(ProtocolDetector::detect, (buf,), protocol),
    ensures
        buf@.len() < 8 ==> protocol is Tcp,
        protocol is Http2 <==> begins_with(buf@, "PRI * HTTP/2.0"@),
        protocol is Http11 <==> buf@.len() >= 8 && (begins_with(buf@, "GET "@) || begins_with(
            buf@,
            "POST "@,
        ) || begins_with(buf@, "PUT "@) || begins_with(buf@, "DELETE "@) || begins_with(
            buf@,
            "HEAD "@,
        ) || begins_with(buf@, "PATCH "@) || begins_with(buf@, "OPTIONS "@) || begins_with(
            buf@,
            "TRACE "@,
        ) || begins_with(buf@, "CONNECT "@)),
{
    reveal_strlit("PRI * HTTP/2.0");
    reveal_strlit("GET ");
    reveal_strlit("POST ");
    reveal_strlit("PUT ");
    reveal_strlit("DELETE ");
    reveal_strlit("HEAD ");
    reveal_strlit("PATCH ");
    reveal_strlit("OPTIONS ");
    reveal_strlit("TRACE ");
    reveal_strlit("CONNECT ");
    vstd::utf8::is_ascii_chars_encode_utf8("PRI * HTTP/2.0"@);
    vstd::utf8::is_ascii_chars_encode_utf8("GET "@);
    vstd::utf8::is_ascii_chars_encode_utf8("POST "@);
    vstd::utf8::is_ascii_chars_encode_utf8("PUT "@);
    vstd::utf8::is_ascii_chars_encode_utf8("DELETE "@);
    vstd::utf8::is_ascii_chars_encode_utf8("HEAD "@);
    vstd::utf8::is_ascii_chars_encode_utf8("PATCH "@);
    vstd::utf8::is_ascii_chars_encode_utf8("OPTIONS "@);
    vstd::utf8::is_ascii_chars_encode_utf8("TRACE "@);
    vstd::utf8::is_ascii_chars_encode_utf8("CONNECT "@);
    lemma_begins_with(buf@, "PRI * HTTP/2.0"@);
    lemma_begins_with(buf@, "GET "@);
    lemma_begins_with(buf@, "POST "@);
    lemma_begins_with(buf@, "PUT "@);
    lemma_begins_with(buf@, "DELETE "@);
    lemma_begins_with(buf@, "HEAD "@);
    lemma_begins_with(buf@, "PATCH "@);
    lemma_begins_with(buf@, "OPTIONS "@);
    lemma_begins_with(buf@, "TRACE "@);
    lemma_begins_with(buf@, "CONNECT "@);
    if bytes::opens_with(buf@, "PRI * HTTP/2.0"@) {
        assert(buf@.take(14)[1] == 0x52);
        assert(buf@.take(14)[0] == 0x50);
        lemma_second_byte(buf@, "GET "@);
        lemma_second_byte(buf@, "POST "@);
        lemma_second_byte(buf@, "PUT "@);
        lemma_second_byte(buf@, "DELETE "@);
        lemma_second_byte(buf@, "HEAD "@);
        lemma_second_byte(buf@, "PATCH "@);
        lemma_second_byte(buf@, "OPTIONS "@);
        lemma_second_byte(buf@, "TRACE "@);
        lemma_second_byte(buf@, "CONNECT "@);
    }
}

proof fn lemma_second_byte(buf: Seq<u8>, head: Seq<char>)
    requires
        encode_utf8(head).len() >= 2,
    ensures
        bytes::opens_with(buf, head) ==> buf[0] == encode_utf8(head)[0] && buf[1] == encode_utf8(
            head,
        )[1],
{
    let n = encode_utf8(head).len() as int;
    if n <= buf.len() {
        assert(buf.take(n)[0] == buf[0]);
        assert(buf.take(n)[1] == buf[1]);
    }
}

/// Whether bytes are without a space.
pub open spec fn lacks_space(s: Seq<u8>) -> bool {
    forall|i: int| 0 <= i < s.len() ==> #[trigger] s[i] != 32
}

/// Whether a line is three parts with a space behind each of the first two.
pub open spec fn has_parts(
    line: Seq<u8>,
    method: Seq<u8>,
    target: Seq<u8>,
    version: Seq<u8>,
) -> bool {
    &&& lacks_space(method)
    &&& lacks_space(target)
    &&& line == method.push(32) + target.push(32) + version
}

/// Whether bytes are a method: upper-case letters and `-`.
pub open spec fn is_method(s: Seq<u8>) -> bool {
    s.len() > 0 && forall|i: int| 0 <= i < s.len() ==> 65 <= #[trigger] s[i] <= 90 || s[i] == 45
}

/// Whether bytes name a version of HTTP that is spoken, with or without a carriage return.
pub open spec fn is_version(s: Seq<u8>) -> bool {
    ||| s == encode_utf8("HTTP/1.0"@)
    ||| s == encode_utf8("HTTP/1.1"@)
    ||| s == encode_utf8("HTTP/1.0"@).push(13)
    ||| s == encode_utf8("HTTP/1.1"@).push(13)
}

proof fn lemma_version(s: Seq<u8>)
    ensures
        is_version(s) == protocol::supported_version(s),
{
    reveal_strlit("HTTP/1.0");
    reveal_strlit("HTTP/1.1");
    vstd::utf8::is_ascii_chars_encode_utf8("HTTP/1.0"@);
    vstd::utf8::is_ascii_chars_encode_utf8("HTTP/1.1"@);
    let a = encode_utf8("HTTP/1.0"@);
    let b = encode_utf8("HTTP/1.1"@);
    assert(a.push(13).drop_last() =~= a);
    assert(b.push(13).drop_last() =~= b);
    if s.len() > 0 && s.last() == 13 {
        assert(s =~= s.drop_last().push(13));
    }
}

proof fn lemma_parts(line: Seq<u8>, method: Seq<u8>, target: Seq<u8>, version: Seq<u8>)
    requires
        has_parts(line, method, target, version),
    ensures
        ({
            let first = bytes::first_byte(line, 0x20);
            let rest = line.skip(first + 1);
            let second = bytes::first_byte(rest, 0x20);
            &&& first == method.len() < line.len()
            &&& line.take(first) == method
            &&& second == target.len() < rest.len()
            &&& rest.skip(second + 1) == version
        }),
{
    let n = method.len() as int;
    assert forall|i: int| 0 <= i < n implies #[trigger] line[i] != 0x20 by {
        assert(line[i] == method[i]);
    }
    assert(line[n] == 0x20);
    bytes::lemma_first_byte(line, 0x20, n);
    let rest = line.skip(n + 1);
    assert(rest =~= target.push(32) + version);
    let k = target.len() as int;
    assert forall|i: int| 0 <= i < k implies #[trigger] rest[i] != 0x20 by {
        assert(rest[i] == target[i]);
    }
    assert(rest[k] == 0x20);
    bytes::lemma_first_byte(rest, 0x20, k);
    assert(line.take(n) =~= method);
    assert(rest.skip(k + 1) =~= version);
}

proof fn lemma_first_space(s: Seq<u8>)
    ensures
        0 <= bytes::first_byte(s, 0x20) <= s.len(),
        lacks_space(s.take(bytes::first_byte(s, 0x20))),
        bytes::first_byte(s, 0x20) < s.len() ==> s[bytes::first_byte(s, 0x20)] == 0x20,
    decreases s.len(),
{
    if s.len() > 0 && s[0] != 0x20 {
        lemma_first_space(s.skip(1));
        let n = bytes::first_byte(s, 0x20);
        assert forall|i: int| 0 <= i < n implies #[trigger] s.take(n)[i] != 32 by {
            if i > 0 {
                assert(s.skip(1).take(n - 1)[i - 1] == s.take(n)[i]);
            }
        }
    }
}

/// A request line is a method, a target and a version of HTTP, with a space between them. The
/// first part that is not as it should be is reported.
pub proof fn law_request_lines(line: &[u8], result: Result<(), InterlinkError>)
    requires
        call_ensures(protocol::validate_http11_request_line, (line,), result),
    ensures
        forall|method: Seq<u8>, target: Seq<u8>, version: Seq<u8>| #[trigger]
            has_parts(line@, method, target, version) ==> {
                &&& result is Ok <==> is_method(method) && target.len() > 0 && is_version(version)
                &&& !is_method(method) ==> refused(result, "invalid method token"@)
                &&& is_method(method) && target.len() == 0 ==> refused(
                    result,
                    "empty request-target"@,
                )
                &&& is_method(method) && target.len() > 0 && !is_version(version) ==> refused(
                    result,
                    "unsupported HTTP version"@,
                )
            },
        result is Ok ==> exists|method: Seq<u8>, target: Seq<u8>, version: Seq<u8>| #[trigger]
            has_parts(line@, method, target, version),
        (forall|method: Seq<u8>, target: Seq<u8>, version: Seq<u8>|
            !#[trigger] has_parts(line@, method, target, version)) ==> refused(
            result,
            "invalid request-line: need 3 parts"@,
        ),
{
    assert forall|method: Seq<u8>, target: Seq<u8>, version: Seq<u8>| #[trigger]
        has_parts(line@, method, target, version) implies {
        &&& result is Ok <==> is_method(method) && target.len() > 0 && is_version(version)
        &&& !is_method(method) ==> refused(result, "invalid method token"@)
        &&& is_method(method) && target.len() == 0 ==> refused(result, "empty request-target"@)
        &&& is_method(method) && target.len() > 0 && !is_version(version) ==> refused(
            result,
            "unsupported HTTP version"@,
        )
    } by {
        lemma_parts(line@, method, target, version);
        lemma_version(version);
        assert(is_method(method) == protocol::method_token(method));
    }
    let first = bytes::first_byte(line@, 0x20);
    let rest = line@.skip(first + 1);
    let second = bytes::first_byte(rest, 0x20);
    lemma_first_space(line@);
    if first < line@.len() {
        lemma_first_space(rest);
        if second < rest.len() {
            let method = line@.take(first);
            let target = rest.take(second);
            let version = rest.skip(second + 1);
            assert(rest =~= target.push(32) + version);
            assert(line@ =~= method.push(32) + target.push(32) + version);
            assert(has_parts(line@, method, target, version));
        }
    }
}

/// Whether a request line was refused in these words.
pub open spec fn refused(result: Result<(), InterlinkError>, words: Seq<char>) -> bool {
    result matches Err(InterlinkError::Protocol(m)) && m@ == words
}

} // verus!
