//! The administrative HTTP server: health, readiness and the reload of TLS credentials.
//!
//! - `GET /healthz`: 200 while the server runs
//! - `GET /readyz`: 200 while the proxies accept traffic
//! - `POST /reload`: replaces the TLS credentials for new handshakes

use vstd::prelude::*;
use vstd::utf8::encode_utf8;

use crate::bytes;
use crate::common::constants::ports;

pub mod laws;

verus! {

/// The response to a liveness probe.
pub const HEALTH_RESPONSE: &'static str =
    "HTTP/1.1 200 OK\r\nContent-Type: text/plain\r\nContent-Length: 2\r\nConnection: close\r\n\r\nok";

/// The response to a readiness probe.
pub const READY_RESPONSE: &'static str =
    "HTTP/1.1 200 OK\r\nContent-Type: text/plain\r\nContent-Length: 5\r\nConnection: close\r\n\r\nready";

pub const NOT_READY_RESPONSE: &'static str =
    "HTTP/1.1 503 Service Unavailable\r\nContent-Type: text/plain\r\nContent-Length: 9\r\nConnection: close\r\n\r\nnot ready";

/// The response to a reload.
pub const RELOAD_RESPONSE: &'static str =
    "HTTP/1.1 200 OK\r\nContent-Type: text/plain\r\nContent-Length: 15\r\nConnection: close\r\n\r\nreload complete";

pub const RELOAD_FAILED_RESPONSE: &'static str =
    "HTTP/1.1 500 Internal Server Error\r\nContent-Type: text/plain\r\nContent-Length: 13\r\nConnection: close\r\n\r\nreload failed";

pub const RELOAD_UNAVAILABLE_RESPONSE: &'static str =
    "HTTP/1.1 503 Service Unavailable\r\nContent-Type: text/plain\r\nContent-Length: 18\r\nConnection: close\r\n\r\nreload unavailable";

/// The response to everything else.
pub const NOT_FOUND_RESPONSE: &'static str =
    "HTTP/1.1 404 Not Found\r\nContent-Type: text/plain\r\nContent-Length: 9\r\nConnection: close\r\n\r\nnot found";

/// What a request asks for.
#[derive(Debug, Clone, Copy, PartialEq, Eq, Structural)]
pub enum AdminRequest {
    Health,
    Ready,
    Reload,
    Unknown,
}

/// What is done for a request.
#[derive(Debug, Clone, Copy, PartialEq, Eq, Structural)]
pub enum AdminAction {
    /// Nothing: the client sent nothing.
    Hang,
    /// The server lives.
    Alive,
    /// The proxies accept traffic.
    Ready,
    /// They do not.
    NotReady,
    /// The credentials are reloaded; the outcome decides the response.
    Reload,
    /// There is nothing that reloads them.
    ReloadUnavailable,
    /// There is no such page.
    NotFound,
}

/// The bytes that separate the words of a request line.
pub open spec fn blank(b: u8) -> bool {
    b == 0x20 || b == 0x09 || b == 0x0a || b == 0x0c || b == 0x0d
}

/// The bytes behind the blanks at the start.
pub open spec fn without_blanks(line: Seq<u8>) -> Seq<u8>
    decreases line.len(),
{
    if line.len() > 0 && blank(line[0]) {
        without_blanks(line.skip(1))
    } else {
        line
    }
}

/// The length of the word at the start.
pub open spec fn word_length(line: Seq<u8>) -> int
    decreases line.len(),
{
    if line.len() == 0 || blank(line[0]) {
        0
    } else {
        1 + word_length(line.skip(1))
    }
}

/// The first word of a line; empty where there is none.
pub open spec fn first_word(line: Seq<u8>) -> Seq<u8> {
    without_blanks(line).take(word_length(without_blanks(line)))
}

/// What follows the first word of a line.
pub open spec fn after_word(line: Seq<u8>) -> Seq<u8> {
    without_blanks(line).skip(word_length(without_blanks(line)))
}

/// What a request asks for, by the method and the path in its first line.
pub open spec fn request_of(request: Seq<u8>) -> AdminRequest {
    let line = request.take(bytes::first_byte(request, 0x0a));
    let method = first_word(line);
    let path = first_word(after_word(line));
    if method == encode_utf8("GET"@) && path == encode_utf8("/healthz"@) {
        AdminRequest::Health
    } else if method == encode_utf8("GET"@) && path == encode_utf8("/readyz"@) {
        AdminRequest::Ready
    } else if method == encode_utf8("POST"@) && path == encode_utf8("/reload"@) {
        AdminRequest::Reload
    } else {
        AdminRequest::Unknown
    }
}

/// The response to a reload, by its outcome.
pub open spec fn reload_text(reloaded: bool) -> Seq<char> {
    if reloaded {
        RELOAD_RESPONSE@
    } else {
        RELOAD_FAILED_RESPONSE@
    }
}

/// The response for an action; None where there is none yet.
pub open spec fn response_text(action: AdminAction) -> Option<Seq<char>> {
    match action {
        AdminAction::Alive => Some(HEALTH_RESPONSE@),
        AdminAction::Ready => Some(READY_RESPONSE@),
        AdminAction::NotReady => Some(NOT_READY_RESPONSE@),
        AdminAction::ReloadUnavailable => Some(RELOAD_UNAVAILABLE_RESPONSE@),
        AdminAction::NotFound => Some(NOT_FOUND_RESPONSE@),
        AdminAction::Hang | AdminAction::Reload => None,
    }
}

/// The administrative server.
#[derive(Debug)]
pub struct AdminServer {
    pub port: u16,
    pub ready: bool,
    /// Whether something reloads the credentials.
    pub reloads: bool,
}

impl AdminServer {
    /// A server on the default port, ready, without anything that reloads.
    pub fn new() -> (server: Self)
        ensures
            server == (AdminServer { port: ports::ADMIN, ready: true, reloads: false }),
    {
        AdminServer { port: ports::ADMIN, ready: true, reloads: false }
    }

    pub fn with_port(self, port: u16) -> (server: Self)
        ensures
            server == (AdminServer { port, ..self }),
    {
        AdminServer { port, ready: self.ready, reloads: self.reloads }
    }

    /// The server with something that reloads.
    pub fn with_reload_handler(self) -> (server: Self)
        ensures
            server == (AdminServer { reloads: true, ..self }),
    {
        AdminServer { port: self.port, ready: self.ready, reloads: true }
    }

    /// Marks the proxies as ready for traffic, or not.
    pub fn set_ready(&mut self, ready: bool)
        ensures
            *final(self) == (AdminServer { ready, ..*old(self) }),
    {
        self.ready = ready;
    }

    /// What is done for a request.
    pub fn handle_request(&self, request: &[u8]) -> (action: AdminAction)
        ensures
            action == if request@.len() == 0 {
                AdminAction::Hang
            } else {
                match request_of(request@) {
                    AdminRequest::Health => AdminAction::Alive,
                    AdminRequest::Ready => if self.ready {
                        AdminAction::Ready
                    } else {
                        AdminAction::NotReady
                    },
                    AdminRequest::Reload => if self.reloads {
                        AdminAction::Reload
                    } else {
                        AdminAction::ReloadUnavailable
                    },
                    AdminRequest::Unknown => AdminAction::NotFound,
                }
            },
    {
        if request.len() == 0 {
            return AdminAction::Hang;
        }
        match read_request(request) {
            AdminRequest::Health => AdminAction::Alive,
            AdminRequest::Ready => if self.ready {
                AdminAction::Ready
            } else {
                AdminAction::NotReady
            },
            AdminRequest::Reload => if self.reloads {
                AdminAction::Reload
            } else {
                AdminAction::ReloadUnavailable
            },
            AdminRequest::Unknown => AdminAction::NotFound,
        }
    }
}

impl Default for AdminServer {
    fn default() -> (server: Self)
        ensures
            server == (AdminServer { port: ports::ADMIN, ready: true, reloads: false }),
    {
        AdminServer::new()
    }
}

/// The response for an action; None where there is none yet.
pub fn response(action: AdminAction) -> (text: Option<&'static str>)
    ensures
        match response_text(action) {
            Some(wanted) => text matches Some(t) && t@ == wanted,
            None => text is None,
        },
{
    match action {
        AdminAction::Alive => Some(HEALTH_RESPONSE),
        AdminAction::Ready => Some(READY_RESPONSE),
        AdminAction::NotReady => Some(NOT_READY_RESPONSE),
        AdminAction::ReloadUnavailable => Some(RELOAD_UNAVAILABLE_RESPONSE),
        AdminAction::NotFound => Some(NOT_FOUND_RESPONSE),
        AdminAction::Hang | AdminAction::Reload => None,
    }
}

/// The response to a reload, by its outcome.
pub fn reload_response(reloaded: bool) -> (text: &'static str)
    ensures
        text@ == reload_text(reloaded),
{
    if reloaded {
        RELOAD_RESPONSE
    } else {
        RELOAD_FAILED_RESPONSE
    }
}

fn is_blank(b: u8) -> (r: bool)
    ensures
        r == blank(b),
{
    b == 0x20 || b == 0x09 || b == 0x0a || b == 0x0c || b == 0x0d
}

/// The word that begins at or behind `from` and before `end`, as the indices of its ends.
fn find_word(request: &[u8], from: usize, end: usize) -> (word: (usize, usize))
    requires
        from <= end <= request@.len(),
    ensures
        from <= word.0 <= word.1 <= end,
        request@.subrange(word.0 as int, word.1 as int) == first_word(
            request@.subrange(from as int, end as int),
        ),
        request@.subrange(word.1 as int, end as int) == after_word(
            request@.subrange(from as int, end as int),
        ),
{
    let ghost line = request@.subrange(from as int, end as int);
    let mut start: usize = from;
    while start < end && is_blank(request[start])
        invariant
            from <= start <= end <= request@.len(),
            line == request@.subrange(from as int, end as int),
            without_blanks(line) == without_blanks(request@.subrange(start as int, end as int)),
        decreases end - start,
    {
        assert(request@.subrange(start as int, end as int).skip(1) =~= request@.subrange(
            start + 1,
            end as int,
        ));
        start = start + 1;
    }
    let ghost bare = request@.subrange(start as int, end as int);
    assert(without_blanks(line) == bare) by {
        if start < end {
            assert(bare[0] == request@[start as int]);
        }
    }
    let mut stop: usize = start;
    assert(bare.skip(0) =~= bare);
    while stop < end && !is_blank(request[stop])
        invariant
            start <= stop <= end <= request@.len(),
            bare == request@.subrange(start as int, end as int),
            word_length(bare) == (stop - start) + word_length(bare.skip(stop - start)),
        decreases end - stop,
    {
        assert(bare.skip(stop - start)[0] == request@[stop as int]);
        assert(bare.skip(stop - start).skip(1) =~= bare.skip(stop - start + 1));
        stop = stop + 1;
    }
    assert(word_length(bare.skip(stop - start)) == 0) by {
        if stop < end {
            assert(bare.skip(stop - start)[0] == request@[stop as int]);
        }
    }
    assert(request@.subrange(start as int, stop as int) =~= bare.take(stop - start));
    assert(request@.subrange(stop as int, end as int) =~= bare.skip(stop - start));
    (start, stop)
}

/// What a request asks for.
fn read_request(request: &[u8]) -> (asked: AdminRequest)
    ensures
        asked == request_of(request@),
{
    assert(request@.skip(0) =~= request@);
    let end: usize = bytes::find_byte(request, 0, 0x0a);
    assert(request@.subrange(0, end as int) =~= request@.take(end as int));
    let method: (usize, usize) = find_word(request, 0, end);
    let path: (usize, usize) = find_word(request, method.1, end);
    if bytes::spells(request, method.0, method.1, "GET") {
        if bytes::spells(request, path.0, path.1, "/healthz") {
            return AdminRequest::Health;
        }
        if bytes::spells(request, path.0, path.1, "/readyz") {
            return AdminRequest::Ready;
        }
    }
    if bytes::spells(request, method.0, method.1, "POST") && bytes::spells(
        request,
        path.0,
        path.1,
        "/reload",
    ) {
        return AdminRequest::Reload;
    }
    AdminRequest::Unknown
}

} // verus!
