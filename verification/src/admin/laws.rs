//! What holds of every response of the administrative server.

use vstd::prelude::*;
use vstd::utf8::encode_utf8;

use crate::admin;
use crate::admin::{AdminAction, AdminServer};
use crate::bytes;
use crate::number;

verus! {

/// A response with a body of plain text, whose length it declares.
pub open spec fn plain_response(status: Seq<char>, body: Seq<char>) -> Seq<char> {
    "HTTP/1.1 "@ + status + "\r\nContent-Type: text/plain\r\nContent-Length: "@ + number::decimal(
        body.len(),
    ) + "\r\nConnection: close\r\n\r\n"@ + body
}

proof fn lemma_health_response()
    ensures
        admin::HEALTH_RESPONSE@ == plain_response("200 OK"@, "ok"@),
{
    reveal_strlit("HTTP/1.1 ");
    reveal_strlit("200 OK");
    reveal_strlit("\r\nContent-Type: text/plain\r\nContent-Length: ");
    reveal_strlit("\r\nConnection: close\r\n\r\n");
    reveal_strlit("ok");
    reveal_strlit(
        "HTTP/1.1 200 OK\r\nContent-Type: text/plain\r\nContent-Length: 2\r\nConnection: close\r\n\r\nok",
    );
    assert(number::decimal(2) =~= seq!['2']);
    assert(admin::HEALTH_RESPONSE@ =~= plain_response("200 OK"@, "ok"@));
}

proof fn lemma_ready_response()
    ensures
        admin::READY_RESPONSE@ == plain_response("200 OK"@, "ready"@),
{
    reveal_strlit("HTTP/1.1 ");
    reveal_strlit("200 OK");
    reveal_strlit("\r\nContent-Type: text/plain\r\nContent-Length: ");
    reveal_strlit("\r\nConnection: close\r\n\r\n");
    reveal_strlit("ready");
    reveal_strlit(
        "HTTP/1.1 200 OK\r\nContent-Type: text/plain\r\nContent-Length: 5\r\nConnection: close\r\n\r\nready",
    );
    assert(number::decimal(5) =~= seq!['5']);
    assert(admin::READY_RESPONSE@ =~= plain_response("200 OK"@, "ready"@));
}

proof fn lemma_not_ready_response()
    ensures
        admin::NOT_READY_RESPONSE@ == plain_response("503 Service Unavailable"@, "not ready"@),
{
    reveal_strlit("HTTP/1.1 ");
    reveal_strlit("503 Service Unavailable");
    reveal_strlit("\r\nContent-Type: text/plain\r\nContent-Length: ");
    reveal_strlit("\r\nConnection: close\r\n\r\n");
    reveal_strlit("not ready");
    reveal_strlit(
        "HTTP/1.1 503 Service Unavailable\r\nContent-Type: text/plain\r\nContent-Length: 9\r\nConnection: close\r\n\r\nnot ready",
    );
    assert(number::decimal(9) =~= seq!['9']);
    assert(admin::NOT_READY_RESPONSE@ =~= plain_response("503 Service Unavailable"@, "not ready"@));
}

proof fn lemma_reload_response()
    ensures
        admin::RELOAD_RESPONSE@ == plain_response("200 OK"@, "reload complete"@),
{
    reveal_strlit("HTTP/1.1 ");
    reveal_strlit("200 OK");
    reveal_strlit("\r\nContent-Type: text/plain\r\nContent-Length: ");
    reveal_strlit("\r\nConnection: close\r\n\r\n");
    reveal_strlit("reload complete");
    reveal_strlit(
        "HTTP/1.1 200 OK\r\nContent-Type: text/plain\r\nContent-Length: 15\r\nConnection: close\r\n\r\nreload complete",
    );
    assert(number::decimal(1) =~= seq!['1']);
    assert(number::decimal(15) =~= seq!['1', '5']);
    assert(admin::RELOAD_RESPONSE@ =~= plain_response("200 OK"@, "reload complete"@));
}

proof fn lemma_reload_failed_response()
    ensures
        admin::RELOAD_FAILED_RESPONSE@
            == plain_response("500 Internal Server Error"@, "reload failed"@),
{
    reveal_strlit("HTTP/1.1 ");
    reveal_strlit("500 Internal Server Error");
    reveal_strlit("\r\nContent-Type: text/plain\r\nContent-Length: ");
    reveal_strlit("\r\nConnection: close\r\n\r\n");
    reveal_strlit("reload failed");
    reveal_strlit(
        "HTTP/1.1 500 Internal Server Error\r\nContent-Type: text/plain\r\nContent-Length: 13\r\nConnection: close\r\n\r\nreload failed",
    );
    assert(number::decimal(1) =~= seq!['1']);
    assert(number::decimal(13) =~= seq!['1', '3']);
    assert(admin::RELOAD_FAILED_RESPONSE@ =~= plain_response("500 Internal Server Error"@, "reload failed"@));
}

proof fn lemma_reload_unavailable_response()
    ensures
        admin::RELOAD_UNAVAILABLE_RESPONSE@
            == plain_response("503 Service Unavailable"@, "reload unavailable"@),
{
    reveal_strlit("HTTP/1.1 ");
    reveal_strlit("503 Service Unavailable");
    reveal_strlit("\r\nContent-Type: text/plain\r\nContent-Length: ");
    reveal_strlit("\r\nConnection: close\r\n\r\n");
    reveal_strlit("reload unavailable");
    reveal_strlit(
        "HTTP/1.1 503 Service Unavailable\r\nContent-Type: text/plain\r\nContent-Length: 18\r\nConnection: close\r\n\r\nreload unavailable",
    );
    assert(number::decimal(1) =~= seq!['1']);
    assert(number::decimal(18) =~= seq!['1', '8']);
    assert(admin::RELOAD_UNAVAILABLE_RESPONSE@ =~= plain_response("503 Service Unavailable"@, "reload unavailable"@));
}

proof fn lemma_not_found_response()
    ensures
        admin::NOT_FOUND_RESPONSE@ == plain_response("404 Not Found"@, "not found"@),
{
    reveal_strlit("HTTP/1.1 ");
    reveal_strlit("404 Not Found");
    reveal_strlit("\r\nContent-Type: text/plain\r\nContent-Length: ");
    reveal_strlit("\r\nConnection: close\r\n\r\n");
    reveal_strlit("not found");
    reveal_strlit(
        "HTTP/1.1 404 Not Found\r\nContent-Type: text/plain\r\nContent-Length: 9\r\nConnection: close\r\n\r\nnot found",
    );
    assert(number::decimal(9) =~= seq!['9']);
    assert(admin::NOT_FOUND_RESPONSE@ =~= plain_response("404 Not Found"@, "not found"@));
}

/// Every response is one of plain text that declares the length of its body.
pub proof fn law_responses_declare_their_length(action: AdminAction, reloaded: bool)
    ensures
        match admin::response_text(action) {
            Some(text) => exists|status: Seq<char>, body: Seq<char>|
                text == #[trigger] plain_response(status, body),
            None => action is Hang || action is Reload,
        },
        exists|status: Seq<char>, body: Seq<char>|
            admin::reload_text(reloaded) == #[trigger] plain_response(status, body),
{
    lemma_health_response();
    lemma_ready_response();
    lemma_not_ready_response();
    lemma_reload_response();
    lemma_reload_failed_response();
    lemma_reload_unavailable_response();
    lemma_not_found_response();
}

/// What is answered for each action.
pub proof fn law_actions_are_answered(action: AdminAction, text: Option<&'static str>)
    requires
        call_ensures(admin::response, (action,), text),
    ensures
        text is None <==> action is Hang || action is Reload,
        action is Alive ==> text->0@ == plain_response("200 OK"@, "ok"@),
        action is Ready ==> text->0@ == plain_response("200 OK"@, "ready"@),
        action is NotReady ==> text->0@ == plain_response(
            "503 Service Unavailable"@,
            "not ready"@,
        ),
        action is ReloadUnavailable ==> text->0@ == plain_response(
            "503 Service Unavailable"@,
            "reload unavailable"@,
        ),
        action is NotFound ==> text->0@ == plain_response("404 Not Found"@, "not found"@),
{
    lemma_health_response();
    lemma_ready_response();
    lemma_not_ready_response();
    lemma_reload_unavailable_response();
    lemma_not_found_response();
}

/// What is answered to a reload, by its outcome.
pub proof fn law_reloads_are_answered(reloaded: bool, text: &'static str)
    requires
        call_ensures(admin::reload_response, (reloaded,), text),
    ensures
        reloaded ==> text@ == plain_response("200 OK"@, "reload complete"@),
        !reloaded ==> text@ == plain_response("500 Internal Server Error"@, "reload failed"@),
{
    lemma_reload_response();
    lemma_reload_failed_response();
}

/// A server begins on port 4192, ready and without anything that reloads. What is set of it is
/// what is said, and nothing else changes.
pub proof fn law_servers_are_as_they_were_set(
    new: AdminServer,
    default: AdminServer,
    server: AdminServer,
    port: u16,
    moved: AdminServer,
    reloading: AdminServer,
    changed: &mut AdminServer,
    ready: bool,
)
    requires
        call_ensures(AdminServer::new, (), new),
        call_ensures(<AdminServer as Default>::default, (), default),
        call_ensures(AdminServer::with_port, (server, port), moved),
        call_ensures(AdminServer::with_reload_handler, (server,), reloading),
        call_ensures(AdminServer::set_ready, (changed, ready), ()),
    ensures
        new.port == 4192 && new.ready && !new.reloads,
        default == new,
        moved.port == port && moved.ready == server.ready && moved.reloads == server.reloads,
        reloading.port == server.port && reloading.ready == server.ready && reloading.reloads,
        final(changed).ready == ready && final(changed).port == old(changed).port
            && final(changed).reloads == old(changed).reloads,
{
}

/// Whether a byte separates words: a space, a tab, a line feed, a form feed, a carriage return.
pub open spec fn separates(b: u8) -> bool {
    b == 32 || b == 9 || b == 10 || b == 12 || b == 13
}

/// Whether bytes separate words within a line.
pub open spec fn is_gap(bytes: Seq<u8>) -> bool {
    forall|i: int| 0 <= i < bytes.len() ==> separates(#[trigger] bytes[i]) && bytes[i] != 10
}

/// Whether bytes are a word, or nothing.
pub open spec fn is_word(bytes: Seq<u8>) -> bool {
    forall|i: int| 0 <= i < bytes.len() ==> !separates(#[trigger] bytes[i])
}

/// Whether a request opens with a method and a path, with blanks before and between them.
pub open spec fn names(
    request: Seq<u8>,
    lead: Seq<u8>,
    method: Seq<u8>,
    gap: Seq<u8>,
    path: Seq<u8>,
    tail: Seq<u8>,
) -> bool {
    &&& request == lead + method + gap + path + tail
    &&& is_gap(lead)
    &&& is_gap(gap) && gap.len() > 0
    &&& is_word(method) && method.len() > 0
    &&& is_word(path) && path.len() > 0
    &&& tail.len() > 0 ==> separates(tail[0])
}

/// Whether a request asks for a page by a method.
pub open spec fn asks_for(request: Seq<u8>, method: Seq<char>, path: Seq<char>) -> bool {
    exists|lead: Seq<u8>, gap: Seq<u8>, tail: Seq<u8>| #[trigger]
        names(request, lead, encode_utf8(method), gap, encode_utf8(path), tail)
}

proof fn lemma_without_blanks(lead: Seq<u8>, rest: Seq<u8>)
    requires
        forall|i: int| 0 <= i < lead.len() ==> separates(#[trigger] lead[i]),
        rest.len() > 0 ==> !separates(rest[0]),
    ensures
        admin::without_blanks(lead + rest) == rest,
    decreases lead.len(),
{
    let whole = lead + rest;
    if lead.len() == 0 {
        assert(whole =~= rest);
    } else {
        let fewer = lead.skip(1);
        assert(whole[0] == lead[0]);
        assert(whole.skip(1) =~= fewer + rest);
        assert forall|i: int| 0 <= i < fewer.len() implies separates(#[trigger] fewer[i]) by {
            assert(fewer[i] == lead[i + 1]);
        }
        lemma_without_blanks(fewer, rest);
    }
}

proof fn lemma_word_length(word: Seq<u8>, rest: Seq<u8>)
    requires
        is_word(word),
        rest.len() > 0 ==> separates(rest[0]),
    ensures
        admin::word_length(word + rest) == word.len(),
    decreases word.len(),
{
    let whole = word + rest;
    if word.len() > 0 {
        let shorter = word.skip(1);
        assert(whole[0] == word[0]);
        assert(whole.skip(1) =~= shorter + rest);
        assert forall|i: int| 0 <= i < shorter.len() implies !separates(#[trigger] shorter[i]) by {
            assert(shorter[i] == word[i + 1]);
        }
        lemma_word_length(shorter, rest);
    } else {
        assert(whole =~= rest);
    }
}

/// A line is its blanks, its first word, and what follows.
proof fn lemma_word_stands(line: Seq<u8>) -> (lead: Seq<u8>)
    ensures
        line == lead + admin::first_word(line) + admin::after_word(line),
        forall|i: int| 0 <= i < lead.len() ==> separates(#[trigger] lead[i]),
        is_word(admin::first_word(line)),
        admin::after_word(line).len() > 0 ==> separates(admin::after_word(line)[0]),
    decreases line.len(),
{
    if line.len() > 0 && separates(line[0]) {
        let lead = lemma_word_stands(line.skip(1));
        let longer = seq![line[0]] + lead;
        assert forall|i: int| 0 <= i < longer.len() implies separates(#[trigger] longer[i]) by {
            if i > 0 {
                assert(longer[i] == lead[i - 1]);
            }
        }
        assert(line =~= seq![line[0]] + line.skip(1));
        assert(line =~= longer + admin::first_word(line) + admin::after_word(line));
        longer
    } else {
        lemma_word_ends(line);
        assert(line =~= line.take(admin::word_length(line)) + line.skip(admin::word_length(line)));
        assert(line =~= Seq::<u8>::empty() + admin::first_word(line) + admin::after_word(line));
        Seq::empty()
    }
}

proof fn lemma_word_ends(line: Seq<u8>)
    ensures
        0 <= admin::word_length(line) <= line.len(),
        is_word(line.take(admin::word_length(line))),
        admin::word_length(line) < line.len() ==> separates(line[admin::word_length(line)]),
    decreases line.len(),
{
    if line.len() > 0 && !separates(line[0]) {
        lemma_word_ends(line.skip(1));
        let n = admin::word_length(line);
        assert forall|i: int| 0 <= i < n implies !separates(#[trigger] line.take(n)[i]) by {
            if i > 0 {
                assert(line.skip(1).take(n - 1)[i - 1] == line.take(n)[i]);
            }
        }
    }
}

proof fn lemma_names(
    request: Seq<u8>,
    lead: Seq<u8>,
    method: Seq<u8>,
    gap: Seq<u8>,
    path: Seq<u8>,
    tail: Seq<u8>,
)
    requires
        names(request, lead, method, gap, path, tail),
    ensures
        ({
            let line = request.take(bytes::first_byte(request, 0x0a));
            &&& admin::first_word(line) == method
            &&& admin::first_word(admin::after_word(line)) == path
        }),
{
    let head = lead + method + gap + path;
    let cut = bytes::first_byte(tail, 0x0a);
    lemma_first_byte_range(tail);
    assert(request =~= head + tail);
    assert forall|i: int| 0 <= i < head.len() implies #[trigger] head[i] != 0x0a by {
        let a = lead.len() as int;
        let b = a + method.len();
        let c = b + gap.len();
        if i < a {
            assert(head[i] == lead[i]);
        } else if i < b {
            assert(head[i] == method[i - a]);
        } else if i < c {
            assert(head[i] == gap[i - b]);
        } else {
            assert(head[i] == path[i - c]);
        }
    }
    let n = head.len() + cut;
    assert forall|i: int| 0 <= i < n implies #[trigger] request[i] != 0x0a by {
        if i < head.len() {
            assert(request[i] == head[i]);
        } else {
            assert(request[i] == tail[i - head.len()]);
        }
    }
    bytes::lemma_first_byte(request, 0x0a, n);
    let end = tail.take(cut);
    let line = request.take(n);
    let rest = gap + path + end;
    assert(line =~= lead + (method + rest));
    lemma_without_blanks(lead, method + rest);
    assert((method + rest)[0] == method[0]);
    assert(rest[0] == gap[0]);
    lemma_word_length(method, rest);
    assert((method + rest).take(method.len() as int) =~= method);
    assert((method + rest).skip(method.len() as int) =~= rest);
    assert(rest =~= gap + (path + end));
    assert((path + end)[0] == path[0]);
    lemma_without_blanks(gap, path + end);
    lemma_word_length(path, end);
    assert((path + end).take(path.len() as int) =~= path);
}

proof fn lemma_first_byte_range(s: Seq<u8>)
    ensures
        0 <= bytes::first_byte(s, 0x0a) <= s.len(),
        forall|i: int| 0 <= i < bytes::first_byte(s, 0x0a) ==> #[trigger] s[i] != 0x0a,
        bytes::first_byte(s, 0x0a) < s.len() ==> s[bytes::first_byte(s, 0x0a)] == 0x0a,
    decreases s.len(),
{
    if s.len() > 0 && s[0] != 0x0a {
        lemma_first_byte_range(s.skip(1));
        assert forall|i: int| 0 <= i < bytes::first_byte(s, 0x0a) implies #[trigger] s[i]
            != 0x0a by {
            if i > 0 {
                assert(s.skip(1)[i - 1] == s[i]);
            }
        }
    }
}

/// A request whose words are read so opens with them.
proof fn lemma_words_are_named(request: Seq<u8>, method: Seq<char>, path: Seq<char>)
    requires
        ({
            let line = request.take(bytes::first_byte(request, 0x0a));
            &&& admin::first_word(line) == encode_utf8(method)
            &&& admin::first_word(admin::after_word(line)) == encode_utf8(path)
        }),
        encode_utf8(method).len() > 0,
        encode_utf8(path).len() > 0,
    ensures
        asks_for(request, method, path),
{
    let n = bytes::first_byte(request, 0x0a);
    lemma_first_byte_range(request);
    let line = request.take(n);
    let m = encode_utf8(method);
    let p = encode_utf8(path);
    let lead = lemma_word_stands(line);
    let rest = admin::after_word(line);
    let gap = lemma_word_stands(rest);
    let end = admin::after_word(rest);
    let tail = end + request.skip(n);
    assert(rest == gap + p + end);
    assert(line =~= lead + m + gap + p + end);
    assert(request =~= line + request.skip(n));
    assert(request =~= lead + m + gap + p + tail);
    assert forall|i: int| 0 <= i < lead.len() implies #[trigger] lead[i] != 0x0a by {
        assert(request[i] == lead[i]);
    }
    let at = lead.len() + m.len();
    assert forall|i: int| 0 <= i < gap.len() implies #[trigger] gap[i] != 0x0a by {
        assert(request[at + i] == gap[i]);
    }
    if gap.len() == 0 {
        assert(rest[0] == p[0]);
    }
    if end.len() == 0 && n < request.len() {
        assert(tail[0] == request[n]);
    }
    assert(names(request, lead, m, gap, p, tail));
}

/// A request is served by the method and the path that its first line names: `GET /healthz`,
/// `GET /readyz`, `POST /reload`. Readiness is answered as it stands, and a reload is done where
/// something reloads. Every other request finds nothing, and no request is no answer.
pub proof fn law_requests_are_served_by_name(
    server: AdminServer,
    request: &[u8],
    action: AdminAction,
)
    requires
        call_ensures(AdminServer::handle_request, (&server, request), action),
    ensures
        action is Hang <==> request@.len() == 0,
        action is Alive <==> asks_for(request@, "GET"@, "/healthz"@),
        action is Ready <==> asks_for(request@, "GET"@, "/readyz"@) && server.ready,
        action is NotReady <==> asks_for(request@, "GET"@, "/readyz"@) && !server.ready,
        action is Reload <==> asks_for(request@, "POST"@, "/reload"@) && server.reloads,
        action is ReloadUnavailable <==> asks_for(request@, "POST"@, "/reload"@)
            && !server.reloads,
{
    lemma_spellings();
    if asks_for(request@, "GET"@, "/healthz"@) {
        lemma_asked(request@, "GET"@, "/healthz"@);
    }
    if asks_for(request@, "GET"@, "/readyz"@) {
        lemma_asked(request@, "GET"@, "/readyz"@);
    }
    if asks_for(request@, "POST"@, "/reload"@) {
        lemma_asked(request@, "POST"@, "/reload"@);
    }
    if action is Alive {
        lemma_words_are_named(request@, "GET"@, "/healthz"@);
    }
    if action is Ready || action is NotReady {
        lemma_words_are_named(request@, "GET"@, "/readyz"@);
    }
    if action is Reload || action is ReloadUnavailable {
        lemma_words_are_named(request@, "POST"@, "/reload"@);
    }
}

proof fn lemma_asked(request: Seq<u8>, method: Seq<char>, path: Seq<char>)
    requires
        asks_for(request, method, path),
    ensures
        request.len() > 0,
        ({
            let line = request.take(bytes::first_byte(request, 0x0a));
            &&& admin::first_word(line) == encode_utf8(method)
            &&& admin::first_word(admin::after_word(line)) == encode_utf8(path)
        }),
{
    let (lead, gap, tail) = choose|lead: Seq<u8>, gap: Seq<u8>, tail: Seq<u8>| #[trigger]
        names(request, lead, encode_utf8(method), gap, encode_utf8(path), tail);
    lemma_names(request, lead, encode_utf8(method), gap, encode_utf8(path), tail);
}

/// The words that are asked for are distinct.
proof fn lemma_spellings()
    ensures
        encode_utf8("GET"@).len() == 3,
        encode_utf8("POST"@).len() == 4,
        encode_utf8("/healthz"@).len() == 8,
        encode_utf8("/readyz"@).len() == 7,
        encode_utf8("/reload"@).len() == 7,
        encode_utf8("/readyz"@) != encode_utf8("/reload"@),
{
    reveal_strlit("GET");
    reveal_strlit("POST");
    reveal_strlit("/healthz");
    reveal_strlit("/readyz");
    reveal_strlit("/reload");
    vstd::utf8::is_ascii_chars_encode_utf8("GET"@);
    vstd::utf8::is_ascii_chars_encode_utf8("POST"@);
    vstd::utf8::is_ascii_chars_encode_utf8("/healthz"@);
    vstd::utf8::is_ascii_chars_encode_utf8("/readyz"@);
    vstd::utf8::is_ascii_chars_encode_utf8("/reload"@);
    assert("/readyz"@[3] != "/reload"@[3]);
}

} // verus!
