//! One connection: reading a request, resolving its session, routing it to
//! the store and writing the reply, as steps between the reads and writes
//! that the caller performs.

use crate::cookies::{
    generate_session_id, get_session_cookie, is_session_id, session_cookie, session_id_text,
    set_cookie_header, set_session_cookie,
};
use crate::person::{
    after_delete_request, after_patch_request, after_post, after_put, bad_request, conflict,
    created, delete_response, deleted, get_response, handle_delete, handle_get, handle_patch,
    handle_post, handle_put, not_found, ok_json, patch_response, post_response, put_response,
};
use crate::store::{named, Database, Records};
use crate::text::{
    copy_range, decimal, ends_with, find_char, first_line, is_digit, lemma_decimal_is_digits,
    lemma_find_first, lemma_line_break, lemma_lines_after_prefix, line_one, lines, lines_from,
    nth_word, parse_decimal, parse_usize, piece_after, position_of, same, second_piece,
    split_lines, starts_with, to_chars, to_string, trim, trimmed, views,
    without_carriage_return, word,
};
use vstd::prelude::*;
use vstd::string::StringExecFns;
use vstd::utf8::{decode_utf8, valid_utf8};

verus! {

/// Whether the header section of `request` is complete: it ends with an
/// empty line.
pub open spec fn headers_complete(request: Seq<char>) -> bool {
    "\r\n\r\n"@.is_suffix_of(request)
}

/// The first of `all[i..]` that begins with `name`.
pub open spec fn header_line(all: Seq<Seq<char>>, name: Seq<char>, i: int) -> Option<Seq<char>>
    decreases all.len() - i,
{
    if i < 0 || i >= all.len() {
        None
    } else if name.is_prefix_of(all[i]) {
        Some(all[i])
    } else {
        header_line(all, name, i + 1)
    }
}

/// The number that a `Content-Length` line gives: what follows its first
/// `: `, trimmed, if that is a decimal numeral that fits the machine's
/// word, else zero.
pub open spec fn length_in_line(line: Seq<char>) -> nat {
    match second_piece(line, ": "@) {
        Some(value) => match parse_decimal(trim(value), usize::MAX as nat) {
            Some(n) => n,
            None => 0,
        },
        None => 0,
    }
}

/// The length of the body that a request announces: the number in its
/// first `Content-Length:` line, zero where it has none.
pub open spec fn content_length(request: Seq<char>) -> nat {
    match header_line(lines(request), "Content-Length:"@, 0) {
        Some(line) => length_in_line(line),
        None => 0,
    }
}

/// The method of a request: the first word of its first line.
pub open spec fn method(request: Seq<char>) -> Seq<char> {
    word(first_line(request), 0)
}

/// The reply to a method that is not served.
pub open spec fn method_not_allowed() -> Seq<char> {
    "HTTP/1.1 405 Method Not Allowed\r\n\r\n"@
}

/// The reply that the store operation of a request's method gives.
pub open spec fn route_response(db: Records, request: Seq<char>, body: Seq<char>) -> Seq<char> {
    let m = method(request);
    if m == "POST"@ {
        post_response(db, body)
    } else if m == "GET"@ {
        get_response(db, request)
    } else if m == "PUT"@ {
        put_response(db, request, body)
    } else if m == "PATCH"@ {
        patch_response(db, request, body)
    } else if m == "DELETE"@ {
        delete_response(db, request)
    } else {
        method_not_allowed()
    }
}

/// The store after the operation of a request's method.
pub open spec fn after_route(db: Records, request: Seq<char>, body: Seq<char>) -> Records {
    let m = method(request);
    if m == "POST"@ {
        after_post(db, body)
    } else if m == "GET"@ {
        db
    } else if m == "PUT"@ {
        after_put(db, request, body)
    } else if m == "PATCH"@ {
        after_patch_request(db, request, body)
    } else if m == "DELETE"@ {
        after_delete_request(db, request)
    } else {
        db
    }
}

/// Where the headers of a response begin: just after the line feed that
/// ends its status line, or at its end where it has none.
pub open spec fn headers_start(response: Seq<char>) -> int {
    let nl = find_char(response, '\n', 0);
    if nl < response.len() {
        nl + 1
    } else {
        response.len() as int
    }
}

/// The response with the header that sets the session token `token` as
/// the first of its headers, just after its status line.
pub open spec fn with_session_cookie(response: Seq<char>, token: Seq<char>) -> Seq<char> {
    let k = headers_start(response);
    response.take(k) + set_cookie_header(token) + response.skip(k)
}

/// Whether `text` answers a request with the session `session`: a request
/// that carries a session cookie keeps its session and gets the routed
/// reply and nothing else; one that carries none gets a fresh token, and
/// the routed reply with the header that sets this token among its
/// headers.
pub open spec fn replied(
    db: Records,
    request: Seq<char>,
    body: Seq<char>,
    session: Seq<char>,
    issued: bool,
    text: Seq<char>,
) -> bool {
    match session_cookie(request) {
        Some(cookie) => !issued && session == cookie && text == route_response(db, request, body),
        None => issued && is_session_id(session) && text == with_session_cookie(
            route_response(db, request, body),
            session,
        ),
    }
}

/// Whether the header section of `request` is complete.
pub fn is_complete(request: &str) -> (r: bool)
    ensures
        r == headers_complete(request@),
{
    ends_with(&to_chars(request), &to_chars("\r\n\r\n"))
}

/// The number that a `Content-Length` line gives.
fn line_length(line: &Vec<char>) -> (r: usize)
    ensures
        r == length_in_line(line@),
{
    match piece_after(line, &to_chars(": ")) {
        Some(value) => match parse_usize(&trimmed(&value)) {
            Some(n) => n,
            None => 0,
        },
        None => 0,
    }
}

/// The length of the body that a request announces.
pub fn body_length(request: &str) -> (r: usize)
    ensures
        r == content_length(request@),
{
    let all = split_lines(&to_chars(request));
    let name = to_chars("Content-Length:");
    let mut i: usize = 0;
    while i < all.len()
        invariant
            i <= all.len(),
            name@ == "Content-Length:"@,
            views(all@) == lines(request@),
            header_line(lines(request@), name@, 0) == header_line(lines(request@), name@, i as int),
        decreases all.len() - i,
    {
        assert(views(all@)[i as int] == all@[i as int]@);
        if starts_with(&all[i], &name) {
            return line_length(&all[i]);
        }
        i += 1;
    }
    0
}

/// The method of a request.
pub fn request_method(request: &str) -> (r: String)
    ensures
        r@ == method(request@),
{
    to_string(&nth_word(&line_one(&to_chars(request)), 0))
}

/// Hands a request to the store operation of its method and returns the
/// reply; a method that is not served leaves the store alone.
pub fn route(request: &str, body: &str, db: &mut Database) -> (response: String)
    ensures
        response@ == route_response(old(db)@, request@, body@),
        final(db)@ == after_route(old(db)@, request@, body@),
{
    let m = nth_word(&line_one(&to_chars(request)), 0);
    if same(&m, &to_chars("POST")) {
        handle_post(body, db)
    } else if same(&m, &to_chars("GET")) {
        handle_get(request, db)
    } else if same(&m, &to_chars("PUT")) {
        handle_put(request, body, db)
    } else if same(&m, &to_chars("PATCH")) {
        handle_patch(request, body, db)
    } else if same(&m, &to_chars("DELETE")) {
        handle_delete(request, db)
    } else {
        "HTTP/1.1 405 Method Not Allowed\r\n\r\n".to_owned()
    }
}

/// What is sent for one request, and the session it belongs to.
#[derive(Debug)]
pub struct Reply {
    /// The session token of the request.
    pub session: String,
    /// Whether the token was issued for this request.
    pub issued: bool,
    /// The bytes to send.
    pub text: String,
}

/// The response with the header that sets the session token `token` as
/// the first of its headers.
pub fn attach_session_cookie(response: &str, token: &str) -> (r: String)
    ensures
        r@ == with_session_cookie(response@, token@),
{
    let chars = to_chars(response);
    let nl = position_of(&chars, '\n', 0);
    let k = if nl < chars.len() {
        nl + 1
    } else {
        chars.len()
    };
    let mut out = to_string(&copy_range(&chars, 0, k));
    set_session_cookie(&mut out, token);
    out.append(to_string(&copy_range(&chars, k, chars.len())).as_str());
    out
}

/// Answers one request: resolves its session, issuing a token where the
/// request carries none, and routes it. The reply is one response: the
/// routed one, with the header that sets a fresh token among its headers.
pub fn respond(request: &str, body: &str, db: &mut Database) -> (reply: Reply)
    ensures
        replied(old(db)@, request@, body@, reply.session@, reply.issued, reply.text@),
        final(db)@ == after_route(old(db)@, request@, body@),
{
    let (session, issued) = match get_session_cookie(request) {
        Some(cookie) => (cookie, false),
        None => (generate_session_id(), true),
    };
    let response = route(request, body, db);
    let text = if issued {
        attach_session_cookie(response.as_str(), session.as_str())
    } else {
        response
    };
    Reply { session, issued, text }
}

/// The text that bytes denote, as `String::from_utf8_lossy` reads them.
pub uninterp spec fn utf8_lossy(bytes: Seq<u8>) -> Seq<char>;

/// `String::from_utf8_lossy`: the text that `bytes` denote, with U+FFFD in
/// the place of what is not UTF-8. Bytes that are UTF-8 give their text.
#[verifier::external_body]
fn lossy_text(bytes: &Vec<u8>) -> (r: String)
    ensures
        r@ == utf8_lossy(bytes@),
        valid_utf8(bytes@) ==> r@ == decode_utf8(bytes@),
{
    String::from_utf8_lossy(bytes).into_owned()
}

/// Where a connection stands.
#[derive(Clone, Copy, Debug, PartialEq, Eq, Structural)]
pub enum Phase {
    /// The header section is being read, line by line.
    Headers,
    /// The body is being read.
    Body,
    /// The reply is being written.
    Reply,
    /// Nothing more is read or written.
    Closed,
}

/// What a read or a write on the connection came to.
#[derive(Debug)]
pub enum Event {
    /// A line was read; it is empty where the stream has ended.
    Line(String),
    /// The body was read in full.
    Body(Vec<u8>),
    /// The reply was written.
    Written,
    /// The read or the write failed.
    Failed,
}

/// What the caller does next on the connection.
#[derive(Debug)]
pub enum Action {
    /// Read one line.
    ReadLine,
    /// Read exactly this many bytes.
    ReadBody(usize),
    /// Write this text and flush.
    Write(String),
    /// Drop the connection.
    Close,
}

/// The state of one connection.
#[derive(Debug)]
pub struct Connection {
    /// Where the connection stands.
    pub phase: Phase,
    /// The header section as far as it was read.
    pub request: String,
    /// The session of the request, once it is resolved.
    pub session: Option<String>,
    /// Whether the session token was issued for this request.
    pub issued: bool,
}

/// Whether a step ended the connection without a reply and left the store
/// alone.
pub open spec fn closes(
    before: Connection,
    db: Records,
    after: Connection,
    action: Action,
    db_after: Records,
) -> bool {
    &&& after.phase == Phase::Closed
    &&& after.request@ == before.request@
    &&& after.session == before.session
    &&& after.issued == before.issued
    &&& action is Close
    &&& db_after == db
}

/// Whether a step asked for a further read and left the store alone.
pub open spec fn reads_on(
    before: Connection,
    request: Seq<char>,
    db: Records,
    after: Connection,
    action: Action,
    db_after: Records,
) -> bool {
    &&& after.request@ == request
    &&& after.session == before.session
    &&& after.issued == before.issued
    &&& db_after == db
    &&& if content_length(request) > 0 && headers_complete(request) {
        after.phase == Phase::Body && action == Action::ReadBody(content_length(request) as usize)
    } else {
        after.phase == Phase::Headers && action is ReadLine
    }
}

/// Whether a step answered the request `request` with the body `body`.
pub open spec fn replies(
    db: Records,
    request: Seq<char>,
    body: Seq<char>,
    after: Connection,
    action: Action,
    db_after: Records,
) -> bool {
    &&& after.phase == Phase::Reply
    &&& after.request@ == request
    &&& after.session is Some
    &&& action is Write
    &&& replied(db, request, body, after.session->0@, after.issued, action->Write_0@)
    &&& db_after == after_route(db, request, body)
}

/// Whether `after`, `action` and `db_after` are what one step makes of
/// `before`, `event` and `db`.
///
/// While the headers are read, a line is added to the request. An empty
/// line (the stream has ended) closes the connection without a reply. Once
/// the request ends with an empty line, the body is asked for if the
/// request announces one, else the request is answered with an empty
/// body. The body, once read, is taken as text and the request is
/// answered. After the reply is written the connection closes. A failed
/// read or write, and any event that the phase does not expect, closes the
/// connection.
pub open spec fn stepped(
    before: Connection,
    event: Event,
    db: Records,
    after: Connection,
    action: Action,
    db_after: Records,
) -> bool {
    match (before.phase, event) {
        (Phase::Headers, Event::Line(line)) => {
            let request = before.request@ + line@;
            if line@.len() == 0 {
                closes(before, db, after, action, db_after)
            } else if headers_complete(request) && content_length(request) == 0 {
                replies(db, request, Seq::empty(), after, action, db_after)
            } else {
                reads_on(before, request, db, after, action, db_after)
            }
        },
        (Phase::Body, Event::Body(bytes)) => replies(
            db,
            before.request@,
            utf8_lossy(bytes@),
            after,
            action,
            db_after,
        ),
        _ => closes(before, db, after, action, db_after),
    }
}

impl Connection {
    /// A connection of which nothing was read yet. Its first action is to
    /// read a line.
    pub fn new() -> (r: (Connection, Action))
        ensures
            r.0.phase == Phase::Headers,
            r.0.request@ == Seq::<char>::empty(),
            r.0.session is None,
            !r.0.issued,
            r.1 is ReadLine,
    {
        (
            Connection { phase: Phase::Headers, request: String::new(), session: None, issued: false },
            Action::ReadLine,
        )
    }

    /// Answers the request with `body`, and goes on to writing.
    fn answer(&mut self, body: &str, db: &mut Database) -> (action: Action)
        ensures
            replies(old(db)@, old(self).request@, body@, *final(self), action, final(db)@),
    {
        let reply = respond(self.request.as_str(), body, db);
        self.phase = Phase::Reply;
        self.session = Some(reply.session);
        self.issued = reply.issued;
        Action::Write(reply.text)
    }

    /// Takes what the last read or write came to, and says what to do next.
    pub fn step(&mut self, event: Event, db: &mut Database) -> (action: Action)
        ensures
            stepped(*old(self), event, old(db)@, *final(self), action, final(db)@),
    {
        match (self.phase, event) {
            (Phase::Headers, Event::Line(line)) => {
                if line.as_str().is_empty() {
                    self.phase = Phase::Closed;
                    return Action::Close;
                }
                self.request.append(line.as_str());
                if !is_complete(self.request.as_str()) {
                    return Action::ReadLine;
                }
                let length = body_length(self.request.as_str());
                if length > 0 {
                    self.phase = Phase::Body;
                    Action::ReadBody(length)
                } else {
                    proof {
                        reveal_strlit("");
                        assert(""@ =~= Seq::<char>::empty());
                    }
                    self.answer("", db)
                }
            },
            (Phase::Body, Event::Body(bytes)) => {
                let body = lossy_text(&bytes);
                self.answer(body.as_str(), db)
            },
            _ => {
                self.phase = Phase::Closed;
                Action::Close
            },
        }
    }
}

/// How many of the lines of `all` before its first empty line begin with
/// `name`.
pub open spec fn headers_named(all: Seq<Seq<char>>, name: Seq<char>) -> nat
    decreases all.len(),
{
    if all.len() == 0 || all[0].len() == 0 {
        0
    } else if name.is_prefix_of(all[0]) {
        1 + headers_named(all.skip(1), name)
    } else {
        headers_named(all.skip(1), name)
    }
}

/// How many `Set-Cookie` headers the head of a response has: the lines
/// before its first empty line that begin with `Set-Cookie:`.
pub open spec fn set_cookie_headers(response: Seq<char>) -> nat {
    headers_named(lines(response), "Set-Cookie:"@)
}

/// The `Set-Cookie` headers from `start` on are those of the line that
/// ends at the next line feed and, unless that line is empty, those after it.
proof fn lemma_header_line(text: Seq<char>, start: int, nl: int)
    requires
        0 <= start <= nl < text.len(),
        text[nl] == '\n',
        forall|k: int| start <= k < nl ==> text[k] != '\n',
    ensures
        headers_named(lines_from(text, start, start), "Set-Cookie:"@) == ({
            let line = without_carriage_return(text.subrange(start, nl));
            let rest = headers_named(lines_from(text, nl + 1, nl + 1), "Set-Cookie:"@);
            if line.len() == 0 {
                0
            } else if "Set-Cookie:"@.is_prefix_of(line) {
                1 + rest
            } else {
                rest
            }
        }),
{
    lemma_line_break(text, start, nl);
    let line = without_carriage_return(text.subrange(start, nl));
    let all = lines_from(text, start, start);
    assert(all[0] == line);
    assert(all.skip(1) == lines_from(text, nl + 1, nl + 1));
}

/// No character of a session token is a line feed.
proof fn lemma_token_has_no_line_feed(token: Seq<char>)
    requires
        is_session_id(token),
    ensures
        forall|k: int| 0 <= k < token.len() ==> token[k] != '\n',
{
    let (random, seconds) = choose|random: u64, seconds: u64|
        token == session_id_text(random, seconds);
    lemma_decimal_is_digits(random as nat);
    lemma_decimal_is_digits(seconds as nat);
    assert forall|k: int| 0 <= k < token.len() implies token[k] != '\n' by {
        let r = decimal(random as nat).len() as int;
        if k < r {
            assert(is_digit(decimal(random as nat)[k]));
        } else if k > r {
            assert(is_digit(decimal(seconds as nat)[k - r - 1]));
        }
    }
}

/// Whether a response has no `Set-Cookie` header and, once the header that
/// sets a session token is put into it, has exactly one and still begins
/// with its own status line.
pub open spec fn takes_one_cookie(response: Seq<char>) -> bool {
    &&& set_cookie_headers(response) == 0
    &&& forall|token: Seq<char>|
        is_session_id(token) ==> set_cookie_headers(
            #[trigger] with_session_cookie(response, token),
        ) == 1 && first_line(with_session_cookie(response, token)) == first_line(response)
}

/// A response whose status line ends at `nl`, and which has no `Set-Cookie`
/// header after it, takes one cookie.
proof fn lemma_cookie_after_status_line(response: Seq<char>, nl: int)
    requires
        2 <= nl < response.len(),
        response[0] == 'H',
        response[nl - 1] == '\r' && response[nl] == '\n',
        forall|k: int| 0 <= k < nl ==> response[k] != '\n',
        headers_named(lines_from(response, nl + 1, nl + 1), "Set-Cookie:"@) == 0,
    ensures
        takes_one_cookie(response),
{
    reveal_strlit("Set-Cookie:");
    reveal_strlit("Set-Cookie: session_id=");
    reveal_strlit("; Path=/; HttpOnly\r\n");
    lemma_header_line(response, 0, nl);
    lemma_line_break(response, 0, nl);
    let status = response.subrange(0, nl);
    assert(status.last() == '\r');
    assert(without_carriage_return(status)[0] == 'H');
    assert("Set-Cookie:"@[0] == 'S');
    assert(lines(response)[0] == without_carriage_return(status));
    lemma_find_first(response, '\n', 0, nl);
    let k = nl + 1;
    assert(headers_start(response) == k);
    assert forall|token: Seq<char>| is_session_id(token) implies set_cookie_headers(
        #[trigger] with_session_cookie(response, token),
    ) == 1 && first_line(with_session_cookie(response, token)) == first_line(response) by {
        lemma_token_has_no_line_feed(token);
        let before = "Set-Cookie: session_id="@;
        let after = "; Path=/; HttpOnly\r\n"@;
        let header = set_cookie_header(token);
        let m = token.len() as int;
        let text = with_session_cookie(response, token);
        let head = response.take(k) + header;
        let tail = response.skip(k);
        assert(before.len() == 23 && after.len() == 20 && header.len() == 43 + m);
        assert(text == head + tail);
        assert(response == response.take(k) + tail);
        assert(forall|j: int| 0 <= j < k ==> text[j] == response[j]);
        assert(forall|j: int| 0 <= j < 23 ==> text[k + j] == before[j]);
        assert(forall|j: int| 0 <= j < m ==> text[k + 23 + j] == token[j]);
        assert(forall|j: int| 0 <= j < 20 ==> text[k + 23 + m + j] == after[j]);
        let end = k + 23 + m + 19;
        assert forall|j: int| k <= j < end implies text[j] != '\n' by {
            if j < k + 23 {
                assert(text[j] == before[j - k]);
            } else if j < k + 23 + m {
                assert(text[j] == token[j - k - 23]);
            } else {
                assert(text[j] == after[j - k - 23 - m]);
            }
        }
        assert(text[end] == after[19]);
        lemma_header_line(text, 0, nl);
        lemma_line_break(text, 0, nl);
        lemma_header_line(text, k, end);
        assert(text.subrange(0, nl) == status);
        assert(lines(text)[0] == without_carriage_return(status));
        let cookie = text.subrange(k, end);
        assert(cookie.last() == after[18]);
        let line = without_carriage_return(cookie);
        assert(line == cookie.drop_last());
        assert(line.subrange(0, 11) =~= "Set-Cookie:"@) by {
            assert forall|j: int| 0 <= j < 11 implies line[j] == "Set-Cookie:"@[j] by {
                assert(line[j] == before[j]);
            }
        }
        assert("Set-Cookie:"@.is_prefix_of(line));
        lemma_lines_after_prefix(head, tail, 0, 0);
        lemma_lines_after_prefix(response.take(k), tail, 0, 0);
        assert(lines_from(text, end + 1, end + 1) == lines_from(response, k, k));
    }
}

/// A response whose head is a status line alone takes one cookie.
proof fn lemma_status_line_alone(text: Seq<char>, nl: int)
    requires
        2 <= nl,
        nl + 2 < text.len(),
        text[0] == 'H',
        forall|k: int| 0 <= k < nl ==> text[k] != '\n',
        text[nl - 1] == '\r' && text[nl] == '\n' && text[nl + 1] == '\r' && text[nl + 2] == '\n',
    ensures
        takes_one_cookie(text),
{
    lemma_header_line(text, nl + 1, nl + 2);
    assert(text.subrange(nl + 1, nl + 2).last() == '\r');
    lemma_cookie_after_status_line(text, nl);
}

/// A response whose head is a status line and a `Content-Type` line takes
/// one cookie.
proof fn lemma_status_and_content_type(text: Seq<char>, first: int, second: int)
    requires
        2 <= first,
        first + 2 < second,
        second + 2 < text.len(),
        text[0] == 'H',
        text[first + 1] == 'C',
        forall|k: int| 0 <= k < first ==> text[k] != '\n',
        forall|k: int| first < k < second ==> text[k] != '\n',
        text[first - 1] == '\r' && text[first] == '\n',
        text[second - 1] == '\r' && text[second] == '\n',
        text[second + 1] == '\r' && text[second + 2] == '\n',
    ensures
        takes_one_cookie(text),
{
    reveal_strlit("Set-Cookie:");
    lemma_header_line(text, first + 1, second);
    lemma_header_line(text, second + 1, second + 2);
    let header = text.subrange(first + 1, second);
    assert(header.last() == '\r');
    assert(without_carriage_return(header)[0] == 'C');
    assert("Set-Cookie:"@[0] == 'S');
    assert(text.subrange(second + 1, second + 2).last() == '\r');
    lemma_cookie_after_status_line(text, first);
}

/// Every reply of a store operation takes one cookie.
proof fn lemma_replies_take_one_cookie()
    ensures
        takes_one_cookie(bad_request()),
        takes_one_cookie(conflict()),
        takes_one_cookie(not_found()),
        takes_one_cookie(method_not_allowed()),
        forall|name: Seq<char>| takes_one_cookie(#[trigger] deleted(name)),
        forall|json: Seq<char>| takes_one_cookie(#[trigger] created(json)),
        forall|json: Seq<char>| takes_one_cookie(#[trigger] ok_json(json)),
{
    reveal_strlit("HTTP/1.1 400 Bad Request\r\n\r\nInvalid JSON data.");
    lemma_status_line_alone(bad_request(), 25);
    reveal_strlit("HTTP/1.1 409 Conflict\r\n\r\nPerson already exists.");
    lemma_status_line_alone(conflict(), 22);
    reveal_strlit("HTTP/1.1 404 Not Found\r\n\r\nPerson not found.");
    lemma_status_line_alone(not_found(), 23);
    reveal_strlit("HTTP/1.1 405 Method Not Allowed\r\n\r\n");
    lemma_status_line_alone(method_not_allowed(), 32);
    reveal_strlit("HTTP/1.1 200 OK\r\n\r\nPerson ");
    assert forall|name: Seq<char>| takes_one_cookie(#[trigger] deleted(name)) by {
        lemma_status_line_alone(deleted(name), 16);
    }
    reveal_strlit("HTTP/1.1 201 Created\r\nContent-Type: application/json\r\n\r\n");
    assert forall|json: Seq<char>| takes_one_cookie(#[trigger] created(json)) by {
        lemma_status_and_content_type(created(json), 21, 53);
    }
    reveal_strlit("HTTP/1.1 200 OK\r\nContent-Type: application/json\r\n\r\n");
    assert forall|json: Seq<char>| takes_one_cookie(#[trigger] ok_json(json)) by {
        lemma_status_and_content_type(ok_json(json), 16, 48);
    }
}

/// A request that carries a session cookie keeps its session: no token is
/// issued, and the reply is the routed reply, which has no `Set-Cookie`
/// header. A request that carries none gets a fresh token in one response:
/// the reply begins with the status line of the routed reply and has
/// exactly one `Set-Cookie` header.
pub proof fn law_session_is_issued_once(
    db: Records,
    request: Seq<char>,
    body: Seq<char>,
    session: Seq<char>,
    issued: bool,
    text: Seq<char>,
)
    requires
        replied(db, request, body, session, issued, text),
    ensures
        issued <==> session_cookie(request) is None,
        !issued ==> session_cookie(request) == Some(session) && text == route_response(
            db,
            request,
            body,
        ),
        set_cookie_headers(text) == if issued {
            1nat
        } else {
            0nat
        },
        first_line(text) == first_line(route_response(db, request, body)),
{
    lemma_replies_take_one_cookie();
    let routed = route_response(db, request, body);
    assert(takes_one_cookie(routed));
    if issued {
        assert(text == with_session_cookie(routed, session));
    }
}

/// Where every record stands under its own name, it does so after any
/// request is routed.
pub proof fn law_route_keeps_records_under_their_names(
    db: Records,
    request: Seq<char>,
    body: Seq<char>,
)
    requires
        named(db),
    ensures
        named(after_route(db, request, body)),
{
}

} // verus!
