//! Session identity: the session cookie of a request, fresh session
//! tokens, and the header that hands a token to the client.

use crate::text::{
    decimal, lines, position_of, push_decimal, remove_all, split, split_lines, split_on,
    starts_with, to_chars, to_string, trim, trimmed, views, without,
};
use core::time::Duration;
use vstd::prelude::*;
use vstd::string::StringExecFns;

verus! {

/// The value of the session cookie if `segment` is `session_id=` followed
/// by a value without a further `=`.
pub open spec fn cookie_value(segment: Seq<char>) -> Option<Seq<char>> {
    let key = "session_id="@;
    if key.is_prefix_of(segment) && !segment.skip(key.len() as int).contains('=') {
        Some(segment.skip(key.len() as int))
    } else {
        None
    }
}

/// The session cookie of the first of `segments[i..]` that, trimmed, holds
/// one.
pub open spec fn first_cookie(segments: Seq<Seq<char>>, i: int) -> Option<Seq<char>>
    decreases segments.len() - i,
{
    if i < 0 || i >= segments.len() {
        None
    } else {
        match cookie_value(trim(segments[i])) {
            Some(value) => Some(value),
            None => first_cookie(segments, i + 1),
        }
    }
}

/// The session cookie of a header line: the line begins with `Cookie:`,
/// and what is left of it without each `Cookie: ` is a list of cookies
/// with `;` between them.
pub open spec fn line_cookie(line: Seq<char>) -> Option<Seq<char>> {
    if "Cookie:"@.is_prefix_of(line) {
        first_cookie(split(without(line, "Cookie: "@), ';'), 0)
    } else {
        None
    }
}

/// The session cookie of the first of `all[i..]` that holds one.
pub open spec fn first_line_cookie(all: Seq<Seq<char>>, i: int) -> Option<Seq<char>>
    decreases all.len() - i,
{
    if i < 0 || i >= all.len() {
        None
    } else {
        match line_cookie(all[i]) {
            Some(value) => Some(value),
            None => first_line_cookie(all, i + 1),
        }
    }
}

/// The session cookie that a request carries: the first one in its first
/// cookie line that holds one.
pub open spec fn session_cookie(request: Seq<char>) -> Option<Seq<char>> {
    first_line_cookie(lines(request), 0)
}

/// The session token made of a random number and a time in seconds.
pub open spec fn session_id_text(random: u64, seconds: u64) -> Seq<char> {
    decimal(random as nat) + seq!['-'] + decimal(seconds as nat)
}

/// Whether `token` is a session token that this library issues.
pub open spec fn is_session_id(token: Seq<char>) -> bool {
    exists|random: u64, seconds: u64| token == session_id_text(random, seconds)
}

/// The header line that hands the session token `token` to the client.
pub open spec fn set_cookie_header(token: Seq<char>) -> Seq<char> {
    "Set-Cookie: session_id="@ + token + "; Path=/; HttpOnly\r\n"@
}

/// The value of the session cookie in a trimmed segment.
fn segment_cookie(segment: &Vec<char>) -> (r: Option<Vec<char>>)
    ensures
        r is Some ==> cookie_value(segment@) == Some(r->0@),
        r is None ==> cookie_value(segment@) is None,
{
    let key = to_chars("session_id=");
    if !starts_with(segment, &key) {
        return None;
    }
    let ghost rest = segment@.skip(key@.len() as int);
    let end = position_of(segment, '=', key.len());
    if end < segment.len() {
        assert(rest[end - key@.len()] == '=');
        return None;
    }
    assert(!rest.contains('=')) by {
        if rest.contains('=') {
            let i = choose|i: int| 0 <= i < rest.len() && rest[i] == '=';
            assert(segment@[key@.len() + i] == '=');
        }
    }
    let mut value: Vec<char> = Vec::new();
    let mut i: usize = key.len();
    while i < segment.len()
        invariant
            key.len() <= i <= segment.len(),
            value@ == segment@.subrange(key@.len() as int, i as int),
        decreases segment.len() - i,
    {
        value.push(segment[i]);
        i += 1;
    }
    assert(value@ == rest);
    Some(value)
}

/// The session cookie of a header line.
fn cookie_in_line(line: &Vec<char>) -> (r: Option<Vec<char>>)
    ensures
        r is Some ==> line_cookie(line@) == Some(r->0@),
        r is None ==> line_cookie(line@) is None,
{
    if !starts_with(line, &to_chars("Cookie:")) {
        return None;
    }
    let cookies = remove_all(line, &to_chars("Cookie: "));
    let segments = split_on(&cookies, ';');
    let ghost all = split(without(line@, "Cookie: "@), ';');
    let mut i: usize = 0;
    while i < segments.len()
        invariant
            i <= segments.len(),
            views(segments@) == all,
            line_cookie(line@) == first_cookie(all, i as int),
        decreases segments.len() - i,
    {
        assert(views(segments@)[i as int] == segments@[i as int]@);
        let found = segment_cookie(&trimmed(&segments[i]));
        if found.is_some() {
            return found;
        }
        i += 1;
    }
    None
}

/// The session cookie that a request carries, if it carries one.
pub fn get_session_cookie(request: &str) -> (r: Option<String>)
    ensures
        r is Some ==> session_cookie(request@) == Some(r->0@),
        r is None ==> session_cookie(request@) is None,
{
    let all = split_lines(&to_chars(request));
    let mut i: usize = 0;
    while i < all.len()
        invariant
            i <= all.len(),
            views(all@) == lines(request@),
            session_cookie(request@) == first_line_cookie(lines(request@), i as int),
        decreases all.len() - i,
    {
        assert(views(all@)[i as int] == all@[i as int]@);
        match cookie_in_line(&all[i]) {
            Some(value) => {
                return Some(to_string(&value));
            },
            None => {},
        }
        i += 1;
    }
    None
}

/// `rand::thread_rng` and `Rng::gen`: a number that the thread's random
/// generator hands out. Nothing is known of it.
#[verifier::external_body]
fn random_number() -> u64 {
    rand::Rng::gen::<u64>(&mut rand::thread_rng())
}

/// `SystemTime::elapsed` on the Unix epoch: the time since then, or `None`
/// where the clock stands before it.
#[verifier::external_body]
fn since_epoch() -> Option<Duration> {
    std::time::UNIX_EPOCH.elapsed().ok()
}

/// `Duration::as_secs`: the whole seconds of a duration.
#[verifier::external_body]
fn whole_seconds(duration: &Duration) -> u64 {
    duration.as_secs()
}

/// The session token made of a random number and a time in seconds.
pub fn session_id_from(random: u64, seconds: u64) -> (id: String)
    ensures
        id@ == session_id_text(random, seconds),
{
    let mut out: Vec<char> = Vec::new();
    push_decimal(&mut out, random);
    out.push('-');
    push_decimal(&mut out, seconds);
    to_string(&out)
}

/// A fresh session token: a random number and the seconds since the Unix
/// epoch (zero where the clock stands before it).
pub fn generate_session_id() -> (id: String)
    ensures
        is_session_id(id@),
{
    let random = random_number();
    let seconds = match since_epoch() {
        Some(elapsed) => whole_seconds(&elapsed),
        None => 0,
    };
    session_id_from(random, seconds)
}

/// Writes the header line that hands `session_id` to the client at the end
/// of what `stream` holds. It belongs between the status line of a
/// response and the empty line that ends its headers.
pub fn set_session_cookie(stream: &mut String, session_id: &str)
    ensures
        final(stream)@ == old(stream)@ + set_cookie_header(session_id@),
{
    stream.append("Set-Cookie: session_id=");
    stream.append(session_id);
    stream.append("; Path=/; HttpOnly\r\n");
}

} // verus!
