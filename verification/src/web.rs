//! The HTTP side: routing of the request line and the fixed responses.  Only
//! two paths are recognized; `/listen` turns the connection into a long-poll
//! mail listener, everything else is answered and closed immediately.

use vstd::prelude::*;

use crate::text::{starts_with, str_starts_with};

verus! {

/// Where a request line routes.
pub enum HttpRoute {
    /// `GET / HTTP...`: the usage page.
    Index,
    /// `GET /listen HTTP...`: register a mailbox and hold the connection.
    Listen,
    /// Anything else: method not allowed.
    Other,
}

/// The route a request line takes.
pub open spec fn route_of(line: Seq<char>) -> HttpRoute {
    if starts_with(line, "GET / HTTP"@) {
        HttpRoute::Index
    } else if starts_with(line, "GET /listen HTTP"@) {
        HttpRoute::Listen
    } else {
        HttpRoute::Other
    }
}

/// Classify one HTTP request line.
pub fn route_request(line: &str) -> (r: HttpRoute)
    ensures
        r == route_of(line@),
{
    if str_starts_with(line, "GET / HTTP") {
        HttpRoute::Index
    } else if str_starts_with(line, "GET /listen HTTP") {
        HttpRoute::Listen
    } else {
        HttpRoute::Other
    }
}

/// The status and header block of a successful response.
pub fn http_ok_header() -> (r: &'static str)
    ensures
        r@ == "HTTP/1.1 200 OK\r\nContent-Type: text/plain\r\n\r\n"@,
{
    "HTTP/1.1 200 OK\r\nContent-Type: text/plain\r\n\r\n"
}

/// The usage page served at the root path.
pub fn usage_text() -> (r: &'static str)
    ensures
        r@ == "USAGE\n\ncurl emailpipe.sh/listen\r\n"@,
{
    "USAGE\n\ncurl emailpipe.sh/listen\r\n"
}

/// The response to any unrecognized request.
pub fn method_not_allowed() -> (r: &'static str)
    ensures
        r@ == "HTTP/1.1 405 Method Not Allowed\r\n"@,
{
    "HTTP/1.1 405 Method Not Allowed\r\n"
}

/// The line telling a listener which address its mail will arrive at.
pub fn listen_greeting(name: &str) -> (r: String)
    ensures
        r@ == "Listening for mail at "@ + name@ + "@emailpipe.sh\n"@,
{
    let mut s = "Listening for mail at ".to_owned();
    s.append(name);
    s.append("@emailpipe.sh\n");
    s
}

/// The notice written to a listener whose mailbox name was taken over by a
/// newer connection.
pub fn evicted_notice() -> (r: &'static str)
    ensures
        r@ == "closed by another connection"@,
{
    "closed by another connection"
}

} // verus!
