//! The connection dispatcher: one received buffer becomes at most one reply.
//! The request line is parsed, the path is looked up in the frozen route
//! table, the method selects the handler operation, and the reply is the
//! body in the fixed `200 OK` envelope. The socket reads and writes that
//! surround this exchange live at the process edge outside this crate.

use vstd::prelude::*;
use vstd::string::*;
use crate::request::{bytes_eq, first_line, parse_request_line, tokens_of};
use crate::response::{format_response, ok_response};
use crate::routes::{Endpoint, Home, Info, Method, RouteMapper, SiteEndpoint};

verus! {

/// The fixed body reported to the client when no route matches the path.
pub const NOT_FOUND_BODY: &'static str = "<html><body><h1>404 NOT FOUND</h1></body></html>";

/// The fixed `405 METHOD NOT ALLOWED` status line reported for a known path
/// with a method outside GET/POST/DELETE. The wire format carries it as the
/// body of the usual `200 OK` envelope.
pub const METHOD_NOT_ALLOWED_BODY: &'static str = "HTTP/1.1 405 METHOD NOT ALLOWED";

/// A server is its route table; the listening socket and the worker pool
/// that feed buffers to `handle_request` are plumbing around it.
pub struct Server<H> {
    pub mapper: RouteMapper<H>,
}

/// The reply for a request naming `method` and `path`: the matching
/// handler's body for its method, the fixed 405 status line for any other
/// method on a known path, and the fixed 404 page for an unknown path —
/// each in the `200 OK` envelope with its exact byte length advertised.
pub open spec fn route_response<H: Endpoint>(
    m: RouteMapper<H>,
    method: Seq<u8>,
    path: Seq<u8>,
) -> Seq<char> {
    if m.has_path(path) {
        let h = m.handler_of(path);
        if method == "GET".spec_bytes() {
            ok_response(h.body_view(Method::Get), h.body_len(Method::Get))
        } else if method == "POST".spec_bytes() {
            ok_response(h.body_view(Method::Post), h.body_len(Method::Post))
        } else if method == "DELETE".spec_bytes() {
            ok_response(h.body_view(Method::Delete), h.body_len(Method::Delete))
        } else {
            ok_response(METHOD_NOT_ALLOWED_BODY@, METHOD_NOT_ALLOWED_BODY.len() as nat)
        }
    } else {
        ok_response(NOT_FOUND_BODY@, NOT_FOUND_BODY.len() as nat)
    }
}

/// The whole exchange for one received buffer: the first two
/// whitespace-separated tokens of the first line name the method and the
/// path; a line with fewer tokens is dropped silently, with no reply at all.
pub open spec fn request_response<H: Endpoint>(m: RouteMapper<H>, buf: Seq<u8>) -> Option<
    Seq<char>,
> {
    let toks = tokens_of(first_line(buf));
    if toks.len() >= 2 {
        Some(route_response(m, toks[0], toks[1]))
    } else {
        None
    }
}

impl<H: Endpoint> Server<H> {
    pub fn new() -> (r: Server<H>)
        ensures
            r.mapper.wf(),
            r.mapper.path_count() == 0,
            forall|p: Seq<u8>| !r.mapper.has_path(p),
    {
        Server { mapper: RouteMapper::new() }
    }

    /// Looks `path` up in the route table and dispatches on `method`.
    pub fn handle_route(&self, method: &[u8], path: &[u8]) -> (r: String)
        requires
            self.mapper.wf(),
        ensures
            r@ == route_response(self.mapper, method@, path@),
    {
        match self.mapper.lookup(path) {
            Some(endpoint) => {
                let body: &str = if bytes_eq(method, "GET".as_bytes()) {
                    endpoint.get()
                } else if bytes_eq(method, "POST".as_bytes()) {
                    endpoint.post()
                } else if bytes_eq(method, "DELETE".as_bytes()) {
                    endpoint.delete()
                } else {
                    METHOD_NOT_ALLOWED_BODY
                };
                format_response(body)
            },
            None => format_response(NOT_FOUND_BODY),
        }
    }

    /// Turns one received buffer into at most one reply: the reply to write
    /// back, or nothing for a request line with fewer than two tokens (the
    /// connection is then closed without a response).
    pub fn handle_request(&self, buffer: &[u8]) -> (r: Option<String>)
        requires
            self.mapper.wf(),
        ensures
            match r {
                Some(s) => request_response(self.mapper, buffer@) == Some(s@),
                None => request_response(self.mapper, buffer@) is None,
            },
    {
        match parse_request_line(buffer) {
            Some(mp) => {
                let (method, path) = mp;
                Some(self.handle_route(method.as_slice(), path.as_slice()))
            },
            None => None,
        }
    }
}

impl Server<SiteEndpoint> {
    /// Registers the home and info routes. Runs during single-threaded
    /// setup, before the accept loop starts and the table is shared with
    /// the workers.
    pub fn setup_routes(&mut self)
        requires
            old(self).mapper.wf(),
        ensures
            final(self).mapper.wf(),
            forall|q: Seq<u8>|
                final(self).mapper.has_path(q) <==> (old(self).mapper.has_path(q) || q
                    == "/home".spec_bytes() || q == "/info".spec_bytes()),
            final(self).mapper.handler_of("/home".spec_bytes()) == SiteEndpoint::Home(Home),
            final(self).mapper.handler_of("/info".spec_bytes()) == SiteEndpoint::Info(Info),
            forall|q: Seq<u8>|
                old(self).mapper.has_path(q) && q != "/home".spec_bytes() && q
                    != "/info".spec_bytes() ==> final(self).mapper.handler_of(q)
                    == old(self).mapper.handler_of(q),
    {
        proof {
            lemma_wire_literals();
            assert("/home".spec_bytes() != "/info".spec_bytes());
        }
        self.mapper.add_route("/home", SiteEndpoint::Home(Home));
        self.mapper.add_route("/info", SiteEndpoint::Info(Info));
    }
}

/// An ASCII scalar encodes to exactly its own byte.
proof fn lemma_encode_ascii_scalar(v: u32)
    requires
        v < 128,
    ensures
        vstd::utf8::encode_scalar(v) =~= seq![v as u8],
{
    assert(v & 0x7F == v) by (bit_vector)
        requires
            v < 128,
    ;
}

/// The byte spellings of the three supported method names and of the two
/// registered paths, pinned so that callers can reason about which dispatch
/// branch a concrete request takes.
pub proof fn lemma_wire_literals()
    ensures
        "GET".spec_bytes() =~= seq![71u8, 69u8, 84u8],
        "POST".spec_bytes() =~= seq![80u8, 79u8, 83u8, 84u8],
        "DELETE".spec_bytes() =~= seq![68u8, 69u8, 76u8, 69u8, 84u8, 69u8],
        "/home".spec_bytes() =~= seq![47u8, 104u8, 111u8, 109u8, 101u8],
        "/info".spec_bytes() =~= seq![47u8, 105u8, 110u8, 102u8, 111u8],
{
    reveal_strlit("GET");
    reveal_strlit("POST");
    reveal_strlit("DELETE");
    reveal_strlit("/home");
    reveal_strlit("/info");
    reveal_with_fuel(vstd::utf8::encode_utf8, 7);
    lemma_encode_ascii_scalar('G' as u32);
    lemma_encode_ascii_scalar('E' as u32);
    lemma_encode_ascii_scalar('T' as u32);
    lemma_encode_ascii_scalar('P' as u32);
    lemma_encode_ascii_scalar('O' as u32);
    lemma_encode_ascii_scalar('S' as u32);
    lemma_encode_ascii_scalar('D' as u32);
    lemma_encode_ascii_scalar('L' as u32);
    lemma_encode_ascii_scalar('/' as u32);
    lemma_encode_ascii_scalar('h' as u32);
    lemma_encode_ascii_scalar('o' as u32);
    lemma_encode_ascii_scalar('m' as u32);
    lemma_encode_ascii_scalar('e' as u32);
    lemma_encode_ascii_scalar('i' as u32);
    lemma_encode_ascii_scalar('n' as u32);
    lemma_encode_ascii_scalar('f' as u32);
}

/// Lookups never depend on anything but the table's frozen contents: two
/// tables with the same bindings answer every request identically, whichever
/// worker asks and however often. Together with the fact that lookups take
/// the table by shared reference (so steady-state reads cannot change it),
/// this is why sharing the table read-only across workers is sound.
pub proof fn lemma_response_is_function_of_routes<H: Endpoint>(
    m1: RouteMapper<H>,
    m2: RouteMapper<H>,
    method: Seq<u8>,
    path: Seq<u8>,
)
    requires
        forall|p: Seq<u8>| m1.has_path(p) <==> m2.has_path(p),
        forall|p: Seq<u8>| m1.has_path(p) ==> m1.handler_of(p) == m2.handler_of(p),
    ensures
        route_response(m1, method, path) == route_response(m2, method, path),
{
    assert(m1.has_path(path) <==> m2.has_path(path));
    if m1.has_path(path) {
        assert(m1.handler_of(path) == m2.handler_of(path));
    }
}

} // verus!
