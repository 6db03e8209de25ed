//! The route table: an exact-match mapping from path to handler, built once
//! during single-threaded setup and read-only afterwards, plus the handler
//! capability contract and the home-page handler.

use vstd::prelude::*;
use vstd::slice::slice_to_vec;
use vstd::string::*;
use crate::request::bytes_eq;

verus! {

/// The three request methods a handler can answer.
pub enum Method {
    Get,
    Post,
    Delete,
}

/// The capability contract a route handler implements: one response body per
/// supported method. A handler is a stateless value, so each body is a pure
/// function of the handler itself, which is what makes unsynchronized
/// concurrent reads of a shared handler safe.
pub trait Endpoint: Sized {
    /// The body served for `m`.
    spec fn body_view(&self, m: Method) -> Seq<char>;

    /// The byte length of the body served for `m`.
    spec fn body_len(&self, m: Method) -> nat;

    fn get(&self) -> (r: &str)
        ensures
            r@ == self.body_view(Method::Get),
            r.len() == self.body_len(Method::Get),
    ;

    fn post(&self) -> (r: &str)
        ensures
            r@ == self.body_view(Method::Post),
            r.len() == self.body_len(Method::Post),
    ;

    fn delete(&self) -> (r: &str)
        ensures
            r@ == self.body_view(Method::Delete),
            r.len() == self.body_len(Method::Delete),
    ;
}

/// The home page markup, served for a GET on the home route, spelled with
/// escapes so that every byte — including the trailing blanks on the two
/// separator lines — is visible and none is lost to editing.
pub const HOME_GET_BODY: &'static str =
    "<!DOCTYPE html>\n        <html>\n        <body>\n        \n        <h1>Home GET</h1>\n        \n        </body>\n        </html>";

/// The placeholder body the home route serves for POST and DELETE.
pub const HOME_TEST_BODY: &'static str = "test";

/// The handler for the home route.
pub struct Home;

impl Endpoint for Home {
    open spec fn body_view(&self, m: Method) -> Seq<char> {
        match m {
            Method::Get => HOME_GET_BODY@,
            Method::Post => HOME_TEST_BODY@,
            Method::Delete => HOME_TEST_BODY@,
        }
    }

    open spec fn body_len(&self, m: Method) -> nat {
        match m {
            Method::Get => HOME_GET_BODY.len() as nat,
            Method::Post => HOME_TEST_BODY.len() as nat,
            Method::Delete => HOME_TEST_BODY.len() as nat,
        }
    }

    fn get(&self) -> (r: &str) {
        HOME_GET_BODY
    }

    fn post(&self) -> (r: &str) {
        HOME_TEST_BODY
    }

    fn delete(&self) -> (r: &str) {
        HOME_TEST_BODY
    }
}

/// The info page markup, served for a GET on the info route.
pub const INFO_GET_BODY: &'static str =
    "<!DOCTYPE html>\n        <html>\n        <body>\n        \n        <h1>Info GET</h1>\n        \n        </body>\n        </html>";

/// The placeholder body the info route serves for POST and DELETE.
pub const INFO_TEST_BODY: &'static str = "test";

/// The handler for the info route.
pub struct Info;

impl Endpoint for Info {
    open spec fn body_view(&self, m: Method) -> Seq<char> {
        match m {
            Method::Get => INFO_GET_BODY@,
            Method::Post => INFO_TEST_BODY@,
            Method::Delete => INFO_TEST_BODY@,
        }
    }

    open spec fn body_len(&self, m: Method) -> nat {
        match m {
            Method::Get => INFO_GET_BODY.len() as nat,
            Method::Post => INFO_TEST_BODY.len() as nat,
            Method::Delete => INFO_TEST_BODY.len() as nat,
        }
    }

    fn get(&self) -> (r: &str) {
        INFO_GET_BODY
    }

    fn post(&self) -> (r: &str) {
        INFO_TEST_BODY
    }

    fn delete(&self) -> (r: &str) {
        INFO_TEST_BODY
    }
}

/// One route table holds one handler type, so the site's concrete handlers
/// are gathered into this closed sum; each variant answers with its own
/// handler's bodies. A new page means a new variant — the table itself
/// never learns the concrete types.
pub enum SiteEndpoint {
    Home(Home),
    Info(Info),
}

impl Endpoint for SiteEndpoint {
    open spec fn body_view(&self, m: Method) -> Seq<char> {
        match self {
            SiteEndpoint::Home(h) => h.body_view(m),
            SiteEndpoint::Info(h) => h.body_view(m),
        }
    }

    open spec fn body_len(&self, m: Method) -> nat {
        match self {
            SiteEndpoint::Home(h) => h.body_len(m),
            SiteEndpoint::Info(h) => h.body_len(m),
        }
    }

    fn get(&self) -> (r: &str) {
        match self {
            SiteEndpoint::Home(h) => h.get(),
            SiteEndpoint::Info(h) => h.get(),
        }
    }

    fn post(&self) -> (r: &str) {
        match self {
            SiteEndpoint::Home(h) => h.post(),
            SiteEndpoint::Info(h) => h.post(),
        }
    }

    fn delete(&self) -> (r: &str) {
        match self {
            SiteEndpoint::Home(h) => h.delete(),
            SiteEndpoint::Info(h) => h.delete(),
        }
    }
}

/// A mapping from path (unique key, compared byte for byte — no
/// normalization of any kind) to exactly one handler.
pub struct RouteMapper<H> {
    routes: Vec<(Vec<u8>, H)>,
}

impl<H: Endpoint> RouteMapper<H> {
    /// The registered paths, in the order of the underlying storage (the
    /// order is not part of any contract).
    pub closed spec fn path_seq(self) -> Seq<Seq<u8>> {
        self.routes@.map_values(|e: (Vec<u8>, H)| e.0@)
    }

    /// Each path is bound at most once.
    pub open spec fn wf(self) -> bool {
        forall|i: int, j: int|
            0 <= i < j < self.path_seq().len() ==> self.path_seq()[i] != self.path_seq()[j]
    }

    /// Whether some handler is bound to `p`.
    pub open spec fn has_path(self, p: Seq<u8>) -> bool {
        self.path_seq().contains(p)
    }

    pub open spec fn path_count(self) -> nat {
        self.path_seq().len()
    }

    /// The handler bound to `p` (meaningful only when `has_path(p)` holds of
    /// a well-formed table).
    pub closed spec fn handler_of(self, p: Seq<u8>) -> H {
        lookup_seq(self.routes@, p)
    }

    pub fn new() -> (r: RouteMapper<H>)
        ensures
            r.wf(),
            r.path_count() == 0,
            forall|p: Seq<u8>| !r.has_path(p),
    {
        let r = RouteMapper { routes: Vec::new() };
        proof {
            assert(r.path_seq() =~= Seq::<Seq<u8>>::empty());
        }
        r
    }

    /// Binds `endpoint` to `path`, replacing any handler previously bound to
    /// the same path: afterwards the key set has grown by exactly `path`,
    /// `path` maps to `endpoint`, and every other binding is unchanged.
    pub fn add_route(&mut self, path: &str, endpoint: H)
        requires
            old(self).wf(),
        ensures
            final(self).wf(),
            forall|q: Seq<u8>|
                final(self).has_path(q) <==> (old(self).has_path(q) || q == path.spec_bytes()),
            final(self).handler_of(path.spec_bytes()) == endpoint,
            forall|q: Seq<u8>|
                old(self).has_path(q) && q != path.spec_bytes() ==> final(self).handler_of(q)
                    == old(self).handler_of(q),
    {
        let key = slice_to_vec(path.as_bytes());
        self.insert_key(key, endpoint);
    }

    fn find_key_index(&self, key: &[u8]) -> (r: Option<usize>)
        ensures
            match r {
                Some(i) => i < self.routes@.len() && self.routes@[i as int].0@ == key@,
                None => !self.has_path(key@),
            },
    {
        let mut i: usize = 0;
        while i < self.routes.len()
            invariant
                i <= self.routes@.len(),
                forall|j: int| 0 <= j < i ==> self.routes@[j].0@ != key@,
            decreases self.routes@.len() - i,
        {
            if bytes_eq(self.routes[i].0.as_slice(), key) {
                return Some(i);
            }
            i += 1;
        }
        proof {
            assert forall|k: int| 0 <= k < self.path_seq().len() implies self.path_seq()[k]
                != key@ by {
                assert(self.routes@[k].0@ != key@);
            }
        }
        None
    }

    fn insert_key(&mut self, key: Vec<u8>, endpoint: H)
        requires
            old(self).wf(),
        ensures
            final(self).wf(),
            forall|q: Seq<u8>| final(self).has_path(q) <==> (old(self).has_path(q) || q == key@),
            final(self).handler_of(key@) == endpoint,
            forall|q: Seq<u8>|
                old(self).has_path(q) && q != key@ ==> final(self).handler_of(q) == old(
                    self,
                ).handler_of(q),
    {
        let ghost prior = *self;
        let ghost keyv = key@;
        let ghost endv = endpoint;
        match self.find_key_index(key.as_slice()) {
            Some(i) => {
                self.routes.remove(i);
                proof {
                    lemma_remove_entry(prior, *self, i as int);
                }
            },
            None => {},
        }
        let ghost mid = *self;
        proof {
            assert(!mid.has_path(keyv));
        }
        self.routes.push((key, endpoint));
        proof {
            let n = mid.routes@.len();
            assert(self.path_seq() =~= mid.path_seq().push(keyv));
            // Well-formedness: the old entries were unique and none of them
            // carries the new key.
            assert forall|a: int, b: int|
                0 <= a < b < self.path_seq().len() implies self.path_seq()[a]
                != self.path_seq()[b] by {
                if b < n {
                    assert(mid.path_seq()[a] != mid.path_seq()[b]);
                } else {
                    assert(self.path_seq()[b] == keyv);
                    assert(mid.path_seq()[a] != keyv) by {
                        if mid.path_seq()[a] == keyv {
                            assert(mid.has_path(keyv));
                        }
                    }
                }
            }
            // The key set grew by exactly the new key.
            assert forall|q: Seq<u8>| self.has_path(q) <==> (mid.has_path(q) || q == keyv) by {
                if self.has_path(q) {
                    let w = choose|w: int|
                        0 <= w < self.path_seq().len() && self.path_seq()[w] == q;
                    if w < n {
                        assert(mid.path_seq()[w] == q);
                        assert(mid.has_path(q));
                    }
                } else {
                    if mid.has_path(q) {
                        let w = choose|w: int|
                            0 <= w < mid.path_seq().len() && mid.path_seq()[w] == q;
                        assert(self.path_seq()[w] == q);
                        assert(self.has_path(q));
                    }
                    if q == keyv {
                        assert(self.path_seq()[n as int] == q);
                        assert(self.has_path(q));
                    }
                }
            }
            // The new key maps to the new handler.
            lemma_handler_at_index(*self, keyv, n as int);
            assert(self.routes@[n as int].1 == endv);
            // Every other binding is untouched.
            assert forall|q: Seq<u8>|
                prior.has_path(q) && q != keyv implies self.handler_of(q) == prior.handler_of(
                q,
            ) by {
                assert(mid.has_path(q));
                let w = choose|w: int| 0 <= w < mid.path_seq().len() && mid.path_seq()[w] == q;
                assert(mid.routes@[w].0@ == q);
                lemma_handler_at_index(mid, q, w);
                assert(self.routes@[w] == mid.routes@[w]);
                lemma_handler_at_index(*self, q, w);
            }
        }
    }

    /// Returns the handler bound to `path`, or nothing when no exact match
    /// exists.
    pub fn get_route_handler(&self, path: &str) -> (r: Option<&H>)
        requires
            self.wf(),
        ensures
            match r {
                Some(h) => self.has_path(path.spec_bytes()) && *h == self.handler_of(
                    path.spec_bytes(),
                ),
                None => !self.has_path(path.spec_bytes()),
            },
    {
        self.lookup(path.as_bytes())
    }

    /// Exact-match lookup on raw path bytes.
    pub fn lookup(&self, path: &[u8]) -> (r: Option<&H>)
        requires
            self.wf(),
        ensures
            match r {
                Some(h) => self.has_path(path@) && *h == self.handler_of(path@),
                None => !self.has_path(path@),
            },
    {
        match self.find_key_index(path) {
            Some(i) => {
                proof {
                    lemma_handler_at_index(*self, path@, i as int);
                }
                Some(&self.routes[i].1)
            },
            None => None,
        }
    }

    /// How many paths are registered.
    pub fn route_count(&self) -> (r: usize)
        ensures
            r == self.path_count(),
    {
        self.routes.len()
    }

    /// The `i`-th registered path, for diagnostic listings; the order carries
    /// no meaning.
    pub fn route_path_at(&self, i: usize) -> (r: &Vec<u8>)
        requires
            i < self.path_count(),
        ensures
            r@ == self.path_seq()[i as int],
    {
        &self.routes[i].0
    }
}

/// The handler paired with the first key equal to `p`.
spec fn lookup_seq<H>(rs: Seq<(Vec<u8>, H)>, p: Seq<u8>) -> H
    decreases rs.len(),
{
    if rs.len() == 0 {
        arbitrary()
    } else if rs[0].0@ == p {
        rs[0].1
    } else {
        lookup_seq(rs.drop_first(), p)
    }
}

proof fn lemma_lookup_seq_at<H>(rs: Seq<(Vec<u8>, H)>, p: Seq<u8>, i: int)
    requires
        0 <= i < rs.len(),
        rs[i].0@ == p,
        forall|j: int| 0 <= j < i ==> #[trigger] rs[j].0@ != p,
    ensures
        lookup_seq(rs, p) == rs[i].1,
    decreases i,
{
    if i > 0 {
        lemma_lookup_seq_at(rs.drop_first(), p, i - 1);
    }
}

/// In a well-formed table, the handler bound to the path stored at index `i`
/// is the handler stored there.
proof fn lemma_handler_at_index<H: Endpoint>(m: RouteMapper<H>, p: Seq<u8>, i: int)
    requires
        m.wf(),
        0 <= i < m.path_seq().len(),
        m.path_seq()[i] == p,
    ensures
        m.has_path(p),
        m.handler_of(p) == m.routes@[i].1,
{
    assert(m.routes@[i].0@ == p);
    assert(m.has_path(p)) by {
        assert(m.path_seq()[i] == p);
    }
    assert forall|j: int| 0 <= j < i implies #[trigger] m.routes@[j].0@ != p by {
        assert(m.path_seq()[j] == m.routes@[j].0@);
        assert(m.path_seq()[i] == p);
    }
    lemma_lookup_seq_at(m.routes@, p, i);
}

/// Removing the entry at `i` keeps the table well formed, drops exactly that
/// entry's path, and leaves every other binding in place.
proof fn lemma_remove_entry<H: Endpoint>(prior: RouteMapper<H>, mid: RouteMapper<H>, i: int)
    requires
        prior.wf(),
        0 <= i < prior.routes@.len(),
        mid.routes@ == prior.routes@.remove(i),
    ensures
        mid.wf(),
        !mid.has_path(prior.path_seq()[i]),
        forall|q: Seq<u8>|
            q != prior.path_seq()[i] ==> (mid.has_path(q) <==> prior.has_path(q)),
        forall|q: Seq<u8>|
            q != prior.path_seq()[i] && prior.has_path(q) ==> mid.handler_of(q)
                == prior.handler_of(q),
{
    let p = prior.path_seq()[i];
    assert(mid.path_seq() =~= prior.path_seq().remove(i));
    assert forall|k: int| 0 <= k < mid.routes@.len() implies mid.routes@[k] == (if k < i {
        prior.routes@[k]
    } else {
        prior.routes@[k + 1]
    }) by {}
    assert(mid.wf()) by {
        assert forall|a: int, b: int|
            0 <= a < b < mid.path_seq().len() implies mid.path_seq()[a] != mid.path_seq()[b] by {
            let pa: int = if a < i {
                a
            } else {
                a + 1
            };
            let pb: int = if b < i {
                b
            } else {
                b + 1
            };
            assert(mid.path_seq()[a] == prior.path_seq()[pa]);
            assert(mid.path_seq()[b] == prior.path_seq()[pb]);
        }
    }
    assert(!mid.has_path(p)) by {
        if mid.has_path(p) {
            let w = choose|w: int| 0 <= w < mid.path_seq().len() && mid.path_seq()[w] == p;
            let pw: int = if w < i {
                w
            } else {
                w + 1
            };
            assert(prior.path_seq()[pw] == p);
            assert(prior.path_seq()[i] == p);
        }
    }
    assert forall|q: Seq<u8>| q != p implies (mid.has_path(q) <==> prior.has_path(q)) by {
        if mid.has_path(q) {
            let w = choose|w: int| 0 <= w < mid.path_seq().len() && mid.path_seq()[w] == q;
            let pw: int = if w < i {
                w
            } else {
                w + 1
            };
            assert(prior.path_seq()[pw] == q);
            assert(prior.has_path(q));
        }
        if prior.has_path(q) {
            let w = choose|w: int| 0 <= w < prior.path_seq().len() && prior.path_seq()[w] == q;
            let mw: int = if w < i {
                w
            } else {
                w - 1
            };
            assert(w != i);
            assert(mid.path_seq()[mw] == q);
            assert(mid.has_path(q));
        }
    }
    assert forall|q: Seq<u8>|
        q != p && prior.has_path(q) implies mid.handler_of(q) == prior.handler_of(q) by {
        let w = choose|w: int| 0 <= w < prior.path_seq().len() && prior.path_seq()[w] == q;
        lemma_handler_at_index(prior, q, w);
        let mw: int = if w < i {
            w
        } else {
            w - 1
        };
        assert(w != i);
        assert(mid.routes@[mw] == prior.routes@[w]);
        lemma_handler_at_index(mid, q, mw);
    }
}

} // verus!
