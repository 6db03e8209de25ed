//! The route table, the request-line parser, the response envelope, and the
//! job queue, each exercised directly.

use base_server::pool::ThreadPool;
use base_server::request::{bytes_eq, parse_request_line};
use base_server::response::{format_response, u64_to_dec};
use base_server::routes::{Endpoint, Home, Info, RouteMapper, SiteEndpoint};

#[test]
fn home_handler_bodies() {
    assert!(Home.get().starts_with("<!DOCTYPE html>"));
    assert!(Home.get().contains("<h1>Home GET</h1>"));
    assert_eq!(Home.post(), "test");
    assert_eq!(Home.delete(), "test");
}

#[test]
fn add_route_then_lookup_finds_the_handler() {
    let mut m: RouteMapper<Home> = RouteMapper::new();
    assert_eq!(m.route_count(), 0);
    m.add_route("/home", Home);
    assert_eq!(m.route_count(), 1);
    assert!(m.get_route_handler("/home").is_some());
    assert!(m.get_route_handler("/hom").is_none());
    assert!(m.get_route_handler("/home ").is_none());
    assert!(m.get_route_handler("").is_none());
}

#[test]
fn add_route_replaces_an_existing_binding() {
    let mut m: RouteMapper<Home> = RouteMapper::new();
    m.add_route("/home", Home);
    m.add_route("/info", Home);
    assert_eq!(m.route_count(), 2);
    // Re-registering a path must not grow the key set.
    m.add_route("/home", Home);
    assert_eq!(m.route_count(), 2);
    assert!(m.get_route_handler("/home").is_some());
    assert!(m.get_route_handler("/info").is_some());
}

#[test]
fn lookup_returns_the_bound_handler() {
    let mut m: RouteMapper<SiteEndpoint> = RouteMapper::new();
    m.add_route("/home", SiteEndpoint::Home(Home));
    m.add_route("/info", SiteEndpoint::Info(Info));
    assert!(m.get_route_handler("/home").unwrap().get().contains("<h1>Home GET</h1>"));
    assert!(m.get_route_handler("/info").unwrap().get().contains("<h1>Info GET</h1>"));
}

#[test]
fn re_adding_a_path_replaces_its_handler() {
    let mut m: RouteMapper<SiteEndpoint> = RouteMapper::new();
    m.add_route("/page", SiteEndpoint::Home(Home));
    assert!(m.get_route_handler("/page").unwrap().get().contains("Home GET"));
    m.add_route("/page", SiteEndpoint::Info(Info));
    assert_eq!(m.route_count(), 1);
    assert!(m.get_route_handler("/page").unwrap().get().contains("Info GET"));
}

#[test]
fn route_paths_can_be_listed() {
    let mut m: RouteMapper<Home> = RouteMapper::new();
    m.add_route("/home", Home);
    m.add_route("/info", Home);
    let mut paths = Vec::new();
    for i in 0..m.route_count() {
        paths.push(m.route_path_at(i).clone());
    }
    paths.sort();
    assert_eq!(paths, vec![b"/home".to_vec(), b"/info".to_vec()]);
}

#[test]
fn parser_returns_first_two_tokens() {
    let r = parse_request_line(b"GET /home HTTP/1.1\r\nHost: x\r\n").unwrap();
    assert_eq!(r.0, b"GET".to_vec());
    assert_eq!(r.1, b"/home".to_vec());

    // Tabs and runs of blanks separate tokens just as single spaces do.
    let r = parse_request_line(b"POST\t\t/x\tHTTP/1.1\r\n").unwrap();
    assert_eq!(r.0, b"POST".to_vec());
    assert_eq!(r.1, b"/x".to_vec());

    let r = parse_request_line(b"  DELETE   /y").unwrap();
    assert_eq!(r.0, b"DELETE".to_vec());
    assert_eq!(r.1, b"/y".to_vec());

    // Two tokens with no trailing version are enough.
    let r = parse_request_line(b"GET /home\r\nrest is ignored").unwrap();
    assert_eq!(r.0, b"GET".to_vec());
    assert_eq!(r.1, b"/home".to_vec());

    // Form feed and vertical tab are ASCII whitespace and separate tokens.
    let r = parse_request_line(b"GET\x0c/home\x0bHTTP/1.1\r\n").unwrap();
    assert_eq!(r.0, b"GET".to_vec());
    assert_eq!(r.1, b"/home".to_vec());
}

#[test]
fn parser_rejects_short_lines() {
    assert_eq!(parse_request_line(b""), None);
    assert_eq!(parse_request_line(b"\r\n"), None);
    assert_eq!(parse_request_line(b"GET"), None);
    assert_eq!(parse_request_line(b"GET   \r\n"), None);
    // The second token must be on the first line.
    assert_eq!(parse_request_line(b"GET\r\n/home"), None);
}

#[test]
fn bytes_eq_compares_contents() {
    assert!(bytes_eq(b"GET", b"GET"));
    assert!(!bytes_eq(b"GET", b"GE"));
    assert!(!bytes_eq(b"GET", b"GEt"));
    assert!(bytes_eq(b"", b""));
}

#[test]
fn response_envelope_is_exact() {
    assert_eq!(
        format_response(""),
        "HTTP/1.1 200 OK\r\nContent-Length: 0\r\n\r\n"
    );
    assert_eq!(
        format_response("abc"),
        "HTTP/1.1 200 OK\r\nContent-Length: 3\r\n\r\nabc"
    );
    let long = "x".repeat(120);
    assert_eq!(
        format_response(&long),
        format!("HTTP/1.1 200 OK\r\nContent-Length: 120\r\n\r\n{}", long)
    );
}

#[test]
fn content_length_counts_bytes_not_chars() {
    // Five characters, six bytes.
    let r = format_response("héllo");
    assert_eq!(r, "HTTP/1.1 200 OK\r\nContent-Length: 6\r\n\r\nhéllo");
}

#[test]
fn decimal_rendering() {
    assert_eq!(u64_to_dec(0), "0");
    assert_eq!(u64_to_dec(7), "7");
    assert_eq!(u64_to_dec(10), "10");
    assert_eq!(u64_to_dec(1024), "1024");
    assert_eq!(u64_to_dec(u64::MAX), "18446744073709551615");
}

#[test]
fn queue_hands_out_jobs_fifo_exactly_once() {
    // Many more jobs than workers: every job comes out, once, in order.
    let mut pool: ThreadPool<u64> = ThreadPool::new(4);
    for k in 0..100u64 {
        pool.execute(k);
    }
    assert_eq!(pool.pending_count(), 100);
    for k in 0..100u64 {
        assert_eq!(pool.take_job(), Some(k));
    }
    assert_eq!(pool.pending_count(), 0);
    assert_eq!(pool.take_job(), None);
}

#[test]
fn empty_queue_yields_nothing() {
    let mut pool: ThreadPool<u64> = ThreadPool::new(1);
    assert_eq!(pool.take_job(), None);
    pool.execute(9);
    assert_eq!(pool.take_job(), Some(9));
    assert_eq!(pool.take_job(), None);
}
