//! One full request/response exchange per test: the buffer goes in, the
//! reply bytes come out.

use base_server::routes::SiteEndpoint;
use base_server::server::Server;

// The exact served bytes, trailing blanks on the separator lines included.
const HOME_PAGE: &str =
    "<!DOCTYPE html>\n        <html>\n        <body>\n        \n        <h1>Home GET</h1>\n        \n        </body>\n        </html>";
const INFO_PAGE: &str =
    "<!DOCTYPE html>\n        <html>\n        <body>\n        \n        <h1>Info GET</h1>\n        \n        </body>\n        </html>";

fn home_server() -> Server<SiteEndpoint> {
    let mut s: Server<SiteEndpoint> = Server::new();
    s.setup_routes();
    s
}

#[test]
fn get_home_returns_home_page() {
    let s = home_server();
    let r = s.handle_request(b"GET /home HTTP/1.1\r\nHost: localhost\r\n\r\n");
    let expected = format!(
        "HTTP/1.1 200 OK\r\nContent-Length: {}\r\n\r\n{}",
        HOME_PAGE.len(),
        HOME_PAGE
    );
    assert_eq!(r, Some(expected));
}

#[test]
fn get_home_page_has_exact_reference_bytes() {
    // 121 bytes: the two separator lines carry eight trailing blanks each.
    assert_eq!(HOME_PAGE.len(), 121);
    let s = home_server();
    let r = s.handle_request(b"GET /home HTTP/1.1\r\n\r\n").unwrap();
    assert!(r.starts_with("HTTP/1.1 200 OK\r\nContent-Length: 121\r\n\r\n"));
}

#[test]
fn get_info_returns_info_page() {
    let s = home_server();
    let r = s.handle_request(b"GET /info HTTP/1.1\r\nHost: localhost\r\n\r\n");
    let expected = format!(
        "HTTP/1.1 200 OK\r\nContent-Length: {}\r\n\r\n{}",
        INFO_PAGE.len(),
        INFO_PAGE
    );
    assert_eq!(r, Some(expected));
}

#[test]
fn post_info_returns_test_body() {
    let s = home_server();
    let r = s.handle_request(b"POST /info HTTP/1.1\r\n\r\n");
    assert_eq!(
        r,
        Some("HTTP/1.1 200 OK\r\nContent-Length: 4\r\n\r\ntest".to_string())
    );
}

#[test]
fn post_home_returns_test_body() {
    let s = home_server();
    let r = s.handle_request(b"POST /home HTTP/1.1\r\n\r\n");
    assert_eq!(
        r,
        Some("HTTP/1.1 200 OK\r\nContent-Length: 4\r\n\r\ntest".to_string())
    );
}

#[test]
fn delete_home_returns_test_body() {
    let s = home_server();
    let r = s.handle_request(b"DELETE /home HTTP/1.1\r\n\r\n");
    assert_eq!(
        r,
        Some("HTTP/1.1 200 OK\r\nContent-Length: 4\r\n\r\ntest".to_string())
    );
}

#[test]
fn missing_path_returns_404_body() {
    let s = home_server();
    let r = s.handle_request(b"GET /missing HTTP/1.1\r\n\r\n");
    assert_eq!(
        r,
        Some(
            "HTTP/1.1 200 OK\r\nContent-Length: 48\r\n\r\n\
             <html><body><h1>404 NOT FOUND</h1></body></html>"
                .to_string()
        )
    );
}

#[test]
fn unsupported_method_returns_405_status_line() {
    let s = home_server();
    let r = s.handle_request(b"PATCH /home HTTP/1.1\r\n\r\n");
    assert_eq!(
        r,
        Some(
            "HTTP/1.1 200 OK\r\nContent-Length: 31\r\n\r\n\
             HTTP/1.1 405 METHOD NOT ALLOWED"
                .to_string()
        )
    );
}

#[test]
fn lowercase_method_is_not_matched() {
    let s = home_server();
    let r = s.handle_request(b"get /home HTTP/1.1\r\n\r\n");
    assert_eq!(
        r,
        Some(
            "HTTP/1.1 200 OK\r\nContent-Length: 31\r\n\r\n\
             HTTP/1.1 405 METHOD NOT ALLOWED"
                .to_string()
        )
    );
}

#[test]
fn path_match_is_exact_no_normalization() {
    let s = home_server();
    let with_slash = s.handle_request(b"GET /home/ HTTP/1.1\r\n\r\n").unwrap();
    assert!(with_slash.contains("404 NOT FOUND"));
    let with_query = s.handle_request(b"GET /home?x=1 HTTP/1.1\r\n\r\n").unwrap();
    assert!(with_query.contains("404 NOT FOUND"));
}

#[test]
fn short_request_line_is_dropped_silently() {
    let s = home_server();
    assert_eq!(s.handle_request(b"GET\r\n\r\n"), None);
    assert_eq!(s.handle_request(b"GET \r\n\r\n"), None);
    assert_eq!(s.handle_request(b""), None);
    assert_eq!(s.handle_request(b"   \r\nGET /home HTTP/1.1\r\n"), None);
}

#[test]
fn trailing_buffer_padding_is_ignored() {
    // The accept loop hands over a fixed-size read buffer; bytes after the
    // first line do not matter.
    let s = home_server();
    let mut buffer = vec![0u8; 1024];
    let line = b"POST /home HTTP/1.1\r\nHost: x\r\n\r\n";
    buffer[..line.len()].copy_from_slice(line);
    let r = s.handle_request(&buffer);
    assert_eq!(
        r,
        Some("HTTP/1.1 200 OK\r\nContent-Length: 4\r\n\r\ntest".to_string())
    );
}

#[test]
fn request_without_crlf_is_still_parsed() {
    let s = home_server();
    let r = s.handle_request(b"GET /home");
    let expected = format!(
        "HTTP/1.1 200 OK\r\nContent-Length: {}\r\n\r\n{}",
        HOME_PAGE.len(),
        HOME_PAGE
    );
    assert_eq!(r, Some(expected));
}
