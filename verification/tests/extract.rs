use sazparser::error::NotFound;
use sazparser::extract::{
    length_from_capture, regex_get_content_length, regex_get_http_status, regex_get_url,
    status_from_capture,
};

#[test]
fn url_of_a_get_request() {
    assert_eq!(regex_get_url("GET /foo/bar HTTP/1.1\r\nHost: x\r\n"), Ok("/foo/bar"));
}

#[test]
fn url_absent_without_a_request_line() {
    assert_eq!(regex_get_url("Host: x\r\nAccept: */*\r\n"), Err(NotFound));
    assert_eq!(regex_get_url(""), Err(NotFound));
    assert_eq!(regex_get_url("GET /foo/bar HTTP/1.0\r\n"), Err(NotFound));
    assert_eq!(regex_get_url("PATCH /foo HTTP/1.1\r\n"), Err(NotFound));
    assert_eq!(regex_get_url("GET\r\n/foo HTTP/1.1\r\n"), Err(NotFound));
    assert_eq!(regex_get_url("GET /foo HTTP/1x1\r\n"), Err(NotFound));
    assert_eq!(regex_get_url("GET /foo HTTP/2\r\n"), Err(NotFound));
    assert_eq!(regex_get_url("get /foo HTTP/1.1\r\n"), Err(NotFound));
}

#[test]
fn url_of_every_method() {
    for method in ["GET", "HEAD", "POST", "PUT", "DELETE", "CONNECT", "OPTIONS", "TRACE"] {
        let text = format!("{} http://example.com/a?b=c HTTP/1.1\r\nHost: example.com\r\n", method);
        assert_eq!(regex_get_url(&text), Ok("http://example.com/a?b=c"));
    }
}

#[test]
fn url_found_anywhere_in_the_text() {
    let text = "X-Note: recorded\r\nPOST /submit HTTP/1.1\r\nHost: x\r\n\r\nGET /later HTTP/1.1\r\n";
    assert_eq!(regex_get_url(text), Ok("/submit"));
}

#[test]
fn url_may_hold_blanks() {
    assert_eq!(regex_get_url("GET /a b c HTTP/1.1\r\n"), Ok("/a b c"));
    assert_eq!(regex_get_url("GET  HTTP/1.1\r\n"), Ok(""));
}

#[test]
fn status_of_a_response() {
    assert_eq!(regex_get_http_status("HTTP/1.1 200 OK\r\nContent-Length: 5\r\n"), Ok(200));
    assert_eq!(regex_get_http_status("HTTP/1.1 404 Not Found\r\n"), Ok(404));
    assert_eq!(regex_get_http_status("HTTP/1.0 301 Moved\r\n"), Ok(301));
}

#[test]
fn status_is_the_last_three_digits_of_the_line() {
    assert_eq!(regex_get_http_status("HTTP/1.1 200 OK 123\r\n"), Ok(123));
    assert_eq!(regex_get_http_status("HTTP/1.1 007 Odd\r\n"), Ok(7));
}

#[test]
fn status_absent() {
    assert_eq!(regex_get_http_status(""), Err(NotFound));
    assert_eq!(regex_get_http_status("Content-Length: 123\r\n"), Err(NotFound));
    assert_eq!(regex_get_http_status("HTTP/1.1 OK\r\n"), Err(NotFound));
    assert_eq!(regex_get_http_status("HTTP\r\n200\r\n"), Err(NotFound));
}

#[test]
fn content_length_absent_is_zero() {
    assert_eq!(regex_get_content_length("HTTP/1.1 200 OK\r\nServer: x\r\n\r\n"), 0);
    assert_eq!(regex_get_content_length(""), 0);
}

#[test]
fn content_length_is_read() {
    assert_eq!(regex_get_content_length("HTTP/1.1 200 OK\r\nContent-Length: 1234\r\n"), 1234);
}

#[test]
fn content_length_whatever_the_header_order() {
    let first = "HTTP/1.1 200 OK\r\nContent-Length: 1234\r\nServer: x\r\nDate: today\r\n\r\n";
    let middle = "HTTP/1.1 200 OK\r\nServer: x\r\nContent-Length: 1234\r\nDate: today\r\n\r\n";
    let last = "HTTP/1.1 200 OK\r\nServer: x\r\nDate: today\r\nContent-Length: 1234\r\n\r\n";
    assert_eq!(regex_get_content_length(first), 1234);
    assert_eq!(regex_get_content_length(middle), 1234);
    assert_eq!(regex_get_content_length(last), 1234);
}

#[test]
fn content_length_header_is_case_sensitive() {
    assert_eq!(regex_get_content_length("HTTP/1.1 200 OK\r\ncontent-length: 12\r\n"), 0);
    assert_eq!(regex_get_content_length("HTTP/1.1 200 OK\r\nCONTENT-LENGTH: 12\r\n"), 0);
}

#[test]
fn content_length_needs_one_blank_and_digits() {
    assert_eq!(regex_get_content_length("Content-Length:12\r\n"), 0);
    assert_eq!(regex_get_content_length("Content-Length:  12\r\n"), 0);
    assert_eq!(regex_get_content_length("Content-Length: abc\r\n"), 0);
    assert_eq!(regex_get_content_length("Content-Length:\t12\r\n"), 12);
    assert_eq!(regex_get_content_length("Content-Length: 0\r\n"), 0);
    assert_eq!(regex_get_content_length("Content-Length: 0012\r\n"), 12);
}

#[test]
fn content_length_first_header_counts() {
    assert_eq!(regex_get_content_length("Content-Length: 5\r\nContent-Length: 6\r\n"), 5);
}

#[test]
fn content_length_too_great_is_zero() {
    assert_eq!(regex_get_content_length("Content-Length: 4294967295\r\n"), u32::MAX);
    assert_eq!(regex_get_content_length("Content-Length: 4294967296\r\n"), 0);
    assert_eq!(regex_get_content_length("Content-Length: 99999999999999999999\r\n"), 0);
}

#[test]
fn content_length_in_other_digits_is_zero() {
    assert_eq!(regex_get_content_length("Content-Length: \u{661}\u{662}\r\n"), 0);
}

#[test]
fn status_from_digits() {
    assert_eq!(status_from_capture(Some("200")), Ok(200));
    assert_eq!(status_from_capture(Some("099")), Ok(99));
    assert_eq!(status_from_capture(Some("")), Err(NotFound));
    assert_eq!(status_from_capture(Some("2x0")), Err(NotFound));
    assert_eq!(status_from_capture(Some("4294967296")), Err(NotFound));
    assert_eq!(status_from_capture(None), Err(NotFound));
}

#[test]
fn length_from_digits() {
    assert_eq!(length_from_capture(Some("1234")), 1234);
    assert_eq!(length_from_capture(Some("0")), 0);
    assert_eq!(length_from_capture(Some("")), 0);
    assert_eq!(length_from_capture(Some("12 ")), 0);
    assert_eq!(length_from_capture(Some("4294967295")), u32::MAX);
    assert_eq!(length_from_capture(Some("4294967296")), 0);
    assert_eq!(length_from_capture(None), 0);
}
