use thread_pool::http::{decimal_digits, format_response, select_page, starts_with, Page};

#[test]
fn the_root_request_line_gets_the_greeting() {
    let hello = "<!DOCTYPE html>\n<html><body><h1>Hello!</h1></body></html>\n";
    let mut request = [0u8; 1024];
    let line = b"GET / HTTP/1.1\r\n";
    request[..line.len()].copy_from_slice(line);
    let page = select_page(&request);
    assert_eq!(page, Page::Hello);
    assert_eq!(page.file_name(), "hello.html");
    let response = format_response(page, hello.as_bytes());
    let expected = format!("HTTP/1.1 200 OK\r\nContent-Length: {}\r\n\r\n{}", hello.len(), hello);
    assert_eq!(response, expected.as_bytes());
}

#[test]
fn any_other_request_line_gets_not_found() {
    let missing = "<!DOCTYPE html>\n<html><body><h1>Oops!</h1></body></html>\n";
    let mut request = [0u8; 1024];
    let line = b"GET /missing HTTP/1.1\r\n";
    request[..line.len()].copy_from_slice(line);
    let page = select_page(&request);
    assert_eq!(page, Page::NotFound);
    assert_eq!(page.file_name(), "404.html");
    let response = format_response(page, missing.as_bytes());
    let expected = format!(
        "HTTP/1.1 404 NOT FOUND\r\nContent-Length: {}\r\n\r\n{}",
        missing.len(),
        missing
    );
    assert_eq!(response, expected.as_bytes());
}

#[test]
fn the_request_line_must_match_to_the_last_byte() {
    assert_eq!(select_page(b"GET / HTTP/1.1\r\n"), Page::Hello);
    assert_eq!(select_page(b"GET / HTTP/1.1\r\nHost: localhost\r\n\r\n"), Page::Hello);
    assert_eq!(select_page(b"GET / HTTP/1.1\r"), Page::NotFound);
    assert_eq!(select_page(b"GET / HTTP/1.1\n"), Page::NotFound);
    assert_eq!(select_page(b"GET / HTTP/1.0\r\n"), Page::NotFound);
    assert_eq!(select_page(b"get / HTTP/1.1\r\n"), Page::NotFound);
    assert_eq!(select_page(b" GET / HTTP/1.1\r\n"), Page::NotFound);
    assert_eq!(select_page(b"GET /sleep HTTP/1.1\r\n"), Page::NotFound);
    assert_eq!(select_page(b"POST / HTTP/1.1\r\n"), Page::NotFound);
    assert_eq!(select_page(b""), Page::NotFound);
    assert_eq!(select_page(&[0u8; 1024]), Page::NotFound);
}

#[test]
fn status_lines_and_file_names() {
    assert_eq!(Page::Hello.status_line(), "HTTP/1.1 200 OK");
    assert_eq!(Page::NotFound.status_line(), "HTTP/1.1 404 NOT FOUND");
    assert_eq!(Page::Hello.file_name(), "hello.html");
    assert_eq!(Page::NotFound.file_name(), "404.html");
}

#[test]
fn an_empty_body_has_length_zero() {
    assert_eq!(
        format_response(Page::Hello, b""),
        b"HTTP/1.1 200 OK\r\nContent-Length: 0\r\n\r\n"
    );
    assert_eq!(
        format_response(Page::NotFound, b""),
        b"HTTP/1.1 404 NOT FOUND\r\nContent-Length: 0\r\n\r\n"
    );
}

#[test]
fn the_length_counts_bytes_not_characters() {
    let body = "h\u{e9}llo \u{2603}";
    assert_eq!(body.len(), 10);
    let response = format_response(Page::Hello, body.as_bytes());
    let expected = "HTTP/1.1 200 OK\r\nContent-Length: 10\r\n\r\nh\u{e9}llo \u{2603}";
    assert_eq!(response, expected.as_bytes());
}

#[test]
fn a_long_body_is_carried_whole() {
    let body = vec![b'x'; 12345];
    let response = format_response(Page::Hello, &body);
    let head = b"HTTP/1.1 200 OK\r\nContent-Length: 12345\r\n\r\n";
    assert_eq!(response.len(), head.len() + body.len());
    assert_eq!(&response[..head.len()], head);
    assert_eq!(&response[head.len()..], &body[..]);
}

#[test]
fn numbers_are_written_in_decimal() {
    assert_eq!(decimal_digits(0), b"0");
    assert_eq!(decimal_digits(7), b"7");
    assert_eq!(decimal_digits(9), b"9");
    assert_eq!(decimal_digits(10), b"10");
    assert_eq!(decimal_digits(99), b"99");
    assert_eq!(decimal_digits(100), b"100");
    assert_eq!(decimal_digits(1024), b"1024");
    assert_eq!(decimal_digits(usize::MAX), usize::MAX.to_string().as_bytes());
}

#[test]
fn prefixes() {
    assert!(starts_with(b"abc", b""));
    assert!(starts_with(b"", b""));
    assert!(starts_with(b"abc", b"a"));
    assert!(starts_with(b"abc", b"abc"));
    assert!(!starts_with(b"abc", b"abcd"));
    assert!(!starts_with(b"abc", b"b"));
    assert!(!starts_with(b"", b"a"));
    assert!(!starts_with(b"abd", b"abc"));
}
