use http_server::http::request::HttpRequest;
use http_server::Config;

fn config(dir: &str) -> Config {
    Config { directory: String::from(dir) }
}

#[test]
fn request_line_is_recovered() {
    let req = HttpRequest::new("GET / HTTP/1.1\r\n\r\n", &config(""));
    assert_eq!(req.method, "GET");
    assert_eq!(req.target, "/");
    assert_eq!(req.version, "HTTP/1.1");
}

#[test]
fn request_line_with_extra_whitespace() {
    let req = HttpRequest::new("POST   /file/a\t HTTP/1.1\r\n\r\n", &config(""));
    assert_eq!(req.method, "POST");
    assert_eq!(req.target, "/file/a");
    assert_eq!(req.version, "HTTP/1.1");
}

#[test]
fn missing_tokens_degrade_to_empty() {
    let req = HttpRequest::new("GET\r\n\r\n", &config(""));
    assert_eq!(req.method, "GET");
    assert_eq!(req.target, "");
    assert_eq!(req.version, "");
}

#[test]
fn empty_input_parses_to_empty_request() {
    let req = HttpRequest::new("", &config(""));
    assert_eq!(req.method, "");
    assert_eq!(req.target, "");
    assert_eq!(req.version, "");
    assert_eq!(req.headers.host, "");
    assert_eq!(req.headers.user_agent, "");
    assert_eq!(req.body, "");
    assert_eq!(req.content_length, 0);
}

#[test]
fn recognized_headers_are_extracted() {
    let raw = "GET / HTTP/1.1\r\nHost: localhost:4221\r\nUser-Agent: curl/7.64\r\nAccept: */*\r\nAccept-Encoding: gzip, br\r\n\r\n";
    let req = HttpRequest::new(raw, &config(""));
    assert_eq!(req.headers.host, "localhost:4221");
    assert_eq!(req.headers.user_agent, "curl/7.64");
    assert_eq!(req.headers.accept, "*/*");
    assert_eq!(req.headers.accept_encoding, "gzip, br");
}

#[test]
fn unrecognized_headers_are_ignored() {
    let raw = "GET / HTTP/1.1\r\nX-Custom: zzz\r\nHost: h\r\n\r\n";
    let req = HttpRequest::new(raw, &config(""));
    assert_eq!(req.headers.host, "h");
    assert_eq!(req.headers.user_agent, "");
}

#[test]
fn absent_headers_are_empty_strings() {
    let req = HttpRequest::new("GET / HTTP/1.1\r\n\r\n", &config(""));
    assert_eq!(req.headers.host, "");
    assert_eq!(req.headers.user_agent, "");
    assert_eq!(req.headers.accept, "");
    assert_eq!(req.headers.accept_encoding, "");
}

#[test]
fn body_section_sets_length_type_and_body() {
    let raw = "POST /file/a HTTP/1.1\r\nHost: h\r\n\r\nContent-Length: 5\r\nContent-Type: text/plain\r\nhello-world";
    let req = HttpRequest::new(raw, &config(""));
    assert_eq!(req.content_length, 5);
    assert_eq!(req.content_type, "text/plain");
    assert_eq!(req.body, "hello");
}

#[test]
fn body_shorter_than_content_length_is_kept_whole() {
    let raw = "POST /file/a HTTP/1.1\r\n\r\nContent-Length: 99\r\nhi";
    let req = HttpRequest::new(raw, &config(""));
    assert_eq!(req.content_length, 99);
    assert_eq!(req.body, "hi");
}

#[test]
fn unreadable_content_length_defaults_to_zero() {
    let raw = "POST /file/a HTTP/1.1\r\n\r\nContent-Length: abc\r\nhello";
    let req = HttpRequest::new(raw, &config(""));
    assert_eq!(req.content_length, 0);
    assert_eq!(req.body, "");
}

#[test]
fn missing_content_length_defaults_to_zero() {
    let raw = "POST /file/a HTTP/1.1\r\n\r\nhello";
    let req = HttpRequest::new(raw, &config(""));
    assert_eq!(req.content_length, 0);
    assert_eq!(req.body, "");
}

#[test]
fn oversized_content_length_defaults_to_zero() {
    let raw = "POST /file/a HTTP/1.1\r\n\r\nContent-Length: 99999999999999999999999999\r\nhello";
    let req = HttpRequest::new(raw, &config(""));
    assert_eq!(req.content_length, 0);
    assert_eq!(req.body, "");
}

#[test]
fn empty_content_length_value_defaults_to_zero() {
    let raw = "POST /file/a HTTP/1.1\r\n\r\nContent-Length: \r\nhello";
    let req = HttpRequest::new(raw, &config(""));
    assert_eq!(req.content_length, 0);
}

#[test]
fn first_matching_header_wins() {
    let raw = "GET / HTTP/1.1\r\nHost: first\r\nHost: second\r\n\r\n";
    let req = HttpRequest::new(raw, &config(""));
    assert_eq!(req.headers.host, "first");
}

#[test]
fn request_line_without_terminator_still_parses() {
    let req = HttpRequest::new("GET / HTTP/1.1", &config(""));
    assert_eq!(req.method, "GET");
    assert_eq!(req.target, "/");
    assert_eq!(req.version, "HTTP/1.1");
    assert_eq!(req.body, "");
}

#[test]
fn directory_is_taken_from_config() {
    let req = HttpRequest::new("GET / HTTP/1.1\r\n\r\n", &config("/tmp/files"));
    assert_eq!(req.directory, "/tmp/files");
}
