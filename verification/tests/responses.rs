use http_server::http::request::FileDirective;
use http_server::http::request::FileOutcome;
use http_server::http::request::HttpRequest;
use http_server::http::request::Route;
use http_server::targets::echo::handle_echo;
use http_server::Config;

fn request(raw: &str) -> HttpRequest {
    HttpRequest::new(raw, &Config { directory: String::from("") })
}

#[test]
fn root_gets_fixed_greeting() {
    let req = request("GET / HTTP/1.1\r\n\r\n");
    assert_eq!(req.route(), Route::Root);
    assert_eq!(
        req.response(&FileOutcome::Unused),
        "HTTP/1.1 200 OK\r\nContent-Type: text/plain\r\nContent-Length: 4\r\n\r\ntest"
    );
}

#[test]
fn echo_returns_the_segment() {
    let req = request("GET /echo/abc HTTP/1.1\r\n\r\n");
    assert_eq!(req.route(), Route::Echo);
    assert_eq!(
        req.response(&FileOutcome::Unused),
        "HTTP/1.1 200 OK\r\nContent-Type: text/plain\r\nContent-Length: 3\r\n\r\nabc"
    );
}

#[test]
fn echo_empty_segment() {
    let req = request("GET /echo/ HTTP/1.1\r\n\r\n");
    assert_eq!(
        req.response(&FileOutcome::Unused),
        "HTTP/1.1 200 OK\r\nContent-Type: text/plain\r\nContent-Length: 0\r\n\r\n"
    );
}

#[test]
fn echo_with_extra_segments_falls_back() {
    let req = request("GET /echo/a/b HTTP/1.1\r\n\r\n");
    assert_eq!(
        req.response(&FileOutcome::Unused),
        "HTTP/1.1 200 OK\r\nContent-Type: text/plain\r\nContent-Length: 4\r\n\r\ntest"
    );
}

#[test]
fn echo_without_segment_falls_back() {
    let req = request("GET /echo HTTP/1.1\r\n\r\n");
    assert_eq!(
        req.response(&FileOutcome::Unused),
        "HTTP/1.1 200 OK\r\nContent-Type: text/plain\r\nContent-Length: 4\r\n\r\ntest"
    );
}

#[test]
fn echo_prefix_matches_literally() {
    // `/echoXYZ` matches the echo prefix: two segments, so the fallback body.
    let req = request("GET /echoXYZ HTTP/1.1\r\n\r\n");
    assert_eq!(req.route(), Route::Echo);
    assert_eq!(
        req.response(&FileOutcome::Unused),
        "HTTP/1.1 200 OK\r\nContent-Type: text/plain\r\nContent-Length: 4\r\n\r\ntest"
    );
}

#[test]
fn echo_advertises_gzip_without_transforming() {
    let req = request("GET /echo/abc HTTP/1.1\r\nAccept-Encoding: gzip\r\n\r\n");
    assert_eq!(
        req.response(&FileOutcome::Unused),
        "HTTP/1.1 200 OK\r\nContent-Type: text/plain\r\nContent-Length: 3\r\nContent-Encoding: gzip\r\n\r\nabc"
    );
}

#[test]
fn echo_gzip_substring_in_encoding_list() {
    let req = request("GET /echo/hi HTTP/1.1\r\nAccept-Encoding: br, gzip, deflate\r\n\r\n");
    assert_eq!(
        req.response(&FileOutcome::Unused),
        "HTTP/1.1 200 OK\r\nContent-Type: text/plain\r\nContent-Length: 2\r\nContent-Encoding: gzip\r\n\r\nhi"
    );
}

#[test]
fn echo_without_gzip_has_no_encoding_header() {
    let req = request("GET /echo/hi HTTP/1.1\r\nAccept-Encoding: br\r\n\r\n");
    assert_eq!(
        req.response(&FileOutcome::Unused),
        "HTTP/1.1 200 OK\r\nContent-Type: text/plain\r\nContent-Length: 2\r\n\r\nhi"
    );
}

#[test]
fn free_echo_matches_method_echo() {
    assert_eq!(
        handle_echo("/echo/abc"),
        "HTTP/1.1 200 OK\r\nContent-Type: text/plain\r\nContent-Length: 3\r\n\r\nabc"
    );
    assert_eq!(
        handle_echo("/echo/a/b"),
        "HTTP/1.1 200 OK\r\nContent-Type: text/plain\r\nContent-Length: 4\r\n\r\ntest"
    );
}

#[test]
fn user_agent_is_reflected() {
    let req = request("GET /user-agent HTTP/1.1\r\nUser-Agent: foobar/1.2.3\r\n\r\n");
    assert_eq!(req.route(), Route::UserAgent);
    assert_eq!(
        req.response(&FileOutcome::Unused),
        "HTTP/1.1 200 OK\r\nContent-Type: text/plain\r\nContent-Length: 12\r\n\r\nfoobar/1.2.3"
    );
}

#[test]
fn absent_user_agent_gives_empty_body() {
    let req = request("GET /user-agent HTTP/1.1\r\n\r\n");
    assert_eq!(
        req.response(&FileOutcome::Unused),
        "HTTP/1.1 200 OK\r\nContent-Type: text/plain\r\nContent-Length: 0\r\n\r\n"
    );
}

#[test]
fn file_get_found_returns_contents() {
    let req = request("GET /file/hello.txt HTTP/1.1\r\n\r\n");
    assert_eq!(req.route(), Route::FileGet);
    let outcome = FileOutcome::Data(String::from("Hello, World!"));
    assert_eq!(
        req.response(&outcome),
        "HTTP/1.1 200 OK\r\nContent-Type: application/octet-stream\r\nContent-Length: 13\r\n\r\nHello, World!"
    );
}

#[test]
fn file_get_missing_is_not_found() {
    let req = request("GET /file/nope HTTP/1.1\r\n\r\n");
    assert_eq!(
        req.response(&FileOutcome::Missing),
        "HTTP/1.1 404 Not Found\r\nContent-Type: text/plain\r\nContent-Length: 4\r\n\r\ntest"
    );
}

#[test]
fn file_get_directive_names_the_file() {
    let req = request("GET /file/hello.txt HTTP/1.1\r\n\r\n");
    match req.file_directive() {
        Some(FileDirective::ReadFile(name)) => assert_eq!(name, "hello.txt"),
        _ => panic!("expected a read directive"),
    }
}

#[test]
fn file_post_directive_carries_the_body() {
    let raw = "POST /file/out.txt HTTP/1.1\r\n\r\nContent-Length: 5\r\nhello";
    let req = request(raw);
    assert_eq!(req.route(), Route::FilePost);
    match req.file_directive() {
        Some(FileDirective::WriteFile(name, content)) => {
            assert_eq!(name, "out.txt");
            assert_eq!(content, "hello");
        }
        _ => panic!("expected a write directive"),
    }
}

#[test]
fn file_post_saved_is_created() {
    let raw = "POST /file/out.txt HTTP/1.1\r\n\r\nContent-Length: 5\r\nhello";
    let req = request(raw);
    assert_eq!(
        req.response(&FileOutcome::Saved),
        "HTTP/1.1 201 Created\r\nContent-Type: text/plain\r\nContent-Length: 0\r\n\r\n"
    );
}

#[test]
fn file_post_failure_is_server_error() {
    let raw = "POST /file/out.txt HTTP/1.1\r\n\r\nContent-Length: 5\r\nhello";
    let req = request(raw);
    assert_eq!(
        req.response(&FileOutcome::Failed),
        "HTTP/1.1 500 Internal Server Error\r\nContent-Type: text/plain\r\nContent-Length: 0\r\n\r\n"
    );
}

#[test]
fn file_post_then_get_round_trips() {
    // The store is simulated: what the write directive carries is what a
    // later read hands back.
    let post = request("POST /file/a HTTP/1.1\r\n\r\nContent-Length: 4\r\ndata");
    let (name, stored) = match post.file_directive() {
        Some(FileDirective::WriteFile(name, content)) => (name, content),
        _ => panic!("expected a write directive"),
    };
    assert_eq!(
        post.response(&FileOutcome::Saved),
        "HTTP/1.1 201 Created\r\nContent-Type: text/plain\r\nContent-Length: 0\r\n\r\n"
    );
    let get = request("GET /file/a HTTP/1.1\r\n\r\n");
    match get.file_directive() {
        Some(FileDirective::ReadFile(read_name)) => assert_eq!(read_name, name),
        _ => panic!("expected a read directive"),
    }
    assert_eq!(
        get.response(&FileOutcome::Data(stored)),
        "HTTP/1.1 200 OK\r\nContent-Type: application/octet-stream\r\nContent-Length: 4\r\n\r\ndata"
    );
}

#[test]
fn file_with_wrong_segment_count_is_not_found() {
    let req = request("GET /file/a/b HTTP/1.1\r\n\r\n");
    assert_eq!(req.file_directive().is_none(), true);
    assert_eq!(
        req.response(&FileOutcome::Unused),
        "HTTP/1.1 404 Not Found\r\nContent-Type: text/plain\r\nContent-Length: 4\r\n\r\ntest"
    );
}

#[test]
fn file_with_other_method_is_not_found() {
    let req = request("DELETE /file/a HTTP/1.1\r\n\r\n");
    assert_eq!(req.route(), Route::FileOther);
    assert_eq!(
        req.response(&FileOutcome::Unused),
        "HTTP/1.1 404 Not Found\r\nContent-Type: text/plain\r\nContent-Length: 4\r\n\r\ntest"
    );
}

#[test]
fn unknown_target_is_not_found_for_any_method() {
    for raw in [
        "GET /nope HTTP/1.1\r\n\r\n",
        "POST /nope HTTP/1.1\r\n\r\n",
        "DELETE /elsewhere HTTP/1.1\r\n\r\n",
    ] {
        let req = request(raw);
        assert_eq!(req.route(), Route::Unknown);
        assert_eq!(
            req.response(&FileOutcome::Unused),
            "HTTP/1.1 404 Not Found\r\nContent-Type: text/plain\r\nContent-Length: 4\r\n\r\ntest"
        );
    }
}
