//! The behaviors the core guarantees, stated over the request model and
//! proved once for all inputs: what parsing recovers, and which response
//! each route produces.

use vstd::prelude::*;
use crate::http::request::RequestModel;
use crate::http::request::FileOutcome;
use crate::http::request::Route;
use crate::http::request::spec_parse;
use crate::http::request::spec_route;
use crate::http::request::spec_response_for;
use crate::http::request::spec_response_with;
use crate::http::request::spec_ok_response;
use crate::http::request::spec_not_found_response;
use crate::http::request::spec_created_response;
use crate::http::request::spec_error_response;
use crate::http::request::spec_header_lines;
use crate::http::request::spec_find_prefixed;
use crate::strutil::is_space;
use crate::strutil::is_prefix_of;
use crate::strutil::contains_seq;
use crate::strutil::byte_len;
use crate::strutil::spec_num_chars;
use crate::strutil::spec_split_char;
use crate::strutil::spec_split_crlf;
use crate::strutil::spec_tokens;
use crate::strutil::lemma_split_crlf_line;
use crate::strutil::lemma_split_char_seg;
use crate::strutil::lemma_split_char_whole;
use crate::strutil::lemma_tokens_three;
use vstd::utf8::is_ascii_chars;
use vstd::utf8::is_ascii_chars_encode_utf8;

verus! {

/// For an ASCII string that fits in memory, the byte length is the
/// character count.
pub proof fn lemma_byte_len_ascii(s: Seq<char>)
    requires
        is_ascii_chars(s),
        s.len() <= usize::MAX,
    ensures
        byte_len(s) == s.len(),
{
    is_ascii_chars_encode_utf8(s);
}

/// Every request line of exactly three whitespace-free tokens separated by
/// single spaces parses back to exactly those three tokens as method,
/// target, and version, whatever follows the line.
pub proof fn law_parse_recovers_request_line(
    m: Seq<char>,
    t: Seq<char>,
    v: Seq<char>,
    tail: Seq<char>,
    dir: Seq<char>,
)
    requires
        m.len() > 0 && t.len() > 0 && v.len() > 0,
        forall|i: int| 0 <= i < m.len() ==> !is_space(m[i]),
        forall|i: int| 0 <= i < t.len() ==> !is_space(t[i]),
        forall|i: int| 0 <= i < v.len() ==> !is_space(v[i]),
    ensures
        ({
            let p = spec_parse(m + " "@ + t + " "@ + v + seq!['\r', '\n'] + tail, dir);
            p.method == m && p.target == t && p.version == v
        }),
{
    reveal_strlit(" ");
    assert(" "@ =~= seq![' ']);
    let line = m + " "@ + t + " "@ + v;
    let input = m + " "@ + t + " "@ + v + seq!['\r', '\n'] + tail;
    assert(input =~= line + seq!['\r', '\n'] + tail);
    assert forall|i: int| 0 <= i < line.len() implies line[i] != '\r' by {
        if i < m.len() {
            assert(line[i] == m[i]);
        } else if i < m.len() + 1 {
            assert(line[i] == ' ');
        } else if i < m.len() + 1 + t.len() {
            assert(line[i] == t[i - m.len() - 1]);
        } else if i < m.len() + 1 + t.len() + 1 {
            assert(line[i] == ' ');
        } else {
            assert(line[i] == v[i - m.len() - 1 - t.len() - 1]);
        }
    }
    lemma_split_crlf_line(line, tail);
    let lines = spec_split_crlf(input);
    assert(lines[0] == line);
    lemma_tokens_three(m, t, v);
    assert(spec_tokens(lines[0]) == seq![m, t, v]);
}

/// Every request line that tokenizes to exactly three whitespace-separated
/// tokens — whatever whitespace separates or surrounds them — parses to
/// exactly those tokens as method, target, and version.
pub proof fn law_parse_any_request_line(line: Seq<char>, tail: Seq<char>, dir: Seq<char>)
    requires
        forall|i: int| 0 <= i < line.len() ==> line[i] != '\r',
        spec_tokens(line).len() == 3,
    ensures
        ({
            let p = spec_parse(line + seq!['\r', '\n'] + tail, dir);
            p.method == spec_tokens(line)[0] && p.target == spec_tokens(line)[1] && p.version
                == spec_tokens(line)[2]
        }),
{
    lemma_split_crlf_line(line, tail);
    let lines = spec_split_crlf(line + seq!['\r', '\n'] + tail);
    assert(lines[0] == line);
}

/// Every request for the exact target `/` is answered by the fixed 200
/// greeting, whose body is `test`, whatever the method, headers and file
/// store say.
pub proof fn law_root_response(m: RequestModel, f: FileOutcome)
    requires
        m.target == "/"@,
    ensures
        spec_response_for(m, f) == spec_ok_response(),
        spec_ok_response()
            == "HTTP/1.1 200 OK\r\nContent-Type: text/plain\r\nContent-Length: 4\r\n\r\ntest"@,
{
    assert(spec_route(m) == Route::Root);
    lemma_ok_literal();
}

proof fn lemma_test_body_len()
    ensures
        spec_num_chars(byte_len("test"@)) == seq!['4'],
{
    reveal_strlit("test");
    assert(is_ascii_chars("test"@));
    lemma_byte_len_ascii("test"@);
    assert(byte_len("test"@) == 4);
}

proof fn lemma_ok_literal()
    ensures
        spec_ok_response()
            == "HTTP/1.1 200 OK\r\nContent-Type: text/plain\r\nContent-Length: 4\r\n\r\ntest"@,
{
    lemma_test_body_len();
    reveal_strlit("HTTP/1.1 200 OK");
    reveal_strlit("\r\nContent-Type: ");
    reveal_strlit("text/plain");
    reveal_strlit("\r\nContent-Length: ");
    reveal_strlit("\r\n\r\n");
    reveal_strlit("test");
    reveal_strlit("HTTP/1.1 200 OK\r\nContent-Type: text/plain\r\nContent-Length: 4\r\n\r\ntest");
    assert(spec_ok_response()
        =~= "HTTP/1.1 200 OK\r\nContent-Type: text/plain\r\nContent-Length: 4\r\n\r\ntest"@);
}

proof fn lemma_not_found_literal()
    ensures
        spec_not_found_response()
            == "HTTP/1.1 404 Not Found\r\nContent-Type: text/plain\r\nContent-Length: 4\r\n\r\ntest"@,
{
    lemma_test_body_len();
    reveal_strlit("HTTP/1.1 404 Not Found");
    reveal_strlit("\r\nContent-Type: ");
    reveal_strlit("text/plain");
    reveal_strlit("\r\nContent-Length: ");
    reveal_strlit("\r\n\r\n");
    reveal_strlit("test");
    reveal_strlit(
        "HTTP/1.1 404 Not Found\r\nContent-Type: text/plain\r\nContent-Length: 4\r\n\r\ntest",
    );
    assert(spec_not_found_response()
        =~= "HTTP/1.1 404 Not Found\r\nContent-Type: text/plain\r\nContent-Length: 4\r\n\r\ntest"@);
}

/// The target `/echo/<s>`, where `<s>` is free of `/`, is answered with
/// body `<s>` exactly, a `Content-Length` equal to its byte length, and a
/// gzip advertisement exactly when the request accepts one.
pub proof fn law_echo_single_segment(m: RequestModel, f: FileOutcome, s: Seq<char>)
    requires
        m.target == "/echo/"@ + s,
        forall|i: int| 0 <= i < s.len() ==> s[i] != '/',
    ensures
        spec_response_for(m, f) == spec_response_with(
            "HTTP/1.1 200 OK"@,
            "text/plain"@,
            contains_seq(m.accept_encoding, "gzip"@),
            s,
        ),
{
    reveal_strlit("/echo/");
    reveal_strlit("/echo");
    reveal_strlit("/");
    reveal_strlit("echo");
    assert(m.target.subrange(0, 5) =~= "/echo"@);
    assert(is_prefix_of("/echo"@, m.target));
    assert(m.target.len() >= 6);
    assert(m.target != "/"@) by {
        if m.target == "/"@ {
            assert(m.target.len() == 1);
        }
    }
    assert(spec_route(m) == Route::Echo);
    let tail = "echo"@ + seq!['/'] + s;
    assert(m.target =~= Seq::<char>::empty() + seq!['/'] + tail);
    lemma_split_char_seg(Seq::<char>::empty(), '/', tail);
    lemma_split_char_seg("echo"@, '/', s);
    lemma_split_char_whole(s, '/');
    let parts = spec_split_char(m.target, '/');
    assert(parts =~~= seq![Seq::<char>::empty(), "echo"@, s]);
    assert(parts.len() == 3 && parts[2] == s);
}

/// A target `/echo/<a>/<b>` — four or more segments — falls back to the
/// fixed `test` body instead of echoing or erring.
pub proof fn law_echo_fallback(m: RequestModel, f: FileOutcome, a: Seq<char>, b: Seq<char>)
    requires
        m.target == "/echo/"@ + a + "/"@ + b,
        forall|i: int| 0 <= i < a.len() ==> a[i] != '/',
        forall|i: int| 0 <= i < b.len() ==> b[i] != '/',
    ensures
        spec_response_for(m, f) == spec_response_with(
            "HTTP/1.1 200 OK"@,
            "text/plain"@,
            contains_seq(m.accept_encoding, "gzip"@),
            "test"@,
        ),
{
    reveal_strlit("/echo/");
    reveal_strlit("/echo");
    reveal_strlit("/");
    reveal_strlit("echo");
    assert("/"@ =~= seq!['/']);
    assert(m.target.subrange(0, 5) =~= "/echo"@);
    assert(is_prefix_of("/echo"@, m.target));
    assert(m.target.len() >= 7);
    assert(m.target != "/"@) by {
        if m.target == "/"@ {
            assert(m.target.len() == 1);
        }
    }
    assert(spec_route(m) == Route::Echo);
    let tail2 = a + seq!['/'] + b;
    let tail = "echo"@ + seq!['/'] + tail2;
    assert(m.target =~= Seq::<char>::empty() + seq!['/'] + tail);
    lemma_split_char_seg(Seq::<char>::empty(), '/', tail);
    lemma_split_char_seg("echo"@, '/', tail2);
    lemma_split_char_seg(a, '/', b);
    lemma_split_char_whole(b, '/');
    let parts = spec_split_char(m.target, '/');
    assert(parts =~~= seq![Seq::<char>::empty(), "echo"@, a, b]);
    assert(parts.len() == 4);
}

/// Every request whose target lies under `/user-agent` is answered with
/// the request's `User-Agent` header value as its body — the empty body
/// when the header was absent — and the matching `Content-Length`.
pub proof fn law_user_agent_response(m: RequestModel, f: FileOutcome)
    requires
        is_prefix_of("/user-agent"@, m.target),
    ensures
        spec_response_for(m, f) == spec_response_with(
            "HTTP/1.1 200 OK"@,
            "text/plain"@,
            false,
            m.user_agent,
        ),
{
    reveal_strlit("/user-agent");
    reveal_strlit("/");
    reveal_strlit("/echo");
    reveal_strlit("/file");
    assert(m.target.len() >= 11);
    assert(m.target.subrange(0, "/user-agent"@.len() as int)[1] == m.target[1]);
    assert(m.target[1] == 'u');
    assert(m.target != "/"@) by {
        if m.target == "/"@ {
            assert(m.target.len() == 1);
        }
    }
    assert(!is_prefix_of("/echo"@, m.target)) by {
        if is_prefix_of("/echo"@, m.target) {
            assert(m.target.subrange(0, 5)[1] == m.target[1]);
        }
    }
    assert(!is_prefix_of("/file"@, m.target)) by {
        if is_prefix_of("/file"@, m.target) {
            assert(m.target.subrange(0, 5)[1] == m.target[1]);
        }
    }
    assert(spec_route(m) == Route::UserAgent);
}

/// The empty-sequence body has byte length zero.
proof fn lemma_empty_body_len()
    ensures
        spec_num_chars(byte_len(Seq::<char>::empty())) == seq!['0'],
{
    assert(vstd::utf8::encode_utf8(Seq::<char>::empty()) =~= Seq::<u8>::empty());
    assert(byte_len(Seq::<char>::empty()) == 0);
}

/// A `/user-agent` request without the header — its value parsed to the
/// empty string — is answered by exactly the empty-body 200 wire response
/// with `Content-Length: 0`.
pub proof fn law_user_agent_absent(m: RequestModel, f: FileOutcome)
    requires
        is_prefix_of("/user-agent"@, m.target),
        m.user_agent == Seq::<char>::empty(),
    ensures
        spec_response_for(m, f)
            == "HTTP/1.1 200 OK\r\nContent-Type: text/plain\r\nContent-Length: 0\r\n\r\n"@,
{
    law_user_agent_response(m, f);
    lemma_empty_body_len();
    reveal_strlit("HTTP/1.1 200 OK");
    reveal_strlit("\r\nContent-Type: ");
    reveal_strlit("text/plain");
    reveal_strlit("\r\nContent-Length: ");
    reveal_strlit("\r\n\r\n");
    reveal_strlit("HTTP/1.1 200 OK\r\nContent-Type: text/plain\r\nContent-Length: 0\r\n\r\n");
    assert(spec_response_with("HTTP/1.1 200 OK"@, "text/plain"@, false, m.user_agent)
        =~= "HTTP/1.1 200 OK\r\nContent-Type: text/plain\r\nContent-Length: 0\r\n\r\n"@);
}

/// A parsed request with a `User-Agent` header line carries exactly that
/// header's value, for any request line, value and body text.
pub proof fn law_parse_user_agent(line: Seq<char>, ua: Seq<char>, tail: Seq<char>, dir: Seq<char>)
    requires
        forall|i: int| 0 <= i < line.len() ==> line[i] != '\r',
        forall|i: int| 0 <= i < ua.len() ==> ua[i] != '\r',
    ensures
        spec_parse(
            line + seq!['\r', '\n'] + ("User-Agent: "@ + ua) + seq!['\r', '\n'] + seq!['\r', '\n']
                + tail,
            dir,
        ).user_agent == ua,
{
    reveal_strlit("User-Agent: ");
    let hline = "User-Agent: "@ + ua;
    let input = line + seq!['\r', '\n'] + hline + seq!['\r', '\n'] + seq!['\r', '\n'] + tail;
    assert forall|i: int| 0 <= i < hline.len() implies hline[i] != '\r' by {
        if i < "User-Agent: "@.len() {
            assert(hline[i] == "User-Agent: "@[i]);
        } else {
            assert(hline[i] == ua[i - "User-Agent: "@.len()]);
        }
    }
    assert(input =~= line + seq!['\r', '\n'] + ((hline + seq!['\r', '\n'] + (Seq::<char>::empty()
        + seq!['\r', '\n'] + tail))));
    lemma_split_crlf_line(line, hline + seq!['\r', '\n'] + (Seq::<char>::empty() + seq!['\r', '\n']
        + tail));
    lemma_split_crlf_line(hline, Seq::<char>::empty() + seq!['\r', '\n'] + tail);
    lemma_split_crlf_line(Seq::<char>::empty(), tail);
    let lines = spec_split_crlf(input);
    assert(lines =~~= seq![line, hline] + (seq![Seq::<char>::empty()] + spec_split_crlf(tail)));
    let rest = lines.drop_first();
    assert(rest[0] == hline);
    assert(hline.len() > 0);
    let rest1 = rest.drop_first();
    assert(rest1[0].len() == 0);
    assert(spec_header_lines(rest1) =~~= Seq::<Seq<char>>::empty());
    let hdrs = spec_header_lines(rest);
    assert(hdrs =~~= seq![hline]);
    assert(is_prefix_of("User-Agent: "@, hline)) by {
        assert(hline.subrange(0, "User-Agent: "@.len() as int) =~= "User-Agent: "@);
    }
    assert(spec_find_prefixed(hdrs, "User-Agent: "@) == Option::Some(
        hline.subrange("User-Agent: "@.len() as int, hline.len() as int),
    ));
    assert(hline.subrange("User-Agent: "@.len() as int, hline.len() as int) =~= ua);
}

/// A `/file` GET with exactly three target segments is answered with the
/// stored bytes and the octet-stream content type when the store finds the
/// file, and with the fixed 404 when it does not.
pub proof fn law_file_get(m: RequestModel, c: String)
    requires
        m.method == "GET"@,
        is_prefix_of("/file"@, m.target),
        spec_split_char(m.target, '/').len() == 3,
    ensures
        spec_response_for(m, FileOutcome::Data(c)) == spec_response_with(
            "HTTP/1.1 200 OK"@,
            "application/octet-stream"@,
            false,
            c@,
        ),
        spec_response_for(m, FileOutcome::Missing) == spec_not_found_response(),
{
    lemma_file_route_is_file(m);
    assert(spec_route(m) == Route::FileGet);
}

proof fn lemma_file_route_is_file(m: RequestModel)
    requires
        is_prefix_of("/file"@, m.target),
    ensures
        m.target != "/"@,
        !is_prefix_of("/echo"@, m.target),
{
    reveal_strlit("/file");
    reveal_strlit("/echo");
    reveal_strlit("/");
    assert(m.target.len() >= 5);
    assert(m.target[1] == 'f') by {
        assert(m.target.subrange(0, 5)[1] == m.target[1]);
    }
    assert(m.target != "/"@) by {
        if m.target == "/"@ {
            assert(m.target.len() == 1);
        }
    }
    assert(!is_prefix_of("/echo"@, m.target)) by {
        if is_prefix_of("/echo"@, m.target) {
            assert(m.target.subrange(0, 5)[1] == m.target[1]);
        }
    }
}

/// A `/file` POST with exactly three target segments is answered 201 with
/// an empty body when the store saved, and 500 when the write failed.
pub proof fn law_file_post(m: RequestModel)
    requires
        m.method == "POST"@,
        is_prefix_of("/file"@, m.target),
        spec_split_char(m.target, '/').len() == 3,
    ensures
        spec_response_for(m, FileOutcome::Saved) == spec_created_response(),
        spec_response_for(m, FileOutcome::Failed) == spec_error_response(),
        spec_created_response()
            == "HTTP/1.1 201 Created\r\nContent-Type: text/plain\r\nContent-Length: 0\r\n\r\n"@,
{
    lemma_empty_body_len();
    reveal_strlit("HTTP/1.1 201 Created");
    reveal_strlit("\r\nContent-Type: ");
    reveal_strlit("text/plain");
    reveal_strlit("\r\nContent-Length: ");
    reveal_strlit("\r\n\r\n");
    reveal_strlit("HTTP/1.1 201 Created\r\nContent-Type: text/plain\r\nContent-Length: 0\r\n\r\n");
    assert(spec_created_response()
        =~= "HTTP/1.1 201 Created\r\nContent-Type: text/plain\r\nContent-Length: 0\r\n\r\n"@);
    lemma_file_route_is_file(m);
    reveal_strlit("GET");
    reveal_strlit("POST");
    assert(m.method != "GET"@) by {
        if m.method == "GET"@ {
            assert(m.method.len() == 3);
            assert(m.method[0] == 'G');
        }
    }
    assert(spec_route(m) == Route::FilePost);
}

/// Writing a file and then reading it back through the store round-trips:
/// the POST is answered 201 with an empty body, and a GET for the same
/// target whose store answer carries the bytes the POST wrote is answered
/// 200 with exactly those bytes.
pub proof fn law_file_round_trip(mp: RequestModel, mg: RequestModel, c: String)
    requires
        mp.method == "POST"@,
        mg.method == "GET"@,
        mg.target == mp.target,
        is_prefix_of("/file"@, mp.target),
        spec_split_char(mp.target, '/').len() == 3,
        c@ == mp.body,
    ensures
        spec_response_for(mp, FileOutcome::Saved) == spec_created_response(),
        spec_response_for(mg, FileOutcome::Data(c)) == spec_response_with(
            "HTTP/1.1 200 OK"@,
            "application/octet-stream"@,
            false,
            mp.body,
        ),
{
    law_file_post(mp);
    law_file_get(mg, c);
}

/// Every request whose target matches no route — not `/`, nor the
/// `/echo`, `/file` or `/user-agent` prefixes — is answered by the fixed
/// 404 with body `test`, whatever the method and the store say.
pub proof fn law_unknown_not_found(m: RequestModel, f: FileOutcome)
    requires
        m.target != "/"@,
        !is_prefix_of("/echo"@, m.target),
        !is_prefix_of("/file"@, m.target),
        !is_prefix_of("/user-agent"@, m.target),
    ensures
        spec_response_for(m, f) == spec_not_found_response(),
        spec_not_found_response()
            == "HTTP/1.1 404 Not Found\r\nContent-Type: text/plain\r\nContent-Length: 4\r\n\r\ntest"@,
{
    assert(spec_route(m) == Route::Unknown);
    lemma_not_found_literal();
}

} // verus!
