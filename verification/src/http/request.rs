//! The request parsing and routing core: a total parser from raw request
//! text to a structured [`HttpRequest`], a router over target prefixes, and
//! handlers that build byte-exact response strings.
//!
//! Filesystem access is a capability of the surrounding program: the file
//! routes report what they need through [`HttpRequest::file_directive`] and
//! take the store's answer as a [`FileOutcome`] argument.

use vstd::prelude::*;
use vstd::string::StrSliceExecFns;
use vstd::string::StringExecFns;
use crate::Config;
use crate::strutil::is_prefix_of;
use crate::strutil::contains_seq;
use crate::strutil::spec_split_crlf;
use crate::strutil::spec_split_char;
use crate::strutil::spec_tokens;
use crate::strutil::all_digits;
use crate::strutil::spec_digits_val;
use crate::strutil::spec_num_chars;
use crate::strutil::byte_len;
use crate::strutil::str_eq;
use crate::strutil::starts_with;
use crate::strutil::strip_prefix_len;
use crate::strutil::contains_str;
use crate::strutil::split_crlf;
use crate::strutil::split_char;
use crate::strutil::tokens;
use crate::strutil::parse_usize;
use crate::strutil::usize_to_string;
use crate::strutil::str_byte_len;

verus! {

/// The mathematical model of a parsed request: every field as a sequence
/// of characters (or a number), independent of how it is stored.
#[verifier::ext_equal]
pub ghost struct RequestModel {
    pub method: Seq<char>,
    pub target: Seq<char>,
    pub version: Seq<char>,
    pub host: Seq<char>,
    pub user_agent: Seq<char>,
    pub accept: Seq<char>,
    pub accept_encoding: Seq<char>,
    pub content_length: nat,
    pub content_type: Seq<char>,
    pub body: Seq<char>,
    pub directory: Seq<char>,
}

/// The header lines: the lines before the first empty line.
pub open spec fn spec_header_lines(lines: Seq<Seq<char>>) -> Seq<Seq<char>>
    decreases lines.len(),
{
    if lines.len() == 0 {
        Seq::<Seq<char>>::empty()
    } else if lines[0].len() == 0 {
        Seq::<Seq<char>>::empty()
    } else {
        seq![lines[0]] + spec_header_lines(lines.drop_first())
    }
}

/// The body section: the lines after the first empty line.
pub open spec fn spec_body_lines(lines: Seq<Seq<char>>) -> Seq<Seq<char>>
    decreases lines.len(),
{
    if lines.len() == 0 {
        Seq::<Seq<char>>::empty()
    } else if lines[0].len() == 0 {
        lines.drop_first()
    } else {
        spec_body_lines(lines.drop_first())
    }
}

/// The text after `prefix` on the first line that starts with `prefix`.
pub open spec fn spec_find_prefixed(lines: Seq<Seq<char>>, prefix: Seq<char>) -> Option<Seq<char>>
    decreases lines.len(),
{
    if lines.len() == 0 {
        Option::None
    } else if is_prefix_of(prefix, lines[0]) {
        Option::Some(lines[0].subrange(prefix.len() as int, lines[0].len() as int))
    } else {
        spec_find_prefixed(lines.drop_first(), prefix)
    }
}

/// The first line that starts with neither `p1` nor `p2`.
pub open spec fn spec_find_other(lines: Seq<Seq<char>>, p1: Seq<char>, p2: Seq<char>) -> Option<
    Seq<char>,
>
    decreases lines.len(),
{
    if lines.len() == 0 {
        Option::None
    } else if !is_prefix_of(p1, lines[0]) && !is_prefix_of(p2, lines[0]) {
        Option::Some(lines[0])
    } else {
        spec_find_other(lines.drop_first(), p1, p2)
    }
}

/// A found value, or the empty sequence where nothing was found.
pub open spec fn spec_opt_val(o: Option<Seq<char>>) -> Seq<char> {
    match o {
        Option::Some(v) => v,
        Option::None => Seq::<char>::empty(),
    }
}

/// The token at position `i`, or the empty sequence where there is none.
pub open spec fn spec_token_or_empty(toks: Seq<Seq<char>>, i: int) -> Seq<char> {
    if 0 <= i < toks.len() {
        toks[i]
    } else {
        Seq::<char>::empty()
    }
}

/// The content length announced in the body section: the digits after the
/// first `Content-Length: ` line, or zero where that line is missing, is
/// not all digits, or does not fit the machine word.
pub open spec fn spec_content_length(body_lines: Seq<Seq<char>>) -> nat {
    match spec_find_prefixed(body_lines, "Content-Length: "@) {
        Option::Some(v) => if v.len() > 0 && all_digits(v) && spec_digits_val(v) <= usize::MAX
            as nat {
            spec_digits_val(v)
        } else {
            0
        },
        Option::None => 0,
    }
}

/// The request body: the first body-section line that carries neither
/// content header, cut down to the announced content length.
pub open spec fn spec_body_text(body_lines: Seq<Seq<char>>, content_length: nat) -> Seq<char> {
    match spec_find_other(body_lines, "Content-Length: "@, "Content-Type: "@) {
        Option::Some(l) => if content_length <= l.len() {
            l.take(content_length as int)
        } else {
            l
        },
        Option::None => Seq::<char>::empty(),
    }
}

/// What parsing a raw request against a directory root yields.  The parser
/// is total: missing or malformed pieces become empty strings or zero.
pub open spec fn spec_parse(input: Seq<char>, directory: Seq<char>) -> RequestModel {
    let lines = spec_split_crlf(input);
    let toks = spec_tokens(lines[0]);
    let rest = lines.drop_first();
    let hdrs = spec_header_lines(rest);
    let body_lines = spec_body_lines(rest);
    let cl = spec_content_length(body_lines);
    RequestModel {
        method: spec_token_or_empty(toks, 0),
        target: spec_token_or_empty(toks, 1),
        version: spec_token_or_empty(toks, 2),
        host: spec_opt_val(spec_find_prefixed(hdrs, "Host: "@)),
        user_agent: spec_opt_val(spec_find_prefixed(hdrs, "User-Agent: "@)),
        accept: spec_opt_val(spec_find_prefixed(hdrs, "Accept: "@)),
        accept_encoding: spec_opt_val(spec_find_prefixed(hdrs, "Accept-Encoding: "@)),
        content_length: cl,
        content_type: spec_opt_val(spec_find_prefixed(body_lines, "Content-Type: "@)),
        body: spec_body_text(body_lines, cl),
        directory: directory,
    }
}

/// The recognized request headers; an absent header is the empty string.
pub struct HttpHeaders {
    pub host: String,
    pub user_agent: String,
    pub accept: String,
    pub accept_encoding: String,
}

/// A structured request, constructed once per connection read and consumed
/// by exactly one routing decision.
pub struct HttpRequest {
    pub method: String,
    pub target: String,
    pub version: String,
    pub headers: HttpHeaders,
    pub content_length: usize,
    pub content_type: String,
    pub body: String,
    pub directory: String,
}

impl View for HttpRequest {
    type V = RequestModel;

    open spec fn view(&self) -> RequestModel {
        RequestModel {
            method: self.method@,
            target: self.target@,
            version: self.version@,
            host: self.headers.host@,
            user_agent: self.headers.user_agent@,
            accept: self.headers.accept@,
            accept_encoding: self.headers.accept_encoding@,
            content_length: self.content_length as nat,
            content_type: self.content_type@,
            body: self.body@,
            directory: self.directory@,
        }
    }
}

/// First index at or after 1 whose line is empty, or the line count.
fn find_empty_line(lines: &Vec<String>) -> (r: usize)
    requires
        lines@.len() >= 1,
    ensures
        1 <= r <= lines@.len(),
        forall|j: int| 1 <= j < r ==> lines.deep_view()[j].len() > 0,
        r < lines@.len() ==> lines.deep_view()[r as int].len() == 0,
{
    let mut i: usize = 1;
    while i < lines.len()
        invariant
            1 <= i <= lines@.len(),
            forall|j: int| 1 <= j < i ==> lines.deep_view()[j].len() > 0,
        decreases lines@.len() - i,
    {
        if lines[i].as_str().is_empty() {
            return i;
        }
        i += 1;
    }
    i
}

proof fn lemma_header_split(rest: Seq<Seq<char>>, k: int)
    requires
        0 <= k <= rest.len(),
        forall|j: int| 0 <= j < k ==> rest[j].len() > 0,
        k == rest.len() || rest[k].len() == 0,
    ensures
        spec_header_lines(rest) == (if k == rest.len() {
            rest
        } else {
            rest.take(k)
        }),
        spec_body_lines(rest) == (if k == rest.len() {
            Seq::<Seq<char>>::empty()
        } else {
            rest.skip(k + 1)
        }),
    decreases k,
{
    if k == 0 {
        if rest.len() == 0 {
        } else {
            assert(rest.take(0) =~= Seq::<Seq<char>>::empty());
            assert(rest.drop_first() =~= rest.skip(1));
        }
    } else {
        assert(forall|j: int| 0 <= j < k - 1 ==> rest.drop_first()[j].len() > 0);
        lemma_header_split(rest.drop_first(), k - 1);
        if k == rest.len() {
            assert(seq![rest[0]] + rest.drop_first() =~= rest);
        } else {
            assert(seq![rest[0]] + rest.drop_first().take(k - 1) =~= rest.take(k));
            assert(rest.drop_first().skip(k) =~= rest.skip(k + 1));
        }
    }
}

/// First line in `lines[start..end]` that starts with `prefix`, with the
/// prefix stripped, searched exactly as [`spec_find_prefixed`] says.
fn find_prefixed_range(lines: &Vec<String>, start: usize, end: usize, prefix: &str) -> (r: Option<
    String,
>)
    requires
        start <= end <= lines@.len(),
    ensures
        ({
            let found = spec_find_prefixed(
                lines.deep_view().subrange(start as int, end as int),
                prefix@,
            );
            match r {
                Option::Some(v) => found == Option::Some(v@),
                Option::None => found is None,
            }
        }),
{
    let ghost full = lines.deep_view().subrange(start as int, end as int);
    let mut i: usize = start;
    while i < end
        invariant
            start <= i <= end <= lines@.len(),
            lines.deep_view().len() == lines@.len(),
            full == lines.deep_view().subrange(start as int, end as int),
            spec_find_prefixed(full, prefix@) == spec_find_prefixed(
                lines.deep_view().subrange(i as int, end as int),
                prefix@,
            ),
        decreases end - i,
    {
        let ghost sub = lines.deep_view().subrange(i as int, end as int);
        proof {
            assert(sub[0] == lines.deep_view()[i as int]);
        }
        if starts_with(lines[i].as_str(), prefix) {
            let plen = prefix.unicode_len();
            let v = strip_prefix_len(lines[i].as_str(), plen);
            return Some(v);
        }
        i += 1;
        proof {
            assert(sub.drop_first() =~= lines.deep_view().subrange(i as int, end as int));
        }
    }
    proof {
        assert(lines.deep_view().subrange(i as int, end as int) =~= Seq::<Seq<char>>::empty());
    }
    None
}

/// First line in `lines[start..end]` that starts with neither prefix,
/// searched exactly as [`spec_find_other`] says.
fn find_other_range(lines: &Vec<String>, start: usize, end: usize, p1: &str, p2: &str) -> (r:
    Option<String>)
    requires
        start <= end <= lines@.len(),
    ensures
        ({
            let found = spec_find_other(
                lines.deep_view().subrange(start as int, end as int),
                p1@,
                p2@,
            );
            match r {
                Option::Some(v) => found == Option::Some(v@),
                Option::None => found is None,
            }
        }),
{
    let ghost full = lines.deep_view().subrange(start as int, end as int);
    let mut i: usize = start;
    while i < end
        invariant
            start <= i <= end <= lines@.len(),
            lines.deep_view().len() == lines@.len(),
            full == lines.deep_view().subrange(start as int, end as int),
            spec_find_other(full, p1@, p2@) == spec_find_other(
                lines.deep_view().subrange(i as int, end as int),
                p1@,
                p2@,
            ),
        decreases end - i,
    {
        let ghost sub = lines.deep_view().subrange(i as int, end as int);
        proof {
            assert(sub[0] == lines.deep_view()[i as int]);
        }
        if !starts_with(lines[i].as_str(), p1) && !starts_with(lines[i].as_str(), p2) {
            return Some(lines[i].clone());
        }
        i += 1;
        proof {
            assert(sub.drop_first() =~= lines.deep_view().subrange(i as int, end as int));
        }
    }
    proof {
        assert(lines.deep_view().subrange(i as int, end as int) =~= Seq::<Seq<char>>::empty());
    }
    None
}

/// The first `limit` characters of `l`, or all of `l` if it is shorter.
fn truncate_chars(l: &String, limit: usize) -> (r: String)
    ensures
        r@ == (if limit as nat <= l@.len() {
            l@.take(limit as int)
        } else {
            l@
        }),
{
    let n = l.as_str().unicode_len();
    let m = if limit < n {
        limit
    } else {
        n
    };
    let r = l.as_str().substring_char(0, m).to_owned();
    proof {
        if limit as nat <= l@.len() {
            assert(l@.subrange(0, m as int) =~= l@.take(limit as int));
        } else {
            assert(l@.subrange(0, m as int) =~= l@);
        }
    }
    r
}

impl HttpRequest {
    /// Parses the raw text read from a connection into a structured request.
    /// The parse is total: missing tokens and headers degrade to empty
    /// strings, an unreadable content length to zero.
    pub fn new(request_string: &str, config: &Config) -> (r: HttpRequest)
        ensures
            r@ == spec_parse(request_string@, config.directory@),
    {
        let lines = split_crlf(request_string);
        let toks = tokens(lines[0].as_str());
        proof {
            assert(lines.deep_view()[0] == lines@[0]@);
            assert(toks.deep_view().len() == toks@.len());
        }
        let method = if toks.len() > 0 {
            toks[0].clone()
        } else {
            String::new()
        };
        let target = if toks.len() > 1 {
            toks[1].clone()
        } else {
            String::new()
        };
        let version = if toks.len() > 2 {
            toks[2].clone()
        } else {
            String::new()
        };

        let hdr_end = find_empty_line(&lines);
        let ghost rest = lines.deep_view().drop_first();
        proof {
            assert(forall|j: int| 0 <= j < hdr_end - 1 ==> rest[j].len() > 0);
            lemma_header_split(rest, hdr_end - 1);
            if hdr_end < lines@.len() {
                assert(rest.take(hdr_end - 1) =~= lines.deep_view().subrange(1, hdr_end as int));
                assert(rest.skip(hdr_end as int) =~= lines.deep_view().subrange(
                    hdr_end + 1,
                    lines@.len() as int,
                ));
            } else {
                assert(rest =~= lines.deep_view().subrange(1, hdr_end as int));
            }
        }
        let host = match find_prefixed_range(&lines, 1, hdr_end, "Host: ") {
            Some(v) => v,
            None => String::new(),
        };
        let user_agent = match find_prefixed_range(&lines, 1, hdr_end, "User-Agent: ") {
            Some(v) => v,
            None => String::new(),
        };
        let accept = match find_prefixed_range(&lines, 1, hdr_end, "Accept: ") {
            Some(v) => v,
            None => String::new(),
        };
        let accept_encoding = match find_prefixed_range(&lines, 1, hdr_end, "Accept-Encoding: ") {
            Some(v) => v,
            None => String::new(),
        };

        let body_start = if hdr_end < lines.len() {
            hdr_end + 1
        } else {
            hdr_end
        };
        proof {
            assert(spec_body_lines(rest) =~= lines.deep_view().subrange(
                body_start as int,
                lines@.len() as int,
            ));
        }
        let content_length = match find_prefixed_range(
            &lines,
            body_start,
            lines.len(),
            "Content-Length: ",
        ) {
            Some(v) => match parse_usize(v.as_str()) {
                Some(n) => n,
                None => 0,
            },
            None => 0,
        };
        let content_type = match find_prefixed_range(
            &lines,
            body_start,
            lines.len(),
            "Content-Type: ",
        ) {
            Some(v) => v,
            None => String::new(),
        };
        let body = match find_other_range(
            &lines,
            body_start,
            lines.len(),
            "Content-Length: ",
            "Content-Type: ",
        ) {
            Some(l) => truncate_chars(&l, content_length),
            None => String::new(),
        };

        let r = HttpRequest {
            method,
            target,
            version,
            headers: HttpHeaders { host, user_agent, accept, accept_encoding },
            content_length,
            content_type,
            body,
            directory: config.directory.clone(),
        };
        proof {
            assert(r@ =~= spec_parse(request_string@, config.directory@));
        }
        r
    }
}

/// The route a request is dispatched to.  Prefix matches are literal
/// starts-with checks on the target, tried in order.
#[derive(Clone, Copy, Debug, PartialEq, Eq, Structural)]
pub enum Route {
    Root,
    Echo,
    FileGet,
    FilePost,
    FileOther,
    UserAgent,
    Unknown,
}

/// Which route a request's target and method select: the exact `/` target,
/// then the `/echo`, `/file` and `/user-agent` prefixes, in that order;
/// `/file` sub-dispatches on the method.
pub open spec fn spec_route(m: RequestModel) -> Route {
    if m.target == "/"@ {
        Route::Root
    } else if is_prefix_of("/echo"@, m.target) {
        Route::Echo
    } else if is_prefix_of("/file"@, m.target) {
        if m.method == "GET"@ {
            Route::FileGet
        } else if m.method == "POST"@ {
            Route::FilePost
        } else {
            Route::FileOther
        }
    } else if is_prefix_of("/user-agent"@, m.target) {
        Route::UserAgent
    } else {
        Route::Unknown
    }
}

/// The wire form of a response: status line, `Content-Type`, a
/// `Content-Length` that equals the body's byte length, an optional
/// `Content-Encoding: gzip`, an empty line, then the body.
pub open spec fn spec_response_with(
    status: Seq<char>,
    ctype: Seq<char>,
    gzip: bool,
    body: Seq<char>,
) -> Seq<char> {
    status + "\r\nContent-Type: "@ + ctype + "\r\nContent-Length: "@ + spec_num_chars(
        byte_len(body),
    ) + (if gzip {
        "\r\nContent-Encoding: gzip"@
    } else {
        Seq::<char>::empty()
    }) + "\r\n\r\n"@ + body
}

/// The fixed greeting response: 200 with the plain-text body `test`.
pub open spec fn spec_ok_response() -> Seq<char> {
    spec_response_with("HTTP/1.1 200 OK"@, "text/plain"@, false, "test"@)
}

/// The fixed miss response: 404 with the plain-text body `test`.
pub open spec fn spec_not_found_response() -> Seq<char> {
    spec_response_with("HTTP/1.1 404 Not Found"@, "text/plain"@, false, "test"@)
}

/// The store-failure response: 500 with an empty body.
pub open spec fn spec_error_response() -> Seq<char> {
    spec_response_with("HTTP/1.1 500 Internal Server Error"@, "text/plain"@, false, Seq::empty())
}

/// The created response: 201 with an empty body.
pub open spec fn spec_created_response() -> Seq<char> {
    spec_response_with("HTTP/1.1 201 Created"@, "text/plain"@, false, Seq::empty())
}

/// The echo body: the single path segment after `/echo`, or the fixed
/// fallback where the target does not have exactly three segments.
pub open spec fn spec_echo_body(target: Seq<char>) -> Seq<char> {
    let parts = spec_split_char(target, '/');
    if parts.len() == 3 {
        parts[2]
    } else {
        "test"@
    }
}

/// The echo response; `Content-Encoding: gzip` is advertised exactly when
/// the request's `Accept-Encoding` contains `gzip` (the body itself is
/// never transformed).
pub open spec fn spec_echo_response(m: RequestModel) -> Seq<char> {
    spec_response_with(
        "HTTP/1.1 200 OK"@,
        "text/plain"@,
        contains_seq(m.accept_encoding, "gzip"@),
        spec_echo_body(m.target),
    )
}

/// The user-agent response: the `User-Agent` header value as the body.
pub open spec fn spec_user_agent_response(m: RequestModel) -> Seq<char> {
    spec_response_with("HTTP/1.1 200 OK"@, "text/plain"@, false, m.user_agent)
}

/// What the file store answered, handed in by the surrounding program.
pub enum FileOutcome {
    /// No file operation was asked for.
    Unused,
    /// A read found no regular file of that name.
    Missing,
    /// A read found the file, with these contents.
    Data(String),
    /// A write succeeded.
    Saved,
    /// A write failed.
    Failed,
}

/// The file-route response.  A target without exactly three segments is a
/// miss; a read answers with the contents or a miss; a write answers
/// created or a store failure.
pub open spec fn spec_file_response(m: RequestModel, f: FileOutcome) -> Seq<char> {
    let parts = spec_split_char(m.target, '/');
    if parts.len() != 3 {
        spec_not_found_response()
    } else if m.method == "GET"@ {
        match f {
            FileOutcome::Data(c) => spec_response_with(
                "HTTP/1.1 200 OK"@,
                "application/octet-stream"@,
                false,
                c@,
            ),
            _ => spec_not_found_response(),
        }
    } else if m.method == "POST"@ {
        match f {
            FileOutcome::Saved => spec_created_response(),
            _ => spec_error_response(),
        }
    } else {
        spec_not_found_response()
    }
}

/// The response to a request, given the file store's answer: one handler
/// per route, a 404 where none matches.
pub open spec fn spec_response_for(m: RequestModel, f: FileOutcome) -> Seq<char> {
    match spec_route(m) {
        Route::Root => spec_ok_response(),
        Route::Echo => spec_echo_response(m),
        Route::FileGet => spec_file_response(m, f),
        Route::FilePost => spec_file_response(m, f),
        Route::FileOther => spec_not_found_response(),
        Route::UserAgent => spec_user_agent_response(m),
        Route::Unknown => spec_not_found_response(),
    }
}

/// Builds the wire form of a response, exact with respect to
/// [`spec_response_with`].
pub fn build_response(status: &str, ctype: &str, gzip: bool, body: &str) -> (r: String)
    ensures
        r@ == spec_response_with(status@, ctype@, gzip, body@),
{
    let mut r = status.to_owned();
    r.append("\r\nContent-Type: ");
    r.append(ctype);
    r.append("\r\nContent-Length: ");
    let len_str = usize_to_string(str_byte_len(body));
    r.append(len_str.as_str());
    if gzip {
        r.append("\r\nContent-Encoding: gzip");
    }
    r.append("\r\n\r\n");
    r.append(body);
    proof {
        assert(r@ =~= spec_response_with(status@, ctype@, gzip, body@));
    }
    r
}

/// What the surrounding program must do at the filesystem for a request:
/// read a name under the directory root, or write the request body to it.
pub enum FileDirective {
    ReadFile(String),
    WriteFile(String, String),
}

impl HttpRequest {
    /// The route this request selects.
    pub fn route(&self) -> (r: Route)
        ensures
            r == spec_route(self@),
    {
        if str_eq(self.target.as_str(), "/") {
            Route::Root
        } else if starts_with(self.target.as_str(), "/echo") {
            Route::Echo
        } else if starts_with(self.target.as_str(), "/file") {
            if str_eq(self.method.as_str(), "GET") {
                Route::FileGet
            } else if str_eq(self.method.as_str(), "POST") {
                Route::FilePost
            } else {
                Route::FileOther
            }
        } else if starts_with(self.target.as_str(), "/user-agent") {
            Route::UserAgent
        } else {
            Route::Unknown
        }
    }

    /// The fixed greeting response.
    pub fn response_ok(&self) -> (r: String)
        ensures
            r@ == spec_ok_response(),
    {
        build_response("HTTP/1.1 200 OK", "text/plain", false, "test")
    }

    /// The fixed miss response.
    pub fn response_not_found(&self) -> (r: String)
        ensures
            r@ == spec_not_found_response(),
    {
        build_response("HTTP/1.1 404 Not Found", "text/plain", false, "test")
    }

    /// The echo handler: answers with the single segment after `/echo`, or
    /// the fixed fallback body on any other segment count.
    pub fn handle_echo(&self) -> (r: String)
        ensures
            r@ == spec_echo_response(self@),
    {
        let parts = split_char(self.target.as_str(), '/');
        let gz = contains_str(self.headers.accept_encoding.as_str(), "gzip");
        if parts.len() == 3 {
            proof {
                assert(parts.deep_view()[2] == parts@[2]@);
            }
            build_response("HTTP/1.1 200 OK", "text/plain", gz, parts[2].as_str())
        } else {
            build_response("HTTP/1.1 200 OK", "text/plain", gz, "test")
        }
    }

    /// The user-agent handler: answers with the request's `User-Agent`
    /// header value, empty where the header was absent.
    pub fn handle_user_agent(&self) -> (r: String)
        ensures
            r@ == spec_user_agent_response(self@),
    {
        build_response("HTTP/1.1 200 OK", "text/plain", false, self.headers.user_agent.as_str())
    }

    /// The file handler, given the store's answer to this request's
    /// directive.
    pub fn handle_file(&self, file: &FileOutcome) -> (r: String)
        ensures
            r@ == spec_file_response(self@, *file),
    {
        let parts = split_char(self.target.as_str(), '/');
        if parts.len() != 3 {
            return self.response_not_found();
        }
        if str_eq(self.method.as_str(), "GET") {
            match file {
                FileOutcome::Data(c) => build_response(
                    "HTTP/1.1 200 OK",
                    "application/octet-stream",
                    false,
                    c.as_str(),
                ),
                _ => self.response_not_found(),
            }
        } else if str_eq(self.method.as_str(), "POST") {
            match file {
                FileOutcome::Saved => {
                    let r = build_response("HTTP/1.1 201 Created", "text/plain", false, "");
                    proof {
                        reveal_strlit("");
                        assert(""@ =~= Seq::<char>::empty());
                    }
                    r
                },
                _ => {
                    let r = build_response(
                        "HTTP/1.1 500 Internal Server Error",
                        "text/plain",
                        false,
                        "",
                    );
                    proof {
                        reveal_strlit("");
                        assert(""@ =~= Seq::<char>::empty());
                    }
                    r
                },
            }
        } else {
            self.response_not_found()
        }
    }

    /// The file operation this request asks of the store: a read for a
    /// `/file` GET, a write of the request body for a `/file` POST, each
    /// only when the target has exactly three segments; nothing otherwise.
    pub fn file_directive(&self) -> (r: Option<FileDirective>)
        ensures
            ({
                let parts = spec_split_char(self@.target, '/');
                match r {
                    Option::Some(d) => match d {
                        FileDirective::ReadFile(name) => spec_route(self@) == Route::FileGet
                            && parts.len() == 3 && name@ == parts[2],
                        FileDirective::WriteFile(name, content) => spec_route(self@)
                            == Route::FilePost && parts.len() == 3 && name@ == parts[2]
                            && content@ == self@.body,
                    },
                    Option::None => !((spec_route(self@) == Route::FileGet || spec_route(self@)
                        == Route::FilePost) && parts.len() == 3),
                }
            }),
    {
        let rt = self.route();
        match rt {
            Route::FileGet => {
                let parts = split_char(self.target.as_str(), '/');
                if parts.len() == 3 {
                    proof {
                        assert(parts.deep_view()[2] == parts@[2]@);
                    }
                    Some(FileDirective::ReadFile(parts[2].clone()))
                } else {
                    None
                }
            },
            Route::FilePost => {
                let parts = split_char(self.target.as_str(), '/');
                if parts.len() == 3 {
                    proof {
                        assert(parts.deep_view()[2] == parts@[2]@);
                    }
                    Some(FileDirective::WriteFile(parts[2].clone(), self.body.clone()))
                } else {
                    None
                }
            },
            _ => None,
        }
    }

    /// The response to this request, given the file store's answer to its
    /// directive: exactly one handler runs, and the client always receives
    /// a well-formed response.
    pub fn response(&self, file: &FileOutcome) -> (r: String)
        ensures
            r@ == spec_response_for(self@, *file),
    {
        match self.route() {
            Route::Root => self.response_ok(),
            Route::Echo => self.handle_echo(),
            Route::FileGet => self.handle_file(file),
            Route::FilePost => self.handle_file(file),
            Route::FileOther => self.response_not_found(),
            Route::UserAgent => self.handle_user_agent(),
            Route::Unknown => self.response_not_found(),
        }
    }
}

} // verus!
