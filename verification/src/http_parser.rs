//! The request parser: from the text of a request to its method, path,
//! version, headers and host name, or to the reason it was refused.

use vstd::prelude::*;
use vstd::hash_map::StringHashMap;
use vstd::string::StrSliceExecFns;
use vstd::string::StringExecFns;
use crate::text::lemma_split_once_shorter;
use crate::text::lowercase;
use crate::text::spec_split_once;
use crate::text::split_once;
use crate::text::text_eq;
use crate::text::to_lowercase;

verus! {

/// The request methods that are served.
#[derive(Debug, Clone, Copy, PartialEq, Eq, Structural)]
pub enum Method {
    Get,
}

/// The protocol versions that are served.
#[derive(Debug, Clone, Copy, PartialEq, Eq, Structural)]
pub enum HTTPVersion {
    OnePointOne,
}

/// Why a request was refused.
#[derive(Debug, Clone, Copy, PartialEq, Eq, Structural)]
pub enum ParseError {
    InvalidMethod,
    InvalidHTTPVersion,
    MissingTopLine,
    NoPath,
}

/// A parsed request.
pub struct HTTPRequest {
    pub method: Method,
    pub path: String,
    pub http_version: HTTPVersion,
    /// From lower-cased header name to the header's value.
    pub headers: StringHashMap<String>,
    /// The `Host` header's value up to its first colon.
    pub hostname: String,
}

/// What a parsed request holds, as mathematical values.
#[verifier::ext_equal]
pub struct HTTPRequestView {
    pub method: Method,
    pub path: Seq<char>,
    pub http_version: HTTPVersion,
    pub headers: Map<Seq<char>, Seq<char>>,
    pub hostname: Seq<char>,
}

/// The parsed first line of a request.
#[derive(Debug)]
pub struct TopLine {
    pub method: Method,
    pub path: String,
    pub http_version: HTTPVersion,
}

/// What a parsed first line holds, as mathematical values.
pub struct TopLineView {
    pub method: Method,
    pub path: Seq<char>,
    pub http_version: HTTPVersion,
}

/// The header table with each value read as a sequence of characters.
pub open spec fn header_values(m: Map<Seq<char>, String>) -> Map<Seq<char>, Seq<char>> {
    Map::new(|k: Seq<char>| m.contains_key(k), |k: Seq<char>| m[k]@)
}

impl View for HTTPRequest {
    type V = HTTPRequestView;

    open spec fn view(&self) -> HTTPRequestView {
        HTTPRequestView {
            method: self.method,
            path: self.path@,
            http_version: self.http_version,
            headers: header_values(self.headers@),
            hostname: self.hostname@,
        }
    }
}

impl View for TopLine {
    type V = TopLineView;

    open spec fn view(&self) -> TopLineView {
        TopLineView { method: self.method, path: self.path@, http_version: self.http_version }
    }
}

/// `s` without one carriage return at its end.
pub open spec fn strip_cr(s: Seq<char>) -> Seq<char> {
    if s.len() > 0 && s.last() == '\r' {
        s.drop_last()
    } else {
        s
    }
}

/// The first line of `s`: what stands before the first line feed, without
/// the carriage return that may precede it; all of `s` where it holds no
/// line feed.
pub open spec fn first_line(s: Seq<char>) -> Seq<char> {
    match spec_split_once(s, seq!['\n']) {
        Some((head, _)) => strip_cr(head),
        None => s,
    }
}

/// What follows the first line of `s` and its line ending.
pub open spec fn after_first_line(s: Seq<char>) -> Seq<char> {
    match spec_split_once(s, seq!['\n']) {
        Some((_, tail)) => tail,
        None => Seq::empty(),
    }
}

/// The lines of `s`. Lines end at a line feed or at a carriage return and
/// a line feed; the last line needs no ending.
pub open spec fn lines(s: Seq<char>) -> Seq<Seq<char>>
    decreases s.len(),
    via lines_decreases
{
    if s.len() == 0 {
        Seq::empty()
    } else {
        seq![first_line(s)] + lines(after_first_line(s))
    }
}

#[via_fn]
proof fn lines_decreases(s: Seq<char>) {
    lemma_after_first_line_shorter(s);
}

/// What follows the first line of a text that is not empty is shorter than
/// the text.
pub proof fn lemma_after_first_line_shorter(s: Seq<char>)
    ensures
        s.len() > 0 ==> after_first_line(s).len() < s.len(),
{
    lemma_split_once_shorter(s, seq!['\n']);
}

/// What stands before the first space of `s`; all of `s` where it holds no
/// space.
pub open spec fn first_token(s: Seq<char>) -> Seq<char> {
    match spec_split_once(s, seq![' ']) {
        Some((head, _)) => head,
        None => s,
    }
}

/// What follows the first space of `s`, if it holds one.
pub open spec fn after_first_token(s: Seq<char>) -> Option<Seq<char>> {
    match spec_split_once(s, seq![' ']) {
        Some((_, tail)) => Some(tail),
        None => None,
    }
}

/// The second of the pieces that single spaces cut `line` into.
pub open spec fn path_token(line: Seq<char>) -> Option<Seq<char>> {
    match after_first_token(line) {
        Some(rest) => Some(first_token(rest)),
        None => None,
    }
}

/// The third of the pieces that single spaces cut `line` into.
pub open spec fn version_token(line: Seq<char>) -> Option<Seq<char>> {
    match after_first_token(line) {
        Some(rest) => path_token(rest),
        None => None,
    }
}

/// The method that a lower-cased method token stands for.
pub open spec fn spec_match_method(lowered: Seq<char>) -> Result<Method, ParseError> {
    if lowered == "get"@ {
        Ok(Method::Get)
    } else {
        Err(ParseError::InvalidMethod)
    }
}

/// The method that a method token stands for, whatever its case.
pub open spec fn spec_parse_method(token: Seq<char>) -> Result<Method, ParseError> {
    spec_match_method(lowercase(token))
}

/// The version that a version token stands for.
pub open spec fn spec_parse_http_version(token: Seq<char>) -> Result<HTTPVersion, ParseError> {
    if token == "HTTP/1.1"@ {
        Ok(HTTPVersion::OnePointOne)
    } else {
        Err(ParseError::InvalidHTTPVersion)
    }
}

/// What the first line of a request parses to. Pieces after the third are
/// not looked at.
pub open spec fn spec_parse_top_line(line: Seq<char>) -> Result<TopLineView, ParseError> {
    match spec_parse_method(first_token(line)) {
        Err(e) => Err(e),
        Ok(method) => match path_token(line) {
            None => Err(ParseError::NoPath),
            Some(path) => match version_token(line) {
                None => Err(ParseError::InvalidHTTPVersion),
                Some(version) => match spec_parse_http_version(version) {
                    Err(e) => Err(e),
                    Ok(http_version) => Ok(TopLineView { method, path, http_version }),
                },
            },
        },
    }
}

/// The name and the value of a header line: what stands before and after
/// its first colon and space. A line without them is no header.
pub open spec fn spec_parse_header_line(line: Seq<char>) -> Option<(Seq<char>, Seq<char>)> {
    spec_split_once(line, seq![':', ' '])
}

/// The header table of a sequence of lines: each header line enters its
/// value under its lower-cased name, a later line replacing an earlier one.
pub open spec fn headers_of(lines: Seq<Seq<char>>) -> Map<Seq<char>, Seq<char>>
    decreases lines.len(),
{
    if lines.len() == 0 {
        Map::empty()
    } else {
        let earlier = headers_of(lines.drop_last());
        match spec_parse_header_line(lines.last()) {
            Some((name, value)) => earlier.insert(lowercase(name), value),
            None => earlier,
        }
    }
}

/// The host name in a `Host` header's value: what stands before its first
/// colon, and nothing where it holds no colon.
pub open spec fn spec_parse_hostname(host: Seq<char>) -> Seq<char> {
    match spec_split_once(host, seq![':']) {
        Some((name, _)) => name,
        None => Seq::empty(),
    }
}

/// The request that a parsed first line and a header table make: one with
/// the host name of the `host` header. Without that header there is none.
pub open spec fn spec_build_request(
    top: TopLineView,
    headers: Map<Seq<char>, Seq<char>>,
) -> Result<HTTPRequestView, ParseError> {
    if headers.contains_key("host"@) {
        Ok(
            HTTPRequestView {
                method: top.method,
                path: top.path,
                http_version: top.http_version,
                headers,
                hostname: spec_parse_hostname(headers["host"@]),
            },
        )
    } else {
        Err(ParseError::MissingTopLine)
    }
}

/// What a request parses to.
pub open spec fn spec_parse_request(raw: Seq<char>) -> Result<HTTPRequestView, ParseError> {
    if raw.len() == 0 {
        Err(ParseError::MissingTopLine)
    } else {
        match spec_parse_top_line(first_line(raw)) {
            Err(e) => Err(e),
            Ok(top) => spec_build_request(top, headers_of(lines(after_first_line(raw)))),
        }
    }
}

/// The outcome of parsing a first line, with a parsed line read as its view.
pub open spec fn top_line_result_view(parsed: Result<TopLine, ParseError>) -> Result<
    TopLineView,
    ParseError,
> {
    match parsed {
        Ok(top) => Ok(top@),
        Err(e) => Err(e),
    }
}

/// The outcome of parsing, with a parsed request read as its view.
pub open spec fn result_view(parsed: Result<HTTPRequest, ParseError>) -> Result<
    HTTPRequestView,
    ParseError,
> {
    match parsed {
        Ok(request) => Ok(request@),
        Err(e) => Err(e),
    }
}

/// Splits `s` into its first line and what follows that line's ending.
pub fn split_line<'a>(s: &'a str) -> (parts: (&'a str, &'a str))
    ensures
        parts.0@ == first_line(s@),
        parts.1@ == after_first_line(s@),
{
    proof {
        reveal_strlit("\n");
        assert("\n"@ =~= seq!['\n']);
    }
    match split_once(s, "\n") {
        Some((head, tail)) => {
            let len: usize = head.unicode_len();
            if len > 0 && head.get_char(len - 1) == '\r' {
                let line = head.substring_char(0, len - 1);
                assert(line@ =~= head@.drop_last());
                (line, tail)
            } else {
                (head, tail)
            }
        },
        None => {
            let len: usize = s.unicode_len();
            let tail = s.substring_char(len, len);
            assert(tail@ =~= Seq::<char>::empty());
            (s, tail)
        },
    }
}

/// Splits `s` at its first space: the piece before it, and what follows
/// it where there is a space.
pub fn next_token<'a>(s: &'a str) -> (parts: (&'a str, Option<&'a str>))
    ensures
        parts.0@ == first_token(s@),
        match parts.1 {
            Some(rest) => after_first_token(s@) == Some(rest@),
            None => after_first_token(s@) is None,
        },
{
    proof {
        reveal_strlit(" ");
        assert(" "@ =~= seq![' ']);
    }
    match split_once(s, " ") {
        Some((head, tail)) => (head, Some(tail)),
        None => (s, None),
    }
}

/// The method that a lower-cased method token stands for: only `get` is
/// one.
pub fn match_method(lowered: &str) -> (method: Result<Method, ParseError>)
    ensures
        method == spec_match_method(lowered@),
{
    if text_eq(lowered, "get") {
        Ok(Method::Get)
    } else {
        Err(ParseError::InvalidMethod)
    }
}

/// The method that a method token stands for. Case is not looked at.
pub fn parse_method(method: &str) -> (parsed: Result<Method, ParseError>)
    ensures
        parsed == spec_parse_method(method@),
{
    let lowercase_method = to_lowercase(method);
    match_method(lowercase_method.as_str())
}

/// The version that a version token stands for: only `HTTP/1.1` is one.
pub fn parse_http_version(http_version: &str) -> (parsed: Result<HTTPVersion, ParseError>)
    ensures
        parsed == spec_parse_http_version(http_version@),
{
    if text_eq(http_version, "HTTP/1.1") {
        Ok(HTTPVersion::OnePointOne)
    } else {
        Err(ParseError::InvalidHTTPVersion)
    }
}

/// Parses the first line of a request: method, path and version, cut
/// apart by single spaces.
pub fn parse_top_line(top_line: &str) -> (parsed: Result<TopLine, ParseError>)
    ensures
        top_line_result_view(parsed) == spec_parse_top_line(top_line@),
{
    let (method_token, after_method) = next_token(top_line);
    let method = match parse_method(method_token) {
        Ok(method) => method,
        Err(e) => {
            return Err(e);
        },
    };
    let rest = match after_method {
        Some(rest) => rest,
        None => {
            return Err(ParseError::NoPath);
        },
    };
    let (path, after_path) = next_token(rest);
    let rest = match after_path {
        Some(rest) => rest,
        None => {
            return Err(ParseError::InvalidHTTPVersion);
        },
    };
    let (version_token, _) = next_token(rest);
    match parse_http_version(version_token) {
        Ok(http_version) => Ok(TopLine { method, path: String::from_str(path), http_version }),
        Err(e) => Err(e),
    }
}

/// Splits a header line into name and value at its first colon and space.
pub fn parse_header_line<'a>(line: &'a str) -> (parts: Option<(&'a str, &'a str)>)
    ensures
        match parts {
            Some((name, value)) => spec_parse_header_line(line@) == Some((name@, value@)),
            None => spec_parse_header_line(line@) is None,
        },
{
    proof {
        reveal_strlit(": ");
        assert(": "@ =~= seq![':', ' ']);
    }
    split_once(line, ": ")
}

/// Reads every line of `text` as a header line. Lines that are none are
/// passed over; of two headers with one name the later one stays.
pub fn parse_headers(text: &str) -> (headers: StringHashMap<String>)
    ensures
        header_values(headers@) == headers_of(lines(text@)),
{
    let mut headers: StringHashMap<String> = StringHashMap::new();
    let mut rest: &str = text;
    let ghost all = lines(text@);
    let ghost mut done: int = 0;
    assert(header_values(headers@) =~= headers_of(all.take(0)));
    assert(all.skip(0) =~= all);
    while !rest.is_empty()
        invariant
            0 <= done <= all.len(),
            lines(rest@) == all.skip(done),
            header_values(headers@) == headers_of(all.take(done)),
        decreases rest@.len(),
    {
        let (line, tail) = split_line(rest);
        proof {
            lemma_after_first_line_shorter(rest@);
            assert(lines(rest@) == seq![line@] + lines(tail@));
            assert(all.skip(done).len() > 0);
            assert(all.skip(done)[0] == line@);
            assert(all.skip(done + 1) =~= all.skip(done).drop_first());
            assert(all.skip(done).drop_first() =~= lines(tail@));
            assert(all.take(done + 1).drop_last() =~= all.take(done));
            assert(all.take(done + 1).last() == line@);
        }
        match parse_header_line(line) {
            Some((name, value)) => {
                let ghost before = headers@;
                headers.insert(to_lowercase(name), String::from_str(value));
                assert(header_values(headers@) =~= header_values(before).insert(
                    lowercase(name@),
                    value@,
                ));
            },
            None => {},
        }
        rest = tail;
        proof {
            done = done + 1;
        }
    }
    assert(all.take(done) =~= all);
    headers
}

/// The host name in a `Host` header's value: what stands before its first
/// colon, and nothing where it holds no colon.
pub fn parse_hostname(host: String) -> (hostname: String)
    ensures
        hostname@ == spec_parse_hostname(host@),
{
    proof {
        reveal_strlit(":");
        assert(":"@ =~= seq![':']);
    }
    match split_once(host.as_str(), ":") {
        Some((name, _)) => String::from_str(name),
        None => String::new(),
    }
}

/// Makes a request of a parsed first line and a header table whose names
/// are lower-cased: the host name is read from the `host` header, and
/// without that header the request is refused as one without a first line
/// is.
pub fn build_request(top: TopLine, headers: StringHashMap<String>) -> (built: Result<
    HTTPRequest,
    ParseError,
>)
    ensures
        result_view(built) == spec_build_request(top@, header_values(headers@)),
{
    let hostname = match headers.get("host") {
        Some(host) => parse_hostname(host.clone()),
        None => {
            return Err(ParseError::MissingTopLine);
        },
    };
    let built = HTTPRequest {
        method: top.method,
        path: top.path,
        http_version: top.http_version,
        headers,
        hostname,
    };
    assert(built@ =~= spec_build_request(top@, header_values(headers@))->Ok_0);
    Ok(built)
}

/// Parses a request: its first line, then every further line as a header.
/// A request without a `host` header is refused as one without a first
/// line is.
pub fn parse_request(request: &str) -> (parsed: Result<HTTPRequest, ParseError>)
    ensures
        result_view(parsed) == spec_parse_request(request@),
{
    if request.is_empty() {
        return Err(ParseError::MissingTopLine);
    }
    let (top_line, rest) = split_line(request);
    let top = match parse_top_line(top_line) {
        Ok(top) => top,
        Err(e) => {
            return Err(e);
        },
    };
    build_request(top, parse_headers(rest))
}

/// `line` is a header line whose lower-cased name is `name`.
pub open spec fn is_header_named(line: Seq<char>, name: Seq<char>) -> bool {
    spec_parse_header_line(line) matches Some((n, _)) && lowercase(n) == name
}

/// The value of a header line.
pub open spec fn header_value(line: Seq<char>) -> Seq<char>
    recommends
        spec_parse_header_line(line) is Some,
{
    match spec_parse_header_line(line) {
        Some((_, value)) => value,
        None => Seq::empty(),
    }
}

/// A name is in the header table exactly where some line is a header line
/// with that lower-cased name.
pub proof fn lemma_headers_of_names(lines: Seq<Seq<char>>, name: Seq<char>)
    ensures
        headers_of(lines).contains_key(name) <==> exists|i: int|
            0 <= i < lines.len() && is_header_named(#[trigger] lines[i], name),
    decreases lines.len(),
{
    if lines.len() > 0 {
        let earlier = lines.drop_last();
        lemma_headers_of_names(earlier, name);
        if headers_of(lines).contains_key(name) {
            if is_header_named(lines.last(), name) {
                assert(is_header_named(lines[lines.len() - 1], name));
            } else {
                let i = choose|i: int|
                    0 <= i < earlier.len() && is_header_named(#[trigger] earlier[i], name);
                assert(is_header_named(lines[i], name));
            }
        }
        if exists|i: int| 0 <= i < lines.len() && is_header_named(#[trigger] lines[i], name) {
            let i = choose|i: int|
                0 <= i < lines.len() && is_header_named(#[trigger] lines[i], name);
            if i < lines.len() - 1 {
                assert(is_header_named(earlier[i], name));
            }
        }
    }
}

/// Of the header lines with one name the last one gives the value.
pub proof fn lemma_headers_of_last_wins(lines: Seq<Seq<char>>, name: Seq<char>, i: int)
    requires
        0 <= i < lines.len(),
        is_header_named(lines[i], name),
        forall|j: int| i < j < lines.len() ==> !is_header_named(#[trigger] lines[j], name),
    ensures
        headers_of(lines).contains_key(name),
        headers_of(lines)[name] == header_value(lines[i]),
    decreases lines.len(),
{
    if i < lines.len() - 1 {
        let earlier = lines.drop_last();
        assert(!is_header_named(lines[lines.len() - 1], name));
        assert(earlier[i] == lines[i]);
        assert forall|j: int| i < j < earlier.len() implies !is_header_named(
            #[trigger] earlier[j],
            name,
        ) by {
            assert(earlier[j] == lines[j]);
        }
        lemma_headers_of_last_wins(earlier, name, i);
    }
}

/// A request is refused where it is empty, where its method is not `get`
/// in any case, where its version is not `HTTP/1.1`, and where none of the
/// lines after the first is a `host` header.
pub proof fn lemma_malformed_request_is_refused(raw: Seq<char>)
    requires
        raw.len() == 0 || lowercase(first_token(first_line(raw))) != "get"@ || version_token(
            first_line(raw),
        ) != Some("HTTP/1.1"@) || forall|i: int|
            0 <= i < lines(after_first_line(raw)).len() ==> !is_header_named(
                #[trigger] lines(after_first_line(raw))[i],
                "host"@,
            ),
    ensures
        spec_parse_request(raw) is Err,
{
    lemma_headers_of_names(lines(after_first_line(raw)), "host"@);
}

/// A request is accepted where it is not empty, its first line holds the
/// method `get` in any case, a path and the version `HTTP/1.1`, and one of
/// the lines after the first is a `host` header. Its path is then the
/// first line's second piece, and its host name is read from the last
/// `host` header.
pub proof fn lemma_well_formed_request_is_accepted(raw: Seq<char>, i: int)
    requires
        raw.len() > 0,
        lowercase(first_token(first_line(raw))) == "get"@,
        version_token(first_line(raw)) == Some("HTTP/1.1"@),
        0 <= i < lines(after_first_line(raw)).len(),
        is_header_named(lines(after_first_line(raw))[i], "host"@),
        forall|j: int|
            i < j < lines(after_first_line(raw)).len() ==> !is_header_named(
                #[trigger] lines(after_first_line(raw))[j],
                "host"@,
            ),
    ensures
        spec_parse_request(raw) matches Ok(request) && {
            &&& request.method == Method::Get
            &&& request.http_version == HTTPVersion::OnePointOne
            &&& Some(request.path) == path_token(first_line(raw))
            &&& request.headers == headers_of(lines(after_first_line(raw)))
            &&& request.hostname == spec_parse_hostname(
                header_value(lines(after_first_line(raw))[i]),
            )
        },
{
    lemma_headers_of_last_wins(lines(after_first_line(raw)), "host"@, i);
}

/// Parsing has no state: two parses of one text give equal results.
pub proof fn lemma_parse_is_deterministic(
    raw: Seq<char>,
    first: Result<HTTPRequest, ParseError>,
    second: Result<HTTPRequest, ParseError>,
)
    requires
        result_view(first) == spec_parse_request(raw),
        result_view(second) == spec_parse_request(raw),
    ensures
        result_view(first) == result_view(second),
{
}

impl ParseError {
    /// What the error says.
    pub open spec fn spec_message(self) -> Seq<char> {
        match self {
            ParseError::InvalidMethod => "Invalid HTTP method"@,
            ParseError::InvalidHTTPVersion => "Invalid HTTP version"@,
            ParseError::MissingTopLine => "Missing top line"@,
            ParseError::NoPath => "No path"@,
        }
    }

    /// What the error says.
    pub fn message(&self) -> (message: String)
        ensures
            message@ == self.spec_message(),
    {
        match self {
            ParseError::InvalidMethod => String::from_str("Invalid HTTP method"),
            ParseError::InvalidHTTPVersion => String::from_str("Invalid HTTP version"),
            ParseError::MissingTopLine => String::from_str("Missing top line"),
            ParseError::NoPath => String::from_str("No path"),
        }
    }
}

} // verus!
