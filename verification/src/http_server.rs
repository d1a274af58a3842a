//! A server: a port, a virtual-host name and a table of routes. Given what
//! a connection sent, it decides what is sent back.

use vstd::prelude::*;
use vstd::hash_map::StringHashMap;
use vstd::string::StringExecFns;
use vstd::string::StringSliceAdditionalSpecFns;
use crate::http_parser::parse_request;
use crate::http_parser::spec_parse_request;
use crate::http_parser::HTTPRequest;
use crate::http_parser::HTTPRequestView;
use crate::response::Response;
use crate::response::ResponseView;
use crate::text::decimal;
use crate::text::decimal_string;
use crate::text::from_utf8_lossy;
use crate::text::lossy_text;

verus! {

/// How many bytes of a connection are read: one read into a window of this
/// size, and what does not fit is not looked at.
pub const READ_WINDOW: usize = 1024;

/// How a request ended.
#[derive(Debug)]
pub enum Outcome {
    /// The request did not parse.
    BadRequest,
    /// The request names another host than the server's.
    ServerNotFound,
    /// No route is registered for the request's path.
    NotFound,
    /// The handler of the request's path returned this response.
    Handled(Response),
}

/// The number of bytes that `text` takes in UTF-8.
pub open spec fn utf8_len(text: Seq<char>) -> nat {
    vstd::utf8::encode_utf8(text).len()
}

/// The text that goes over the wire: a status line, the length of the body
/// in bytes, an empty line, and the body.
pub open spec fn wire(status: Seq<char>, body: Seq<char>) -> Seq<char> {
    "HTTP/1.1 "@ + status + "\r\nContent-Length: "@ + decimal(utf8_len(body)) + "\r\n\r\n"@ + body
}

/// `handler`, called with a request whose view is `request` and a fresh
/// response, can return `response`.
pub open spec fn handled_by<H: Fn(HTTPRequest, Response) -> Response>(
    handler: H,
    request: HTTPRequestView,
    response: Response,
) -> bool {
    exists|parsed: HTTPRequest, fresh: Response|
        parsed@ == request && fresh@ == ResponseView::fresh() && #[trigger] call_ensures(
            handler,
            (parsed, fresh),
            response,
        )
}

/// `handler` can be called with every request and every response.
pub open spec fn accepts_all<H: Fn(HTTPRequest, Response) -> Response>(handler: H) -> bool {
    forall|request: HTTPRequest, response: Response| #[trigger]
        call_requires(handler, (request, response))
}

impl Outcome {
    /// The status line of this outcome. A handler's status code is followed
    /// by `OK`, whatever the code.
    pub open spec fn status_line(self) -> Seq<char> {
        match self {
            Outcome::BadRequest => "400 Bad Request"@,
            Outcome::ServerNotFound => "404 Not Found"@,
            Outcome::NotFound => "404 Not Found"@,
            Outcome::Handled(response) => decimal(response.status as nat) + " OK"@,
        }
    }

    /// The body of this outcome.
    pub open spec fn body(self) -> Seq<char> {
        match self {
            Outcome::BadRequest => "Bad Request"@,
            Outcome::ServerNotFound => "Server not found"@,
            Outcome::NotFound => "Not found"@,
            Outcome::Handled(response) => response.text@,
        }
    }

    /// The text that this outcome sends over the wire.
    pub open spec fn wire(self) -> Seq<char> {
        wire(self.status_line(), self.body())
    }

    /// Writes this outcome as the text that goes over the wire.
    pub fn serialize(&self) -> (text: String)
        ensures
            text@ == self.wire(),
    {
        match self {
            Outcome::BadRequest => serialize("400 Bad Request", "Bad Request"),
            Outcome::ServerNotFound => serialize("404 Not Found", "Server not found"),
            Outcome::NotFound => serialize("404 Not Found", "Not found"),
            Outcome::Handled(response) => {
                let mut status = decimal_string(response.status as usize);
                status.append(" OK");
                serialize(status.as_str(), response.text.as_str())
            },
        }
    }
}

/// Writes a status line and a body as the text that goes over the wire.
pub fn serialize(status: &str, body: &str) -> (text: String)
    ensures
        text@ == wire(status@, body@),
{
    let mut text = String::from_str("HTTP/1.1 ");
    text.append(status);
    text.append("\r\nContent-Length: ");
    text.append(decimal_string(body.as_bytes().len()).as_str());
    text.append("\r\n\r\n");
    text.append(body);
    text
}

/// A text of ASCII characters takes one byte for each character.
pub proof fn lemma_ascii_utf8_len(text: Seq<char>)
    requires
        vstd::utf8::is_ascii_chars(text),
    ensures
        utf8_len(text) == text.len(),
{
    vstd::utf8::is_ascii_chars_encode_utf8(text);
}

/// The wire text of a request for a path without a route, written out.
pub proof fn lemma_not_found_on_the_wire()
    ensures
        Outcome::NotFound.wire() == "HTTP/1.1 404 Not Found\r\nContent-Length: 9\r\n\r\nNot found"@,
{
    reveal_strlit("HTTP/1.1 ");
    reveal_strlit("404 Not Found");
    reveal_strlit("\r\nContent-Length: ");
    reveal_strlit("\r\n\r\n");
    reveal_strlit("Not found");
    reveal_strlit("HTTP/1.1 404 Not Found\r\nContent-Length: 9\r\n\r\nNot found");
    lemma_ascii_utf8_len("Not found"@);
    assert(decimal(9) =~= seq!['9']);
    assert(Outcome::NotFound.wire()
        =~= "HTTP/1.1 404 Not Found\r\nContent-Length: 9\r\n\r\nNot found"@);
}

/// The wire text of a request that does not parse, written out.
pub proof fn lemma_bad_request_on_the_wire()
    ensures
        Outcome::BadRequest.wire()
            == "HTTP/1.1 400 Bad Request\r\nContent-Length: 11\r\n\r\nBad Request"@,
{
    reveal_strlit("HTTP/1.1 ");
    reveal_strlit("400 Bad Request");
    reveal_strlit("\r\nContent-Length: ");
    reveal_strlit("\r\n\r\n");
    reveal_strlit("Bad Request");
    reveal_strlit("HTTP/1.1 400 Bad Request\r\nContent-Length: 11\r\n\r\nBad Request");
    lemma_ascii_utf8_len("Bad Request"@);
    assert(decimal(1) =~= seq!['1']);
    assert(decimal(11) =~= seq!['1', '1']);
    assert(Outcome::BadRequest.wire()
        =~= "HTTP/1.1 400 Bad Request\r\nContent-Length: 11\r\n\r\nBad Request"@);
}

/// The wire text of a request for another host, written out.
pub proof fn lemma_server_not_found_on_the_wire()
    ensures
        Outcome::ServerNotFound.wire()
            == "HTTP/1.1 404 Not Found\r\nContent-Length: 16\r\n\r\nServer not found"@,
{
    reveal_strlit("HTTP/1.1 ");
    reveal_strlit("404 Not Found");
    reveal_strlit("\r\nContent-Length: ");
    reveal_strlit("\r\n\r\n");
    reveal_strlit("Server not found");
    reveal_strlit("HTTP/1.1 404 Not Found\r\nContent-Length: 16\r\n\r\nServer not found");
    lemma_ascii_utf8_len("Server not found"@);
    assert(decimal(1) =~= seq!['1']);
    assert(decimal(16) =~= seq!['1', '6']);
    assert(Outcome::ServerNotFound.wire()
        =~= "HTTP/1.1 404 Not Found\r\nContent-Length: 16\r\n\r\nServer not found"@);
}

/// A server: the port it listens on, the host name it answers to, and its
/// routes, from path to handler.
#[verifier::reject_recursive_types(H)]
pub struct HTTPServer<H> {
    pub routes: StringHashMap<H>,
    pub http_port: u16,
    pub server_name: String,
}

impl<H: Fn(HTTPRequest, Response) -> Response> HTTPServer<H> {
    /// Every registered handler can be called with every request.
    pub open spec fn wf(&self) -> bool {
        forall|path: Seq<char>| #[trigger]
            self.routes@.contains_key(path) ==> accepts_all(self.routes@[path])
    }

    /// What this server answers to the request text `raw`: a request that
    /// does not parse is a bad request; one for another host finds no
    /// server; one for a path without a route finds nothing; every other
    /// one gets what the handler of its path returns.
    pub open spec fn dispatches(&self, raw: Seq<char>, outcome: Outcome) -> bool {
        match spec_parse_request(raw) {
            Err(_) => outcome is BadRequest,
            Ok(request) => if request.hostname != self.server_name@ {
                outcome is ServerNotFound
            } else if !self.routes@.contains_key(request.path) {
                outcome is NotFound
            } else {
                outcome matches Outcome::Handled(response) && handled_by(
                    self.routes@[request.path],
                    request,
                    response,
                )
            },
        }
    }

    /// `reply` is the wire text of an outcome that this server answers to
    /// `raw`.
    pub open spec fn replies(&self, raw: Seq<char>, reply: Seq<char>) -> bool {
        exists|outcome: Outcome| #[trigger] self.dispatches(raw, outcome) && reply == outcome.wire()
    }

    /// A server for `http_port` and `server_name`, without routes.
    pub fn new(http_port: u16, server_name: &str) -> (server: Self)
        ensures
            server.http_port == http_port,
            server.server_name@ == server_name@,
            server.routes@ == Map::<Seq<char>, H>::empty(),
            server.wf(),
    {
        HTTPServer {
            http_port,
            server_name: String::from_str(server_name),
            routes: StringHashMap::new(),
        }
    }

    /// A server for port 80 with an empty name, without routes.
    pub fn default() -> (server: Self)
        ensures
            server.http_port == 80,
            server.server_name@ == Seq::<char>::empty(),
            server.routes@ == Map::<Seq<char>, H>::empty(),
            server.wf(),
    {
        HTTPServer { http_port: 80, server_name: String::new(), routes: StringHashMap::new() }
    }

    /// Registers `f` as the handler of `path`, in place of an earlier one.
    pub fn get(&mut self, path: &str, f: H)
        ensures
            final(self).routes@ == old(self).routes@.insert(path@, f),
            final(self).http_port == old(self).http_port,
            final(self).server_name == old(self).server_name,
            old(self).wf() && accepts_all(f) ==> final(self).wf(),
    {
        self.routes.insert(String::from_str(path), f);
    }

    /// The address that the server listens on: its port on every interface.
    pub fn bind_address(&self) -> (address: String)
        ensures
            address@ == "0.0.0.0:"@ + decimal(self.http_port as nat),
    {
        let mut address = String::from_str("0.0.0.0:");
        address.append(decimal_string(self.http_port as usize).as_str());
        address
    }

    /// Answers a request given as text: parses it, compares its host name
    /// with the server's, looks its path up and calls the handler.
    pub fn dispatch(&self, request: &str) -> (outcome: Outcome)
        requires
            self.wf(),
        ensures
            self.dispatches(request@, outcome),
    {
        match parse_request(request) {
            Err(_) => Outcome::BadRequest,
            Ok(parsed) => {
                if parsed.hostname == self.server_name {
                    match self.routes.get(parsed.path.as_str()) {
                        Some(handler) => {
                            let fresh = Response::new();
                            let ghost given = (parsed, fresh);
                            let response = handler(parsed, fresh);
                            assert(call_ensures(*handler, given, response));
                            Outcome::Handled(response)
                        },
                        None => Outcome::NotFound,
                    }
                } else {
                    Outcome::ServerNotFound
                }
            },
        }
    }

    /// Answers what a connection sent: reads the bytes as text, dispatches
    /// the request and writes the outcome as wire text.
    pub fn respond(&self, received: &[u8]) -> (reply: String)
        requires
            self.wf(),
        ensures
            self.replies(lossy_text(received@), reply@),
    {
        let request = from_utf8_lossy(received);
        let outcome = self.dispatch(request.as_str());
        outcome.serialize()
    }
}

/// A request that does not parse is answered with status 400 and the body
/// `Bad Request`.
pub proof fn lemma_unparsable_request_is_bad<H: Fn(HTTPRequest, Response) -> Response>(
    server: HTTPServer<H>,
    raw: Seq<char>,
    reply: Seq<char>,
)
    requires
        server.replies(raw, reply),
        spec_parse_request(raw) is Err,
    ensures
        reply == wire("400 Bad Request"@, "Bad Request"@),
        reply == "HTTP/1.1 400 Bad Request\r\nContent-Length: 11\r\n\r\nBad Request"@,
{
    lemma_bad_request_on_the_wire();
}

/// A request whose host name is not the server's name is answered with
/// status 404 and the body `Server not found`.
pub proof fn lemma_other_host_finds_no_server<H: Fn(HTTPRequest, Response) -> Response>(
    server: HTTPServer<H>,
    raw: Seq<char>,
    reply: Seq<char>,
)
    requires
        server.replies(raw, reply),
        spec_parse_request(raw) matches Ok(request) && request.hostname != server.server_name@,
    ensures
        reply == wire("404 Not Found"@, "Server not found"@),
        reply == "HTTP/1.1 404 Not Found\r\nContent-Length: 16\r\n\r\nServer not found"@,
{
    lemma_server_not_found_on_the_wire();
}

/// A request for the server's host and for a path without a route is
/// answered with status 404 and the body `Not found`.
pub proof fn lemma_missing_route_is_not_found<H: Fn(HTTPRequest, Response) -> Response>(
    server: HTTPServer<H>,
    raw: Seq<char>,
    reply: Seq<char>,
)
    requires
        server.replies(raw, reply),
        spec_parse_request(raw) matches Ok(request) && request.hostname == server.server_name@
            && !server.routes@.contains_key(request.path),
    ensures
        reply == wire("404 Not Found"@, "Not found"@),
        reply == "HTTP/1.1 404 Not Found\r\nContent-Length: 9\r\n\r\nNot found"@,
{
    lemma_not_found_on_the_wire();
}

/// A request for the server's host and for a path with a route is answered
/// with what the route's handler returned from a fresh response: its
/// status code and its body.
pub proof fn lemma_registered_route_is_served<H: Fn(HTTPRequest, Response) -> Response>(
    server: HTTPServer<H>,
    raw: Seq<char>,
    reply: Seq<char>,
)
    requires
        server.replies(raw, reply),
        spec_parse_request(raw) matches Ok(request) && request.hostname == server.server_name@
            && server.routes@.contains_key(request.path),
    ensures
        exists|response: Response| #[trigger]
            handled_by(
                server.routes@[spec_parse_request(raw)->Ok_0.path],
                spec_parse_request(raw)->Ok_0,
                response,
            ) && reply == wire(decimal(response.status as nat) + " OK"@, response.text@),
{
    let outcome = choose|outcome: Outcome| #[trigger]
        server.dispatches(raw, outcome) && reply == outcome.wire();
    let response = outcome->Handled_0;
    assert(handled_by(
        server.routes@[spec_parse_request(raw)->Ok_0.path],
        spec_parse_request(raw)->Ok_0,
        response,
    ));
}

/// Where the handler of a served request returns one status code and one
/// body whenever it starts from a fresh response, the reply carries that
/// code and that body.
pub proof fn lemma_reply_carries_what_handler_set<H: Fn(HTTPRequest, Response) -> Response>(
    server: HTTPServer<H>,
    raw: Seq<char>,
    reply: Seq<char>,
    set: ResponseView,
)
    requires
        server.replies(raw, reply),
        spec_parse_request(raw) matches Ok(request) && request.hostname == server.server_name@
            && server.routes@.contains_key(request.path),
        forall|response: Response| #[trigger]
            handled_by(
                server.routes@[spec_parse_request(raw)->Ok_0.path],
                spec_parse_request(raw)->Ok_0,
                response,
            ) ==> response@ == set,
    ensures
        reply == wire(decimal(set.status as nat) + " OK"@, set.text),
{
    let outcome = choose|outcome: Outcome| #[trigger]
        server.dispatches(raw, outcome) && reply == outcome.wire();
    let response = outcome->Handled_0;
    assert(handled_by(
        server.routes@[spec_parse_request(raw)->Ok_0.path],
        spec_parse_request(raw)->Ok_0,
        response,
    ));
}

} // verus!
