//! The smallest front end: it reads only the path and the host of a
//! request, refuses none, and routes by path alone.

use vstd::prelude::*;
use vstd::hash_map::StringHashMap;
use vstd::string::StringExecFns;
use crate::http_parser::after_first_line;
use crate::http_parser::first_line;
use crate::http_parser::lemma_after_first_line_shorter;
use crate::http_parser::lines;
use crate::http_parser::split_line;
use crate::http_server::serialize;
use crate::http_server::wire;
use crate::http_server::Outcome;
use crate::response::Response;
use crate::response::ResponseView;
use crate::text::from_utf8_lossy;
use crate::text::lossy_text;
use crate::text::second_word;
use crate::text::spec_second_word;
use crate::text::starts_with;

verus! {

/// What a handler is told of a request.
#[derive(Clone, Debug)]
pub struct Request {
    pub host: String,
}

impl Request {
    /// A request without a host.
    pub fn new() -> (request: Self)
        ensures
            request.host@ == Seq::<char>::empty(),
    {
        Request { host: String::new() }
    }
}

/// The path of a request: the second word of its first line, and `/`
/// where the request is empty or its first line holds less than two words.
pub open spec fn spec_parse_path(raw: Seq<char>) -> Seq<char> {
    if raw.len() == 0 {
        "/"@
    } else {
        match spec_second_word(first_line(raw)) {
            Some(word) => word,
            None => "/"@,
        }
    }
}

/// `line` starts with `Host` and holds two words.
pub open spec fn names_host(line: Seq<char>) -> bool {
    "Host"@.is_prefix_of(line) && spec_second_word(line) is Some
}

/// The second word of the first of `lines` that starts with `Host` and
/// holds two words, and nothing where there is no such line.
pub open spec fn host_in(lines: Seq<Seq<char>>) -> Seq<char>
    decreases lines.len(),
{
    if lines.len() == 0 {
        Seq::empty()
    } else if names_host(lines[0]) {
        spec_second_word(lines[0])->0
    } else {
        host_in(lines.drop_first())
    }
}

/// The host of a request, read from its lines.
pub open spec fn spec_parse_host(raw: Seq<char>) -> Seq<char> {
    host_in(lines(raw))
}

/// The path of a request: the second word of its first line, and `/`
/// where there is none.
pub fn parse_path(request: &str) -> (path: String)
    ensures
        path@ == spec_parse_path(request@),
{
    if request.is_empty() {
        return String::from_str("/");
    }
    let (line, _) = split_line(request);
    match second_word(line) {
        Some(word) => String::from_str(word),
        None => String::from_str("/"),
    }
}

/// The host of a request: the second word of its first line that starts
/// with `Host` and holds two words, and nothing where there is none.
pub fn parse_host(request: &str) -> (host: String)
    ensures
        host@ == spec_parse_host(request@),
{
    let mut rest: &str = request;
    while !rest.is_empty()
        invariant
            host_in(lines(rest@)) == host_in(lines(request@)),
        decreases rest@.len(),
    {
        let (line, tail) = split_line(rest);
        proof {
            lemma_after_first_line_shorter(rest@);
            assert(lines(rest@) == seq![line@] + lines(tail@));
            assert(lines(rest@)[0] == line@);
            assert(lines(rest@).drop_first() =~= lines(tail@));
        }
        if starts_with(line, "Host") {
            match second_word(line) {
                Some(word) => {
                    return String::from_str(word);
                },
                None => {},
            }
        }
        rest = tail;
    }
    String::new()
}

/// `handler`, called with a request from `host` and a fresh response, can
/// return `response`.
pub open spec fn answered_by<H: Fn(Request, Response) -> Response>(
    handler: H,
    host: Seq<char>,
    response: Response,
) -> bool {
    exists|request: Request, fresh: Response|
        request.host@ == host && fresh@ == ResponseView::fresh() && #[trigger] call_ensures(
            handler,
            (request, fresh),
            response,
        )
}

/// `handler` can be called with every request and every response.
pub open spec fn takes_all<H: Fn(Request, Response) -> Response>(handler: H) -> bool {
    forall|request: Request, response: Response| #[trigger]
        call_requires(handler, (request, response))
}

/// An application: its routes, from path to handler.
#[verifier::reject_recursive_types(H)]
pub struct App<H> {
    routes: StringHashMap<H>,
}

impl<H: Fn(Request, Response) -> Response> App<H> {
    /// The routes, from path to handler.
    pub closed spec fn routes(&self) -> Map<Seq<char>, H> {
        self.routes@
    }

    /// Every registered handler can be called with every request.
    pub open spec fn wf(&self) -> bool {
        forall|path: Seq<char>| #[trigger]
            self.routes().contains_key(path) ==> takes_all(self.routes()[path])
    }

    /// What this application answers to the request text `raw`: status 200
    /// with the body `Not found` where no route is registered for its
    /// path; else what the handler of its path returns when told the
    /// request's host.
    pub open spec fn answers(&self, raw: Seq<char>, reply: Seq<char>) -> bool {
        if !self.routes().contains_key(spec_parse_path(raw)) {
            reply == wire("200 OK"@, "Not found"@)
        } else {
            exists|response: Response| #[trigger]
                answered_by(self.routes()[spec_parse_path(raw)], spec_parse_host(raw), response)
                    && reply == Outcome::Handled(response).wire()
        }
    }

    /// An application without routes.
    pub fn new() -> (app: Self)
        ensures
            app.routes() == Map::<Seq<char>, H>::empty(),
            app.wf(),
    {
        App { routes: StringHashMap::new() }
    }

    /// Registers `f` as the handler of `path`, in place of an earlier one.
    pub fn get(&mut self, path: &str, f: H)
        ensures
            final(self).routes() == old(self).routes().insert(path@, f),
            old(self).wf() && takes_all(f) ==> final(self).wf(),
    {
        self.routes.insert(String::from_str(path), f);
        proof {
            if old(self).wf() && takes_all(f) {
                assert forall|p: Seq<char>| #[trigger] self.routes().contains_key(p) implies takes_all(
                    self.routes()[p],
                ) by {
                    if p != path@ {
                        assert(old(self).routes().contains_key(p));
                    }
                }
            }
        }
    }

    /// Answers a request given as text.
    pub fn answer(&self, request: &str) -> (reply: String)
        requires
            self.wf(),
        ensures
            self.answers(request@, reply@),
    {
        let path = parse_path(request);
        let host = parse_host(request);
        let mut told = Request::new();
        told.host = host;
        match self.routes.get(path.as_str()) {
            Some(handler) => {
                assert(self.routes().contains_key(path@));
                let fresh = Response::new();
                let ghost given = (told, fresh);
                let response = handler(told, fresh);
                assert(call_ensures(*handler, given, response));
                assert(answered_by(
                    self.routes()[spec_parse_path(request@)],
                    spec_parse_host(request@),
                    response,
                ));
                Outcome::Handled(response).serialize()
            },
            None => serialize("200 OK", "Not found"),
        }
    }

    /// Answers what a connection sent: reads the bytes as text and answers
    /// the request.
    pub fn respond(&self, received: &[u8]) -> (reply: String)
        requires
            self.wf(),
        ensures
            self.answers(lossy_text(received@), reply@),
    {
        let request = from_utf8_lossy(received);
        self.answer(request.as_str())
    }
}

} // verus!
