//! A single listener without virtual hosts: routes by path alone, and
//! says nothing to a request that does not parse.

use vstd::prelude::*;
use vstd::hash_map::StringHashMap;
use vstd::string::StringExecFns;
use crate::http_parser::parse_request;
use crate::http_parser::spec_parse_request;
use crate::http_parser::HTTPRequest;
use crate::http_server::accepts_all;
use crate::http_server::handled_by;
use crate::http_server::serialize;
use crate::http_server::wire;
use crate::http_server::Outcome;
use crate::response::Response;
use crate::text::decimal;
use crate::text::decimal_string;
use crate::text::from_utf8_lossy;
use crate::text::lossy_text;

verus! {

/// The address that an application listens on for `port`: that port on the
/// local interface.
pub fn local_address(port: u32) -> (address: String)
    ensures
        address@ == "127.0.0.1:"@ + decimal(port as nat),
{
    let mut address = String::from_str("127.0.0.1:");
    address.append(decimal_string(port as usize).as_str());
    address
}

/// An application: its routes, from path to handler.
#[verifier::reject_recursive_types(H)]
pub struct App<H> {
    routes: StringHashMap<H>,
}

impl<H: Fn(HTTPRequest, Response) -> Response> App<H> {
    /// The routes, from path to handler.
    pub closed spec fn routes(&self) -> Map<Seq<char>, H> {
        self.routes@
    }

    /// Every registered handler can be called with every request.
    pub open spec fn wf(&self) -> bool {
        forall|path: Seq<char>| #[trigger]
            self.routes().contains_key(path) ==> accepts_all(self.routes()[path])
    }

    /// What this application answers to the request text `raw`: nothing
    /// where the request does not parse; status 200 with the body
    /// `Not found` where no route is registered for its path; else what the
    /// handler of its path returns.
    pub open spec fn answers(&self, raw: Seq<char>, reply: Option<Seq<char>>) -> bool {
        match spec_parse_request(raw) {
            Err(_) => reply is None,
            Ok(request) => if !self.routes().contains_key(request.path) {
                reply == Some(wire("200 OK"@, "Not found"@))
            } else {
                exists|response: Response| #[trigger]
                    handled_by(self.routes()[request.path], request, response) && reply == Some(
                        Outcome::Handled(response).wire(),
                    )
            },
        }
    }

    /// An application without routes.
    pub fn new() -> (app: Self)
        ensures
            app.routes() == Map::<Seq<char>, H>::empty(),
            app.wf(),
    {
        App { routes: StringHashMap::new() }
    }

    /// Registers `f` as the handler of `path`, in place of an earlier one.
    pub fn get(&mut self, path: &str, f: H)
        ensures
            final(self).routes() == old(self).routes().insert(path@, f),
            old(self).wf() && accepts_all(f) ==> final(self).wf(),
    {
        self.routes.insert(String::from_str(path), f);
        proof {
            if old(self).wf() && accepts_all(f) {
                assert forall|p: Seq<char>| #[trigger] self.routes().contains_key(p) implies accepts_all(
                    self.routes()[p],
                ) by {
                    if p != path@ {
                        assert(old(self).routes().contains_key(p));
                    }
                }
            }
        }
    }

    /// Answers a request given as text.
    pub fn answer(&self, request: &str) -> (reply: Option<String>)
        requires
            self.wf(),
        ensures
            self.answers(
                request@,
                match reply {
                    Some(text) => Some(text@),
                    None => None,
                },
            ),
    {
        match parse_request(request) {
            Err(_) => None,
            Ok(parsed) => match self.routes.get(parsed.path.as_str()) {
                Some(handler) => {
                    assert(self.routes().contains_key(parsed.path@));
                    let fresh = Response::new();
                    let ghost given = (parsed, fresh);
                    let response = handler(parsed, fresh);
                    assert(call_ensures(*handler, given, response));
                    assert(handled_by(
                        self.routes()[spec_parse_request(request@)->Ok_0.path],
                        spec_parse_request(request@)->Ok_0,
                        response,
                    ));
                    Some(Outcome::Handled(response).serialize())
                },
                None => Some(serialize("200 OK", "Not found")),
            },
        }
    }

    /// Answers what a connection sent: reads the bytes as text and answers
    /// the request.
    pub fn respond(&self, received: &[u8]) -> (reply: Option<String>)
        requires
            self.wf(),
        ensures
            self.answers(
                lossy_text(received@),
                match reply {
                    Some(text) => Some(text@),
                    None => None,
                },
            ),
    {
        let request = from_utf8_lossy(received);
        self.answer(request.as_str())
    }
}

} // verus!
