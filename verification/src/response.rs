//! The response that a route handler builds: a status code and a body.

use vstd::prelude::*;
use vstd::string::StringExecFns;

verus! {

/// A response under construction.
#[derive(Clone, Debug)]
pub struct Response {
    pub text: String,
    pub status: u16,
}

/// What a response holds, as mathematical values.
pub struct ResponseView {
    pub text: Seq<char>,
    pub status: u16,
}

impl ResponseView {
    /// The response that every handler starts from: status 200, no body.
    pub open spec fn fresh() -> ResponseView {
        ResponseView { text: Seq::empty(), status: 200 }
    }

    /// This response with `text` as its body.
    pub open spec fn with_text(self, text: Seq<char>) -> ResponseView {
        ResponseView { text, status: self.status }
    }

    /// This response with `status` as its status code.
    pub open spec fn with_status(self, status: u16) -> ResponseView {
        ResponseView { text: self.text, status }
    }
}

impl View for Response {
    type V = ResponseView;

    open spec fn view(&self) -> ResponseView {
        ResponseView { text: self.text@, status: self.status }
    }
}

impl Response {
    /// A response with status 200 and no body.
    pub fn new() -> (response: Self)
        ensures
            response@ == ResponseView::fresh(),
    {
        Response { text: String::new(), status: 200 }
    }

    /// Sets the body and returns a copy of the response as it then is. No
    /// body is refused.
    pub fn send(&mut self, response: &str) -> (sent: Response)
        ensures
            final(self)@ == old(self)@.with_text(response@),
            sent@ == final(self)@,
    {
        self.text = String::from_str(response);
        Response { text: self.text.clone(), status: self.status }
    }

    /// Sets the status code and returns a copy of the response as it then
    /// is. No code is refused.
    pub fn status(&mut self, status: u16) -> (set: Response)
        ensures
            final(self)@ == old(self)@.with_status(status),
            set@ == final(self)@,
    {
        self.status = status;
        Response { text: self.text.clone(), status: self.status }
    }
}

/// Of two bodies set one after the other, the later one stays.
pub proof fn lemma_last_text_wins(response: ResponseView, first: Seq<char>, second: Seq<char>)
    ensures
        response.with_text(first).with_text(second) == response.with_text(second),
{
}

/// Of two status codes set one after the other, the later one stays.
pub proof fn lemma_last_status_wins(response: ResponseView, first: u16, second: u16)
    ensures
        response.with_status(first).with_status(second) == response.with_status(second),
{
}

/// Body and status code can be set in either order: each keeps what the
/// other has set.
pub proof fn lemma_text_and_status_commute(response: ResponseView, text: Seq<char>, status: u16)
    ensures
        response.with_text(text).with_status(status) == response.with_status(status).with_text(
            text,
        ),
        response.with_text(text).status == response.status,
        response.with_status(status).text == response.text,
{
}

} // verus!
