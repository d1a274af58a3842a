//! The servers of one process, in the order in which they were added.

use vstd::prelude::*;
use crate::http_parser::HTTPRequest;
use crate::http_server::HTTPServer;
use crate::response::Response;

verus! {

/// A collection of servers that are started together.
#[verifier::reject_recursive_types(H)]
pub struct HTTPManager<H> {
    servers: Vec<HTTPServer<H>>,
}

impl<H> View for HTTPManager<H> {
    type V = Seq<HTTPServer<H>>;

    closed spec fn view(&self) -> Seq<HTTPServer<H>> {
        self.servers@
    }
}

impl<H: Fn(HTTPRequest, Response) -> Response> HTTPManager<H> {
    /// Every server of the collection is well formed.
    pub open spec fn wf(&self) -> bool {
        forall|i: int| 0 <= i < self@.len() ==> (#[trigger] self@[i]).wf()
    }

    /// A collection without servers.
    pub fn new() -> (manager: Self)
        ensures
            manager@ == Seq::<HTTPServer<H>>::empty(),
            manager.wf(),
    {
        HTTPManager { servers: Vec::new() }
    }

    /// Adds `server` behind the servers that are there. Two servers may
    /// name one port.
    pub fn add_server(&mut self, server: HTTPServer<H>)
        ensures
            final(self)@ == old(self)@.push(server),
            old(self).wf() && server.wf() ==> final(self).wf(),
    {
        self.servers.push(server);
        proof {
            if old(self).wf() && server.wf() {
                assert forall|i: int| 0 <= i < self@.len() implies (#[trigger] self@[i]).wf() by {
                    if i < old(self)@.len() {
                        assert(self@[i] == old(self)@[i]);
                    }
                }
            }
        }
    }

    /// The servers, in the order in which they were added.
    pub fn servers(&self) -> (servers: &Vec<HTTPServer<H>>)
        ensures
            servers@ == self@,
    {
        &self.servers
    }

    /// Gives the servers up, in the order in which they were added.
    pub fn into_servers(self) -> (servers: Vec<HTTPServer<H>>)
        ensures
            servers@ == self@,
    {
        self.servers
    }
}

} // verus!
