//! The line to a provider, and the list of what was sent over it.

use vstd::prelude::*;
use crate::auto::orchestrator::{HttpReply, HttpRequest, HttpTransport};

verus! {

/// A request, and what came of it.
pub struct ExchangeView {
    pub request: HttpRequest,
    pub reply: HttpReply,
}

/// A transport, and the list of the requests that it was given. Whoever holds a line
/// reaches the transport through it alone, so that the list is complete.
pub struct Line<'a, T> {
    transport: &'a T,
    exchanges: Ghost<Seq<ExchangeView>>,
}

impl<'a, T: HttpTransport> Line<'a, T> {
    /// What sends the requests.
    pub closed spec fn transport(&self) -> &'a T {
        self.transport
    }

    /// What was sent so far, and what came of it.
    pub closed spec fn exchanges(&self) -> Seq<ExchangeView> {
        self.exchanges@
    }

    /// A line over which nothing was sent yet.
    pub fn new(transport: &'a T) -> (r: Self)
        ensures
            r.transport() == transport,
            r.exchanges() == Seq::<ExchangeView>::empty(),
    {
        Line { transport, exchanges: Ghost(Seq::empty()) }
    }

    /// Sends a request.
    pub fn send(&mut self, request: &HttpRequest) -> (r: HttpReply)
        ensures
            final(self).transport() == old(self).transport(),
            final(self).exchanges() == old(self).exchanges().push(
                ExchangeView { request: *request, reply: r },
            ),
            call_ensures(T::send, (old(self).transport(), request), r),
    {
        let r = self.transport.send(request);
        proof {
            self.exchanges@ = self.exchanges@.push(ExchangeView { request: *request, reply: r });
        }
        r
    }
}

} // verus!
