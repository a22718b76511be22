//! Request middleware.
//!
//! A [`Middleware`] sees each request before it is sent and each response
//! after it arrives. It can change the request, send it more than once, or
//! answer without sending it.

use crate::message::Request;
use std::sync::Arc;
use vstd::prelude::*;

verus! {

/// Runs around every request that a client sends.
pub trait Middleware: Send + Sync + Sized + 'static {
    /// What comes of a request.
    type Reply;

    /// Whether `handle` may answer `reply`: anything, unless the
    /// implementation says more.
    open spec fn may_reply(&self, req: Request, next: Next<Self>, reply: Self::Reply) -> bool {
        true
    }

    /// Handle one request. Call [`Next::run`] to pass it on.
    fn handle(&self, req: Request, next: Next<Self>) -> (r: Self::Reply)
        ensures
            self.may_reply(req, next, r),
    ;
}

/// The middleware of a client, in the order in which it was added.
///
/// Clones share the middleware.
pub struct Client<M> {
    middleware: Arc<Vec<Arc<M>>>,
}

impl<M> View for Client<M> {
    type V = Seq<Arc<M>>;

    closed spec fn view(&self) -> Seq<Arc<M>> {
        self.middleware@
    }
}

impl<M> Clone for Client<M> {
    fn clone(&self) -> (r: Self)
        ensures
            r == *self,
    {
        Client { middleware: self.middleware.clone() }
    }
}

impl<M> Client<M> {
    /// A client with that middleware.
    pub fn new(middleware: Vec<Arc<M>>) -> (r: Self)
        ensures
            r@ == middleware@,
    {
        Client { middleware: Arc::new(middleware) }
    }

    /// The middleware that was added as number `index`, counting from zero.
    pub fn middleware(&self, index: usize) -> (r: Option<Arc<M>>)
        ensures
            r is Some <==> index < self@.len(),
            r is Some ==> r->0 == self@[index as int],
    {
        if index < self.middleware.len() {
            Some(self.middleware[index].clone())
        } else {
            None
        }
    }
}

/// What came of passing a request on.
pub enum Passed<R> {
    /// The next middleware replied.
    Handled(R),
    /// No middleware is left, and the request is to be sent.
    Send(Request),
}

/// The rest of the middleware chain, ending with the actual send.
///
/// `Next` is cheap to clone, so a middleware can send a request more than once.
pub struct Next<M> {
    client: Client<M>,
    index: usize,
}

impl<M> Clone for Next<M> {
    fn clone(&self) -> (r: Self)
        ensures
            r == *self,
    {
        Next { client: self.client.clone(), index: self.index }
    }
}

impl<M> Next<M> {
    /// The client.
    pub closed spec fn client(self) -> Client<M> {
        self.client
    }

    /// How many of the client's middleware the request has passed.
    pub closed spec fn index(self) -> usize {
        self.index
    }

    /// The middleware that a request still has to pass, in order.
    pub open spec fn left(self) -> Seq<Arc<M>> {
        if self.index() < self.client()@.len() {
            self.client()@.skip(self.index() as int)
        } else {
            Seq::empty()
        }
    }

    /// Whether `next` is the chain after one middleware more.
    pub open spec fn is_followed_by(self, next: Next<M>) -> bool {
        &&& next.client() == self.client()
        &&& next.index() == self.index() + 1
    }

    /// All of the client's middleware, and then the send.
    pub fn new(client: Client<M>) -> (r: Next<M>)
        ensures
            r.client() == client,
            r.index() == 0,
            r.left() == client@,
    {
        assert(client@.skip(0) =~= client@);
        assert(client@.len() == 0 ==> client@ =~= Seq::empty());
        Next { client, index: 0 }
    }
}

impl<M: Middleware> Next<M> {
    /// Whether the first middleware that is left may answer `reply`, with the rest
    /// of the chain to pass the request on to.
    pub open spec fn may_handle(self, req: Request, reply: M::Reply) -> bool {
        exists|next: Next<M>| #[trigger]
            self.is_followed_by(next) && self.left()[0].may_reply(req, next, reply)
    }

    /// Whether `run` may answer `r`: what the first middleware that is left
    /// replies, or the request itself, to be sent, if none is left.
    pub open spec fn may_pass(self, req: Request, r: Passed<M::Reply>) -> bool {
        match r {
            Passed::Handled(reply) => self.left().len() > 0 && self.may_handle(req, reply),
            Passed::Send(back) => self.left().len() == 0 && back == req,
        }
    }

    /// Pass `req` to the next middleware, or hand it back to be sent if none is
    /// left.
    pub fn run(self, req: Request) -> (r: Passed<M::Reply>)
        ensures
            self.may_pass(req, r),
    {
        match self.client.middleware(self.index) {
            Some(middleware) => {
                assert(self.index < self.client.middleware.len());
                let next: Next<M> = Next { client: self.client, index: self.index + 1 };
                assert(self.is_followed_by(next));
                Passed::Handled(middleware.handle(req, next))
            },
            None => Passed::Send(req),
        }
    }
}

/// The middleware that a request passes, one after the other, is the client's in
/// the order in which it was added: after `n` of them, the rest is left, and
/// after the last nothing is.
pub proof fn middleware_runs_in_order<M>(chain: Seq<Next<M>>, n: int)
    requires
        0 <= n < chain.len(),
        chain[0].index() == 0,
        forall|i: int|
            0 <= i < chain.len() - 1 ==> (#[trigger] chain[i]).is_followed_by(chain[i + 1]),
    ensures
        chain[n].client() == chain[0].client(),
        chain[n].index() == n,
        n < chain[0].client()@.len() ==> chain[n].left().len() > 0 && chain[n].left()[0]
            == chain[0].client()@[n],
        n >= chain[0].client()@.len() ==> chain[n].left().len() == 0,
    decreases n,
{
    if n > 0 {
        middleware_runs_in_order(chain, n - 1);
        assert(chain[n - 1].is_followed_by(chain[n]));
    }
}

/// While there is middleware left, a request that is passed on goes to the first of
/// it, with the chain after that, and what comes back is its reply. After the last,
/// the request is handed back unchanged, to be sent.
pub proof fn requests_are_passed_on<M: Middleware>(
    chain: Next<M>,
    req: Request,
    r: Passed<M::Reply>,
)
    requires
        chain.may_pass(req, r),
    ensures
        chain.index() < chain.client()@.len() ==> r is Handled && exists|next: Next<M>|
            {
                &&& next.client() == chain.client()
                &&& next.index() == chain.index() + 1
                &&& (chain.client()@[chain.index() as int]).may_reply(
                    req,
                    next,
                    r->Handled_0,
                )
            },
        chain.index() >= chain.client()@.len() ==> r is Send && r->Send_0 == req,
{
    if chain.index() < chain.client()@.len() {
        let next = choose|next: Next<M>| #[trigger]
            chain.is_followed_by(next) && chain.left()[0].may_reply(req, next, r->Handled_0);
        assert(next.client() == chain.client());
        assert(chain.left()[0] == chain.client()@[chain.index() as int]);
    }
}

} // verus!
