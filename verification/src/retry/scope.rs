//! Which requests a policy applies to.

use crate::message::Request;
use vstd::prelude::*;

verus! {

/// A choice of requests.
pub trait Scope: Send + Sync + 'static {
    /// Whether `applies_to` may answer `verdict`: anything, unless the
    /// implementation says more.
    open spec fn may_say(&self, req: Request, verdict: bool) -> bool {
        true
    }

    /// Whether the request is one of them.
    fn applies_to(&self, req: &Request) -> (r: bool)
        ensures
            self.may_say(*req, r),
    ;
}

/// A choice given by a function.
pub struct ScopeFn<F: Fn(&Request) -> bool>(F);

impl<F: Fn(&Request) -> bool> ScopeFn<F> {
    #[verifier::type_invariant]
    spec fn callable(self) -> bool {
        forall|req: &Request| #[trigger] call_requires(self.0, (req,))
    }

    /// The function.
    pub closed spec fn func(self) -> F {
        self.0
    }

    /// The choice that `func` makes.
    pub fn new(func: F) -> (r: Self)
        requires
            forall|req: &Request| #[trigger] call_requires(func, (req,)),
        ensures
            r.func() == func,
    {
        ScopeFn(func)
    }
}

impl<F: Fn(&Request) -> bool + Send + Sync + 'static> Scope for ScopeFn<F> {
    open spec fn may_say(&self, req: Request, verdict: bool) -> bool {
        call_ensures(self.func(), (&req,), verdict)
    }

    fn applies_to(&self, req: &Request) -> (r: bool) {
        proof {
            use_type_invariant(self);
        }
        (self.0)(req)
    }
}

/// A choice given by a function is made as the function may say.
pub proof fn functions_set_the_scope<F: Fn(&Request) -> bool + Send + Sync + 'static>(
    scope: ScopeFn<F>,
    req: Request,
)
    ensures
        forall|verdict: bool|
            #![trigger scope.may_say(req, verdict)]
            #![trigger call_ensures(scope.func(), (&req,), verdict)]
            scope.may_say(req, verdict) == call_ensures(scope.func(), (&req,), verdict),
{
}

/// Requests to one host.
#[derive(Debug)]
pub struct HostScope {
    /// The host.
    pub host: String,
}

impl Scope for HostScope {
    open spec fn may_say(&self, req: Request, verdict: bool) -> bool {
        verdict == (self.host@ == req.uri.host_or_empty())
    }

    fn applies_to(&self, req: &Request) -> (r: bool) {
        match req.uri.host() {
            Some(host) => self.host == host.to_string(),
            None => {
                assert(self.host@.len() == 0 ==> self.host@ =~= Seq::empty());
                self.host.as_str().is_empty()
            },
        }
    }
}

/// Every request.
#[derive(Clone, Copy, Debug)]
pub struct AnyHost;

impl Scope for AnyHost {
    open spec fn may_say(&self, req: Request, verdict: bool) -> bool {
        verdict
    }

    fn applies_to(&self, req: &Request) -> (r: bool) {
        true
    }
}

/// The requests that a policy applies to.
#[derive(Debug)]
pub enum Scoped<S> {
    /// All of them.
    Unscoped,
    /// A choice of the user's.
    Dyn(S),
}

impl<S: Scope> Scoped<S> {
    /// Whether `applies_to` may answer `verdict`.
    pub open spec fn may_say(self, req: Request, verdict: bool) -> bool {
        match self {
            Scoped::Unscoped => verdict,
            Scoped::Dyn(scope) => scope.may_say(req, verdict),
        }
    }

    /// Whether the policy applies to the request.
    pub fn applies_to(&self, req: &Request) -> (r: bool)
        ensures
            self.may_say(*req, r),
    {
        match self {
            Scoped::Unscoped => true,
            Scoped::Dyn(scope) => scope.applies_to(req),
        }
    }
}

/// A choice of one host is that of the requests whose URI names just that host.
pub proof fn hosts_are_matched_in_full(scope: HostScope, req: Request, verdict: bool)
    requires
        scope.may_say(req, verdict),
    ensures
        req.uri.parts().1 is Some ==> (verdict <==> req.uri.parts().1->0 == scope.host@),
        req.uri.parts().1 is None ==> (verdict <==> scope.host@.len() == 0),
{
    assert(scope.host@.len() == 0 ==> scope.host@ =~= Seq::empty());
}

} // verus!
