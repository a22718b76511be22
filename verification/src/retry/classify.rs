//! Which outcomes of a request are worth a retry.

use crate::error::Error;
use crate::headers;
use crate::message;
use crate::message::{Method, Request, Response, StatusCode, Uri};
use vstd::prelude::*;

verus! {

/// What a classifier makes of an attempt.
#[must_use]
#[derive(Clone, Copy, Debug, PartialEq, Eq, Structural)]
pub enum Action {
    /// There is nothing to retry.
    Success,
    /// The request may be retried.
    Retryable,
}

/// A request/response result to inspect for possible retries.
///
/// This is passed to a `classify` function.
#[derive(Clone, Copy, Debug)]
pub struct ReqRep<'a> {
    req: &'a Request,
    outcome: Result<StatusCode, &'a Error>,
}

impl<'a> ReqRep<'a> {
    /// The request.
    pub closed spec fn request(self) -> Request {
        *self.req
    }

    /// The response status, or the error.
    pub closed spec fn outcome(self) -> Result<StatusCode, Error> {
        match self.outcome {
            Ok(status) => Ok(status),
            Err(err) => Err(*err),
        }
    }

    /// The request `req`, and what came of it.
    pub fn new(req: &'a Request, res: &'a Result<Response, Error>) -> (r: ReqRep<'a>)
        ensures
            r == ReqRep::of(req, res),
            r.request() == *req,
            r.outcome() == match *res {
                Ok(response) => Ok(response.status),
                Err(err) => Err(err),
            },
    {
        ReqRep {
            req,
            outcome: match res {
                Ok(response) => Ok(response.status),
                Err(err) => Err(err),
            },
        }
    }

    /// The request `req`, and what came of it.
    pub closed spec fn of(req: &'a Request, res: &'a Result<Response, Error>) -> ReqRep<'a> {
        ReqRep {
            req,
            outcome: match *res {
                Ok(response) => Ok(response.status),
                Err(err) => Err(&err),
            },
        }
    }

    /// Access the request method.
    pub fn method(&self) -> (r: &Method)
        ensures
            *r == self.request().method,
    {
        &self.req.method
    }

    /// Access the request URI.
    pub fn uri(&self) -> (r: &Uri)
        ensures
            *r == self.request().uri,
    {
        &self.req.uri
    }

    /// Access the response status, if it did not error.
    pub fn status(&self) -> (r: Option<StatusCode>)
        ensures
            r == match self.outcome() {
                Ok(status) => Some(status),
                Err(_) => None,
            },
    {
        match self.outcome {
            Ok(status) => Some(status),
            Err(_) => None,
        }
    }

    /// Access the error, if a response was not received.
    pub fn error(&self) -> (r: Option<&Error>)
        ensures
            r is Some <==> self.outcome() is Err,
            r is Some ==> *r->0 == self.outcome()->Err_0,
    {
        match self.outcome {
            Ok(_) => None,
            Err(err) => Some(err),
        }
    }

    /// Classify this attempt as retryable.
    pub fn retryable(self) -> (r: Action)
        ensures
            r == Action::Retryable,
    {
        Action::Retryable
    }

    /// Classify this attempt as success.
    ///
    /// Even if it was a domain error, a "success" means it will not retry.
    pub fn success(self) -> (r: Action)
        ensures
            r == Action::Success,
    {
        Action::Success
    }

    /// Whether the response has one of the status codes `statuses`.
    pub open spec fn has_status(self, statuses: Seq<StatusCode>) -> bool {
        self.outcome() is Ok && statuses.contains(self.outcome()->Ok_0)
    }

    /// Whether the response asks to come back later, and the request may be
    /// made again: its method is idempotent, or it has an idempotency key.
    pub open spec fn is_standard(self) -> bool {
        &&& self.outcome() is Ok
        &&& (self.outcome()->Ok_0@ == 429 || self.outcome()->Ok_0@ == 503)
        &&& {
            ||| message::is_idempotent(self.request().method@)
            ||| headers::first_value(self.request().fields(), "idempotency-key"@) is Some
        }
    }

    fn is_status_code(&self, statuses: &Vec<StatusCode>) -> (r: bool)
        ensures
            r == self.has_status(statuses@),
    {
        match self.outcome {
            Ok(status) => {
                for i in 0..statuses.len()
                    invariant
                        self.outcome == Ok::<StatusCode, &'a Error>(status),
                        forall|j: int| 0 <= j < i ==> #[trigger] statuses@[j] != status,
                {
                    if statuses[i] == status {
                        assert(statuses@[i as int] == status);
                        return true;
                    }
                }
                false
            },
            Err(_) => false,
        }
    }

    fn is_standard_retry(&self) -> (r: bool)
        ensures
            r == self.is_standard(),
    {
        proof {
            reveal_strlit("idempotency-key");
        }
        let transient: bool = match self.outcome {
            Ok(status) => status.as_u16() == 429 || status.as_u16() == 503,
            Err(_) => false,
        };
        transient && (self.req.method.is_idempotent() || headers::contains(
            &self.req.headers,
            "idempotency-key",
        ))
    }
}

/// An attempt holds the request and the status or the error that came of it.
pub proof fn attempts_are_what_came(req: &Request, res: &Result<Response, Error>)
    ensures
        ReqRep::of(req, res).request() == *req,
        ReqRep::of(req, res).outcome() == match *res {
            Ok(response) => Ok(response.status),
            Err(err) => Err(err),
        },
{
}

/// A rule for which attempts to retry.
pub trait Classify: Send + Sync + 'static {
    /// Whether `classify` may answer `action`: anything, unless the
    /// implementation says more.
    open spec fn may_give(&self, req_rep: ReqRep<'_>, action: Action) -> bool {
        true
    }

    /// Classify an attempt.
    fn classify(&self, req_rep: ReqRep<'_>) -> (r: Action)
        ensures
            self.may_give(req_rep, r),
    ;
}

/// A rule given by a function.
pub struct ClassifyFn<F: Fn(ReqRep<'_>) -> Action>(F);

impl<F: Fn(ReqRep<'_>) -> Action> ClassifyFn<F> {
    #[verifier::type_invariant]
    spec fn callable(self) -> bool {
        forall|req_rep: ReqRep<'_>| #[trigger] call_requires(self.0, (req_rep,))
    }

    /// The function.
    pub closed spec fn func(self) -> F {
        self.0
    }

    /// The rule that `func` gives.
    pub fn new(func: F) -> (r: Self)
        requires
            forall|req_rep: ReqRep<'_>| #[trigger] call_requires(func, (req_rep,)),
        ensures
            r.func() == func,
    {
        ClassifyFn(func)
    }
}

impl<F: Fn(ReqRep<'_>) -> Action + Send + Sync + 'static> Classify for ClassifyFn<F> {
    open spec fn may_give(&self, req_rep: ReqRep<'_>, action: Action) -> bool {
        call_ensures(self.func(), (req_rep,), action)
    }

    fn classify(&self, req_rep: ReqRep<'_>) -> (r: Action) {
        proof {
            use_type_invariant(self);
        }
        (self.0)(req_rep)
    }
}

/// A rule given by a function answers what the function may return.
pub proof fn functions_set_the_rule<F: Fn(ReqRep<'_>) -> Action + Send + Sync + 'static>(
    rule: ClassifyFn<F>,
    req_rep: ReqRep<'_>,
)
    ensures
        forall|action: Action|
            #![trigger rule.may_give(req_rep, action)]
            #![trigger call_ensures(rule.func(), (req_rep,), action)]
            rule.may_give(req_rep, action) == call_ensures(rule.func(), (req_rep,), action),
{
}

/// The rule of a policy that was given none: nothing is retried.
#[derive(Clone, Copy, Debug)]
pub struct NoRule;

impl Classify for NoRule {
    open spec fn may_give(&self, req_rep: ReqRep<'_>, action: Action) -> bool {
        action == Action::Success
    }

    fn classify(&self, req_rep: ReqRep<'_>) -> (r: Action) {
        Action::Success
    }
}

/// One of two rules.
#[derive(Debug)]
pub enum Either<C, D> {
    /// A rule of the first type.
    Left(C),
    /// A rule of the second type.
    Right(D),
}

impl<C: Classify, D: Classify> Classify for Either<C, D> {
    open spec fn may_give(&self, req_rep: ReqRep<'_>, action: Action) -> bool {
        match *self {
            Either::Left(rule) => rule.may_give(req_rep, action),
            Either::Right(rule) => rule.may_give(req_rep, action),
        }
    }

    fn classify(&self, req_rep: ReqRep<'_>) -> (r: Action) {
        match self {
            Either::Left(rule) => rule.classify(req_rep),
            Either::Right(rule) => rule.classify(req_rep),
        }
    }
}

/// The rules of a policy, which retries what any of them calls retryable.
#[derive(Debug)]
pub enum Classifier<C> {
    /// Nothing is retryable.
    Never,
    /// What [`ReqRep::is_standard`] says is retryable.
    Standard,
    /// Responses with one of these status codes are retryable.
    StatusCodes(Vec<StatusCode>),
    /// A rule of the user's.
    Dyn(C),
    /// What any of these call retryable is, asked one after the other.
    Any(Vec<Classifier<C>>),
}

/// Whether the rules `all`, asked one after the other until one calls the
/// attempt retryable, may give `action`.
pub open spec fn any_may_give<C: Classify>(
    all: Seq<Classifier<C>>,
    req_rep: ReqRep<'_>,
    action: Action,
) -> bool
    decreases all, 1int,
{
    match action {
        Action::Success => forall|i: int|
            0 <= i < all.len() ==> (#[trigger] all[i]).may_give(req_rep, Action::Success),
        Action::Retryable => exists|i: int|
            {
                &&& 0 <= i < all.len()
                &&& (#[trigger] all[i]).may_give(req_rep, Action::Retryable)
                &&& forall|j: int|
                    0 <= j < i ==> (#[trigger] all[j]).may_give(req_rep, Action::Success)
            },
    }
}

impl<C> Classifier<C> {
    /// The rules, one by one.
    pub open spec fn rules(self) -> Seq<Classifier<C>> {
        match self {
            Classifier::Never => Seq::empty(),
            Classifier::Any(all) => all@,
            rule => seq![rule],
        }
    }

    /// These rules, and then those of `other`.
    pub fn or(self, other: Self) -> (r: Self)
        ensures
            r.rules() == self.rules() + other.rules(),
            self is Never ==> r == other,
            other is Never ==> r == self,
            !(self is Never) && !(other is Never) ==> r is Any,
    {
        match self {
            Classifier::Never => other,
            Classifier::Any(mut all) => match other {
                Classifier::Never => Classifier::Any(all),
                Classifier::Any(mut more) => {
                    all.append(&mut more);
                    Classifier::Any(all)
                },
                rule => {
                    all.push(rule);
                    Classifier::Any(all)
                },
            },
            first => match other {
                Classifier::Never => first,
                Classifier::Any(mut all) => {
                    all.insert(0, first);
                    Classifier::Any(all)
                },
                second => {
                    let mut all: Vec<Classifier<C>> = Vec::new();
                    all.push(first);
                    all.push(second);
                    Classifier::Any(all)
                },
            },
        }
    }
}

impl<C: Classify> Classifier<C> {
    /// Whether `classify` may answer `action`.
    pub open spec fn may_give(self, req_rep: ReqRep<'_>, action: Action) -> bool
        decreases self, 0int,
    {
        match self {
            Classifier::Never => action == Action::Success,
            Classifier::Standard => (action == Action::Retryable) == req_rep.is_standard(),
            Classifier::StatusCodes(statuses) => (action == Action::Retryable)
                == req_rep.has_status(statuses@),
            Classifier::Dyn(rule) => rule.may_give(req_rep, action),
            Classifier::Any(all) => any_may_give(all@, req_rep, action),
        }
    }

    /// Classify an attempt.
    pub fn classify(&self, req: &Request, res: &Result<Response, Error>) -> (r: Action)
        ensures
            self.may_give(ReqRep::of(req, res), r),
        decreases self,
    {
        let req_rep: ReqRep<'_> = ReqRep::new(req, res);
        match self {
            Classifier::Never => Action::Success,
            Classifier::Standard => if req_rep.is_standard_retry() {
                Action::Retryable
            } else {
                Action::Success
            },
            Classifier::StatusCodes(statuses) => if req_rep.is_status_code(statuses) {
                Action::Retryable
            } else {
                Action::Success
            },
            Classifier::Dyn(rule) => rule.classify(req_rep),
            Classifier::Any(all) => {
                for i in 0..all.len()
                    invariant
                        *self == Classifier::Any(*all),
                        req_rep == ReqRep::of(req, res),
                        forall|j: int|
                            0 <= j < i ==> (#[trigger] all@[j]).may_give(req_rep, Action::Success),
                {
                    proof {
                        let inner = self->Any_0@[i as int];
                        assert(decreases_to!(*self => inner));
                    }
                    match all[i].classify(req, res) {
                        Action::Retryable => return Action::Retryable,
                        Action::Success => {},
                    }
                }
                Action::Success
            },
        }
    }
}

/// Whether `wide` has the rules of `narrow`, with each rule of the user's as the
/// first of two kinds.
pub open spec fn is_widened<C, D>(narrow: Classifier<C>, wide: Classifier<Either<C, D>>) -> bool
    decreases narrow,
{
    match (narrow, wide) {
        (Classifier::Never, Classifier::Never) => true,
        (Classifier::Standard, Classifier::Standard) => true,
        (Classifier::StatusCodes(a), Classifier::StatusCodes(b)) => a@ == b@,
        (Classifier::Dyn(a), Classifier::Dyn(b)) => b == Either::<C, D>::Left(a),
        (Classifier::Any(a), Classifier::Any(b)) => {
            &&& a@.len() == b@.len()
            &&& forall|i: int| 0 <= i < a@.len() ==> is_widened(#[trigger] a@[i], b@[i])
        },
        _ => false,
    }
}

impl<C> Classifier<C> {
    /// The same rules, with each rule of the user's as the first of two kinds.
    pub fn widen<D>(self) -> (r: Classifier<Either<C, D>>)
        ensures
            is_widened(self, r),
        decreases self,
    {
        match self {
            Classifier::Never => Classifier::Never,
            Classifier::Standard => Classifier::Standard,
            Classifier::StatusCodes(statuses) => Classifier::StatusCodes(statuses),
            Classifier::Dyn(rule) => Classifier::Dyn(Either::Left(rule)),
            Classifier::Any(mut all) => {
                let ghost narrow = all@;
                let mut wide: Vec<Classifier<Either<C, D>>> = Vec::new();
                while all.len() > 0
                    invariant
                        self is Any,
                        self->Any_0@ == narrow,
                        wide@.len() <= narrow.len(),
                        all@ == narrow.skip(wide@.len() as int),
                        forall|i: int|
                            0 <= i < wide@.len() ==> is_widened(#[trigger] narrow[i], wide@[i]),
                    decreases all@.len(),
                {
                    let rule: Classifier<C> = all.remove(0);
                    proof {
                        let inner = self->Any_0@[wide@.len() as int];
                        assert(rule == inner);
                        assert(decreases_to!(self => inner));
                    }
                    wide.push(rule.widen());
                }
                Classifier::Any(wide)
            },
        }
    }
}

/// Widening changes no answer.
pub proof fn widened_rules_answer_alike<C: Classify, D: Classify>(
    narrow: Classifier<C>,
    wide: Classifier<Either<C, D>>,
    req_rep: ReqRep<'_>,
    action: Action,
)
    requires
        is_widened(narrow, wide),
    ensures
        narrow.may_give(req_rep, action) == wide.may_give(req_rep, action),
    decreases narrow,
{
    if narrow is Any {
        let a = narrow->Any_0@;
        let b = wide->Any_0@;
        assert forall|i: int|
            #![trigger a[i]]
            #![trigger b[i]]
            0 <= i < a.len() implies {
            &&& a[i].may_give(req_rep, Action::Success) == b[i].may_give(
                req_rep,
                Action::Success,
            )
            &&& a[i].may_give(req_rep, Action::Retryable) == b[i].may_give(
                req_rep,
                Action::Retryable,
            )
        } by {
            assert(decreases_to!(narrow => a[i]));
            widened_rules_answer_alike(a[i], b[i], req_rep, Action::Success);
            widened_rules_answer_alike(a[i], b[i], req_rep, Action::Retryable);
        }
        assert(any_may_give(a, req_rep, Action::Success) == any_may_give(
            b,
            req_rep,
            Action::Success,
        ));
        if any_may_give(a, req_rep, Action::Retryable) {
            let i = choose|i: int|
                {
                    &&& 0 <= i < a.len()
                    &&& (#[trigger] a[i]).may_give(req_rep, Action::Retryable)
                    &&& forall|j: int|
                        0 <= j < i ==> (#[trigger] a[j]).may_give(req_rep, Action::Success)
                };
            assert(b[i].may_give(req_rep, Action::Retryable));
        }
        if any_may_give(b, req_rep, Action::Retryable) {
            let i = choose|i: int|
                {
                    &&& 0 <= i < b.len()
                    &&& (#[trigger] b[i]).may_give(req_rep, Action::Retryable)
                    &&& forall|j: int|
                        0 <= j < i ==> (#[trigger] b[j]).may_give(req_rep, Action::Success)
                };
            assert(a[i].may_give(req_rep, Action::Retryable));
        }
    }
}

/// A classifier answers as its rules do, asked one after the other.
proof fn lemma_rules_answer<C: Classify>(
    classifier: Classifier<C>,
    req_rep: ReqRep<'_>,
    action: Action,
)
    ensures
        classifier.may_give(req_rep, action) == any_may_give(
            classifier.rules(),
            req_rep,
            action,
        ),
{
    if !(classifier is Never) && !(classifier is Any) {
        assert(classifier.rules()[0] == classifier);
    }
}

/// Two classifiers together retry what either of them retries: the second is
/// asked where the first finds nothing to retry.
pub proof fn or_adds_rules<C: Classify>(
    first: Classifier<C>,
    second: Classifier<C>,
    both: Classifier<C>,
    req_rep: ReqRep<'_>,
)
    requires
        both.rules() == first.rules() + second.rules(),
    ensures
        both.may_give(req_rep, Action::Success) <==> first.may_give(req_rep, Action::Success)
            && second.may_give(req_rep, Action::Success),
        both.may_give(req_rep, Action::Retryable) <==> first.may_give(req_rep, Action::Retryable)
            || (first.may_give(req_rep, Action::Success) && second.may_give(
            req_rep,
            Action::Retryable,
        )),
{
    let a = first.rules();
    let b = second.rules();
    let ab = both.rules();
    lemma_rules_answer(first, req_rep, Action::Success);
    lemma_rules_answer(second, req_rep, Action::Success);
    lemma_rules_answer(both, req_rep, Action::Success);
    lemma_rules_answer(first, req_rep, Action::Retryable);
    lemma_rules_answer(second, req_rep, Action::Retryable);
    lemma_rules_answer(both, req_rep, Action::Retryable);
    assert(forall|i: int| 0 <= i < a.len() ==> ab[i] == #[trigger] a[i]);
    assert(forall|i: int| 0 <= i < b.len() ==> ab[a.len() + i] == #[trigger] b[i]);
    if any_may_give(ab, req_rep, Action::Success) {
        assert forall|i: int| 0 <= i < a.len() implies (#[trigger] a[i]).may_give(
            req_rep,
            Action::Success,
        ) by {
            assert(ab[i].may_give(req_rep, Action::Success));
        }
        assert forall|i: int| 0 <= i < b.len() implies (#[trigger] b[i]).may_give(
            req_rep,
            Action::Success,
        ) by {
            assert(ab[a.len() + i].may_give(req_rep, Action::Success));
        }
    }
    if any_may_give(a, req_rep, Action::Success) && any_may_give(b, req_rep, Action::Success) {
        assert forall|i: int| 0 <= i < ab.len() implies (#[trigger] ab[i]).may_give(
            req_rep,
            Action::Success,
        ) by {
            if i < a.len() {
                assert(a[i].may_give(req_rep, Action::Success));
            } else {
                assert(b[i - a.len()].may_give(req_rep, Action::Success));
            }
        }
    }
    if any_may_give(ab, req_rep, Action::Retryable) {
        let i = choose|i: int|
            {
                &&& 0 <= i < ab.len()
                &&& (#[trigger] ab[i]).may_give(req_rep, Action::Retryable)
                &&& forall|j: int|
                    0 <= j < i ==> (#[trigger] ab[j]).may_give(req_rep, Action::Success)
            };
        if i < a.len() {
            assert(a[i].may_give(req_rep, Action::Retryable));
            assert forall|j: int| 0 <= j < i implies (#[trigger] a[j]).may_give(
                req_rep,
                Action::Success,
            ) by {
                assert(ab[j].may_give(req_rep, Action::Success));
            }
        } else {
            let k = i - a.len();
            assert(b[k].may_give(req_rep, Action::Retryable));
            assert forall|j: int| 0 <= j < k implies (#[trigger] b[j]).may_give(
                req_rep,
                Action::Success,
            ) by {
                assert(ab[a.len() + j].may_give(req_rep, Action::Success));
            }
            assert forall|j: int| 0 <= j < a.len() implies (#[trigger] a[j]).may_give(
                req_rep,
                Action::Success,
            ) by {
                assert(ab[j].may_give(req_rep, Action::Success));
            }
        }
    }
    if any_may_give(a, req_rep, Action::Retryable) {
        let i = choose|i: int|
            {
                &&& 0 <= i < a.len()
                &&& (#[trigger] a[i]).may_give(req_rep, Action::Retryable)
                &&& forall|j: int|
                    0 <= j < i ==> (#[trigger] a[j]).may_give(req_rep, Action::Success)
            };
        assert(ab[i].may_give(req_rep, Action::Retryable));
        assert forall|j: int| 0 <= j < i implies (#[trigger] ab[j]).may_give(
            req_rep,
            Action::Success,
        ) by {
            assert(a[j].may_give(req_rep, Action::Success));
        }
    }
    if any_may_give(a, req_rep, Action::Success) && any_may_give(b, req_rep, Action::Retryable) {
        let k = choose|i: int|
            {
                &&& 0 <= i < b.len()
                &&& (#[trigger] b[i]).may_give(req_rep, Action::Retryable)
                &&& forall|j: int|
                    0 <= j < i ==> (#[trigger] b[j]).may_give(req_rep, Action::Success)
            };
        assert(ab[a.len() + k].may_give(req_rep, Action::Retryable));
        assert forall|j: int| 0 <= j < a.len() + k implies (#[trigger] ab[j]).may_give(
            req_rep,
            Action::Success,
        ) by {
            if j < a.len() {
                assert(a[j].may_give(req_rep, Action::Success));
            } else {
                assert(b[j - a.len()].may_give(req_rep, Action::Success));
            }
        }
    }
}

/// A status is among others if it is one of them.
pub proof fn statuses_are_found(req_rep: ReqRep<'_>, statuses: Seq<StatusCode>)
    ensures
        req_rep.has_status(statuses) <==> req_rep.outcome() is Ok && exists|i: int|
            0 <= i < statuses.len() && (#[trigger] statuses[i]) == req_rep.outcome()->Ok_0,
{
    if req_rep.has_status(statuses) {
        let i = choose|i: int| 0 <= i < statuses.len() && statuses[i] == req_rep.outcome()->Ok_0;
        assert(statuses[i] == req_rep.outcome()->Ok_0);
    }
}

/// The standard rule retries just a response with status 429 or 503 to a request whose
/// method is idempotent or that has an idempotency key.
pub proof fn standard_retries_what_may_be_repeated(req_rep: ReqRep<'_>)
    ensures
        req_rep.is_standard() <==> {
            &&& req_rep.outcome() is Ok
            &&& req_rep.outcome()->Ok_0@ == 429 || req_rep.outcome()->Ok_0@ == 503
            &&& {
                let name = req_rep.request().method@;
                ||| name == "GET"@ || name == "HEAD"@ || name == "OPTIONS"@ || name == "TRACE"@
                ||| name == "QUERY"@ || name == "PUT"@ || name == "DELETE"@
                ||| exists|i: int|
                    0 <= i < req_rep.request().fields().len() && (
                    #[trigger] req_rep.request().fields()[i]).0 == "idempotency-key"@
            }
        },
{
    headers::the_first_field_counts(req_rep.request().fields(), "idempotency-key"@);
}

} // verus!
