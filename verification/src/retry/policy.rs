//! The decision to retry.

use crate::error::{Error, Origin};
use crate::evidence;
use crate::headers;
use crate::message::{Request, Response};
use crate::retry::backoff::{Backoff, Schedule};
use crate::retry::bucket;
use crate::retry::budget::{Budgets, Deposit, Payment, Refusal};
use crate::retry::classify::{Action, Classifier, Classify, ReqRep};
use crate::retry::retry_after;
use crate::retry::scope::{Scope, Scoped};
use crate::time;
use crate::time::{Deadline, Duration, WallClock};
use std::sync::Arc;
use vstd::prelude::*;

verus! {

/// The HTTP/2 error code of a graceful shutdown.
pub const NO_ERROR: u32 = 0;

/// The HTTP/2 error code of a stream that was refused before any processing.
pub const REFUSED_STREAM: u32 = 7;

/// Whether the error says that the server did not process the request.
///
/// That is for the third of the underlying errors to say, below the client's and
/// the connection's: the peer shut the HTTP/2 connection down gracefully, the
/// peer refused the HTTP/2 stream, or the HTTP/3 connection timed out.
pub open spec fn is_unprocessed(err: Error) -> bool {
    &&& err.sources@.len() >= 3
    &&& match err.sources@[2].origin {
        Origin::Http3Connection => err.sources@[2].message@ == "timeout"@,
        Origin::Http2(failure) => {
            ||| failure.go_away && failure.remote && failure.reason == Some(NO_ERROR)
            ||| failure.reset && failure.remote && failure.reason == Some(REFUSED_STREAM)
        },
        Origin::Other => false,
    }
}

fn has_reason(reason: Option<u32>, code: u32) -> (r: bool)
    ensures
        r == (reason == Some(code)),
{
    match reason {
        Some(reason) => reason == code,
        None => false,
    }
}

/// Whether the error says that the server did not process the request.
pub fn is_retryable_error(err: &Error) -> (r: bool)
    ensures
        r == is_unprocessed(*err),
{
    if err.sources.len() < 3 {
        return false;
    }
    match err.sources[2].origin {
        Origin::Http3Connection => err.sources[2].message == "timeout".to_string(),
        Origin::Http2(failure) => {
            // They sent us a graceful shutdown, try with a new connection!
            if failure.go_away && failure.remote && has_reason(failure.reason, NO_ERROR) {
                return true;
            }
            // REFUSED_STREAM was sent from the server, which is safe to retry.
            failure.reset && failure.remote && has_reason(failure.reason, REFUSED_STREAM)
        },
        Origin::Other => false,
    }
}

/// Why a request is retried.
#[derive(Clone, Copy, Debug, PartialEq, Eq, Structural)]
pub enum RetryKind {
    /// A classifier calls for it.
    Application,
    /// The request was not processed.
    TransientTransport,
}

/// The wait before the next attempt.
#[derive(Clone, Copy, Debug, PartialEq, Eq, Structural)]
pub enum Delay {
    /// None.
    Ready,
    /// This long.
    Sleep(Duration),
}

impl Delay {
    /// How many nanoseconds the wait is.
    pub open spec fn nanos(self) -> nat {
        match self {
            Delay::Ready => 0,
            Delay::Sleep(duration) => duration@,
        }
    }

    /// The wait of that length.
    pub open spec fn of(duration: Duration) -> Delay {
        if duration@ == 0 {
            Delay::Ready
        } else {
            Delay::Sleep(duration)
        }
    }

    /// The wait of that length.
    pub fn new(duration: Duration) -> (r: Delay)
        ensures
            r == Delay::of(duration),
    {
        if duration.is_zero() {
            Delay::Ready
        } else {
            Delay::Sleep(duration)
        }
    }
}

/// One retry: how long to wait before it, and what paid for it.
pub struct Retry {
    /// The wait.
    pub delay: Delay,
    /// The payment, where one was due.
    pub payment: Option<Payment>,
}

/// What to do about a request that came back.
pub enum Verdict {
    /// Return what came back, which the budget has counted, where there is one.
    Settle(Option<Deposit>),
    /// Return what came back, for which the budget would not pay, where it was
    /// asked.
    GiveUp(Option<Refusal>),
    /// Send it again.
    Again(Retry),
}

impl Verdict {
    /// The retry, if there is to be one.
    pub open spec fn retry(self) -> Option<Retry> {
        match self {
            Verdict::Again(retry) => Some(retry),
            _ => None,
        }
    }
}

/// The longer of the backoff and what the server asked for.
pub open spec fn wanted_delay(backoff: nat, asked: Option<nat>) -> nat {
    match asked {
        Some(asked) => if backoff < asked {
            asked
        } else {
            backoff
        },
        None => backoff,
    }
}

/// What the server asked for in that response, if the clock reads `now`.
pub open spec fn asked_of(res: Option<Response>, now: WallClock) -> Option<nat> {
    match res {
        Some(res) => retry_after::wait_asked(res.fields(), now),
        None => None,
    }
}

/// Whether there is time for a delay: there always is for none at all, or
/// without a deadline; otherwise the deadline must not have passed, and the
/// delay must not exceed what is left.
pub open spec fn has_time(delay: nat, left: Option<Option<Duration>>) -> bool {
    delay == 0 || match left {
        None => true,
        Some(None) => false,
        Some(Some(left)) => delay <= left@,
    }
}

/// Whether `left` may be what is left of the time for a request with that
/// deadline.
pub open spec fn may_be_left(deadline: Option<Deadline>, left: Option<Option<Duration>>) -> bool {
    match deadline {
        Some(deadline) => left is Some && deadline.may_have_left(left->0),
        None => left is None,
    }
}

/// Whether `r` is the delay to make, given the backoff, what the server asked
/// for and the time that is left: `None` if there is no time for it.
pub open spec fn is_delay_within(
    backoff: nat,
    asked: Option<nat>,
    left: Option<Option<Duration>>,
    r: Option<Duration>,
) -> bool {
    &&& r is Some <==> has_time(wanted_delay(backoff, asked), left)
    &&& r is Some ==> r->0@ == wanted_delay(backoff, asked)
}

/// The number of nanoseconds in a span, if there is one.
pub open spec fn span_view(span: Option<Duration>) -> Option<nat> {
    match span {
        Some(span) => Some(span@),
        None => None,
    }
}

/// How long to wait before the next attempt, or `None` if waiting that long
/// would outlive the request anyway.
///
/// `left` is `None` for a request without a deadline, and `Some(None)` if the
/// deadline has passed.
pub fn delay_within(
    backoff: Duration,
    asked: Option<Duration>,
    left: Option<Option<Duration>>,
) -> (r: Option<Duration>)
    ensures
        is_delay_within(backoff@, span_view(asked), left, r),
{
    // A server that told us when to come back knows better than we do, but
    // never let it talk us into retrying sooner than the backoff.
    let delay: Duration = match asked {
        Some(asked) => backoff.longer(asked),
        None => backoff,
    };
    if delay.is_zero() {
        return Some(delay);
    }
    // Sleeping past the deadline would just turn a real response into a timeout
    // error. Give up now and let the caller see what we have.
    match left {
        None => Some(delay),
        Some(Some(left)) => if delay.as_nanos() <= left.as_nanos() {
            Some(delay)
        } else {
            None
        },
        Some(None) => None,
    }
}

/// What is next for a request that came back.
#[derive(Clone, Copy, Debug, PartialEq, Eq, Structural)]
pub enum Plan {
    /// Count it in the budget, and return what came back.
    Settle,
    /// Return what came back.
    GiveUp,
    /// Send it again, if the budget can pay for that and there is time.
    Pay,
    /// Send it again at once.
    Resend,
}

/// A retry policy, for one request: what to retry, and how often it was.
///
/// Clones share their budgets, and count for themselves.
pub struct Policy<C, S, W> {
    backoff: Arc<Backoff<W>>,
    budget: Option<Budgets>,
    classifier: Arc<Classifier<C>>,
    // Safe transport retries are immediate, so they don't advance exponential
    // backoff.
    application_retry_cnt: u32,
    max_retries_per_request: u32,
    // All retry kinds share this limit.
    total_retry_cnt: u32,
    retry_transient_transport_errors: bool,
    scope: Arc<Scoped<S>>,
}

impl<C, S, W> Clone for Policy<C, S, W> {
    fn clone(&self) -> (r: Self)
        ensures
            r == *self,
    {
        proof {
            use_type_invariant(self);
        }
        Policy {
            backoff: self.backoff.clone(),
            budget: match &self.budget {
                Some(budget) => Some(budget.clone()),
                None => None,
            },
            classifier: self.classifier.clone(),
            application_retry_cnt: self.application_retry_cnt,
            max_retries_per_request: self.max_retries_per_request,
            total_retry_cnt: self.total_retry_cnt,
            retry_transient_transport_errors: self.retry_transient_transport_errors,
            scope: self.scope.clone(),
        }
    }
}

impl<C, S, W> Policy<C, S, W> {
    #[verifier::type_invariant]
    spec fn counts(self) -> bool {
        self.application_retry_cnt <= self.total_retry_cnt <= self.max_retries_per_request
    }

    /// How the waits come about.
    pub closed spec fn backoff(self) -> Backoff<W> {
        *self.backoff
    }

    /// The budgets, if there are any.
    pub closed spec fn budget(self) -> Option<Budgets> {
        self.budget
    }

    /// The rules.
    pub closed spec fn classifier(self) -> Classifier<C> {
        *self.classifier
    }

    /// The requests that the policy applies to.
    pub closed spec fn scope(self) -> Scoped<S> {
        *self.scope
    }

    /// Whether requests that were not processed are sent again.
    pub closed spec fn resends(self) -> bool {
        self.retry_transient_transport_errors
    }

    /// How often a request is sent again at most.
    pub closed spec fn max_retries(self) -> u32 {
        self.max_retries_per_request
    }

    /// How often the request was sent again.
    pub closed spec fn total_retries(self) -> u32 {
        self.total_retry_cnt
    }

    /// How often the request was sent again because a classifier called for it.
    pub closed spec fn application_retries(self) -> u32 {
        self.application_retry_cnt
    }

    /// The number that the backoff goes by. A schedule goes by all the retries
    /// made. The exponential backoff goes by those that a classifier called for,
    /// as the others did not wait.
    pub open spec fn backoff_step(self) -> u32 {
        match self.backoff() {
            Backoff::Exponential(_) => self.application_retries(),
            Backoff::Fn(_) => self.total_retries(),
        }
    }

    /// Whether `other` has the same settings.
    pub open spec fn has_settings_of(self, other: Self) -> bool {
        &&& self.backoff() == other.backoff()
        &&& self.budget() == other.budget()
        &&& self.classifier() == other.classifier()
        &&& self.scope() == other.scope()
        &&& self.resends() == other.resends()
        &&& self.max_retries() == other.max_retries()
    }

    /// Whether this is the policy `before` after one retry of that kind.
    pub open spec fn is_after_retry(self, before: Self, kind: RetryKind) -> bool {
        &&& self.has_settings_of(before)
        &&& before.total_retries() < before.max_retries()
        &&& self.total_retries() == before.total_retries() + 1
        &&& self.application_retries() == match kind {
            RetryKind::Application => before.application_retries() + 1,
            RetryKind::TransientTransport => before.application_retries() as int,
        }
    }

    /// The policy with those settings, before the first attempt.
    pub(crate) fn new(
        backoff: Backoff<W>,
        budget: Option<Budgets>,
        classifier: Classifier<C>,
        max_retries_per_request: u32,
        retry_transient_transport_errors: bool,
        scope: Scoped<S>,
    ) -> (r: Self)
        ensures
            r.backoff() == backoff,
            r.budget() == budget,
            r.classifier() == classifier,
            r.max_retries() == max_retries_per_request,
            r.resends() == retry_transient_transport_errors,
            r.scope() == scope,
            r.total_retries() == 0,
            r.application_retries() == 0,
    {
        Policy {
            backoff: Arc::new(backoff),
            budget,
            classifier: Arc::new(classifier),
            application_retry_cnt: 0,
            max_retries_per_request,
            total_retry_cnt: 0,
            retry_transient_transport_errors,
            scope: Arc::new(scope),
        }
    }

    /// What is next for a request that is to be retried for that reason, or not
    /// at all.
    pub open spec fn plan_for(self, kind: Option<RetryKind>) -> Plan {
        match kind {
            None => Plan::Settle,
            Some(kind) => if self.total_retries() >= self.max_retries() {
                Plan::GiveUp
            } else {
                match kind {
                    RetryKind::Application => Plan::Pay,
                    RetryKind::TransientTransport => Plan::Resend,
                }
            },
        }
    }

    /// What is next for a request that is to be retried for that reason, or not
    /// at all.
    pub fn plan(&self, kind: Option<RetryKind>) -> (r: Plan)
        ensures
            r == self.plan_for(kind),
    {
        match kind {
            None => Plan::Settle,
            Some(kind) => {
                // Checked before sleeping, and before spending budget, since the
                // request isn't cloned until after the delay.
                if self.total_retry_cnt >= self.max_retries_per_request {
                    return Plan::GiveUp;
                }
                match kind {
                    RetryKind::Application => Plan::Pay,
                    RetryKind::TransientTransport => Plan::Resend,
                }
            },
        }
    }

    /// Count a retry of that kind.
    pub fn count(&mut self, kind: RetryKind)
        requires
            old(self).total_retries() < old(self).max_retries(),
        ensures
            final(self).is_after_retry(*old(self), kind),
    {
        proof {
            use_type_invariant(&*self);
        }
        // The total first, so that it is never the smaller of the two.
        self.total_retry_cnt = self.total_retry_cnt + 1;
        match kind {
            RetryKind::Application => {
                self.application_retry_cnt = self.application_retry_cnt + 1;
            },
            RetryKind::TransientTransport => {},
        }
    }

    /// Grant a retry that a classifier calls for, unless the budget refused to pay
    /// for it. `answer` is what the budget said, if there is one.
    pub fn grant(&mut self, delay: Duration, answer: Option<Result<Payment, Refusal>>) -> (r:
        Verdict)
        requires
            old(self).total_retries() < old(self).max_retries(),
        ensures
            match answer {
                Some(Err(refusal)) => {
                    &&& r == Verdict::GiveUp(Some(refusal))
                    &&& *final(self) == *old(self)
                },
                Some(Ok(payment)) => {
                    &&& r == Verdict::Again(
                        (Retry { delay: Delay::of(delay), payment: Some(payment) }),
                    )
                    &&& final(self).is_after_retry(*old(self), RetryKind::Application)
                },
                None => {
                    &&& r == Verdict::Again((Retry { delay: Delay::of(delay), payment: None }))
                    &&& final(self).is_after_retry(*old(self), RetryKind::Application)
                },
            },
    {
        let payment: Option<Payment> = match answer {
            Some(Err(refusal)) => return Verdict::GiveUp(Some(refusal)),
            Some(Ok(payment)) => Some(payment),
            None => None,
        };
        self.count(RetryKind::Application);
        Verdict::Again(Retry { delay: Delay::new(delay), payment })
    }

    /// Whether `r` is the copy of the request to keep, if the policy applies to
    /// it or not.
    pub open spec fn is_clone(self, req: Request, applies: bool, r: Option<Request>) -> bool {
        &&& r is Some <==> applies && self.total_retries() < self.max_retries()
            && req.body is Reusable
        &&& r is Some ==> r->0.is_same(req)
    }

    /// A copy of the request to send again later, if the policy applies to it,
    /// there are retries left, and its body is not a stream.
    pub fn clone_applying(&self, req: &Request, applies: bool) -> (r: Option<Request>)
        ensures
            self.is_clone(*req, applies, r),
    {
        if !applies {
            return None;
        }
        if self.total_retry_cnt >= self.max_retries_per_request {
            return None;
        }
        req.try_clone()
    }
}

impl<C: Classify, S: Scope, W: Schedule> Policy<C, S, W> {
    /// Whether `delay` may answer `r`: some backoff, reading of the clock and
    /// time left make it the delay to wait.
    pub open spec fn may_delay(
        self,
        req: Request,
        res: Option<Response>,
        r: Option<Duration>,
    ) -> bool {
        exists|backoff: Duration, now: WallClock, left: Option<Option<Duration>>|
            {
                &&& self.backoff().may_delay(self.backoff_step(), backoff)
                &&& may_be_left(req.deadline(), left)
                &&& res is Some ==> time::is_now(now)
                &&& #[trigger] is_delay_within(backoff@, asked_of(res, now), left, r)
            }
    }

    /// Whether `delay` may answer with a delay.
    pub open spec fn may_have_time(self, req: Request, res: Option<Response>) -> bool {
        exists|span: Duration| #[trigger] self.may_delay(req, res, Some(span))
    }

    /// How long to wait before the next attempt, or `None` if waiting that long
    /// would outlive the request anyway.
    pub fn delay(&self, req: &Request, res: Option<&Response>) -> (r: Option<Duration>)
        ensures
            self.may_delay(
                *req,
                match res {
                    Some(res) => Some(*res),
                    None => None,
                },
                r,
            ),
            req.deadline() is None ==> r is Some,
    {
        let ghost response: Option<Response> = match res {
            Some(res) => Some(*res),
            None => None,
        };
        let step: u32 = match &*self.backoff {
            Backoff::Exponential(_) => self.application_retry_cnt,
            Backoff::Fn(_) => self.total_retry_cnt,
        };
        let backoff: Duration = self.backoff.delay(step);
        let asked: Option<Duration> = match res {
            Some(res) => retry_after::parse(&res.headers),
            None => None,
        };
        let left: Option<Option<Duration>> = match req.get_deadline() {
            Some(deadline) => Some(deadline.time_left()),
            None => None,
        };
        let r: Option<Duration> = delay_within(backoff, asked, left);
        proof {
            let now = choose|now: WallClock|
                {
                    &&& #[trigger] asked_of(response, now) == span_view(asked)
                    &&& res is Some ==> time::is_now(now)
                };
            assert(asked_of(response, now) == span_view(asked) && (res is Some ==> time::is_now(
                now,
            ))) by {
                if res is Some {
                    let read = choose|now: WallClock|
                        {
                            &&& time::is_now(now)
                            &&& asked is Some <==> (#[trigger] retry_after::wait_asked(
                                response->0.fields(),
                                now,
                            )) is Some
                            &&& asked is Some ==> asked->0@ == retry_after::wait_asked(
                                response->0.fields(),
                                now,
                            )->0
                        };
                    assert(asked_of(response, read) == span_view(asked));
                } else {
                    assert(asked_of(response, WallClock::After(0)) == span_view(asked));
                }
            }
            assert(is_delay_within(backoff@, asked_of(response, now), left, r));
        }
        r
    }

    /// Whether the request failed without being processed, and the policy sends
    /// such requests again.
    pub open spec fn is_resend(self, result: Result<Response, Error>) -> bool {
        self.resends() && result is Err && is_unprocessed(result->Err_0)
    }

    /// Whether `retry_kind` may answer `kind`.
    pub open spec fn may_be_kind(
        self,
        req: &Request,
        result: &Result<Response, Error>,
        kind: Option<RetryKind>,
    ) -> bool {
        if self.is_resend(*result) {
            kind == Some(RetryKind::TransientTransport)
        } else {
            match kind {
                Some(RetryKind::Application) => self.classifier().may_give(
                    ReqRep::of(req, result),
                    Action::Retryable,
                ),
                Some(RetryKind::TransientTransport) => false,
                None => self.classifier().may_give(ReqRep::of(req, result), Action::Success),
            }
        }
    }

    /// Why the request is to be retried, if it is.
    pub fn retry_kind(&self, req: &Request, result: &Result<Response, Error>) -> (r: Option<
        RetryKind,
    >)
        ensures
            self.may_be_kind(req, result, r),
    {
        if self.retry_transient_transport_errors {
            match result {
                Err(err) => {
                    if is_retryable_error(err) {
                        return Some(RetryKind::TransientTransport);
                    }
                },
                Ok(_) => {},
            }
        }
        match self.classifier.classify(req, result) {
            Action::Retryable => Some(RetryKind::Application),
            Action::Success => None,
        }
    }

    /// Whether `payment` is what a retry of the request needs: one from the budget
    /// of its host, if there are budgets, and none if not.
    pub open spec fn is_paid(self, req: Request, payment: Option<Payment>) -> bool {
        match self.budget() {
            Some(budgets) => payment is Some && budgets.is_for(req, payment->0.budget())
                && payment->0.is_from(payment->0.budget()),
            None => payment is None,
        }
    }

    /// Whether `refusal` comes from the budget of the host that the request is sent
    /// to.
    pub open spec fn is_refused(self, req: Request, refusal: Refusal) -> bool {
        &&& self.budget() is Some
        &&& self.budget()->0.is_for(req, refusal.budget())
        &&& refusal.is_from(refusal.budget())
    }

    /// Whether `deposit` is what a request that is not retried leaves: one with
    /// the budget of its host, if there are budgets, and none if not.
    pub open spec fn is_counted(self, req: Request, deposit: Option<Deposit>) -> bool {
        match self.budget() {
            Some(budgets) => deposit is Some && budgets.is_for(req, deposit->0.budget())
                && deposit->0.is_from(deposit->0.budget()),
            None => deposit is None,
        }
    }

    /// Whether `decide` may answer `verdict` and leave the policy as `after`, for a
    /// request that is to be retried for that reason, or not at all.
    pub open spec fn may_answer(
        self,
        kind: Option<RetryKind>,
        req: Request,
        result: Result<Response, Error>,
        after: Self,
        verdict: Verdict,
    ) -> bool {
        let res = match result {
            Ok(res) => Some(res),
            Err(_) => None,
        };
        match (self.plan_for(kind), verdict) {
            (Plan::Settle, Verdict::Settle(deposit)) => {
                &&& self.is_counted(req, deposit)
                &&& after == self
            },
            (Plan::GiveUp, Verdict::GiveUp(refusal)) => refusal is None && after == self,
            (Plan::Resend, Verdict::Again(retry)) => {
                &&& retry.delay is Ready
                &&& retry.payment is None
                &&& after.is_after_retry(self, RetryKind::TransientTransport)
            },
            (Plan::Pay, Verdict::Again(retry)) => {
                &&& after.is_after_retry(self, RetryKind::Application)
                &&& self.is_paid(req, retry.payment)
                &&& exists|span: Duration|
                    self.may_delay(req, res, Some(span)) && retry.delay == #[trigger] Delay::of(span)
            },
            (Plan::Pay, Verdict::GiveUp(refusal)) => {
                &&& after == self
                &&& match refusal {
                    Some(refusal) => {
                        &&& self.is_refused(req, refusal)
                        &&& self.may_have_time(req, res)
                    },
                    None => self.may_delay(req, res, None),
                }
            },
            _ => false,
        }
    }

    /// Whether `decide` may answer `verdict` and leave the policy as `after`.
    pub open spec fn may_decide(
        self,
        req: &Request,
        result: &Result<Response, Error>,
        after: Self,
        verdict: Verdict,
    ) -> bool {
        exists|kind: Option<RetryKind>| #[trigger]
            self.may_be_kind(req, result, kind) && self.may_answer(
                kind,
                *req,
                *result,
                after,
                verdict,
            )
    }

    /// Decide what to do about a request that came back with `result`: send it
    /// again after a delay, or return what came back.
    ///
    /// A request that is not to be retried pays into the budget of its host. One
    /// that a classifier wants retried is paid for from that budget, unless there
    /// is no time to wait. It is given up only for want of time, or because that
    /// budget refused. When the budget does depends on the time and on every other
    /// request to that host, and is left open.
    pub fn decide(&mut self, req: &Request, result: &Result<Response, Error>) -> (r: Verdict)
        ensures
            old(self).may_decide(req, result, *final(self), r),
    {
        let kind: Option<RetryKind> = self.retry_kind(req, result);
        assert(old(self).may_be_kind(req, result, kind));
        match self.plan(kind) {
            Plan::Settle => {
                let deposit: Option<Deposit> = match &self.budget {
                    Some(budget) => Some(budget.get(req).deposit()),
                    None => None,
                };
                Verdict::Settle(deposit)
            },
            Plan::GiveUp => Verdict::GiveUp(None),
            Plan::Resend => {
                self.count(RetryKind::TransientTransport);
                Verdict::Again(Retry { delay: Delay::Ready, payment: None })
            },
            Plan::Pay => {
                let response: Option<&Response> = match result {
                    Ok(response) => Some(response),
                    Err(_) => None,
                };
                match self.delay(req, response) {
                    Some(delay) => {
                        let answer: Option<Result<Payment, Refusal>> = match &self.budget {
                            Some(budget) => Some(budget.get(req).withdraw()),
                            None => None,
                        };
                        self.grant(delay, answer)
                    },
                    None => Verdict::GiveUp(None),
                }
            },
        }
    }

    /// The retry that is to be made of a request that came back with `result`, if
    /// any.
    pub fn retry(&mut self, req: &Request, result: &Result<Response, Error>) -> (r: Option<Retry>)
        ensures
            exists|verdict: Verdict| #[trigger]
                old(self).may_decide(req, result, *final(self), verdict) && r == verdict.retry(),
    {
        let verdict: Verdict = self.decide(req, result);
        let ghost decided = verdict;
        assert(old(self).may_decide(req, result, *self, decided));
        match verdict {
            Verdict::Again(retry) => Some(retry),
            _ => None,
        }
    }

    /// Whether `clone_request` may answer `r`.
    pub open spec fn may_clone(self, req: Request, r: Option<Request>) -> bool {
        exists|applies: bool| #[trigger]
            self.scope().may_say(req, applies) && self.is_clone(req, applies, r)
    }

    /// A copy of the request to send again later, if the policy applies to it,
    /// there are retries left, and its body is not a stream.
    pub fn clone_request(&self, req: &Request) -> (r: Option<Request>)
        ensures
            self.may_clone(*req, r),
    {
        let applies: bool = self.scope.applies_to(req);
        assert(self.scope().may_say(*req, applies));
        self.clone_applying(req, applies)
    }
}

/// Whether `states` is a policy after each of the retries `kinds` of one request.
pub open spec fn is_run<C, S, W>(states: Seq<Policy<C, S, W>>, kinds: Seq<RetryKind>) -> bool {
    &&& states.len() == kinds.len() + 1
    &&& forall|i: int|
        0 <= i < kinds.len() ==> (#[trigger] states[i + 1]).is_after_retry(states[i], kinds[i])
}

/// How many of the retries `kinds` a classifier called for.
pub open spec fn application_count(kinds: Seq<RetryKind>) -> nat {
    kinds.filter(|kind: RetryKind| kind is Application).len()
}

/// However often a request comes back, it is sent again at most as often as the
/// policy allows, and retries of all kinds count towards that. The settings
/// stay.
pub proof fn retries_are_limited<C, S, W>(states: Seq<Policy<C, S, W>>, kinds: Seq<RetryKind>)
    requires
        is_run(states, kinds),
        states[0].total_retries() <= states[0].max_retries(),
    ensures
        states.last().has_settings_of(states[0]),
        states.last().total_retries() == states[0].total_retries() + kinds.len(),
        states[0].total_retries() + kinds.len() <= states[0].max_retries(),
    decreases kinds.len(),
{
    if kinds.len() > 0 {
        let n = kinds.len() as int;
        assert forall|i: int| 0 <= i < n - 1 implies (#[trigger] states.drop_last()[i
            + 1]).is_after_retry(states.drop_last()[i], kinds.drop_last()[i]) by {
            assert(states[i + 1].is_after_retry(states[i], kinds[i]));
        }
        retries_are_limited(states.drop_last(), kinds.drop_last());
        assert(states[(n - 1) + 1].is_after_retry(states[n - 1], kinds[n - 1]));
    }
}

/// The exponential backoff goes by the retries that a classifier called for:
/// requests that were sent again because they were not processed don't advance
/// it.
pub proof fn backoff_counts_application_retries<C, S, W>(
    states: Seq<Policy<C, S, W>>,
    kinds: Seq<RetryKind>,
)
    requires
        is_run(states, kinds),
    ensures
        states.last().application_retries() == states[0].application_retries() + application_count(
            kinds,
        ),
        states.last().backoff() == states[0].backoff(),
        states[0].backoff() is Exponential ==> states.last().backoff_step()
            == states[0].backoff_step() + application_count(kinds),
    decreases kinds.len(),
{
    let called_for = |kind: RetryKind| kind is Application;
    reveal(Seq::filter);
    if kinds.len() > 0 {
        let n = kinds.len() as int;
        assert forall|i: int| 0 <= i < n - 1 implies (#[trigger] states.drop_last()[i
            + 1]).is_after_retry(states.drop_last()[i], kinds.drop_last()[i]) by {
            assert(states[i + 1].is_after_retry(states[i], kinds[i]));
        }
        backoff_counts_application_retries(states.drop_last(), kinds.drop_last());
        assert(states[(n - 1) + 1].is_after_retry(states[n - 1], kinds[n - 1]));
        assert(kinds.filter(called_for) == if kinds.last() is Application {
            kinds.drop_last().filter(called_for).push(kinds.last())
        } else {
            kinds.drop_last().filter(called_for)
        });
    }
}

/// A schedule is asked with the number of retries already made, of whatever kind,
/// starting at zero.
pub proof fn schedules_count_every_retry<C, S, W>(
    states: Seq<Policy<C, S, W>>,
    kinds: Seq<RetryKind>,
)
    requires
        is_run(states, kinds),
        states[0].backoff() is Fn,
        states[0].total_retries() == 0,
    ensures
        states.last().backoff_step() == kinds.len(),
{
    retries_are_limited(states, kinds);
}

/// A request that was not processed is sent again at once, and the wait that an
/// exponential backoff makes next is the one that it would have made before.
pub proof fn unprocessed_requests_are_sent_at_once<C: Classify, S: Scope, W: Schedule>(
    before: Policy<C, S, W>,
    req: Request,
    result: Result<Response, Error>,
    after: Policy<C, S, W>,
    verdict: Verdict,
    delay: Duration,
)
    requires
        before.is_resend(result),
        before.may_answer(Some(RetryKind::TransientTransport), req, result, after, verdict),
        before.total_retries() < before.max_retries(),
    ensures
        verdict is Again,
        verdict->Again_0.delay is Ready,
        before.backoff() is Exponential ==> after.backoff().may_delay(after.backoff_step(), delay)
            == before.backoff().may_delay(before.backoff_step(), delay),
{
}

/// Once the limit is reached, nothing is retried, and no copies are kept.
pub proof fn limit_ends_retries<C: Classify, S: Scope, W: Schedule>(
    policy: Policy<C, S, W>,
    kind: Option<RetryKind>,
    req: Request,
    result: Result<Response, Error>,
    after: Policy<C, S, W>,
    verdict: Verdict,
    copy: Option<Request>,
)
    requires
        policy.total_retries() >= policy.max_retries(),
        policy.may_answer(kind, req, result, after, verdict),
        policy.may_clone(req, copy),
    ensures
        verdict.retry() is None,
        after == policy,
        copy is None,
{
}

/// With a budget, every retry that a classifier calls for is paid for from the
/// bucket of the host that the request is sent to, and from no other.
pub proof fn hosts_pay_for_their_retries<C: Classify, S: Scope, W: Schedule>(
    policy: Policy<C, S, W>,
    req: Request,
    result: Result<Response, Error>,
    after: Policy<C, S, W>,
    verdict: Verdict,
)
    requires
        policy.may_answer(Some(RetryKind::Application), req, result, after, verdict),
        policy.budget() is Some,
        verdict is Again,
    ensures
        verdict->Again_0.payment is Some,
        verdict->Again_0.payment->0.answer().paid(),
        bucket::budget_host(verdict->Again_0.payment->0.answer().bucket())
            == req.uri.authority_or_empty(),
{
}

/// Below the limit, a request that a classifier wants retried is retried, unless
/// there is no time to wait, or the budget of its host refuses to pay.
pub proof fn retryable_requests_are_retried<C: Classify, S: Scope, W: Schedule>(
    policy: Policy<C, S, W>,
    req: Request,
    result: Result<Response, Error>,
    after: Policy<C, S, W>,
    verdict: Verdict,
)
    requires
        policy.may_answer(Some(RetryKind::Application), req, result, after, verdict),
        policy.total_retries() < policy.max_retries(),
    ensures
        verdict is Again || verdict is GiveUp,
        verdict is GiveUp && policy.budget() is None ==> req.deadline() is Some,
        verdict is GiveUp && req.deadline() is None ==> {
            &&& verdict->GiveUp_0 is Some
            &&& !verdict->GiveUp_0->0.answer().paid()
            &&& bucket::budget_host(verdict->GiveUp_0->0.answer().bucket())
                == req.uri.authority_or_empty()
        },
{
}

/// A request that is not to be retried is paid into the bucket of the host that it
/// is sent to, if there is a budget.
pub proof fn settled_requests_are_counted<C: Classify, S: Scope, W: Schedule>(
    policy: Policy<C, S, W>,
    req: Request,
    result: Result<Response, Error>,
    after: Policy<C, S, W>,
    verdict: Verdict,
)
    requires
        policy.may_answer(None, req, result, after, verdict),
        policy.budget() is Some,
    ensures
        verdict is Settle,
        verdict->Settle_0 is Some,
        bucket::budget_host(verdict->Settle_0->0.counted().bucket())
            == req.uri.authority_or_empty(),
{
}

/// A delay is never shorter than the backoff or than what the server asked for,
/// it is one of the two, and it never exceeds the time that is left.
pub proof fn delays_honor_server_and_deadline(
    backoff: nat,
    asked: Option<nat>,
    left: Option<Option<Duration>>,
    r: Option<Duration>,
)
    requires
        is_delay_within(backoff, asked, left, r),
        r is Some,
    ensures
        r->0@ >= backoff,
        asked is Some ==> r->0@ >= asked->0,
        r->0@ == backoff || asked == Some(r->0@),
        left matches Some(Some(time)) ==> r->0@ <= time@ || r->0@ == 0,
        left == Some(None::<Duration>) ==> r->0@ == 0,
{
}

/// A response that asks to come back after a number of seconds is retried no
/// sooner than that.
pub proof fn retry_after_is_honored<C: Classify, S: Scope, W: Schedule>(
    policy: Policy<C, S, W>,
    req: Request,
    res: Response,
    after: Policy<C, S, W>,
    verdict: Verdict,
    value: Seq<u8>,
)
    requires
        policy.may_answer(Some(RetryKind::Application), req, Ok(res), after, verdict),
        verdict is Again,
        headers::first_value(res.fields(), "retry-after"@) == Some(value),
        headers::is_visible(value),
        retry_after::is_delay(retry_after::trim_end(retry_after::trim_start(value))),
    ensures
        verdict->Again_0.delay.nanos() >= retry_after::number(
            retry_after::trim_end(retry_after::trim_start(value)),
        ) * time::NANOS_PER_SEC,
{
    let span = choose|span: Duration|
        policy.may_delay(req, Some(res), Some(span))
            && verdict->Again_0.delay == #[trigger] Delay::of(span);
    let (backoff, now, left) = choose|
        backoff: Duration,
        now: WallClock,
        left: Option<Option<Duration>>,
    |
        {
            &&& policy.backoff().may_delay(policy.backoff_step(), backoff)
            &&& may_be_left(req.deadline(), left)
            &&& time::is_now(now)
            &&& #[trigger] is_delay_within(backoff@, asked_of(Some(res), now), left, Some(span))
        };
    retry_after::seconds_ask_for_that_wait(value, now);
    delays_honor_server_and_deadline(backoff@, asked_of(Some(res), now), left, Some(span));
}

/// A server that asks for longer than the request has left is not waited for.
pub proof fn too_long_a_wait_gives_up(
    backoff: nat,
    asked: nat,
    left: Duration,
    r: Option<Duration>,
)
    requires
        is_delay_within(backoff, Some(asked), Some(Some(left)), r),
        asked > left@,
    ensures
        r is None,
{
}

/// Without a deadline, every delay is waited for, however long.
pub proof fn no_deadline_no_cap(backoff: nat, asked: Option<nat>, r: Option<Duration>)
    requires
        is_delay_within(backoff, asked, None, r),
    ensures
        r is Some,
        r->0@ == wanted_delay(backoff, asked),
{
}

/// An error is taken to say that the request was not processed just where the third
/// of the errors underlying it says so. An HTTP/2 failure does if it came from the
/// peer and is a GOAWAY with code 0 or a stream reset with code 7. The loss of an
/// HTTP/3 connection does if it is in the word `timeout`. Nothing else does.
pub proof fn only_unprocessed_requests_are_sent_again(err: Error, sent_again: bool)
    requires
        sent_again == is_unprocessed(err),
    ensures
        err.sources@.len() < 3 ==> !sent_again,
        err.sources@.len() >= 3 ==> match err.sources@[2].origin {
            Origin::Http2(failure) => sent_again <==> {
                &&& failure.remote
                &&& {
                    ||| failure.go_away && failure.reason == Some(0u32)
                    ||| failure.reset && failure.reason == Some(7u32)
                }
            },
            Origin::Http3Connection => sent_again <==> err.sources@[2].message@ == "timeout"@,
            Origin::Other => !sent_again,
        },
{
}

/// A failed request is sent again at once, without asking the classifier, just where
/// the policy does so, and its error is an HTTP/2 failure from the peer, a GOAWAY
/// with code 0 or a stream reset with code 7, or the loss of an HTTP/3 connection to
/// a timeout, as the third of the underlying errors. What the classifier calls
/// retryable is retried else, and what it does not, is not.
pub proof fn kinds_follow_errors_and_rules<C: Classify, S: Scope, W: Schedule>(
    policy: Policy<C, S, W>,
    req: Request,
    result: Result<Response, Error>,
    kind: Option<RetryKind>,
)
    requires
        policy.may_be_kind(&req, &result, kind),
    ensures
        kind == Some(RetryKind::TransientTransport) <==> {
            &&& policy.resends()
            &&& result is Err
            &&& result->Err_0.sources@.len() >= 3
            &&& match result->Err_0.sources@[2].origin {
                Origin::Http2(failure) => failure.remote && ((failure.go_away && failure.reason
                    == Some(0u32)) || (failure.reset && failure.reason == Some(7u32))),
                Origin::Http3Connection => result->Err_0.sources@[2].message@ == "timeout"@,
                Origin::Other => false,
            }
        },
        kind == Some(RetryKind::Application) ==> policy.classifier().may_give(
            ReqRep::of(&req, &result),
            Action::Retryable,
        ),
        kind is None ==> policy.classifier().may_give(ReqRep::of(&req, &result), Action::Success),
{
}

/// The time left is the distance to the deadline from a reading that the monotonic
/// clock gave.
pub proof fn time_left_is_read_from_the_clock(deadline: Deadline, left: Option<Duration>)
    requires
        deadline.may_have_left(left),
    ensures
        exists|now: std::time::Instant|
            {
                &&& evidence::is_reading(now)
                &&& span_view(left) == #[trigger] time::nanos_between(now, deadline.0)
            },
{
    let now = choose|now: std::time::Instant|
        evidence::is_reading(now) && #[trigger] deadline.is_left_at(now, left);
    assert(span_view(left) == time::nanos_between(now, deadline.0));
}

/// A delay is given up just where there is a deadline, and it has passed or is less
/// far away than both the backoff and what the server asked for allow.
pub proof fn delays_are_given_up_for_want_of_time(
    backoff: nat,
    asked: Option<nat>,
    left: Option<Option<Duration>>,
    r: Option<Duration>,
)
    requires
        is_delay_within(backoff, asked, left, r),
    ensures
        r is None <==> {
            &&& backoff > 0 || (asked is Some && asked->0 > 0)
            &&& left is Some
            &&& left->0 is None || left->0->0@ < backoff || (asked is Some && left->0->0@
                < asked->0)
        },
        r is Some ==> r->0@ >= backoff && (asked is Some ==> r->0@ >= asked->0) && (r->0@ == backoff
            || asked == Some(r->0@)),
{
}

/// Below the limit, a retry that is wanted is given up for want of time only if the
/// request has a deadline, and the distance to it, from a reading that the monotonic
/// clock gave, is shorter than the wait: than the backoff, or than what the server
/// asked for.
pub proof fn wanted_retries_are_given_up_for_want_of_time<C: Classify, S: Scope, W: Schedule>(
    policy: Policy<C, S, W>,
    req: Request,
    result: Result<Response, Error>,
    after: Policy<C, S, W>,
    verdict: Verdict,
)
    requires
        policy.may_answer(Some(RetryKind::Application), req, result, after, verdict),
        policy.total_retries() < policy.max_retries(),
        verdict is GiveUp,
        verdict->GiveUp_0 is None,
    ensures
        req.deadline() is Some,
        exists|now: std::time::Instant, backoff: Duration, clock: WallClock|
            {
                &&& evidence::is_reading(now)
                &&& #[trigger] policy.backoff().may_delay(policy.backoff_step(), backoff)
                &&& match (#[trigger] time::nanos_between(now, (req.deadline()->0).0)) {
                    Some(left) => left < backoff@ || {
                        &&& result is Ok
                        &&& time::is_now(clock)
                        &&& (#[trigger] retry_after::wait_asked(result->Ok_0.fields(), clock))
                            is Some
                        &&& left < retry_after::wait_asked(result->Ok_0.fields(), clock)->0
                    },
                    None => true,
                }
            },
{
    let res = match result {
        Ok(res) => Some(res),
        Err(_) => None,
    };
    let (backoff, clock, left) = choose|
        backoff: Duration,
        clock: WallClock,
        left: Option<Option<Duration>>,
    |
        {
            &&& policy.backoff().may_delay(policy.backoff_step(), backoff)
            &&& may_be_left(req.deadline(), left)
            &&& res is Some ==> time::is_now(clock)
            &&& #[trigger] is_delay_within(
                backoff@,
                asked_of(res, clock),
                left,
                None::<Duration>,
            )
        };
    let deadline = req.deadline()->0;
    let now = choose|now: std::time::Instant|
        evidence::is_reading(now) && #[trigger] deadline.is_left_at(now, left->0);
    assert(deadline.is_left_at(now, left->0));
    let distance = time::nanos_between(now, deadline.0);
    let asked = retry_after::wait_asked(result->Ok_0.fields(), clock);
    assert(policy.backoff().may_delay(policy.backoff_step(), backoff));
}

/// A retry that a classifier calls for waits for the backoff, or for what the server
/// asked for at a reading of the wall clock, whichever is longer.
pub proof fn retries_wait_for_backoff_or_server<C: Classify, S: Scope, W: Schedule>(
    policy: Policy<C, S, W>,
    req: Request,
    result: Result<Response, Error>,
    after: Policy<C, S, W>,
    verdict: Verdict,
)
    requires
        policy.may_answer(Some(RetryKind::Application), req, result, after, verdict),
        verdict is Again,
    ensures
        exists|backoff: Duration, clock: WallClock|
            {
                let asked = #[trigger] retry_after::wait_asked(result->Ok_0.fields(), clock);
                let wait = verdict->Again_0.delay.nanos();
                &&& #[trigger] policy.backoff().may_delay(policy.backoff_step(), backoff)
                &&& result is Ok ==> time::is_now(clock)
                &&& wait >= backoff@
                &&& result is Ok && asked is Some ==> wait >= asked->0
                &&& wait == backoff@ || (result is Ok && asked == Some(wait))
            },
{
    let res = match result {
        Ok(res) => Some(res),
        Err(_) => None,
    };
    let span = choose|span: Duration|
        policy.may_delay(req, res, Some(span)) && verdict->Again_0.delay == #[trigger] Delay::of(
            span,
        );
    let (backoff, clock, left) = choose|
        backoff: Duration,
        clock: WallClock,
        left: Option<Option<Duration>>,
    |
        {
            &&& policy.backoff().may_delay(policy.backoff_step(), backoff)
            &&& may_be_left(req.deadline(), left)
            &&& res is Some ==> time::is_now(clock)
            &&& #[trigger] is_delay_within(backoff@, asked_of(res, clock), left, Some(span))
        };
    let asked = retry_after::wait_asked(result->Ok_0.fields(), clock);
    assert(policy.backoff().may_delay(policy.backoff_step(), backoff));
}

/// A wait is as long as it was asked to be.
pub proof fn waits_are_made_in_full(span: Duration)
    ensures
        Delay::of(span).nanos() == span@,
        Delay::of(span) is Ready <==> span@ == 0,
{
}

/// A retry is counted once, and once more among those that a classifier called for if
/// it is one of them. The limit was not reached, and the settings stay.
pub proof fn retries_are_counted<C, S, W>(
    before: Policy<C, S, W>,
    after: Policy<C, S, W>,
    kind: RetryKind,
)
    requires
        after.is_after_retry(before, kind),
    ensures
        before.total_retries() < before.max_retries(),
        after.total_retries() == before.total_retries() + 1,
        kind is Application ==> after.application_retries() == before.application_retries() + 1,
        kind is TransientTransport ==> after.application_retries() == before.application_retries(),
        after.backoff() == before.backoff(),
        after.budget() == before.budget(),
        after.classifier() == before.classifier(),
        after.scope() == before.scope(),
        after.resends() == before.resends(),
        after.max_retries() == before.max_retries(),
{
}

/// What is next for a request: it is settled if nothing calls for a retry; given up if
/// the limit is reached; and else paid for if a classifier calls for the retry, or
/// sent again at once if it was not processed.
pub proof fn plans_follow_the_limit<C, S, W>(policy: Policy<C, S, W>, kind: Option<RetryKind>)
    ensures
        policy.plan_for(kind) is Settle <==> kind is None,
        policy.plan_for(kind) is GiveUp <==> kind is Some && policy.total_retries()
            >= policy.max_retries(),
        policy.plan_for(kind) is Pay <==> kind == Some(RetryKind::Application)
            && policy.total_retries() < policy.max_retries(),
        policy.plan_for(kind) is Resend <==> kind == Some(RetryKind::TransientTransport)
            && policy.total_retries() < policy.max_retries(),
{
}

/// A copy of a request is kept just where the scope says that the policy applies,
/// there are retries left, and the body is not a stream. It is the same request.
pub proof fn copies_are_kept_while_there_are_retries<C: Classify, S: Scope, W: Schedule>(
    policy: Policy<C, S, W>,
    req: Request,
    copy: Option<Request>,
)
    requires
        policy.may_clone(req, copy),
    ensures
        exists|applies: bool|
            {
                &&& #[trigger] policy.scope().may_say(req, applies)
                &&& copy is Some <==> applies && policy.total_retries() < policy.max_retries()
                    && req.body is Reusable
            },
        copy is Some ==> copy->0.method == req.method && copy->0.uri == req.uri && copy->0.fields()
            == req.fields() && copy->0.body->Reusable_0@ == req.body->Reusable_0@,
{
    let applies = choose|applies: bool| #[trigger]
        policy.scope().may_say(req, applies) && policy.is_clone(req, applies, copy);
    assert(policy.scope().may_say(req, applies));
}

} // verus!
