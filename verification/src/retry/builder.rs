//! Putting a policy together.

use crate::error::Error;
use crate::headers;
use crate::message;
use crate::message::{Request, Response, StatusCode};
use crate::retry::backoff::{Backoff, NoSchedule, Schedule, ScheduleFn};
use crate::retry::budget::{Budgets, ExtraLoad};
use crate::retry::classify;
use crate::retry::classify::{Action, Classifier, Classify, ClassifyFn, Either, NoRule, ReqRep};
use crate::retry::policy;
use crate::retry::policy::{Policy, RetryKind, Verdict};
use crate::retry::scope::{AnyHost, HostScope, Scope, ScopeFn, Scoped};
use crate::time::Duration;
use vstd::prelude::*;

verus! {

/// How long the first delay is by default, in milliseconds.
pub const DEFAULT_BACKOFF_MILLIS: u64 = 100;

/// How often a request is retried at most by default, on top of the original.
pub const DEFAULT_MAX_RETRIES: u32 = 2;

/// Builder to configure retries
///
/// Most clients should start with [`standard()`]. Use [`custom()`] to build a
/// policy from no retry conditions, or [`for_host()`] for a host-specific
/// custom policy.
///
/// `C` is the type of the classifiers that were added, `S` that of the scope,
/// and `W` that of the schedule.
#[derive(Debug)]
pub struct Builder<C = NoRule, S = AnyHost, W = NoSchedule> {
    backoff: Backoff<W>,
    budget: Option<ExtraLoad>,
    classifier: Classifier<C>,
    max_retries_per_request: u32,
    retry_transient_transport_errors: bool,
    scope: Scoped<S>,
}

/// What a builder is set to.
pub struct Settings<C, S, W> {
    /// How the waits come about.
    pub backoff: Backoff<W>,
    /// The extra load that is allowed, if it is limited.
    pub budget: Option<ExtraLoad>,
    /// The rules.
    pub classifier: Classifier<C>,
    /// How often a request is retried at most.
    pub max_retries: u32,
    /// Whether requests that were not processed are sent again.
    pub resends: bool,
    /// The requests that the policy applies to.
    pub scope: Scoped<S>,
}

impl<C, S, W> Settings<C, S, W> {
    /// Whether the delays, the budget of 20% and the limit are the default ones,
    /// and the scope is that one.
    pub open spec fn has_defaults(self, scope: Scoped<S>) -> bool {
        &&& self.backoff matches Backoff::Exponential(base)
        &&& base@ == DEFAULT_BACKOFF_MILLIS * 1_000_000
        &&& self.budget is Some
        &&& self.budget->0@ == (2nat, 1nat)
        &&& self.max_retries == DEFAULT_MAX_RETRIES
        &&& self.scope == scope
    }

    /// Whether these are the settings of a policy without retry conditions, for
    /// the requests in that scope.
    pub open spec fn is_custom(self, scope: Scoped<S>) -> bool {
        &&& self.has_defaults(scope)
        &&& self.classifier is Never
        &&& !self.resends
    }

    /// Whether these are the settings of a policy that never retries.
    pub open spec fn is_never(self) -> bool {
        &&& self.backoff matches Backoff::Exponential(base)
        &&& base@ == DEFAULT_BACKOFF_MILLIS * 1_000_000
        &&& self.budget is None
        &&& self.max_retries == 0
        &&& self.scope is Unscoped
        &&& self.classifier is Never
        &&& !self.resends
    }

    /// Whether these are the settings of the standard policy.
    pub open spec fn is_standard(self) -> bool {
        &&& self.has_defaults(Scoped::Unscoped)
        &&& self.classifier is Standard
        &&& self.resends
    }
}

impl<C, S, W> View for Builder<C, S, W> {
    type V = Settings<C, S, W>;

    closed spec fn view(&self) -> Settings<C, S, W> {
        Settings {
            backoff: self.backoff,
            budget: self.budget,
            classifier: self.classifier,
            max_retries: self.max_retries_per_request,
            resends: self.retry_transient_transport_errors,
            scope: self.scope,
        }
    }
}

/// Create the standard retry policy used by a client by default.
///
/// This retries `429 Too Many Requests` and `503 Service Unavailable`
/// responses for idempotent requests, or requests with an `Idempotency-Key`
/// header. It also retries safe transient transport failures.
pub fn standard() -> (r: Builder)
    ensures
        r@.is_standard(),
{
    let mut builder: Builder = Builder::with_scope(Scoped::Unscoped);
    builder.classifier = Classifier::Standard;
    builder.retry_transient_transport_errors = true;
    builder
}

/// Create an empty retry policy that applies to requests to any host.
///
/// Add retry conditions with methods such as [`Builder::retry_on_status()`].
pub fn custom() -> (r: Builder)
    ensures
        r@.is_custom(Scoped::Unscoped),
{
    Builder::with_scope(Scoped::Unscoped)
}

/// Create an empty retry policy that applies to requests to any host.
///
/// Retry budgets are still tracked per-host, so a failing host cannot consume
/// the retry allowance of a healthy one.
pub fn any_host() -> (r: Builder)
    ensures
        r@.is_custom(Scoped::Unscoped),
{
    custom()
}

/// Create an empty retry policy scoped to one host.
///
/// To provide another scope, use the more general [`Builder::scoped()`].
pub fn for_host(host: String) -> (r: Builder<NoRule, HostScope>)
    ensures
        r@.is_custom(Scoped::Dyn(HostScope { host })),
{
    Builder::scoped(HostScope { host })
}

/// Create a retry policy that will never retry any request.
///
/// This disables both HTTP response retries and safe transport retries.
pub fn never() -> (r: Builder)
    ensures
        r@.is_never(),
{
    let mut builder: Builder = custom().no_budget();
    builder.max_retries_per_request = 0;
    builder
}

/// Create an empty retry policy for the requests that `func` says yes to.
pub fn scoped<F: Fn(&Request) -> bool + Send + Sync + 'static>(func: F) -> (r: Builder<
    NoRule,
    ScopeFn<F>,
>)
    requires
        forall|req: &Request| #[trigger] call_requires(func, (req,)),
    ensures
        r@.scope is Dyn,
        r@.scope->Dyn_0.func() == func,
        r@.is_custom(r@.scope),
{
    Builder::scoped(ScopeFn::new(func))
}

impl<S> Builder<NoRule, S, NoSchedule> {
    /// Create a scoped retry policy.
    ///
    /// For a more convenient constructor, see [`for_host()`].
    pub fn scoped(scope: S) -> (r: Self) where S: Scope
        ensures
            r@.is_custom(Scoped::Dyn(scope)),
    {
        Builder::with_scope(Scoped::Dyn(scope))
    }

    fn with_scope(scope: Scoped<S>) -> (r: Self)
        ensures
            r@.is_custom(scope),
    {
        Builder {
            backoff: Backoff::Exponential(Duration::from_millis(DEFAULT_BACKOFF_MILLIS)),
            budget: Some(ExtraLoad::fifth()),
            classifier: Classifier::Never,
            max_retries_per_request: DEFAULT_MAX_RETRIES,
            retry_transient_transport_errors: false,
            scope,
        }
    }
}

impl<C, S, W> Builder<C, S, W> {
    /// Set the base delay to space out retries.
    ///
    /// Each attempt waits about twice as long as the one before it, starting
    /// from `base`, with jitter applied so that many clients retrying at once
    /// don't synchronize. Passing a base of zero retries immediately.
    ///
    /// Default is currently 100 milliseconds.
    pub fn backoff(self, base: Duration) -> (r: Self)
        ensures
            r@ == (Settings { backoff: Backoff::Exponential(base), ..self@ }),
    {
        let mut builder: Self = self;
        builder.backoff = Backoff::Exponential(base);
        builder
    }

    /// Provide a function to determine how long to wait before a retry.
    ///
    /// The function is called with the number of retries already made for
    /// this request, starting at `0`. Use this when the exponential backoff
    /// of [`backoff()`][Self::backoff()] isn't the schedule you want. Note
    /// that no jitter is applied to the returned duration.
    ///
    /// A `Retry-After` header, if present, still takes precedence when it
    /// asks to wait longer than the returned duration.
    pub fn backoff_fn<F: Fn(u32) -> Duration + Send + Sync + 'static>(self, func: F) -> (r: Builder<
        C,
        S,
        ScheduleFn<F>,
    >)
        requires
            forall|attempt: u32| #[trigger] call_requires(func, (attempt,)),
        ensures
            r@.backoff is Fn,
            r@.backoff->Fn_0.func() == func,
            r@.budget == self@.budget,
            r@.classifier == self@.classifier,
            r@.max_retries == self@.max_retries,
            r@.resends == self@.resends,
            r@.scope == self@.scope,
    {
        Builder {
            backoff: Backoff::Fn(ScheduleFn::new(func)),
            budget: self.budget,
            classifier: self.classifier,
            max_retries_per_request: self.max_retries_per_request,
            retry_transient_transport_errors: self.retry_transient_transport_errors,
            scope: self.scope,
        }
    }

    /// Set no retry budget.
    ///
    /// Sets that no budget will be enforced. This could also be considered
    /// to be an infinite budget.
    ///
    /// This is NOT recommended. Disabling the budget can make your system more
    /// susceptible to retry storms.
    pub fn no_budget(self) -> (r: Self)
        ensures
            r@ == (Settings { budget: None, ..self@ }),
    {
        let mut builder: Self = self;
        builder.budget = None;
        builder
    }

    /// Sets the max extra load the budget will allow.
    ///
    /// Think of the amount of requests your client generates, and how much
    /// load that puts on the server. This option configures as a fraction
    /// how much extra load is allowed via retries.
    ///
    /// For example, if you send 1,000 requests per second, setting a maximum
    /// extra load value of `0.3` would allow 300 more requests per second
    /// in retries. A value of `2.5` would allow 2,500 more requests.
    pub fn max_extra_load(self, extra_load: ExtraLoad) -> (r: Self)
        ensures
            r@ == (Settings { budget: Some(extra_load), ..self@ }),
    {
        let mut builder: Self = self;
        builder.budget = Some(extra_load);
        builder
    }

    /// Set the max retries allowed per request.
    ///
    /// For each logical (initial) request, only retry up to `max` times.
    ///
    /// This value is used in combination with a token budget that is applied
    /// to all requests. Even if the budget would allow more requests, this
    /// limit will prevent. Likewise, the budget may prevent retrying up to
    /// `max` times. This setting prevents a single request from consuming
    /// the entire budget.
    ///
    /// Default is currently 2 retries.
    pub fn max_retries_per_request(self, max: u32) -> (r: Self)
        ensures
            r@ == (Settings { max_retries: max, ..self@ }),
    {
        let mut builder: Self = self;
        builder.max_retries_per_request = max;
        builder
    }

    /// Set the maximum number of total attempts per request.
    ///
    /// The initial request counts as the first attempt. The standard policy
    /// makes at most three attempts.
    pub fn max_attempts(self, max: u32) -> (r: Self)
        requires
            max > 0,
        ensures
            r@ == (Settings { max_retries: (max - 1) as u32, ..self@ }),
    {
        self.max_retries_per_request(max - 1)
    }

    /// Retry safe transient transport failures.
    ///
    /// These are failures where the server or protocol indicates that the
    /// request was not processed, so sending it again is safe. This behavior
    /// is included in [`standard()`].
    pub fn retry_on_transient_transport_errors(self) -> (r: Self)
        ensures
            r@ == (Settings { resends: true, ..self@ }),
    {
        let mut builder: Self = self;
        builder.retry_transient_transport_errors = true;
        builder
    }

    /// Retry requests that fail with a low-level protocol NACK.
    ///
    /// This is the legacy name for [`retry_on_transient_transport_errors()`].
    ///
    /// [`retry_on_transient_transport_errors()`]: Self::retry_on_transient_transport_errors()
    pub fn retry_on_protocol_nacks(self) -> (r: Self)
        ensures
            r@ == (Settings { resends: true, ..self@ }),
    {
        self.retry_on_transient_transport_errors()
    }

    /// Retry responses with this HTTP status code.
    ///
    /// This adds to any previously configured retry classifiers. Status-code
    /// retries apply to every request in the policy's scope, so prefer
    /// [`classify_fn()`] when retrying the same request twice may not be safe
    /// for all methods.
    ///
    /// [`classify_fn()`]: Self::classify_fn()
    pub fn retry_on_status(self, status: StatusCode) -> (r: Self)
        ensures
            r@ == (Settings { classifier: r@.classifier, ..self@ }),
            adds_statuses(self@.classifier, seq![status], r@.classifier),
    {
        let mut statuses: Vec<StatusCode> = Vec::new();
        statuses.push(status);
        assert(statuses@ =~= seq![status]);
        self.retry_on_statuses(statuses)
    }

    /// Retry responses with any of these HTTP status codes.
    ///
    /// This adds to any previously configured retry classifiers. Status-code
    /// retries apply to every request in the policy's scope, so prefer
    /// [`classify_fn()`] when retrying the same request twice may not be safe
    /// for all methods.
    ///
    /// [`classify_fn()`]: Self::classify_fn()
    pub fn retry_on_statuses(self, statuses: Vec<StatusCode>) -> (r: Self)
        ensures
            r@ == (Settings { classifier: r@.classifier, ..self@ }),
            adds_statuses(self@.classifier, statuses@, r@.classifier),
    {
        if statuses.len() == 0 {
            return self;
        }
        let classifier: Classifier<C> = self.classifier.or(Classifier::StatusCodes(statuses));
        assert(classifier.rules().drop_last() =~= self@.classifier.rules());
        Builder {
            backoff: self.backoff,
            budget: self.budget,
            classifier,
            max_retries_per_request: self.max_retries_per_request,
            retry_transient_transport_errors: self.retry_transient_transport_errors,
            scope: self.scope,
        }
    }

    /// Add a classifier that determines if a request should be retried.
    ///
    /// This classifier is combined with any retry conditions already on the
    /// builder.
    pub fn classify_fn<F: Fn(ReqRep<'_>) -> Action + Send + Sync + 'static>(
        self,
        func: F,
    ) -> (r: Builder<Either<C, ClassifyFn<F>>, S, W>)
        requires
            forall|req_rep: ReqRep<'_>| #[trigger] call_requires(func, (req_rep,)),
        ensures
            exists|rule: ClassifyFn<F>|
                rule.func() == func && #[trigger] adds_rule(
                    self@.classifier,
                    rule,
                    r@.classifier,
                ),
            r@.backoff == self@.backoff,
            r@.budget == self@.budget,
            r@.max_retries == self@.max_retries,
            r@.resends == self@.resends,
            r@.scope == self@.scope,
    {
        self.classify(ClassifyFn::new(func))
    }

    /// Add a classifier that determines if a request should be retried.
    ///
    /// This classifier is combined with any retry conditions already on the
    /// builder.
    pub fn classify<D: Classify>(self, classifier: D) -> (r: Builder<Either<C, D>, S, W>)
        ensures
            adds_rule(self@.classifier, classifier, r@.classifier),
            r@.backoff == self@.backoff,
            r@.budget == self@.budget,
            r@.max_retries == self@.max_retries,
            r@.resends == self@.resends,
            r@.scope == self@.scope,
    {
        let wide: Classifier<Either<C, D>> = self.classifier.widen();
        let ghost widened = wide;
        let both: Classifier<Either<C, D>> = wide.or(Classifier::Dyn(Either::Right(classifier)));
        assert(classify::is_widened(self@.classifier, widened));
        Builder {
            backoff: self.backoff,
            budget: self.budget,
            classifier: both,
            max_retries_per_request: self.max_retries_per_request,
            retry_transient_transport_errors: self.retry_transient_transport_errors,
            scope: self.scope,
        }
    }

    /// The policy, before the first attempt.
    pub fn into_policy(self) -> (r: Policy<C, S, W>)
        ensures
            is_policy_of(self@, r),
            r.total_retries() == 0,
            r.application_retries() == 0,
    {
        let budget: Option<Budgets> = match self.budget {
            Some(extra_load) => Some(Budgets::new(extra_load)),
            None => None,
        };
        Policy::new(
            self.backoff,
            budget,
            self.classifier,
            self.max_retries_per_request,
            self.retry_transient_transport_errors,
            self.scope,
        )
    }
}

impl Default for Builder {
    fn default() -> (r: Self)
        ensures
            r@.is_standard(),
    {
        standard()
    }
}

/// Whether `after` has the rules `before` and, if there are any statuses, a last
/// one for those.
pub open spec fn adds_statuses<C>(
    before: Classifier<C>,
    statuses: Seq<StatusCode>,
    after: Classifier<C>,
) -> bool {
    if statuses.len() == 0 {
        after == before
    } else {
        &&& after.rules().len() == before.rules().len() + 1
        &&& after.rules().drop_last() == before.rules()
        &&& after.rules().last() matches Classifier::StatusCodes(codes)
        &&& codes@ == statuses
    }
}

/// Whether `after` has the rules `before` and `rule` as the last.
pub open spec fn adds_rule<C, D>(
    before: Classifier<C>,
    rule: D,
    after: Classifier<Either<C, D>>,
) -> bool {
    exists|wide: Classifier<Either<C, D>>| #[trigger]
        classify::is_widened(before, wide) && after.rules() == wide.rules() + seq![
            Classifier::Dyn(Either::Right(rule)),
        ]
}

/// Whether the policy has those settings.
pub open spec fn is_policy_of<C, S, W>(settings: Settings<C, S, W>, policy: Policy<C, S, W>) -> bool {
    &&& policy.backoff() == settings.backoff
    &&& policy.budget() is Some <==> settings.budget is Some
    &&& policy.budget() is Some ==> policy.budget()->0.extra_load() == settings.budget->0
    &&& policy.classifier() == settings.classifier
    &&& policy.max_retries() == settings.max_retries
    &&& policy.resends() == settings.resends
    &&& policy.scope() == settings.scope
}

/// The conditions that were there are kept, and where none of them holds, the
/// statuses are retried.
pub proof fn added_statuses_are_retried<C: Classify>(
    before: Classifier<C>,
    statuses: Seq<StatusCode>,
    after: Classifier<C>,
    req_rep: ReqRep<'_>,
)
    requires
        adds_statuses(before, statuses, after),
    ensures
        after.may_give(req_rep, Action::Retryable) <==> before.may_give(req_rep, Action::Retryable)
            || (before.may_give(req_rep, Action::Success) && req_rep.has_status(statuses)),
        after.may_give(req_rep, Action::Success) <==> before.may_give(req_rep, Action::Success)
            && !req_rep.has_status(statuses),
{
    if statuses.len() > 0 {
        let added = after.rules().last();
        assert(after.rules() =~= before.rules() + added.rules());
        classify::or_adds_rules(before, added, after, req_rep);
    }
}

/// The conditions that were there are kept, and where none of them holds, the
/// classifier is asked.
pub proof fn added_classifiers_are_asked<C: Classify, D: Classify>(
    before: Classifier<C>,
    rule: D,
    after: Classifier<Either<C, D>>,
    req_rep: ReqRep<'_>,
)
    requires
        adds_rule(before, rule, after),
    ensures
        after.may_give(req_rep, Action::Retryable) <==> before.may_give(req_rep, Action::Retryable)
            || (before.may_give(req_rep, Action::Success) && rule.may_give(
            req_rep,
            Action::Retryable,
        )),
        after.may_give(req_rep, Action::Success) <==> before.may_give(req_rep, Action::Success)
            && rule.may_give(req_rep, Action::Success),
{
    let added = Classifier::<Either<C, D>>::Dyn(Either::Right(rule));
    let wide = choose|wide: Classifier<Either<C, D>>| #[trigger]
        classify::is_widened(before, wide) && after.rules() == wide.rules() + seq![added];
    classify::or_adds_rules(wide, added, after, req_rep);
    classify::widened_rules_answer_alike(before, wide, req_rep, Action::Success);
    classify::widened_rules_answer_alike(before, wide, req_rep, Action::Retryable);
}

/// A policy that never retries answers every request with what came back, is
/// left as it was, and keeps no copy of a request.
pub proof fn never_never_retries<S: Scope, W: Schedule>(
    settings: Settings<NoRule, S, W>,
    policy: Policy<NoRule, S, W>,
    kind: Option<RetryKind>,
    req: Request,
    result: Result<Response, Error>,
    after: Policy<NoRule, S, W>,
    verdict: Verdict,
    copy: Option<Request>,
)
    requires
        settings.is_never(),
        is_policy_of(settings, policy),
        policy.may_be_kind(&req, &result, kind),
        policy.may_answer(kind, req, result, after, verdict),
        policy.may_clone(req, copy),
    ensures
        kind is None,
        verdict.retry() is None,
        after == policy,
        copy is None,
{
}

/// The standard policy sends requests again that were not processed. It retries
/// a response with status 429 or 503 if the request is idempotent or has an
/// idempotency key. It retries nothing else.
pub proof fn standard_retries_just_these<S: Scope, W: Schedule>(
    settings: Settings<NoRule, S, W>,
    policy: Policy<NoRule, S, W>,
    kind: Option<RetryKind>,
    req: Request,
    result: Result<Response, Error>,
)
    requires
        settings.is_standard(),
        is_policy_of(settings, policy),
        policy.may_be_kind(&req, &result, kind),
    ensures
        kind == match result {
            Ok(response) => if (response.status@ == 429 || response.status@ == 503) && (
            message::is_idempotent(req.method@) || headers::first_value(
                req.fields(),
                "idempotency-key"@,
            ) is Some) {
                Some(RetryKind::Application)
            } else {
                None
            },
            Err(err) => if policy::is_unprocessed(err) {
                Some(RetryKind::TransientTransport)
            } else {
                None
            },
        },
{
    classify::attempts_are_what_came(&req, &result);
}

/// Below the limit, and without a deadline, the standard policy retries a response
/// with status 429 or 503 to an idempotent request, unless the budget of the host
/// refuses to pay.
pub proof fn standard_retries_are_made<S: Scope, W: Schedule>(
    settings: Settings<NoRule, S, W>,
    policy: Policy<NoRule, S, W>,
    req: Request,
    response: Response,
    result: Result<Response, Error>,
    after: Policy<NoRule, S, W>,
    verdict: Verdict,
)
    requires
        settings.is_standard(),
        is_policy_of(settings, policy),
        result == Ok::<Response, Error>(response),
        response.status@ == 429 || response.status@ == 503,
        message::is_idempotent(req.method@),
        policy.total_retries() < policy.max_retries(),
        req.deadline() is None,
        policy.may_decide(&req, &result, after, verdict),
    ensures
        verdict is Again || (verdict is GiveUp && verdict->GiveUp_0 is Some && policy.is_refused(
            req,
            verdict->GiveUp_0->0,
        )),
{
    let kind = choose|kind: Option<RetryKind>| #[trigger]
        policy.may_be_kind(&req, &result, kind) && policy.may_answer(
            kind,
            req,
            result,
            after,
            verdict,
        );
    standard_retries_just_these(settings, policy, kind, req, result);
    policy::retryable_requests_are_retried(policy, req, result, after, verdict);
}

/// With the standard policy, a request is sent at most three times: after the
/// original there are at most two retries, of whatever kind.
pub proof fn standard_makes_three_attempts<S: Scope, W: Schedule>(
    settings: Settings<NoRule, S, W>,
    states: Seq<Policy<NoRule, S, W>>,
    kinds: Seq<RetryKind>,
)
    requires
        policy::is_run(states, kinds),
        settings.is_standard(),
        is_policy_of(settings, states[0]),
        states[0].total_retries() == 0,
    ensures
        1 + kinds.len() <= 3,
{
    policy::retries_are_limited(states, kinds);
}

/// A policy for one host keeps copies of requests to that host, and of no others.
pub proof fn host_policies_keep_to_their_host<C: Classify, W: Schedule>(
    settings: Settings<C, HostScope, W>,
    policy: Policy<C, HostScope, W>,
    host: String,
    req: Request,
    copy: Option<Request>,
)
    requires
        settings.scope == Scoped::Dyn(HostScope { host }),
        is_policy_of(settings, policy),
        policy.may_clone(req, copy),
    ensures
        copy is Some ==> req.uri.host_or_empty() == host@,
        req.uri.host_or_empty() == host@ ==> (copy is Some <==> policy.total_retries()
            < policy.max_retries() && req.body is Reusable),
{
}

/// A policy without a scope applies to requests to any host.
pub proof fn unscoped_policies_apply_to_any_host<C: Classify, S: Scope, W: Schedule>(
    settings: Settings<C, S, W>,
    policy: Policy<C, S, W>,
    req: Request,
    copy: Option<Request>,
)
    requires
        settings.scope is Unscoped,
        is_policy_of(settings, policy),
        policy.may_clone(req, copy),
    ensures
        copy is Some <==> policy.total_retries() < policy.max_retries() && req.body is Reusable,
        copy is Some ==> copy->0.is_same(req),
{
}

/// A policy has the settings that it was built with.
pub proof fn policies_keep_their_settings<C, S, W>(
    settings: Settings<C, S, W>,
    policy: Policy<C, S, W>,
)
    requires
        is_policy_of(settings, policy),
    ensures
        policy.backoff() == settings.backoff,
        policy.classifier() == settings.classifier,
        policy.max_retries() == settings.max_retries,
        policy.resends() == settings.resends,
        policy.scope() == settings.scope,
        policy.budget() is None <==> settings.budget is None,
        policy.budget() is Some ==> policy.budget()->0.extra_load() == settings.budget->0,
{
}

} // verus!
