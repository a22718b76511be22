use courier::error::{Error, Http2Failure, Kind, Origin, Source};
use courier::message::{Body, Method, Request, Response, StatusCode, Uri, Version};
use courier::retry;
use courier::retry::backoff::Schedule;
use courier::retry::budget::{Budgets, ExtraLoad};
use courier::retry::classify::{Action, Classify, ReqRep};
use courier::retry::policy::{
    delay_within, is_retryable_error, Delay, Plan, RetryKind, Verdict, NO_ERROR, REFUSED_STREAM,
};
use courier::retry::scope::Scope;
use courier::retry::{Builder, Policy};
use courier::time::Deadline;
use courier::Duration;
use std::sync::{Arc, Mutex};

fn status(code: u16) -> StatusCode {
    StatusCode::from_u16(code).unwrap()
}

fn request(method: &str, url: &str) -> Request {
    Request {
        method: Method::new(method),
        uri: Uri::parse(url).unwrap(),
        version: Version::Http11,
        headers: http::HeaderMap::new(),
        extensions: http::Extensions::new(),
        body: Body::empty(),
    }
}

fn get() -> Request {
    request("GET", "http://127.0.0.1:8080")
}

fn respond(code: u16) -> Result<Response, Error> {
    Ok(Response {
        status: status(code),
        version: Version::Http11,
        headers: http::HeaderMap::new(),
    })
}

fn respond_later(code: u16, retry_after: &str) -> Result<Response, Error> {
    let mut headers = http::HeaderMap::new();
    headers.insert("retry-after", retry_after.parse().unwrap());
    Ok(Response {
        status: status(code),
        version: Version::Http11,
        headers,
    })
}

fn fail(origin: Origin, message: &str) -> Error {
    let mut sources = Vec::new();
    for text in ["client error", "connection error"] {
        sources.push(Source {
            message: text.to_string(),
            origin: Origin::Other,
        });
    }
    sources.push(Source {
        message: message.to_string(),
        origin,
    });
    Error {
        kind: Kind::Request,
        url: None,
        sources,
    }
}

fn refused() -> Error {
    fail(
        Origin::Http2(Http2Failure {
            go_away: false,
            reset: true,
            remote: true,
            reason: Some(REFUSED_STREAM),
        }),
        "refused",
    )
}

/// Send a request as a client does: what came back, how often it was sent, and
/// the waits in between.
fn send<C: Classify, S: Scope, W: Schedule>(
    mut policy: Policy<C, S, W>,
    req: Request,
    serve: impl Fn(usize) -> Result<Response, Error>,
) -> (Result<Response, Error>, usize, Vec<Delay>) {
    let mut sent = 0;
    let mut waits = Vec::new();
    let mut copy = policy.clone_request(&req);
    loop {
        let result = serve(sent);
        sent += 1;
        let again = match copy {
            Some(again) => again,
            None => return (result, sent, waits),
        };
        match policy.retry(&again, &result) {
            Some(retry) => waits.push(retry.delay),
            None => return (result, sent, waits),
        }
        copy = policy.clone_request(&again);
    }
}

fn code(result: &Result<Response, Error>) -> u16 {
    match result {
        Ok(response) => response.status.as_u16(),
        Err(err) => panic!("{err:?}"),
    }
}

fn total(waits: &[Delay]) -> u128 {
    waits
        .iter()
        .map(|wait| match wait {
            Delay::Ready => 0,
            Delay::Sleep(span) => span.as_nanos(),
        })
        .sum()
}

#[test]
fn other_status_retries_are_opt_in() {
    let (resp, seen, _) = send(retry::standard().into_policy(), get(), |n| {
        if n == 0 {
            respond(502)
        } else {
            respond(200)
        }
    });
    assert_eq!(code(&resp), 502);
    assert_eq!(seen, 1);
}

#[test]
fn default_retries_429_at_most_three_total_attempts() {
    let (resp, seen, _) = send(Builder::default().into_policy(), get(), |_| respond(429));
    assert_eq!(code(&resp), 429);
    assert_eq!(seen, 3);
}

#[test]
fn default_retries_503() {
    let (resp, seen, _) = send(retry::standard().into_policy(), get(), |n| {
        if n == 0 {
            respond(503)
        } else {
            respond(200)
        }
    });
    assert_eq!(code(&resp), 200);
    assert_eq!(seen, 2);
}

#[test]
fn default_does_not_retry_post_without_idempotency_key() {
    let mut req = request("POST", "http://127.0.0.1:8080");
    req.body = Body::Reusable("not automatically replayed".as_bytes().to_vec());
    let (resp, seen, _) = send(retry::standard().into_policy(), req, |_| respond(429));
    assert_eq!(code(&resp), 429);
    assert_eq!(seen, 1);
}

#[test]
fn default_retries_post_with_idempotency_key() {
    let mut req = request("POST", "http://127.0.0.1:8080");
    req.headers
        .insert("idempotency-key", "one-logical-operation".parse().unwrap());
    req.body = Body::Reusable("safe to replay".as_bytes().to_vec());
    let (resp, seen, _) = send(retry::standard().into_policy(), req, |n| {
        if n == 0 {
            respond(429)
        } else {
            respond(200)
        }
    });
    assert_eq!(code(&resp), 200);
    assert_eq!(seen, 2);
}

#[test]
fn max_attempts_counts_the_initial_request() {
    let policy = retry::standard().max_attempts(2).into_policy();
    let (resp, seen, _) = send(policy, get(), |_| respond(429));
    assert_eq!(code(&resp), 429);
    assert_eq!(seen, 2);
}

#[test]
fn custom_classifier_adds_to_status_classifier() {
    let policy = retry::custom()
        .retry_on_status(status(502))
        .classify_fn(|req_rep: ReqRep<'_>| req_rep.success())
        .backoff(Duration::zero())
        .into_policy();
    let (resp, seen, _) = send(policy, get(), |n| {
        if n == 0 {
            respond(502)
        } else {
            respond(200)
        }
    });
    assert_eq!(code(&resp), 200);
    assert_eq!(seen, 2);
}

#[test]
fn retries_matching_status() {
    let policy = retry::for_host("127.0.0.1".to_string())
        .retry_on_status(status(503))
        .into_policy();
    let (resp, _, _) = send(policy, get(), |n| {
        if n == 0 {
            respond(503)
        } else {
            respond(200)
        }
    });
    assert_eq!(code(&resp), 200);
}

#[test]
fn status_retries_apply_only_in_scope() {
    let policy = retry::for_host("example.com".to_string())
        .retry_on_status(status(503))
        .into_policy();
    let (resp, seen, _) = send(policy, get(), |n| {
        if n == 0 {
            respond(503)
        } else {
            respond(200)
        }
    });
    assert_eq!(code(&resp), 503);
    assert_eq!(seen, 1);
}

#[test]
fn retries_apply_in_scope() {
    let policy = retry::for_host("127.0.0.1".to_string())
        .classify_fn(|req_rep: ReqRep<'_>| {
            if req_rep.status().map(|status| status.as_u16()) == Some(503) {
                req_rep.retryable()
            } else {
                req_rep.success()
            }
        })
        .into_policy();
    let (resp, _, _) = send(policy, get(), |n| {
        if n == 0 {
            respond(503)
        } else {
            respond(200)
        }
    });
    assert_eq!(code(&resp), 200);
}

#[test]
fn retries_apply_to_any_host() {
    let policy = retry::any_host()
        .retry_on_status(status(503))
        .backoff(Duration::zero())
        .into_policy();
    let (resp, seen, _) = send(policy, get(), |n| {
        if n == 0 {
            respond(503)
        } else {
            respond(200)
        }
    });
    assert_eq!(code(&resp), 200);
    assert_eq!(seen, 2);
}

#[test]
fn backoff_spaces_out_retries() {
    let policy = retry::any_host()
        .retry_on_status(status(503))
        .backoff_fn(|_attempt: u32| Duration::from_millis(100))
        .into_policy();
    let (resp, seen, waits) = send(policy, get(), |n| {
        if n < 2 {
            respond(503)
        } else {
            respond(200)
        }
    });
    assert_eq!(code(&resp), 200);
    assert_eq!(seen, 3);
    let elapsed = total(&waits);
    assert!(
        elapsed >= Duration::from_millis(200).as_nanos(),
        "two retries should have waited 100ms each, took {elapsed:?}"
    );
}

#[test]
fn zero_backoff_retries_immediately() {
    let policy = retry::any_host()
        .retry_on_status(status(503))
        .backoff(Duration::zero())
        .into_policy();
    let (resp, _, waits) = send(policy, get(), |n| {
        if n < 2 {
            respond(503)
        } else {
            respond(200)
        }
    });
    assert_eq!(code(&resp), 200);
    let elapsed = total(&waits);
    assert!(
        elapsed < Duration::from_millis(100).as_nanos(),
        "took {elapsed:?}"
    );
    assert_eq!(waits, vec![Delay::Ready, Delay::Ready]);
}

#[test]
fn honors_retry_after() {
    // Backoff alone would retry immediately; the header should win.
    let policy = retry::any_host()
        .retry_on_status(status(429))
        .backoff(Duration::zero())
        .into_policy();
    let (resp, seen, waits) = send(policy, get(), |n| {
        if n == 0 {
            respond_later(429, "1")
        } else {
            respond(200)
        }
    });
    assert_eq!(code(&resp), 200);
    assert_eq!(seen, 2);
    let elapsed = total(&waits);
    assert!(
        elapsed >= Duration::from_millis(900).as_nanos(),
        "should have waited about a second, took {elapsed:?}"
    );
}

#[test]
fn retry_after_past_the_deadline_gives_up() {
    let policy = retry::any_host().retry_on_status(status(429)).into_policy();
    let mut req = get();
    // waiting 30s wouldn't fit, so the 429 should come straight back
    // instead of the request timing out
    req.extensions.insert(Deadline(
        std::time::Instant::now() + std::time::Duration::from_secs(5),
    ));
    let (resp, seen, waits) = send(policy, req, |_| respond_later(429, "30"));
    assert_eq!(code(&resp), 429);
    assert_eq!(seen, 1);
    let elapsed = total(&waits);
    assert!(
        elapsed < Duration::from_secs(1).as_nanos(),
        "took {elapsed:?}"
    );
}

#[test]
fn default_retries_have_a_limit() {
    // refused forever
    let (resp, seen, waits) = send(retry::standard().into_policy(), get(), |_| Err(refused()));
    assert!(resp.is_err());
    assert_eq!(seen, 3);
    assert_eq!(waits, vec![Delay::Ready, Delay::Ready]);
}

#[test]
fn never_disables_transient_transport_retries() {
    let (resp, seen, _) = send(retry::never().into_policy(), get(), |_| Err(refused()));
    assert!(resp.is_err());
    assert_eq!(seen, 1);
}

#[test]
fn transport_and_status_retries_share_one_attempt_limit() {
    let policy = retry::standard().max_attempts(3).into_policy();
    let (resp, seen, _) = send(policy, get(), |n| {
        if n == 0 {
            Err(refused())
        } else {
            respond(429)
        }
    });
    assert_eq!(code(&resp), 429);
    assert_eq!(seen, 3);
}

#[test]
fn configured_backoff_is_not_capped_without_a_request_timeout() {
    let policy = retry::custom()
        .backoff_fn(|_: u32| Duration::from_secs(60))
        .into_policy();
    let req = request("GET", "/");

    assert_eq!(policy.delay(&req, None), Some(Duration::from_secs(60)));
}

#[test]
fn transport_retries_dont_advance_exponential_backoff() {
    let policy = retry::custom()
        .retry_on_status(status(503))
        .retry_on_transient_transport_errors()
        .max_retries_per_request(4)
        .backoff(Duration::from_secs(8))
        .into_policy();
    let (_, seen, waits) = send(policy, get(), |n| match n {
        0 | 2 => Err(refused()),
        _ => respond(503),
    });
    assert_eq!(seen, 5);
    let spans: Vec<u128> = waits.iter().map(|wait| total(&[*wait])).collect();
    let secs = |n: u64| Duration::from_secs(n).as_nanos();
    assert_eq!((spans[0], spans[2]), (0, 0));
    assert!(secs(4) <= spans[1] && spans[1] <= secs(8), "{spans:?}");
    assert!(secs(8) <= spans[3] && spans[3] <= secs(16), "{spans:?}");
}

#[test]
fn schedules_are_asked_with_all_retries_made() {
    let policy = retry::custom()
        .retry_on_status(status(503))
        .retry_on_protocol_nacks()
        .max_retries_per_request(4)
        .backoff_fn(|attempt: u32| Duration::from_secs(1 + attempt as u64))
        .into_policy();
    let (resp, seen, waits) = send(policy, get(), |n| match n {
        0 | 2 => Err(refused()),
        1 | 3 => respond(503),
        _ => respond(200),
    });
    assert_eq!(code(&resp), 200);
    assert_eq!(seen, 5);
    assert_eq!(
        waits,
        vec![
            Delay::Ready,
            Delay::Sleep(Duration::from_secs(2)),
            Delay::Ready,
            Delay::Sleep(Duration::from_secs(4)),
        ]
    );
}

#[test]
fn a_schedule_is_asked_once_for_each_delay() {
    let asked = Arc::new(Mutex::new(Vec::new()));
    let seen = asked.clone();
    let mut policy = retry::custom()
        .backoff_fn(move |attempt: u32| {
            asked.lock().unwrap().push(attempt);
            Duration::from_secs(1)
        })
        .retry_on_transient_transport_errors()
        .retry_on_status(status(503))
        .into_policy();
    assert!(policy.retry(&get(), &Err(refused())).is_some());
    assert!(seen.lock().unwrap().is_empty());
    let res = respond(503).unwrap();
    assert_eq!(
        policy.delay(&get(), Some(&res)),
        Some(Duration::from_secs(1))
    );
    assert_eq!(*seen.lock().unwrap(), vec![1]);
}

#[test]
fn streams_are_sent_once() {
    let mut req = get();
    req.body = Body::Streaming(1);
    let (resp, seen, _) = send(retry::standard().into_policy(), req, |_| respond(429));
    assert_eq!(code(&resp), 429);
    assert_eq!(seen, 1);
}

#[test]
fn copies_are_the_same_request() {
    let mut req = request("PUT", "https://example.com:8443/a?b");
    req.version = Version::Http2;
    req.headers.insert("x-one", "1".parse().unwrap());
    req.headers.append("x-one", "2".parse().unwrap());
    req.body = Body::Reusable(vec![1, 2, 3]);
    let at = std::time::Instant::now();
    req.extensions.insert(Deadline(at));
    req.extensions.insert("kept as well");
    let copy = retry::custom().into_policy().clone_request(&req).unwrap();
    assert_eq!(copy.method.as_str(), "PUT");
    assert_eq!(copy.uri.as_str(), "https://example.com:8443/a?b");
    assert_eq!(copy.version, Version::Http2);
    assert_eq!(copy.headers, req.headers);
    assert_eq!(copy.get_deadline().map(|deadline| deadline.0), Some(at));
    assert_eq!(copy.extensions.get::<&str>(), Some(&"kept as well"));
    assert!(matches!(&copy.body, Body::Reusable(bytes) if *bytes == [1, 2, 3]));
}

#[test]
fn no_copies_past_the_limit_or_the_scope() {
    let policy = retry::never().into_policy();
    assert!(policy.clone_request(&get()).is_none());
    assert!(policy.clone_applying(&get(), true).is_none());
    let policy = retry::standard().into_policy();
    assert!(policy.clone_applying(&get(), true).is_some());
    assert!(policy.clone_applying(&get(), false).is_none());
    let policy = retry::scoped(|req: &Request| req.uri.host() == Some("example.com")).into_policy();
    assert!(policy.clone_request(&get()).is_none());
    assert!(policy
        .clone_request(&request("GET", "http://example.com/"))
        .is_some());
}

#[test]
fn unprocessed_requests_are_told_apart() {
    let go_away = |remote: bool, reason: Option<u32>| {
        fail(
            Origin::Http2(Http2Failure {
                go_away: true,
                reset: false,
                remote,
                reason,
            }),
            "go away",
        )
    };
    let reset = |remote: bool, reason: Option<u32>| {
        fail(
            Origin::Http2(Http2Failure {
                go_away: false,
                reset: true,
                remote,
                reason,
            }),
            "reset",
        )
    };
    assert!(is_retryable_error(&go_away(true, Some(NO_ERROR))));
    assert!(!is_retryable_error(&go_away(false, Some(NO_ERROR))));
    assert!(!is_retryable_error(&go_away(true, Some(REFUSED_STREAM))));
    assert!(!is_retryable_error(&go_away(true, None)));
    assert!(is_retryable_error(&reset(true, Some(REFUSED_STREAM))));
    assert!(!is_retryable_error(&reset(false, Some(REFUSED_STREAM))));
    assert!(!is_retryable_error(&reset(true, Some(NO_ERROR))));
    assert!(is_retryable_error(&fail(Origin::Http3Connection, "timeout")));
    assert!(!is_retryable_error(&fail(Origin::Http3Connection, "closed")));
    assert!(!is_retryable_error(&fail(Origin::Other, "timeout")));
    let mut short = refused();
    short.sources.remove(0);
    assert!(!is_retryable_error(&short));
}

#[test]
fn refused_requests_are_only_sent_again_on_demand() {
    let (resp, seen, _) = send(retry::custom().into_policy(), get(), |_| Err(refused()));
    assert!(resp.is_err());
    assert_eq!(seen, 1);
    let policy = retry::custom()
        .retry_on_transient_transport_errors()
        .into_policy();
    let (resp, seen, _) = send(policy, get(), |_| Err(refused()));
    assert!(resp.is_err());
    assert_eq!(seen, 3);
}

#[test]
fn classifiers_see_request_and_outcome() {
    let policy = retry::custom()
        .classify_fn(|req_rep: ReqRep<'_>| {
            let wanted = req_rep.method().as_str() == "PATCH"
                && req_rep.uri().host() == Some("127.0.0.1")
                && req_rep.status().is_none()
                && req_rep.error().map(|err| err.to_string())
                    == Some("error sending request".to_string());
            if wanted {
                req_rep.retryable()
            } else {
                req_rep.success()
            }
        })
        .no_budget()
        .into_policy();
    let (_, seen, _) = send(
        policy.clone(),
        request("PATCH", "http://127.0.0.1:8080"),
        |_| Err(fail(Origin::Other, "lost")),
    );
    assert_eq!(seen, 3);
    let (_, seen, _) = send(policy, get(), |_| Err(fail(Origin::Other, "lost")));
    assert_eq!(seen, 1);
}

#[test]
fn any_of_the_conditions_is_enough() {
    let policy = retry::standard()
        .retry_on_statuses(vec![status(500), status(504)])
        .retry_on_statuses(Vec::new())
        .classify_fn(|req_rep: ReqRep<'_>| {
            if req_rep.status().map(|status| status.as_u16()) == Some(404) {
                Action::Retryable
            } else {
                Action::Success
            }
        })
        .classify_fn(|req_rep: ReqRep<'_>| {
            if req_rep.status().map(|status| status.as_u16()) == Some(405) {
                Action::Retryable
            } else {
                Action::Success
            }
        })
        .into_policy();
    for code in [429, 503, 500, 504, 404, 405] {
        assert_eq!(
            policy.retry_kind(&get(), &respond(code)),
            Some(RetryKind::Application),
            "{code}"
        );
    }
    for code in [200, 501, 502] {
        assert_eq!(policy.retry_kind(&get(), &respond(code)), None, "{code}");
    }
    assert_eq!(
        policy.retry_kind(&get(), &Err(refused())),
        Some(RetryKind::TransientTransport)
    );
}

#[test]
fn idempotent_methods_are_retried() {
    let policy = retry::standard().into_policy();
    for name in ["GET", "HEAD", "OPTIONS", "TRACE", "PUT", "DELETE", "QUERY"] {
        assert_eq!(
            policy.retry_kind(&request(name, "http://127.0.0.1/"), &respond(503)),
            Some(RetryKind::Application),
            "{name}"
        );
    }
    for name in ["POST", "PATCH", "CONNECT", "get", "PURGE", "not a method"] {
        assert_eq!(
            policy.retry_kind(&request(name, "http://127.0.0.1/"), &respond(503)),
            None,
            "{name}"
        );
    }
}

#[test]
fn plans_follow_the_limit() {
    let mut policy = retry::standard().max_attempts(2).into_policy();
    assert_eq!(policy.plan(None), Plan::Settle);
    assert_eq!(policy.plan(Some(RetryKind::Application)), Plan::Pay);
    assert_eq!(policy.plan(Some(RetryKind::TransientTransport)), Plan::Resend);
    let budgets = Budgets::new(ExtraLoad::new(0, 0).unwrap());
    let payment = budgets.get(&get()).withdraw();
    assert!(payment.is_ok());
    while budgets.get(&get()).withdraw().is_ok() {}
    let refusal = budgets.get(&get()).withdraw();
    assert!(matches!(
        policy.grant(Duration::from_secs(1), Some(refusal)),
        Verdict::GiveUp(Some(_))
    ));
    assert_eq!(policy.plan(Some(RetryKind::Application)), Plan::Pay);
    match policy.grant(Duration::from_secs(1), Some(payment)) {
        Verdict::Again(retry) => {
            assert_eq!(retry.delay, Delay::Sleep(Duration::from_secs(1)));
            assert!(retry.payment.is_some());
        }
        _ => panic!("the retry was paid for"),
    }
    assert_eq!(policy.plan(None), Plan::Settle);
    assert_eq!(policy.plan(Some(RetryKind::Application)), Plan::GiveUp);
    assert_eq!(policy.plan(Some(RetryKind::TransientTransport)), Plan::GiveUp);
}

#[test]
fn without_a_budget_no_payment_is_due() {
    let mut policy = retry::standard().no_budget().into_policy();
    match policy.grant(Duration::zero(), None) {
        Verdict::Again(retry) => {
            assert_eq!(retry.delay, Delay::Ready);
            assert!(retry.payment.is_none());
        }
        _ => panic!("no payment is due"),
    }
    policy.count(RetryKind::TransientTransport);
    assert_eq!(policy.plan(Some(RetryKind::Application)), Plan::GiveUp);
}

#[test]
fn verdicts_tell_settled_from_given_up() {
    let mut policy = retry::standard().max_attempts(1).into_policy();
    assert!(matches!(
        policy.decide(&get(), &respond(200)),
        Verdict::Settle(Some(_))
    ));
    assert!(matches!(
        policy.decide(&get(), &respond(503)),
        Verdict::GiveUp(None)
    ));
    let mut policy = retry::standard()
        .max_attempts(1_000)
        .max_extra_load(ExtraLoad::new(0, 0).unwrap())
        .backoff(Duration::zero())
        .into_policy();
    for _ in 0..100 {
        assert!(matches!(
            policy.decide(&get(), &respond(503)),
            Verdict::Again(_)
        ));
    }
    assert!(matches!(
        policy.decide(&get(), &respond(503)),
        Verdict::GiveUp(Some(_))
    ));
    let mut policy = retry::standard().no_budget().into_policy();
    assert!(matches!(
        policy.decide(&get(), &respond(200)),
        Verdict::Settle(None)
    ));
    assert!(matches!(
        policy.decide(&get(), &Err(refused())),
        Verdict::Again(_)
    ));
}

#[test]
fn error_codes_are_those_of_the_protocol() {
    assert_eq!(u32::from(h2::Reason::NO_ERROR), NO_ERROR);
    assert_eq!(u32::from(h2::Reason::REFUSED_STREAM), REFUSED_STREAM);
}

#[test]
fn delays_take_the_longer_and_fit_the_deadline() {
    let secs = Duration::from_secs;
    assert_eq!(delay_within(secs(2), None, None), Some(secs(2)));
    assert_eq!(delay_within(secs(2), Some(secs(1)), None), Some(secs(2)));
    assert_eq!(delay_within(secs(2), Some(secs(3)), None), Some(secs(3)));
    assert_eq!(
        delay_within(secs(2), Some(secs(3)), Some(Some(secs(4)))),
        Some(secs(3))
    );
    assert_eq!(
        delay_within(secs(2), Some(secs(4)), Some(Some(secs(4)))),
        Some(secs(4))
    );
    assert_eq!(delay_within(secs(2), Some(secs(5)), Some(Some(secs(4)))), None);
    assert_eq!(delay_within(secs(2), None, Some(None)), None);
    assert_eq!(
        delay_within(secs(0), None, Some(None)),
        Some(Duration::zero())
    );
    assert_eq!(Delay::new(Duration::zero()), Delay::Ready);
    assert_eq!(Delay::new(secs(1)), Delay::Sleep(secs(1)));
}

#[test]
fn passed_deadlines_leave_no_time() {
    let policy = retry::custom()
        .backoff_fn(|_: u32| Duration::from_millis(1))
        .into_policy();
    let mut req = get();
    let now = std::time::Instant::now();
    req.extensions.insert(Deadline(now));
    assert_eq!(policy.delay(&req, None), None);
    req.extensions
        .insert(Deadline(now + std::time::Duration::from_secs(3_600)));
    assert_eq!(policy.delay(&req, None), Some(Duration::from_millis(1)));
}

#[test]
fn deadlines_leave_the_time_until_then() {
    let now = std::time::Instant::now();
    let secs = std::time::Duration::from_secs;
    let deadline = Deadline(now + secs(5));
    assert_eq!(deadline.time_left_at(now), Some(Duration::from_secs(5)));
    assert_eq!(
        deadline.time_left_at(now + secs(2)),
        Some(Duration::from_secs(3))
    );
    assert_eq!(
        deadline.time_left_at(now + secs(5)),
        Some(Duration::zero())
    );
    assert_eq!(deadline.time_left_at(now + secs(6)), None);
    let left = deadline.time_left();
    assert!(left.is_none() || left <= Some(Duration::from_secs(5)));
}

#[test]
fn an_empty_budget_stops_retries() {
    // No extra load, and ten seconds' worth of ten retries per second.
    let policy = retry::custom()
        .retry_on_status(status(503))
        .max_retries_per_request(1_000)
        .max_extra_load(ExtraLoad::new(0, 0).unwrap())
        .backoff(Duration::zero())
        .into_policy();
    let (resp, seen, _) = send(policy.clone(), get(), |_| respond(503));
    assert_eq!(code(&resp), 503);
    assert_eq!(seen, 101);
    // Clones share the budgets.
    let (_, seen, _) = send(policy.clone(), get(), |_| respond(503));
    assert_eq!(seen, 1);
    // Another host has one of its own.
    let (_, seen, _) = send(policy, request("GET", "http://127.0.0.2/"), |_| respond(503));
    assert_eq!(seen, 101);
}

#[test]
fn without_a_budget_only_the_limit_stops_retries() {
    let policy = retry::custom()
        .retry_on_status(status(503))
        .max_retries_per_request(1_000)
        .no_budget()
        .backoff(Duration::zero())
        .into_policy();
    let (_, seen, _) = send(policy, get(), |_| respond(503));
    assert_eq!(seen, 1_001);
}

#[test]
fn a_fifth_of_extra_load_is_allowed_by_default() {
    let policy = retry::custom()
        .retry_on_status(status(503))
        .max_retries_per_request(1_000)
        .backoff(Duration::zero())
        .into_policy();
    let (_, seen, _) = send(policy.clone(), get(), |_| respond(503));
    assert_eq!(seen, 101);
    for _ in 0..10 {
        let (_, seen, _) = send(policy.clone(), get(), |_| respond(200));
        assert_eq!(seen, 1);
    }
    let (_, seen, _) = send(policy, get(), |_| respond(503));
    assert_eq!(seen, 1 + 2);
}

#[test]
fn settled_requests_pay_for_retries() {
    // Each settled request pays for ten retries.
    let mut policy = retry::custom()
        .retry_on_status(status(503))
        .max_retries_per_request(1_000)
        .max_extra_load(ExtraLoad::new(10, 0).unwrap())
        .backoff(Duration::zero())
        .into_policy();
    for _ in 0..10 {
        assert!(policy.retry(&get(), &respond(200)).is_none());
    }
    let (_, seen, _) = send(policy, get(), |_| respond(503));
    assert!(seen > 101, "{seen}");
}
