use courier::error::Error;
use courier::message::{Body, Method, Request, Response, StatusCode, Uri, Version};
use courier::middleware::{Client, Middleware, Next, Passed};
use std::sync::atomic::{AtomicUsize, Ordering};
use std::sync::Arc;

type Reply = Result<Response, Error>;

/// A server that answers with these statuses, and then with the last of them.
struct Server {
    statuses: Vec<u16>,
    token: Option<&'static str>,
    seen: AtomicUsize,
}

impl Server {
    fn new(statuses: Vec<u16>, token: Option<&'static str>) -> Arc<Server> {
        Arc::new(Server {
            statuses,
            token,
            seen: AtomicUsize::new(0),
        })
    }

    fn serve(&self, req: Request) -> Reply {
        if let Some(token) = self.token {
            assert_eq!(req.headers["x-token"], token);
        }
        let n = self.seen.fetch_add(1, Ordering::SeqCst);
        let code = self.statuses[n.min(self.statuses.len() - 1)];
        Ok(Response {
            status: StatusCode::from_u16(code).unwrap(),
            version: Version::Http11,
            headers: http::HeaderMap::new(),
        })
    }
}

enum Step {
    Header(&'static str, &'static str),
    /// Resends once after a 401, as an auth middleware that refreshes a token
    /// does.
    RetryUnauthorized,
    Reject,
}

struct Layer(Step, Arc<Server>);

fn pass(next: Next<Layer>, req: Request, server: &Server) -> Reply {
    match next.run(req) {
        Passed::Handled(reply) => reply,
        Passed::Send(req) => server.serve(req),
    }
}

impl Middleware for Layer {
    type Reply = Reply;

    fn handle(&self, mut req: Request, next: Next<Layer>) -> Reply {
        match self.0 {
            Step::Header(name, value) => {
                // Keep a header set by an earlier middleware.
                if !req.headers.contains_key(name) {
                    req.headers.insert(name, value.parse().unwrap());
                }
                pass(next, req, &self.1)
            }
            Step::RetryUnauthorized => {
                let retry = req
                    .try_clone()
                    .ok_or_else(|| Error::middleware("body not cloneable"))?;
                let resp = pass(next.clone(), req, &self.1)?;
                if resp.status.as_u16() == 401 {
                    return pass(next, retry, &self.1);
                }
                Ok(resp)
            }
            Step::Reject => Err(Error::middleware("rejected")),
        }
    }
}

fn send(steps: Vec<Step>, body: Body, server: &Arc<Server>) -> Reply {
    let layers = steps
        .into_iter()
        .map(|step| Arc::new(Layer(step, server.clone())))
        .collect();
    let req = Request {
        method: Method::new("POST"),
        uri: Uri::parse("http://127.0.0.1:1").unwrap(),
        version: Version::Http11,
        headers: http::HeaderMap::new(),
        extensions: http::Extensions::new(),
        body,
    };
    pass(Next::new(Client::new(layers)), req, server)
}

#[test]
fn middleware_runs_in_the_order_added() {
    let server = Server::new(vec![200], Some("first"));
    let resp = send(
        vec![
            Step::Header("x-token", "first"),
            Step::Header("x-token", "second"),
        ],
        Body::empty(),
        &server,
    )
    .unwrap();
    assert_eq!(resp.status.as_u16(), 200);
    assert_eq!(server.seen.load(Ordering::SeqCst), 1);
}

#[test]
fn middleware_can_send_a_request_twice() {
    let server = Server::new(vec![401, 200], None);
    let resp = send(
        vec![Step::RetryUnauthorized],
        Body::Reusable("payload".as_bytes().to_vec()),
        &server,
    )
    .unwrap();
    assert_eq!(resp.status.as_u16(), 200);
    assert_eq!(server.seen.load(Ordering::SeqCst), 2);
}

#[test]
fn middleware_error_is_returned_without_sending() {
    let server = Server::new(vec![200], None);
    let err = send(vec![Step::Reject], Body::empty(), &server)
        .err()
        .unwrap();
    assert!(err.is_middleware());
    assert_eq!(server.seen.load(Ordering::SeqCst), 0);
}

#[test]
fn middleware_cannot_resend_a_stream() {
    let server = Server::new(vec![401, 200], None);
    let err = send(vec![Step::RetryUnauthorized], Body::Streaming(1), &server)
        .err()
        .unwrap();
    assert!(err.is_middleware());
    assert_eq!(
        err.source().unwrap().to_string(),
        "body not cloneable"
    );
}

#[test]
fn without_middleware_the_request_is_sent() {
    let client: Client<Layer> = Client::new(Vec::new());
    assert!(client.middleware(0).is_none());
    let server = Server::new(vec![204], None);
    let resp = send(Vec::new(), Body::empty(), &server).unwrap();
    assert_eq!(resp.status.as_u16(), 204);
}

#[test]
fn later_middleware_sees_what_earlier_ones_did() {
    let server = Server::new(vec![401, 200], Some("one"));
    let resp = send(
        vec![Step::Header("x-token", "one"), Step::RetryUnauthorized],
        Body::empty(),
        &server,
    )
    .unwrap();
    assert_eq!(resp.status.as_u16(), 200);
    assert_eq!(server.seen.load(Ordering::SeqCst), 2);
}
