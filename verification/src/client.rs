//! Clients of endpoints, whichever protocol these speak.
//!
//! What an HTTP/1 or an HTTP/2 client does is done by functions that the caller hands in; what
//! is decided here is which one runs, what it gets, and what is made of its outcome.
use vstd::prelude::*;

use crate::bind;
use crate::body::{self, Async, BodyStream, HttpBody, OtherError, StreamError, internal_error};
use crate::headers;
use crate::request::{Request, Response};
use crate::uri::Uri;

verus! {

/// Makes the connections of an HTTP/1 client, always to the one endpoint.
pub struct HyperConnect<C> {
    pub connect: C,
}

/// What is said of a connection that could not be made.
pub open spec fn connect_failure() -> Seq<char> {
    "blah"@
}

impl<C> HyperConnect<C> {
    /// Makes a connection with `connect`, wherever the URI points.
    pub fn call<Fut, F: FnOnce(&C) -> Fut>(&self, _uri: &Uri, connect: F) -> (connecting: Fut)
        requires
            connect.requires((&self.connect,)),
        ensures
            connect.ensures((&self.connect,), connecting),
    {
        connect(&self.connect)
    }
}

/// Turns the failure of a connection into an I/O error.
pub fn connected<T, E>(result: Result<T, E>) -> (io: Result<T, OtherError>)
    ensures
        match (result, io) {
            (Ok(c), Ok(out)) => out == c,
            (Err(_), Err(e)) => e.says(Some(connect_failure())),
            _ => false,
        },
{
    match result {
        Ok(c) => Ok(c),
        Err(_) => Err(OtherError { message: Some("blah".to_owned()) }),
    }
}

/// What an HTTP/1 client is built of.
pub struct H1Config<C, E> {
    pub connector: HyperConnect<C>,
    pub executor: E,
}

/// What an HTTP/2 client is built of.
pub struct H2Config<C, E> {
    pub connect: C,
    pub enable_push: bool,
    pub executor: E,
}

/// The client of an endpoint.
pub enum Client<H1, H2> {
    Http1(H1),
    Http2(H2),
}

/// Of a service that is being made: the service, or what gives one in time.
pub enum Started<S, F> {
    Ready(S),
    Pending(F),
}

impl<C, E> Client<H1Config<C, E>, H2Config<C, E>> {
    /// What the client of an endpoint with this protocol is built of. An HTTP/2 client takes no
    /// pushed responses.
    pub fn new(protocol: bind::Protocol, connect: C, executor: E) -> (client: Self)
        ensures
            client == (match protocol {
                bind::Protocol::Http1 => Client::Http1(
                    H1Config { connector: HyperConnect { connect }, executor },
                ),
                bind::Protocol::Http2 => Client::Http2(
                    H2Config { connect, enable_push: false, executor },
                ),
            }),
    {
        match protocol {
            bind::Protocol::Http1 => Client::Http1(
                H1Config { connector: HyperConnect { connect }, executor },
            ),
            bind::Protocol::Http2 => Client::Http2(
                H2Config { connect, enable_push: false, executor },
            ),
        }
    }
}

impl<H1: Clone, H2> Client<H1, H2> {
    /// Makes a service of the client. Over HTTP/1 it is there at once, and shares the client;
    /// over HTTP/2 it takes a connection of its own, which `connect` begins to make.
    pub fn new_service<S, Fut, F>(&self, connect: F) -> (started: Started<
        ClientService<H1, S>,
        Fut,
    >) where F: FnOnce(&H2) -> Fut
        requires
            *self matches Client::Http2(h2) ==> connect.requires((&h2,)),
        ensures
            match (*self, started) {
                (Client::Http1(h1), Started::Ready(ClientService::Http1(shared))) => cloned(
                    h1,
                    shared,
                ),
                (Client::Http2(h2), Started::Pending(connecting)) => connect.ensures(
                    (&h2,),
                    connecting,
                ),
                _ => false,
            },
    {
        match self {
            Client::Http1(h1) => Started::Ready(ClientService::Http1(h1.clone())),
            Client::Http2(h2) => Started::Pending(connect(h2)),
        }
    }
}

/// The service that sends requests to an endpoint.
pub enum ClientService<H1, H2> {
    Http1(H1),
    Http2(H2),
}

/// `out` is `req` with its body made ready to be sent over HTTP/1.
pub open spec fn is_streamed<C, B>(req: Request<C, B>, out: Request<C, BodyStream<B>>) -> bool {
    &&& out.uri == req.uri
    &&& out.headers == req.headers
    &&& out.ctx == req.ctx
    &&& out.body.0 == req.body
}

impl<H1, H2> ClientService<H1, H2> {
    /// The service of an HTTP/2 connection, once that was made.
    pub fn http2<E>(connected: Result<H2, E>) -> (service: Result<ClientService<H1, H2>, E>)
        ensures
            match (connected, service) {
                (Ok(h2), Ok(s)) => s == ClientService::<H1, H2>::Http2(h2),
                (Err(e), Err(out)) => out == e,
                _ => false,
            },
    {
        match connected {
            Ok(h2) => Ok(ClientService::Http2(h2)),
            Err(e) => Err(e),
        }
    }

    /// Whether the service is ready for a request: over HTTP/1 always, over HTTP/2 as
    /// `poll_ready` tells.
    pub fn poll_ready<E, F>(&mut self, poll_ready: F) -> (polled: Result<Async<()>, E>) where
        F: FnOnce(&mut H2) -> Result<Async<()>, E>,

        requires
            *old(self) matches ClientService::Http2(h2) ==> body::can_run(poll_ready, h2),
        ensures
            match (*old(self), *final(self)) {
                (ClientService::Http1(h1), ClientService::Http1(after)) => after == h1 && polled
                    == Ok::<Async<()>, E>(Async::Ready(())),
                (ClientService::Http2(h2), ClientService::Http2(after)) => exists|
                    place: &mut H2,
                | #[trigger]
                    poll_ready.ensures((place,), polled) && *place == h2 && *final(place) == after,
                _ => false,
            },
    {
        match self {
            ClientService::Http1(_) => Ok(Async::Ready(())),
            ClientService::Http2(h2) => poll_ready(h2),
        }
    }

    /// Sends a request with the function for the protocol of the service.
    pub fn call<C, B, R1, R2, F1, F2>(&mut self, req: Request<C, B>, h1: F1, h2: F2) -> (response:
        ClientServiceFuture<R1, R2>) where
        F1: FnOnce(&H1, Request<C, BodyStream<B>>) -> R1,
        F2: FnOnce(&mut H2, Request<C, B>) -> R2,

        requires
            match *old(self) {
                ClientService::Http1(client) => forall|out: Request<C, BodyStream<B>>|
                    is_streamed(req, out) ==> #[trigger] h1.requires((&client, out)),
                ClientService::Http2(client) => forall|place: &mut H2|
                    *place == client ==> #[trigger] h2.requires((place, req)),
            },
        ensures
            *old(self) matches ClientService::Http1(client) ==> {
                &&& *final(self) == *old(self)
                &&& exists|out: Request<C, BodyStream<B>>, r: R1| #[trigger]
                    h1.ensures((&client, out), r) && is_streamed(req, out) && response
                        == ClientServiceFuture::<R1, R2>::Http1(r)
            },
            *old(self) matches ClientService::Http2(client) ==> {
                &&& *final(self) matches ClientService::Http2(after)
                &&& exists|place: &mut H2, r: R2| #[trigger]
                    h2.ensures((place, req), r) && *place == client && *final(place) == after
                        && response == ClientServiceFuture::<R1, R2>::Http2(r)
            },
    {
        match self {
            ClientService::Http1(client) => {
                let out: Request<C, BodyStream<B>> = Request {
                    uri: req.uri,
                    headers: req.headers,
                    ctx: req.ctx,
                    body: BodyStream(req.body),
                };
                ClientServiceFuture::Http1(h1(client, out))
            },
            ClientService::Http2(client) => ClientServiceFuture::Http2(h2(client, req)),
        }
    }
}

/// A response on its way.
pub enum ClientServiceFuture<F1, F2> {
    Http1(F1),
    Http2(F2),
}

/// `out` is `res` with the given body.
pub open spec fn is_mapped<A, B>(res: Response<A>, body: B, out: Response<B>) -> bool {
    &&& out.status == res.status
    &&& out.headers == res.headers
    &&& out.body == body
}

impl<F1, F2> ClientServiceFuture<F1, F2> {
    /// Polls for the response. It comes with its body marked by the protocol that it came by.
    /// An error of an HTTP/1 client becomes a reset for an internal error; one of an HTTP/2
    /// client is passed on.
    pub fn poll<B1, B2, E1, E2, P1, P2>(&mut self, h1: P1, h2: P2) -> (polled: Result<
        Async<Response<HttpBody<B1, B2>>>,
        StreamError<E2>,
    >) where
        P1: FnOnce(&mut F1) -> Result<Async<Response<B1>>, E1>,
        P2: FnOnce(&mut F2) -> Result<Async<Response<B2>>, E2>,

        requires
            match *old(self) {
                ClientServiceFuture::Http1(f) => body::can_run(h1, f),
                ClientServiceFuture::Http2(f) => body::can_run(h2, f),
            },
        ensures
            match (*old(self), *final(self)) {
                (ClientServiceFuture::Http1(f), ClientServiceFuture::Http1(after)) => exists|
                    place: &mut F1,
                    out: Result<Async<Response<B1>>, E1>,
                | #[trigger]
                    h1.ensures((place,), out) && *place == f && *final(place) == after && match (
                        out,
                        polled,
                    ) {
                        (Ok(Async::Ready(res)), Ok(Async::Ready(mapped))) => is_mapped(
                            res,
                            HttpBody::<B1, B2>::Http1(res.body),
                            mapped,
                        ),
                        (Ok(Async::NotReady), Ok(Async::NotReady)) => true,
                        (Err(_), Err(e)) => e == StreamError::<E2>::Reset(
                            body::INTERNAL_ERROR,
                        ),
                        _ => false,
                    },
                (ClientServiceFuture::Http2(f), ClientServiceFuture::Http2(after)) => exists|
                    place: &mut F2,
                    out: Result<Async<Response<B2>>, E2>,
                | #[trigger]
                    h2.ensures((place,), out) && *place == f && *final(place) == after && match (
                        out,
                        polled,
                    ) {
                        (Ok(Async::Ready(res)), Ok(Async::Ready(mapped))) => is_mapped(
                            res,
                            HttpBody::<B1, B2>::Http2(res.body),
                            mapped,
                        ),
                        (Ok(Async::NotReady), Ok(Async::NotReady)) => true,
                        (Err(e2), Err(e)) => e == StreamError::<E2>::Inner(e2),
                        _ => false,
                    },
                _ => false,
            },
    {
        match self {
            ClientServiceFuture::Http1(f) => match h1(f) {
                Ok(Async::Ready(res)) => Ok(
                    Async::Ready(
                        Response {
                            status: res.status,
                            headers: res.headers,
                            body: HttpBody::Http1(res.body),
                        },
                    ),
                ),
                Ok(Async::NotReady) => Ok(Async::NotReady),
                Err(_) => Err(StreamError::Reset(internal_error())),
            },
            ClientServiceFuture::Http2(f) => match h2(f) {
                Ok(Async::Ready(res)) => Ok(
                    Async::Ready(
                        Response {
                            status: res.status,
                            headers: res.headers,
                            body: HttpBody::Http2(res.body),
                        },
                    ),
                ),
                Ok(Async::NotReady) => Ok(Async::NotReady),
                Err(e) => Err(StreamError::Inner(e)),
            },
        }
    }
}

/// What the HTTP/1 client is given is the request: its target with scheme, authority, path and
/// query, its header fields, its context and its body, and nothing else is.
pub proof fn law_sent_request_is_the_request<C, B>(
    req: Request<C, B>,
    out: Request<C, BodyStream<B>>,
)
    ensures
        is_streamed(req, out) ==> {
            &&& out.uri@ == req.uri@
            &&& out.uri@.scheme == req.uri@.scheme
            &&& out.uri@.authority == req.uri@.authority
            &&& out.uri@.path_and_query == req.uri@.path_and_query
            &&& headers::header_entries(out.headers) == headers::header_entries(req.headers)
            &&& out.ctx == req.ctx
            &&& out.body.0 == req.body
        },
        out.uri == req.uri && out.headers == req.headers && out.ctx == req.ctx && out.body.0
            == req.body ==> is_streamed(req, out),
{
}

/// A response that is passed on is the response: its status and its header fields, with the body
/// that is given.
pub proof fn law_passed_on_response_is_the_response<A, B>(
    res: Response<A>,
    body: B,
    out: Response<B>,
)
    ensures
        is_mapped(res, body, out) ==> {
            &&& out.status == res.status
            &&& headers::header_entries(out.headers) == headers::header_entries(res.headers)
            &&& out.body == body
        },
        out.status == res.status && out.headers == res.headers && out.body == body ==> is_mapped(
            res,
            body,
            out,
        ),
{
}

} // verus!
