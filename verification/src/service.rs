//! The services that stand between the protocols and the proxy's own service.
use vstd::prelude::*;

use crate::address::SocketAddr;
use crate::body::{self, Async, BodyStream, HttpBody, OtherError};
use crate::headers::{self, check_connection, strip_connection_headers};
use crate::request::{self, Request, Response, check_request, read_host_authority, reconstruct_uri};
use crate::text;
use crate::uri;

verus! {

/// The status of the response to a request whose target cannot be made absolute.
pub const BAD_REQUEST: u16 = 400;

/// What becomes of a request: it is answered at once, by a response that has a status and nothing
/// else, or it was handed to the service, which has begun to answer it.
pub enum Called<F> {
    Respond(u16),
    Forwarded(F),
}

/// Serves the requests of one HTTP/1 connection.
pub struct HyperServerSvc<S, C> {
    pub service: S,
    pub srv_ctx: C,
}

/// The fields of a request as the service gets them.
pub open spec fn forwarded_entries(
    uri: uri::UriView,
    entries: Map<Seq<char>, Seq<Seq<u8>>>,
) -> Map<Seq<char>, Seq<Seq<u8>>> {
    headers::stripped(request::agreeing_entries(uri, entries))
}

/// `out` is `req` as the service gets it, for which there must be an authority: with that in its
/// target, with the context of its connection, and without the header fields meant for that
/// connection only.
pub open spec fn is_forwarded<C: Clone, A, R>(
    req: Request<C, A>,
    orig_dst: Option<Seq<char>>,
    ctx: C,
    out: Request<C, HttpBody<A, R>>,
) -> bool {
    let entries = headers::header_entries(req.headers);
    &&& request::request_authority(req, orig_dst) is Some
    &&& out.uri@ == request::absolute_target(req.uri@, request::host_authority(entries), orig_dst)
    &&& headers::header_entries(out.headers) == forwarded_entries(req.uri@, entries)
    &&& out.ctx matches Some(c) && cloned(ctx, c)
    &&& out.body == HttpBody::<A, R>::Http1(req.body)
}

/// What a request must meet for `HyperServerSvc::call`: its target can be made absolute and,
/// where there is an authority for it, it can be stripped of what is meant for its connection.
pub open spec fn can_call<C, A>(req: Request<C, A>, orig_dst: Option<Seq<char>>) -> bool {
    let entries = headers::header_entries(req.headers);
    &&& request::request_fits(req.uri@, entries, orig_dst)
    &&& request::request_authority(req, orig_dst) is Some ==> headers::connection_fits(entries)
}

/// Tells whether `HyperServerSvc::call` can be called with a request.
pub fn check_call<C, A>(req: &Request<C, A>, orig_dst: &Option<SocketAddr>) -> (ok: bool)
    ensures
        ok == can_call(*req, request::address_view(*orig_dst)),
{
    if !check_request(req, orig_dst) {
        return false;
    }
    let found: bool = req.uri.authority_part().is_some() || orig_dst.is_some()
        || read_host_authority(&req.headers).is_some();
    !found || check_connection(&req.headers)
}

impl<S, C: Clone> HyperServerSvc<S, C> {
    /// Answers a request. `orig_dst` is the original destination that the context of the
    /// connection gives, unless that is the proxy itself.
    ///
    /// Where no authority can be found for the request it is refused, and `service` is not
    /// called; else it is, with the request, whose target is made absolute and which is stripped
    /// of what is meant for its connection only.
    pub fn call<A, R, Fut, F>(
        &self,
        req: Request<C, A>,
        orig_dst: Option<SocketAddr>,
        service: F,
    ) -> (called: Called<Fut>) where F: FnOnce(&S, Request<C, HttpBody<A, R>>) -> Fut
        requires
            can_call(req, request::address_view(orig_dst)),
            forall|out: Request<C, HttpBody<A, R>>|
                is_forwarded(req, request::address_view(orig_dst), self.srv_ctx, out)
                    ==> #[trigger] service.requires((&self.service, out)),
        ensures
            called matches Called::Respond(status) ==> {
                &&& status == BAD_REQUEST
                &&& request::request_authority(req, request::address_view(orig_dst)) is None
            },
            called is Forwarded ==> {
                &&& request::request_authority(req, request::address_view(orig_dst)) is Some
                &&& exists|out: Request<C, HttpBody<A, R>>, response: Fut| #[trigger]
                    service.ensures((&self.service, out), response) && is_forwarded(
                        req,
                        request::address_view(orig_dst),
                        self.srv_ctx,
                        out,
                    ) && called == Called::Forwarded(response)
            },
    {
        let mut fwd: Request<C, A> = req;
        fwd.ctx = Some(self.srv_ctx.clone());
        if reconstruct_uri(&mut fwd, orig_dst).is_err() {
            return Called::Respond(BAD_REQUEST);
        }
        proof {
            request::lemma_host_key();
        }
        strip_connection_headers(&mut fwd.headers);
        let out: Request<C, HttpBody<A, R>> = Request {
            uri: fwd.uri,
            headers: fwd.headers,
            ctx: fwd.ctx,
            body: HttpBody::Http1(fwd.body),
        };
        Called::Forwarded(service(&self.service, out))
    }

    /// Answers a request, as `call` does, where nothing stands in the way; where something does,
    /// nothing is called.
    pub fn try_call<A, R, Fut, F>(
        &self,
        req: Request<C, A>,
        orig_dst: Option<SocketAddr>,
        service: F,
    ) -> (called: Option<Called<Fut>>) where F: FnOnce(&S, Request<C, HttpBody<A, R>>) -> Fut
        requires
            forall|out: Request<C, HttpBody<A, R>>|
                can_call(req, request::address_view(orig_dst)) && is_forwarded(
                    req,
                    request::address_view(orig_dst),
                    self.srv_ctx,
                    out,
                ) ==> #[trigger] service.requires((&self.service, out)),
        ensures
            called is Some <==> can_call(req, request::address_view(orig_dst)),
            called matches Some(Called::Respond(status)) ==> {
                &&& status == BAD_REQUEST
                &&& request::request_authority(req, request::address_view(orig_dst)) is None
            },
            called matches Some(Called::Forwarded(_)) ==> {
                &&& request::request_authority(req, request::address_view(orig_dst)) is Some
                &&& exists|out: Request<C, HttpBody<A, R>>, response: Fut| #[trigger]
                    service.ensures((&self.service, out), response) && is_forwarded(
                        req,
                        request::address_view(orig_dst),
                        self.srv_ctx,
                        out,
                    ) && called == Some(Called::Forwarded(response))
            },
    {
        if check_call(&req, &orig_dst) {
            Some(self.call(req, orig_dst, service))
        } else {
            None
        }
    }
}

/// Answers the service's response: it goes out without the header fields meant for the
/// connection that it came by, and an error of the service becomes an I/O error.
pub fn reply<B, E>(result: Result<Response<B>, E>) -> (reply: Result<
    Response<BodyStream<B>>,
    OtherError,
>)
    requires
        result matches Ok(res) ==> headers::connection_fits(headers::header_entries(res.headers)),
    ensures
        match (result, reply) {
            (Ok(res), Ok(out)) => {
                &&& out.status == res.status
                &&& headers::header_entries(out.headers) == headers::stripped(
                    headers::header_entries(res.headers),
                )
                &&& out.body.0 == res.body
            },
            (Err(_), Err(e)) => e.says(None),
            _ => false,
        },
{
    match result {
        Ok(res) => {
            let mut headers: http::HeaderMap = res.headers;
            strip_connection_headers(&mut headers);
            Ok(Response { status: res.status, headers, body: BodyStream(res.body) })
        },
        Err(_) => Err(OtherError { message: None }),
    }
}

/// Answers the service's response, as `reply` does, where its header fields allow it.
pub fn try_reply<B, E>(result: Result<Response<B>, E>) -> (replied: Option<
    Result<Response<BodyStream<B>>, OtherError>,
>)
    ensures
        replied is None <==> (result matches Ok(res) && !headers::connection_fits(
            headers::header_entries(res.headers),
        )),
        replied matches Some(reply) ==> match (result, reply) {
            (Ok(res), Ok(out)) => {
                &&& out.status == res.status
                &&& headers::header_entries(out.headers) == headers::stripped(
                    headers::header_entries(res.headers),
                )
                &&& out.body.0 == res.body
            },
            (Err(_), Err(e)) => e.says(None),
            _ => false,
        },
{
    if let Ok(res) = &result {
        if !check_connection(&res.headers) {
            return None;
        }
    }
    Some(reply(result))
}

/// Serves requests that came by HTTP/2 with a service for requests of either protocol.
pub struct HttpBodyService<S> {
    pub service: S,
}

impl<S> HttpBodyService<S> {
    /// The service for one connection, once the service that it hands requests to was made.
    pub fn made<E>(made: Result<S, E>) -> (service: Result<HttpBodyService<S>, E>)
        ensures
            match (made, service) {
                (Ok(s), Ok(out)) => out.service == s,
                (Err(e), Err(out)) => out == e,
                _ => false,
            },
    {
        match made {
            Ok(service) => Ok(HttpBodyService { service }),
            Err(e) => Err(e),
        }
    }

    /// Whether the service is ready for a request, as `poll_ready` tells of it.
    pub fn poll_ready<E, F>(&mut self, poll_ready: F) -> (polled: Result<Async<()>, E>) where
        F: FnOnce(&mut S) -> Result<Async<()>, E>,

        requires
            body::can_run(poll_ready, old(self).service),
        ensures
            exists|place: &mut S| #[trigger]
                poll_ready.ensures((place,), polled) && *place == old(self).service && *final(place)
                    == final(self).service,
    {
        poll_ready(&mut self.service)
    }

    /// Hands a request to the service, its body marked as one that came by HTTP/2.
    pub fn call<C, A, R, Fut, F>(&mut self, req: Request<C, R>, service: F) -> (response: Fut) where
        F: FnOnce(&mut S, Request<C, HttpBody<A, R>>) -> Fut,

        requires
            forall|place: &mut S, out: Request<C, HttpBody<A, R>>|
                *place == old(self).service && is_marked(req, out) ==> #[trigger] service.requires(
                    (place, out),
                ),
        ensures
            exists|place: &mut S, out: Request<C, HttpBody<A, R>>| #[trigger]
                service.ensures((place, out), response) && *place == old(self).service
                    && *final(place) == final(self).service && is_marked(req, out),
    {
        let out: Request<C, HttpBody<A, R>> = Request {
            uri: req.uri,
            headers: req.headers,
            ctx: req.ctx,
            body: HttpBody::Http2(req.body),
        };
        service(&mut self.service, out)
    }
}

/// `out` is `req` with its body marked as one that came by HTTP/2.
pub open spec fn is_marked<C, A, R>(req: Request<C, R>, out: Request<C, HttpBody<A, R>>) -> bool {
    &&& out.uri == req.uri
    &&& out.headers == req.headers
    &&& out.ctx == req.ctx
    &&& out.body == HttpBody::<A, R>::Http2(req.body)
}

/// Makes the services for the requests of HTTP/2 connections.
pub struct HttpBodyNewService<N> {
    pub new_service: N,
}

impl<N: Clone> Clone for HttpBodyNewService<N> {
    fn clone(&self) -> (copy: HttpBodyNewService<N>)
        ensures
            cloned(self.new_service, copy.new_service),
    {
        HttpBodyNewService { new_service: self.new_service.clone() }
    }
}

impl<N> HttpBodyNewService<N> {
    /// Begins to make the service for one connection, as `start` does.
    pub fn new_service<Fut, F: FnOnce(&N) -> Fut>(&self, start: F) -> (starting: Fut)
        requires
            start.requires((&self.new_service,)),
        ensures
            start.ensures((&self.new_service,), starting),
    {
        start(&self.new_service)
    }
}

/// A request that reaches the service has an authority in its target, carries no `Connection`
/// field, and carries none of the fields that this one lists.
pub proof fn law_forwarded_request<C: Clone, A, R>(
    req: Request<C, A>,
    orig_dst: Option<Seq<char>>,
    ctx: C,
    out: Request<C, HttpBody<A, R>>,
    key: Seq<char>,
)
    requires
        is_forwarded(req, orig_dst, ctx, out),
    ensures
        out.uri@.authority is Some,
        out.uri@.authority == request::request_authority(req, orig_dst),
        !headers::header_entries(out.headers).contains_key(headers::connection()),
        headers::connection_fields(headers::header_entries(req.headers)).contains(key)
            ==> !headers::header_entries(out.headers).contains_key(key),
{
    request::lemma_host_key();
}

/// A request that reaches the service says the same in its target and in its `Host` field,
/// where either gave its authority, unless its `Connection` field lists `Host`.
pub proof fn law_forwarded_host_agrees<C: Clone, A, R>(
    req: Request<C, A>,
    orig_dst: Option<Seq<char>>,
    ctx: C,
    out: Request<C, HttpBody<A, R>>,
)
    requires
        is_forwarded(req, orig_dst, ctx, out),
        req.uri@.authority is Some || request::host_authority(
            headers::header_entries(req.headers),
        ) is Some,
        !headers::connection_fields(headers::header_entries(req.headers)).contains(
            request::host(),
        ),
    ensures
        headers::header_entries(out.headers).contains_key(request::host()),
        out.uri@.authority matches Some(authority) && headers::header_entries(
            out.headers,
        )[request::host()][0] == text::bytes_of(authority),
{
    let entries = headers::header_entries(req.headers);
    request::lemma_host_key();
    if req.uri@.authority is None {
        request::law_target_agrees_with_host(req.uri@, entries, orig_dst);
    }
    let agreeing = request::agreeing_entries(req.uri@, entries);
    assert(headers::connection_fields(agreeing) == headers::connection_fields(entries));
    headers::law_other_fields_remain(agreeing, request::host());
}

/// A request that came by HTTP/2 reaches the service as it came, its body marked as such.
pub proof fn law_marked_request_is_the_request<C, A, R>(
    req: Request<C, R>,
    out: Request<C, HttpBody<A, R>>,
)
    ensures
        is_marked(req, out) ==> {
            &&& out.uri@ == req.uri@
            &&& headers::header_entries(out.headers) == headers::header_entries(req.headers)
            &&& out.ctx == req.ctx
            &&& out.body matches HttpBody::Http2(body) && body == req.body
        },
        out.uri == req.uri && out.headers == req.headers && out.ctx == req.ctx && (
        out.body matches HttpBody::Http2(body) && body == req.body) ==> is_marked(req, out),
{
}

/// A request that reaches the service over HTTP/1 has the body that it came with, marked as such,
/// and the context of its connection. Of its fields other than `Host`, just `Connection` and
/// those that stand in it between commas are gone, and the others have all their values.
pub proof fn law_forwarded_request_is_the_request<C: Clone, A, R>(
    req: Request<C, A>,
    orig_dst: Option<Seq<char>>,
    ctx: C,
    out: Request<C, HttpBody<A, R>>,
    key: Seq<char>,
)
    requires
        is_forwarded(req, orig_dst, ctx, out),
        headers::is_map_name(key),
        key != "host"@,
    ensures
        out.body matches HttpBody::Http1(body) && body == req.body,
        out.ctx matches Some(c) && cloned(ctx, c),
        ({
            let before = headers::header_entries(req.headers);
            let after = headers::header_entries(out.headers);
            let value = before["connection"@][0];
            let goes = before.contains_key("connection"@) && (key == "connection"@ || ((forall|
                k: int,
            |
                0 <= k < value.len() ==> 32 <= #[trigger] value[k] <= 126 || value[k] == 9)
                && exists|i: int, a: int, b: int, j: int| #[trigger]
                headers::stands_in_list(value, i, a, b, j) && headers::spells(value, a, b, key)));
            &&& after.contains_key(key) <==> before.contains_key(key) && !goes
            &&& after.contains_key(key) ==> after[key] == before[key]
        }),
{
    request::lemma_host_key();
    headers::law_just_the_listed_fields_go(
        request::agreeing_entries(req.uri@, headers::header_entries(req.headers)),
        key,
    );
}

/// The target of a request that reaches the service: its own where it came with an authority;
/// else one over HTTP with the path and query that it came with, at the authority of its `Host`
/// field, however long that is, and at the original destination only where the field gives none.
pub proof fn law_forwarded_target<C: Clone, A, R>(
    req: Request<C, A>,
    orig_dst: Option<Seq<char>>,
    ctx: C,
    out: Request<C, HttpBody<A, R>>,
)
    requires
        is_forwarded(req, orig_dst, ctx, out),
    ensures
        req.uri@.authority is Some ==> out.uri@ == req.uri@,
        req.uri@.authority is None ==> {
            let entries = headers::header_entries(req.headers);
            let value = entries["host"@][0];
            let text = Seq::new(value.len(), |k: int| value[k] as char);
            let given = entries.contains_key("host"@) && value.len() > 0 && (forall|k: int|
                0 <= k < value.len() ==> 32 <= #[trigger] value[k] <= 126 || value[k] == 9)
                && uri::parses_as_authority(text);
            &&& given ==> out.uri@.authority == Some(text)
            &&& !given ==> orig_dst is Some && out.uri@.authority == orig_dst
            &&& out.uri@.scheme == Some("http"@)
            &&& out.uri@.path_and_query == req.uri@.path_and_query
        },
{
    if req.uri@.authority is None {
        let entries = headers::header_entries(req.headers);
        let value = entries["host"@][0];
        let text = Seq::new(value.len(), |k: int| value[k] as char);
        let visible = forall|k: int|
            0 <= k < value.len() ==> 32 <= #[trigger] value[k] <= 126 || value[k] == 9;
        if entries.contains_key("host"@) && value.len() > 0 && visible && uri::parses_as_authority(
            text,
        ) {
            request::law_host_field_decides(req, orig_dst, value, text);
        } else {
            request::law_original_destination_is_the_last_resort(req, orig_dst);
        }
    } else {
        request::law_precedence_of_authorities(
            req.uri@,
            request::host_authority(headers::header_entries(req.headers)),
            orig_dst,
        );
    }
}

/// What answering a request needs, and nothing else: what making its target absolute needs and,
/// where an authority is found, what stripping it needs.
pub proof fn law_what_answering_needs<C, A>(req: Request<C, A>, orig_dst: Option<Seq<char>>)
    ensures
        ({
            let entries = headers::header_entries(req.headers);
            let fits = request::request_fits(req.uri@, entries, orig_dst);
            let found = req.uri@.authority is Some || orig_dst is Some || request::host_authority(
                entries,
            ) is Some;
            can_call(req, orig_dst) <==> fits && (found ==> headers::connection_fits(entries))
        }),
{
}

/// The `Host` field of a request that reaches the service over HTTP/1: gone where `Connection`
/// lists it, else as it came where the target came without an authority, and saying the target's
/// authority where it came with one.
pub proof fn law_forwarded_host_field<C: Clone, A, R>(
    req: Request<C, A>,
    orig_dst: Option<Seq<char>>,
    ctx: C,
    out: Request<C, HttpBody<A, R>>,
    said: Seq<u8>,
)
    requires
        is_forwarded(req, orig_dst, ctx, out),
        req.uri@.authority matches Some(a) ==> said.len() == a.len() && forall|k: int|
            0 <= k < said.len() ==> #[trigger] said[k] == a[k] as u8,
    ensures
        ({
            let before = headers::header_entries(req.headers);
            let after = headers::header_entries(out.headers);
            let value = before["connection"@][0];
            let goes = before.contains_key("connection"@) && (forall|k: int|
                0 <= k < value.len() ==> 32 <= #[trigger] value[k] <= 126 || value[k] == 9)
                && exists|i: int, a: int, b: int, j: int| #[trigger]
                headers::stands_in_list(value, i, a, b, j) && headers::spells(
                    value,
                    a,
                    b,
                    "host"@,
                );
            let given = req.uri@.authority is Some;
            &&& after.contains_key("host"@) <==> (given || before.contains_key("host"@)) && !goes
            &&& after.contains_key("host"@) && !given ==> after["host"@] == before["host"@]
            &&& after.contains_key("host"@) && given ==> after["host"@] == if before.contains_key(
                "host"@,
            ) && before["host"@][0] == said {
                before["host"@]
            } else {
                seq![said]
            }
        }),
{
    let before = headers::header_entries(req.headers);
    request::lemma_host_key();
    reveal_strlit("host");
    headers::law_just_the_listed_fields_go(
        request::agreeing_entries(req.uri@, before),
        "host"@,
    );
    if let Some(a) = req.uri@.authority {
        request::law_own_authority_decides(req, orig_dst, a, said, "connection"@);
    }
}

} // verus!
