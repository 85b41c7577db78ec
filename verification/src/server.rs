//! Accepting connections: what is done with one is decided by the protocol that its first bytes
//! show, and by where it was going before it was redirected to the proxy.
use vstd::prelude::*;

use crate::address::SocketAddr;
use crate::protocol::{self, Protocol};
use crate::request::Request;
use crate::service::{HttpBodyNewService, HyperServerSvc};

verus! {

/// The number of bytes by which the protocol of a connection is told.
pub const SNIFF_LEN: usize = 32;

/// How long connecting to the original destination may take, in milliseconds.
pub const CONNECT_TIMEOUT_MS: u64 = 300;

/// What a connection is recorded as.
#[derive(Clone, Copy, Debug, PartialEq, Eq, Structural)]
pub enum Transport {
    Tcp,
    Http,
}

/// What is known of a connection that was accepted.
pub struct ServerCtx<P> {
    pub proxy: P,
    pub local: SocketAddr,
    pub remote: SocketAddr,
    pub orig_dst: Option<SocketAddr>,
    pub protocol: Transport,
}

/// What is known of a connection that is made.
pub struct ClientCtx<P> {
    pub proxy: P,
    pub remote: SocketAddr,
    pub protocol: Transport,
}

/// Serves HTTP/2 connections.
pub struct H2Server<S, E> {
    pub new_service: HttpBodyNewService<S>,
    pub executor: E,
}

/// Serves the connections that the proxy accepts.
pub struct Server<S, E, G, P, T> {
    pub executor: E,
    pub get_orig_dst: G,
    pub h2: H2Server<S, E>,
    pub listen_addr: SocketAddr,
    pub new_service: S,
    pub proxy_ctx: P,
    pub sensors: T,
}

/// A connection that was accepted and whose first `SNIFF_LEN` bytes are to be looked at.
pub struct Accepted<P> {
    pub proxy: P,
    pub local: SocketAddr,
    pub remote: SocketAddr,
    pub orig_dst: Option<SocketAddr>,
}

/// What is done with a connection, which is recorded with its context first.
pub enum Routed<P> {
    /// It is closed.
    Close { srv_ctx: ServerCtx<P> },
    /// A connection is made to the remote address of `client_ctx`, given up after `timeout_ms`,
    /// and what arrives on either is copied to the other.
    Forward { srv_ctx: ServerCtx<P>, client_ctx: ClientCtx<P>, timeout_ms: u64 },
    /// Its requests are served over HTTP/1, by a new service.
    Http1 { srv_ctx: ServerCtx<P> },
    /// Its requests are served over HTTP/2.
    Http2 { srv_ctx: ServerCtx<P> },
}

impl<S: Clone, E: Clone, G, P, T> Server<S, E, G, P, T> {
    /// A server of connections to `listen_addr`, whose requests `stack` makes services for.
    pub fn new(
        listen_addr: SocketAddr,
        proxy_ctx: P,
        sensors: T,
        get_orig_dst: G,
        stack: S,
        executor: E,
    ) -> (server: Self)
        ensures
            cloned(executor, server.executor),
            server.get_orig_dst == get_orig_dst,
            cloned(stack, server.h2.new_service.new_service),
            server.h2.executor == executor,
            server.listen_addr == listen_addr,
            server.new_service == stack,
            server.proxy_ctx == proxy_ctx,
            server.sensors == sensors,
    {
        let recv_body_svc: HttpBodyNewService<S> = HttpBodyNewService {
            new_service: stack.clone(),
        };
        Server {
            executor: executor.clone(),
            get_orig_dst,
            h2: H2Server { new_service: recv_body_svc, executor },
            listen_addr,
            new_service: stack,
            proxy_ctx,
            sensors,
        }
    }
}

impl<S, E, G, P: Clone, T> Server<S, E, G, P, T> {
    /// Takes on a connection from `remote_addr`. `local_addr` is the address it arrived at, if
    /// that is known, and `orig_dst` the one it was going to before it was redirected, if it was.
    pub fn serve(
        &self,
        local_addr: Option<SocketAddr>,
        remote_addr: SocketAddr,
        orig_dst: Option<SocketAddr>,
    ) -> (accepted: Accepted<P>)
        ensures
            cloned(self.proxy_ctx, accepted.proxy),
            accepted.local == (match local_addr {
                Some(addr) => addr,
                None => self.listen_addr,
            }),
            accepted.remote == remote_addr,
            accepted.orig_dst == orig_dst,
    {
        let local: SocketAddr = match local_addr {
            Some(addr) => addr,
            None => self.listen_addr.clone(),
        };
        Accepted { proxy: self.proxy_ctx.clone(), local, remote: remote_addr, orig_dst }
    }
}

impl<P> Accepted<P> {
    /// The context of this connection.
    pub open spec fn ctx(self, protocol: Transport) -> ServerCtx<P> {
        ServerCtx {
            proxy: self.proxy,
            local: self.local,
            remote: self.remote,
            orig_dst: self.orig_dst,
            protocol,
        }
    }
}

/// `routed` is what is done with a connection of the given protocol.
pub open spec fn is_routed<P: Clone>(
    accepted: Accepted<P>,
    protocol: Protocol,
    routed: Routed<P>,
) -> bool {
    match protocol {
        Protocol::Tcp => match accepted.orig_dst {
            Some(dst) => routed matches Routed::Forward { srv_ctx, client_ctx, timeout_ms } && {
                &&& srv_ctx == accepted.ctx(Transport::Tcp)
                &&& cloned(accepted.proxy, client_ctx.proxy)
                &&& client_ctx.remote == dst
                &&& client_ctx.protocol == Transport::Tcp
                &&& timeout_ms == CONNECT_TIMEOUT_MS
            },
            None => routed == (Routed::Close { srv_ctx: accepted.ctx(Transport::Tcp) }),
        },
        Protocol::Http1 => routed == (Routed::Http1 { srv_ctx: accepted.ctx(Transport::Http) }),
        Protocol::Http2 => routed == (Routed::Http2 { srv_ctx: accepted.ctx(Transport::Http) }),
    }
}

impl<P: Clone> Accepted<P> {
    /// Decides what is done with the connection, given its first bytes as far as they were
    /// there. Where they could not be looked at the connection is given up.
    pub fn peeked<E>(self, sniff: Result<&[u8], E>) -> (routed: Result<Routed<P>, ()>)
        ensures
            match (sniff, routed) {
                (Ok(bytes), Ok(r)) => is_routed(
                    self,
                    protocol::detected(bytes@, protocol::parsed_head(bytes@)),
                    r,
                ),
                (Err(_), Err(_)) => true,
                _ => false,
            },
            sniff matches Ok(bytes) && protocol::looks_like_http1(bytes@)
                ==> routed == Ok::<Routed<P>, ()>(
                Routed::Http1 { srv_ctx: self.ctx(Transport::Http) },
            ),
            sniff matches Ok(bytes) && bytes@.len() == 0 ==> routed == Ok::<Routed<P>, ()>(
                Routed::Http1 { srv_ctx: self.ctx(Transport::Http) },
            ),
            sniff matches Ok(bytes) && bytes@.len() > 0 && protocol::begins_no_head(bytes@[0])
                ==> (routed matches Ok(r) && is_routed(self, Protocol::Tcp, r)),
            sniff matches Ok(bytes) && protocol::is_no_request(bytes@) && !protocol::has_preface(
                bytes@,
            ) ==> (routed matches Ok(r) && is_routed(self, Protocol::Tcp, r)),
    {
        match sniff {
            Ok(bytes) => Ok(self.route(Protocol::detect(bytes))),
            Err(_) => Err(()),
        }
    }

    /// Decides what is done with the connection, given its protocol.
    pub fn route(self, protocol: Protocol) -> (routed: Routed<P>)
        ensures
            is_routed(self, protocol, routed),
    {
        match protocol {
            Protocol::Tcp => {
                let srv_ctx: ServerCtx<P> = ServerCtx {
                    proxy: self.proxy,
                    local: self.local,
                    remote: self.remote,
                    orig_dst: self.orig_dst,
                    protocol: Transport::Tcp,
                };
                let dst: SocketAddr = match &srv_ctx.orig_dst {
                    Some(dst) => dst.clone(),
                    None => {
                        return Routed::Close { srv_ctx };
                    },
                };
                let client_ctx: ClientCtx<P> = ClientCtx {
                    proxy: srv_ctx.proxy.clone(),
                    remote: dst,
                    protocol: Transport::Tcp,
                };
                Routed::Forward { srv_ctx, client_ctx, timeout_ms: CONNECT_TIMEOUT_MS }
            },
            Protocol::Http1 => Routed::Http1 {
                srv_ctx: ServerCtx {
                    proxy: self.proxy,
                    local: self.local,
                    remote: self.remote,
                    orig_dst: self.orig_dst,
                    protocol: Transport::Http,
                },
            },
            Protocol::Http2 => Routed::Http2 {
                srv_ctx: ServerCtx {
                    proxy: self.proxy,
                    local: self.local,
                    remote: self.remote,
                    orig_dst: self.orig_dst,
                    protocol: Transport::Http,
                },
            },
        }
    }
}

/// Goes on with what a step gave. Whatever the step, its failure ends the connection, and what
/// failed is not passed on: looking at the first bytes, connecting, copying, making a service
/// or serving.
pub fn proceed<O, E>(outcome: Result<O, E>) -> (next: Result<O, ()>)
    ensures
        match (outcome, next) {
            (Ok(o), Ok(n)) => n == o,
            (Err(_), Err(_)) => true,
            _ => false,
        },
{
    match outcome {
        Ok(o) => Ok(o),
        Err(_) => Err(()),
    }
}

/// The service for an HTTP/1 connection, once its own service was made.
pub fn http1_service<S, C, E>(srv_ctx: C, made: Result<S, E>) -> (service: Result<
    HyperServerSvc<S, C>,
    (),
>)
    ensures
        match (made, service) {
            (Ok(s), Ok(svc)) => svc.service == s && svc.srv_ctx == srv_ctx,
            (Err(_), Err(_)) => true,
            _ => false,
        },
{
    match proceed(made) {
        Ok(service) => Ok(HyperServerSvc { service, srv_ctx }),
        Err(_) => Err(()),
    }
}

/// Gives a request that came by HTTP/2 the context of its connection.
pub fn set_ctx<C: Clone, B>(srv_ctx: &C, req: &mut Request<C, B>)
    ensures
        final(req).ctx matches Some(c) && cloned(*srv_ctx, c),
        final(req).uri == old(req).uri,
        final(req).headers == old(req).headers,
        final(req).body == old(req).body,
{
    req.ctx = Some(srv_ctx.clone());
}

/// A connection is forwarded just where it is neither HTTP/1 nor HTTP/2 and has an original
/// destination, and then to that; it is closed at once just where it is neither and has none.
pub proof fn law_forwarded_to_original_destination<P: Clone>(
    accepted: Accepted<P>,
    protocol: Protocol,
    routed: Routed<P>,
)
    requires
        is_routed(accepted, protocol, routed),
    ensures
        routed is Forward <==> protocol == Protocol::Tcp && accepted.orig_dst is Some,
        routed is Close <==> protocol == Protocol::Tcp && accepted.orig_dst is None,
        routed matches Routed::Forward { client_ctx, .. } ==> accepted.orig_dst == Some(
            client_ctx.remote,
        ),
{
}

/// Whatever is done with a connection, it is recorded with its own addresses, as plain TCP just
/// where its protocol is not HTTP.
pub proof fn law_context_is_of_the_connection<P: Clone>(
    accepted: Accepted<P>,
    protocol: Protocol,
    routed: Routed<P>,
)
    requires
        is_routed(accepted, protocol, routed),
    ensures
        ({
            let srv_ctx = match routed {
                Routed::Close { srv_ctx } => srv_ctx,
                Routed::Forward { srv_ctx, .. } => srv_ctx,
                Routed::Http1 { srv_ctx } => srv_ctx,
                Routed::Http2 { srv_ctx } => srv_ctx,
            };
            &&& srv_ctx.local == accepted.local
            &&& srv_ctx.remote == accepted.remote
            &&& srv_ctx.orig_dst == accepted.orig_dst
            &&& srv_ctx.protocol == Transport::Tcp <==> protocol == Protocol::Tcp
        }),
{
}

/// Of a connection that speaks HTTP/1, what is looked at, up to 32 bytes, looks like HTTP/1,
/// however much of it has arrived.
pub proof fn law_http1_shows(sent: Seq<u8>, n: int)
    requires
        protocol::looks_like_http1(sent),
        0 <= n <= sent.len(),
        n <= 32,
    ensures
        n <= SNIFF_LEN <= 32,
        protocol::looks_like_http1(sent.take(n)),
{
    protocol::law_beginning_of_http1_is_http1(sent, n);
}

/// The bytes that are looked at are enough for the HTTP/2 preface to show.
pub proof fn law_preface_shows(sent: Seq<u8>, head: protocol::Head)
    requires
        protocol::has_preface(sent),
    ensures
        protocol::detected(
            sent.take(if sent.len() < SNIFF_LEN { sent.len() as int } else { SNIFF_LEN as int }),
            head,
        ) == Protocol::Http2,
{
    let seen = sent.take(
        if sent.len() < SNIFF_LEN { sent.len() as int } else { SNIFF_LEN as int },
    );
    assert(seen.subrange(0, 24) =~= sent.subrange(0, 24));
}

/// What is done with a connection is what its protocol asks for: HTTP/1 is served over HTTP/1,
/// HTTP/2 over HTTP/2, and the rest is forwarded to where it was going, for the same proxy, or
/// closed where that is not known. It is recorded as it was accepted.
pub proof fn law_routed_by_protocol<P: Clone>(
    accepted: Accepted<P>,
    protocol: Protocol,
    routed: Routed<P>,
)
    requires
        is_routed(accepted, protocol, routed),
    ensures
        routed is Http1 <==> protocol == Protocol::Http1,
        routed is Http2 <==> protocol == Protocol::Http2,
        routed is Forward || routed is Close <==> protocol == Protocol::Tcp,
        routed is Close ==> accepted.orig_dst is None,
        routed matches Routed::Forward { srv_ctx, client_ctx, timeout_ms } ==> {
            &&& accepted.orig_dst == Some(client_ctx.remote)
            &&& cloned(accepted.proxy, client_ctx.proxy)
            &&& client_ctx.protocol == Transport::Tcp
            &&& timeout_ms == 300
            &&& srv_ctx.proxy == accepted.proxy && srv_ctx.protocol == Transport::Tcp
            &&& srv_ctx.local == accepted.local && srv_ctx.remote == accepted.remote
            &&& srv_ctx.orig_dst == accepted.orig_dst
        },
        routed matches Routed::Close { srv_ctx } ==> {
            &&& srv_ctx.proxy == accepted.proxy && srv_ctx.protocol == Transport::Tcp
            &&& srv_ctx.local == accepted.local && srv_ctx.remote == accepted.remote
            &&& srv_ctx.orig_dst == accepted.orig_dst
        },
        routed matches Routed::Http1 { srv_ctx } ==> {
            &&& srv_ctx.proxy == accepted.proxy && srv_ctx.protocol == Transport::Http
            &&& srv_ctx.local == accepted.local && srv_ctx.remote == accepted.remote
            &&& srv_ctx.orig_dst == accepted.orig_dst
        },
        routed matches Routed::Http2 { srv_ctx } ==> {
            &&& srv_ctx.proxy == accepted.proxy && srv_ctx.protocol == Transport::Http
            &&& srv_ctx.local == accepted.local && srv_ctx.remote == accepted.remote
            &&& srv_ctx.orig_dst == accepted.orig_dst
        },
{
}

} // verus!
