use http::HeaderMap;
use transparency::address::SocketAddr;
use transparency::protocol::Protocol;
use transparency::request::Request;
use transparency::server::{
    http1_service, proceed, set_ctx, Accepted, Routed, Server, ServerCtx, Transport, SNIFF_LEN,
};
use transparency::uri::Uri;

fn addr(text: &str) -> SocketAddr {
    SocketAddr::from_text(text.to_string()).unwrap()
}

type Srv = Server<&'static str, u8, u16, &'static str, u32>;

fn server() -> Srv {
    Server::new(addr("0.0.0.0:4140"), "proxy", 1, 2, "stack", 3)
}

fn accepted(orig_dst: Option<&str>) -> Accepted<&'static str> {
    server().serve(Some(addr("10.0.0.1:4140")), addr("10.0.0.2:555"), orig_dst.map(addr))
}

fn check(ctx: &ServerCtx<&'static str>, orig_dst: Option<&str>, protocol: Transport) {
    assert_eq!(ctx.proxy, "proxy");
    assert_eq!(ctx.local.as_str(), "10.0.0.1:4140");
    assert_eq!(ctx.remote.as_str(), "10.0.0.2:555");
    assert_eq!(ctx.orig_dst.as_ref().map(|a| a.as_str()), orig_dst);
    assert_eq!(ctx.protocol, protocol);
}

#[test]
fn server_holds_what_it_is_made_of() {
    let server = server();
    assert_eq!(server.executor, 3);
    assert_eq!(server.get_orig_dst, 2);
    assert_eq!(server.h2.new_service.new_service, "stack");
    assert_eq!(server.h2.executor, 3);
    assert_eq!(server.listen_addr.as_str(), "0.0.0.0:4140");
    assert_eq!(server.new_service, "stack");
    assert_eq!(server.proxy_ctx, "proxy");
    assert_eq!(server.sensors, 1);
}

#[test]
fn unknown_local_address_is_the_listening_one() {
    let accepted = server().serve(None, addr("10.0.0.2:555"), None);
    assert_eq!(accepted.local.as_str(), "0.0.0.0:4140");
    assert_eq!(accepted.remote.as_str(), "10.0.0.2:555");
    assert!(accepted.orig_dst.is_none());
}

#[test]
fn tcp_is_forwarded_to_its_original_destination() {
    match accepted(Some("10.9.9.9:99")).peeked(Ok::<&[u8], ()>(b"\x16\x03\x01")) {
        Ok(Routed::Forward { srv_ctx, client_ctx, timeout_ms }) => {
            check(&srv_ctx, Some("10.9.9.9:99"), Transport::Tcp);
            assert_eq!(client_ctx.proxy, "proxy");
            assert_eq!(client_ctx.remote.as_str(), "10.9.9.9:99");
            assert_eq!(client_ctx.protocol, Transport::Tcp);
            assert_eq!(timeout_ms, 300);
        }
        _ => panic!("the connection was not forwarded"),
    }
}

#[test]
fn tcp_without_an_original_destination_is_closed() {
    match accepted(None).peeked(Ok::<&[u8], ()>(b"\x00")) {
        Ok(Routed::Close { srv_ctx }) => check(&srv_ctx, None, Transport::Tcp),
        _ => panic!("the connection was not closed"),
    }
}

#[test]
fn first_byte_can_show_that_it_is_tcp() {
    for b in [0u8, 9, 22, 31, 127, 128, 255] {
        let routed = accepted(Some("10.9.9.9:99")).peeked(Ok::<&[u8], ()>(&[b, 3, 1]));
        assert!(matches!(routed, Ok(Routed::Forward { .. })));
        let routed = accepted(None).peeked(Ok::<&[u8], ()>(&[b]));
        assert!(matches!(routed, Ok(Routed::Close { .. })));
    }
}

#[test]
fn http1_is_served_where_nothing_was_sent() {
    let routed = accepted(Some("10.9.9.9:99")).peeked(Ok::<&[u8], ()>(b""));
    assert!(matches!(routed, Ok(Routed::Http1 { .. })));
}

#[test]
fn http1_is_served() {
    match accepted(Some("10.9.9.9:99")).peeked(Ok::<&[u8], ()>(b"GET / HTTP/1.1\r\nHost: a\r\n\r\n")) {
        Ok(Routed::Http1 { srv_ctx }) => check(&srv_ctx, Some("10.9.9.9:99"), Transport::Http),
        _ => panic!("the connection was not served over HTTP/1"),
    }
}

#[test]
fn http1_is_served_however_much_of_it_has_arrived() {
    let sent = b"POST /an/endpoint HTTP/1.1\r\nHost: a\r\n\r\n";
    for n in 0..SNIFF_LEN + 1 {
        let routed = accepted(Some("10.9.9.9:99")).peeked(Ok::<&[u8], ()>(&sent[..n]));
        assert!(matches!(routed, Ok(Routed::Http1 { .. })));
    }
}

#[test]
fn http2_is_served() {
    let sent = b"PRI * HTTP/2.0\r\n\r\nSM\r\n\r\n\x00\x00\x00\x04\x00\x00\x00\x00\x00and more";
    match accepted(None).peeked(Ok::<&[u8], ()>(&sent[..SNIFF_LEN])) {
        Ok(Routed::Http2 { srv_ctx }) => check(&srv_ctx, None, Transport::Http),
        _ => panic!("the connection was not served over HTTP/2"),
    }
}

#[test]
fn connection_that_cannot_be_sniffed_is_given_up() {
    assert!(accepted(None).peeked(Err("reset")).is_err());
}

#[test]
fn routes_by_protocol() {
    assert!(matches!(accepted(None).route(Protocol::Tcp), Routed::Close { .. }));
    assert!(matches!(accepted(Some("1.2.3.4:5")).route(Protocol::Tcp), Routed::Forward { .. }));
    assert!(matches!(accepted(Some("1.2.3.4:5")).route(Protocol::Http1), Routed::Http1 { .. }));
    assert!(matches!(accepted(Some("1.2.3.4:5")).route(Protocol::Http2), Routed::Http2 { .. }));
}

#[test]
fn failures_end_the_connection() {
    assert_eq!(proceed::<u8, &str>(Ok(1)), Ok(1));
    assert_eq!(proceed::<u8, &str>(Err("broken")), Err(()));
}

#[test]
fn http1_connection_gets_its_own_service() {
    match http1_service::<u8, u16, ()>(7, Ok(1)) {
        Ok(svc) => {
            assert_eq!(svc.service, 1);
            assert_eq!(svc.srv_ctx, 7);
        }
        Err(()) => panic!("a service was expected"),
    }
    assert!(http1_service::<u8, u16, &str>(7, Err("broken")).is_err());
}

#[test]
fn http2_requests_get_the_context() {
    let mut req = Request { uri: Uri::default(), headers: HeaderMap::new(), ctx: None, body: 42 };
    set_ctx(&7u8, &mut req);
    assert_eq!(req.ctx, Some(7));
    assert_eq!(req.body, 42);
}
