use http::header::{HeaderValue, HOST};
use http::HeaderMap;
use transparency::address::SocketAddr;
use transparency::body::{Async, HttpBody};
use transparency::request::{Request, Response};
use transparency::service::{
    check_call, reply, try_reply, Called, HttpBodyNewService, HttpBodyService, HyperServerSvc,
};
use transparency::uri::{Parts, Uri};

fn request(path: &str, fields: &[(&'static str, &str)]) -> Request<u8, u32> {
    let parts = Parts { scheme: None, authority: None, path_and_query: Some(path.to_string()) };
    let mut headers = HeaderMap::new();
    for (name, value) in fields {
        headers.append(*name, HeaderValue::from_str(value).unwrap());
    }
    Request { uri: Uri::from_parts(parts).ok().unwrap(), headers, ctx: None, body: 42 }
}

fn svc() -> HyperServerSvc<&'static str, u8> {
    HyperServerSvc { service: "service", srv_ctx: 7 }
}

type Out = (String, Request<u8, HttpBody<u32, ()>>);

fn serve(s: &&'static str, req: Request<u8, HttpBody<u32, ()>>) -> Out {
    (s.to_string(), req)
}

fn never(_: &&'static str, _: Request<u8, HttpBody<u32, ()>>) -> Out {
    panic!("the request was served")
}

#[test]
fn request_is_forwarded_absolute_and_stripped() {
    let req = request(
        "/a",
        &[("host", "foo.bar"), ("connection", "close, x-foo"), ("x-foo", "1"), ("x-bar", "2")],
    );
    assert!(check_call(&req, &None));
    match svc().call(req, None, serve) {
        Called::Forwarded((service, out)) => {
            assert_eq!(service, "service");
            assert_eq!(out.ctx, Some(7));
            assert!(matches!(out.body, HttpBody::Http1(42)));
            assert_eq!(out.headers.keys_len(), 2);
            assert_eq!(out.headers.get(HOST).unwrap(), "foo.bar");
            assert_eq!(out.headers.get("x-bar").unwrap(), "2");
            let parts = out.uri.into_parts();
            assert_eq!(parts.scheme.as_deref(), Some("http"));
            assert_eq!(parts.authority.unwrap().as_str(), "foo.bar");
            assert_eq!(parts.path_and_query.as_deref(), Some("/a"));
        }
        Called::Respond(_) => panic!("the request was refused"),
    }
}

#[test]
fn listed_host_field_is_stripped_too() {
    let req = request("/a", &[("host", "foo.bar"), ("connection", "Host")]);
    match svc().call(req, None, serve) {
        Called::Forwarded((_, out)) => {
            assert_eq!(out.headers.keys_len(), 0);
            assert_eq!(out.uri.authority_part().unwrap().as_str(), "foo.bar");
        }
        Called::Respond(_) => panic!("the request was refused"),
    }
}

#[test]
fn request_without_authority_is_a_bad_request() {
    let called: Called<Out> = svc().call(request("/a", &[("x-bar", "2")]), None, never);
    assert!(matches!(called, Called::Respond(400)));
    let called: Option<Called<Out>> = svc().try_call(request("/", &[]), None, never);
    assert!(matches!(called, Some(Called::Respond(400))));
}

#[test]
fn request_falls_back_to_the_original_destination() {
    let dst = SocketAddr::from_text("1.2.3.4:5".to_string());
    match svc().try_call(request("/a", &[]), dst, serve) {
        Some(Called::Forwarded((_, out))) => {
            assert_eq!(out.uri.authority_part().unwrap().as_str(), "1.2.3.4:5");
        }
        _ => panic!("the request was not forwarded"),
    }
    let long = "[1111:2222:3333:4444:5555:6666:7777:8888]:1";
    match svc().try_call(request("/a", &[]), SocketAddr::from_text(long.to_string()), serve) {
        Some(Called::Forwarded((_, out))) => {
            assert_eq!(out.uri.authority_part().unwrap().as_str(), long);
        }
        _ => panic!("the request was not forwarded"),
    }
}

#[test]
fn request_that_does_not_fit_is_not_served() {
    let long = "x".repeat(65536);
    let req = request("/a", &[("host", "foo.bar"), ("connection", &long)]);
    assert!(!check_call(&req, &None));
    let called: Option<Called<Out>> = svc().try_call(req, None, never);
    assert!(called.is_none());
}

#[test]
fn refused_request_is_not_stripped() {
    let req = request("/a", &[("connection", &"x".repeat(65536))]);
    assert!(check_call(&req, &None));
    let called: Option<Called<Out>> = svc().try_call(req, None, never);
    assert!(matches!(called, Some(Called::Respond(400))));
}

fn response(connection: &str) -> Response<u8> {
    let mut headers = HeaderMap::new();
    headers.insert("connection", HeaderValue::from_str(connection).unwrap());
    headers.insert("x-foo", HeaderValue::from_static("1"));
    headers.insert("x-bar", HeaderValue::from_static("2"));
    Response { status: 302, headers, body: 9 }
}

#[test]
fn response_is_stripped() {
    match reply::<u8, u8>(Ok(response("X-Foo"))) {
        Ok(out) => {
            assert_eq!(out.status, 302);
            assert_eq!(out.headers.keys_len(), 1);
            assert_eq!(out.headers.get("x-bar").unwrap(), "2");
            assert_eq!(out.body.0, 9);
        }
        Err(_) => panic!("a response was expected"),
    }
}

#[test]
fn service_error_becomes_an_io_error() {
    match reply::<u8, u8>(Err(1)) {
        Err(e) => assert_eq!(e.message, None),
        Ok(_) => panic!("an error was expected"),
    }
}

#[test]
fn response_that_does_not_fit_is_not_sent() {
    assert!(try_reply::<u8, u8>(Ok(response(&"x".repeat(65536)))).is_none());
    assert!(matches!(try_reply::<u8, u8>(Ok(response("x"))), Some(Ok(_))));
    assert!(matches!(try_reply::<u8, u8>(Err(1)), Some(Err(_))));
}

#[test]
fn http2_requests_get_http2_bodies() {
    let mut service = HttpBodyService { service: 1u8 };
    let out: Request<u8, HttpBody<(), u32>> = service.call(request("/a", &[("x-bar", "2")]), |s, req| {
        *s = 2;
        req
    });
    assert_eq!(service.service, 2);
    assert!(matches!(out.body, HttpBody::Http2(42)));
    assert_eq!(out.headers.get("x-bar").unwrap(), "2");
    let polled: Result<Async<()>, u8> = service.poll_ready(|s| Err(*s));
    assert!(matches!(polled, Err(2)));
}

#[test]
fn http2_services_are_made_of_new_services() {
    let new = HttpBodyNewService { new_service: 3u8 };
    assert_eq!(new.clone().new_service, 3);
    let made: Result<u8, u8> = new.new_service(|n| Ok(*n + 1));
    match HttpBodyService::made(made) {
        Ok(service) => assert_eq!(service.service, 4),
        Err(_) => panic!("a service was expected"),
    }
    assert!(matches!(HttpBodyService::<u8>::made(Err(5u8)), Err(5)));
}
