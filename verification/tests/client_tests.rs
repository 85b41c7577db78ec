use http::HeaderMap;
use transparency::bind;
use transparency::body::{Async, BodyStream, HttpBody, StreamError};
use transparency::client::{connected, Client, ClientService, ClientServiceFuture, HyperConnect, Started};
use transparency::request::{Request, Response};
use transparency::uri::Uri;

fn request() -> Request<u8, u32> {
    Request { uri: Uri::default(), headers: HeaderMap::new(), ctx: Some(7), body: 42 }
}

fn response(status: u16, body: u8) -> Response<u8> {
    let mut headers = HeaderMap::new();
    headers.insert("x-foo", "1".parse().unwrap());
    Response { status, headers, body }
}

#[test]
fn http1_client_connects_through_the_connector() {
    match Client::new(bind::Protocol::Http1, "connect", "handle") {
        Client::Http1(config) => {
            assert_eq!(config.connector.connect, "connect");
            assert_eq!(config.executor, "handle");
        }
        Client::Http2(_) => panic!("HTTP/1 was expected"),
    }
}

#[test]
fn http2_client_takes_no_pushes() {
    match Client::new(bind::Protocol::Http2, "connect", "handle") {
        Client::Http2(config) => {
            assert_eq!(config.connect, "connect");
            assert!(!config.enable_push);
            assert_eq!(config.executor, "handle");
        }
        Client::Http1(_) => panic!("HTTP/2 was expected"),
    }
}

#[test]
fn http1_service_is_there_at_once() {
    let client: Client<u8, u8> = Client::Http1(3);
    let started: Started<ClientService<u8, u8>, u8> = client.new_service(|_| 9);
    assert!(matches!(started, Started::Ready(ClientService::Http1(3))));
}

#[test]
fn http2_service_needs_a_connection() {
    let client: Client<u8, u8> = Client::Http2(3);
    let started: Started<ClientService<u8, u8>, u8> = client.new_service(|h2| *h2 + 1);
    assert!(matches!(started, Started::Pending(4)));
    let made: Result<ClientService<u8, u8>, u8> = ClientService::http2(Ok(5));
    assert!(matches!(made, Ok(ClientService::Http2(5))));
    let failed: Result<ClientService<u8, u8>, u8> = ClientService::http2(Err(6));
    assert!(matches!(failed, Err(6)));
}

#[test]
fn http1_service_is_always_ready() {
    let mut service: ClientService<u8, u8> = ClientService::Http1(1);
    let polled: Result<Async<()>, u8> = service.poll_ready(|_| Err(1));
    assert!(matches!(polled, Ok(Async::Ready(()))));
}

#[test]
fn http2_service_tells_whether_it_is_ready() {
    let mut service: ClientService<u8, u8> = ClientService::Http2(1);
    let polled: Result<Async<()>, u8> = service.poll_ready(|h2| {
        *h2 = 2;
        Ok(Async::NotReady)
    });
    assert!(matches!(polled, Ok(Async::NotReady)));
    assert!(matches!(service, ClientService::Http2(2)));
}

#[test]
fn requests_are_sent_by_the_protocol_of_the_service() {
    let mut service: ClientService<u8, u8> = ClientService::Http1(1);
    let sent = service.call(request(), |h1, req| (*h1, req), |_, _| ());
    match sent {
        ClientServiceFuture::Http1((1, Request { ctx: Some(7), body: BodyStream(42), .. })) => {}
        _ => panic!("the request was not sent over HTTP/1"),
    }
    let mut service: ClientService<u8, u8> = ClientService::Http2(1);
    let sent = service.call(request(), |_, _| (), |h2, req| {
        *h2 = 8;
        req
    });
    match sent {
        ClientServiceFuture::Http2(Request { ctx: Some(7), body: 42, .. }) => {}
        _ => panic!("the request was not sent over HTTP/2"),
    }
    assert!(matches!(service, ClientService::Http2(8)));
}

type Outcome = Result<Async<Response<u8>>, &'static str>;

fn poll(
    future: &mut ClientServiceFuture<Vec<Outcome>, Vec<Outcome>>,
) -> Result<Async<Response<HttpBody<u8, u8>>>, StreamError<&'static str>> {
    future.poll(|f| f.remove(0), |f| f.remove(0))
}

#[test]
fn http1_response_comes_with_an_http1_body() {
    let mut future = ClientServiceFuture::Http1(vec![
        Ok(Async::NotReady),
        Ok(Async::Ready(response(204, 3))),
        Err("broken"),
    ]);
    assert!(matches!(poll(&mut future), Ok(Async::NotReady)));
    match poll(&mut future) {
        Ok(Async::Ready(res)) => {
            assert_eq!(res.status, 204);
            assert_eq!(res.headers.get("x-foo").unwrap(), "1");
            assert!(matches!(res.body, HttpBody::Http1(3)));
        }
        _ => panic!("a response was expected"),
    }
    assert!(matches!(poll(&mut future), Err(StreamError::Reset(2))));
}

#[test]
fn http2_response_comes_with_an_http2_body() {
    let mut future = ClientServiceFuture::Http2(vec![
        Ok(Async::NotReady),
        Ok(Async::Ready(response(200, 3))),
        Err("broken"),
    ]);
    assert!(matches!(poll(&mut future), Ok(Async::NotReady)));
    match poll(&mut future) {
        Ok(Async::Ready(res)) => {
            assert_eq!(res.status, 200);
            assert!(matches!(res.body, HttpBody::Http2(3)));
        }
        _ => panic!("a response was expected"),
    }
    assert!(matches!(poll(&mut future), Err(StreamError::Inner("broken"))));
}

#[test]
fn connections_go_to_the_endpoint_whatever_the_uri() {
    let connect = HyperConnect { connect: "endpoint" };
    assert_eq!(connect.call(&Uri::default(), |c| c.to_string()), "endpoint");
    let made: Result<u8, _> = connected(Ok::<u8, u8>(1));
    assert!(matches!(made, Ok(1)));
    match connected(Err::<u8, u8>(1)) {
        Err(e) => assert_eq!(e.message.as_deref(), Some("blah")),
        Ok(_) => panic!("an error was expected"),
    }
}
