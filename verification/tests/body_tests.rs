use transparency::body::{Async, BodyStream, BufAsRef, HttpBody, StreamError, INTERNAL_ERROR};

type Polled = Result<Async<Option<u8>>, &'static str>;

fn poll(body: &mut HttpBody<Vec<Polled>, Vec<Polled>>) -> Result<Async<Option<u8>>, StreamError<&'static str>> {
    body.poll_data(|h1| h1.remove(0), |h2| h2.remove(0))
}

#[test]
fn http1_body_is_never_known_to_have_ended() {
    let body: HttpBody<u8, u8> = HttpBody::Http1(1);
    assert!(!body.is_end_stream(|_| true));
}

#[test]
fn http2_body_is_asked_whether_it_has_ended() {
    let body: HttpBody<u8, u8> = HttpBody::Http2(1);
    assert!(body.is_end_stream(|b| *b == 1));
    assert!(!body.is_end_stream(|b| *b == 2));
}

#[test]
fn http1_body_data_is_passed_on_and_errors_reset_the_stream() {
    let mut body = HttpBody::Http1(vec![
        Ok(Async::Ready(Some(1))),
        Ok(Async::NotReady),
        Ok(Async::Ready(None)),
        Err("broken"),
        Ok(Async::Ready(Some(9))),
    ]);
    assert!(matches!(poll(&mut body), Ok(Async::Ready(Some(1)))));
    assert!(matches!(poll(&mut body), Ok(Async::NotReady)));
    assert!(matches!(poll(&mut body), Ok(Async::Ready(None))));
    assert!(matches!(poll(&mut body), Err(StreamError::Reset(2))));
    assert!(matches!(body, HttpBody::Http1(ref left) if left.len() == 1));
}

#[test]
fn http2_body_is_passed_on_as_it_is() {
    let mut body = HttpBody::Http2(vec![Ok(Async::Ready(Some(1))), Ok(Async::NotReady), Err("broken")]);
    assert!(matches!(poll(&mut body), Ok(Async::Ready(Some(1)))));
    assert!(matches!(poll(&mut body), Ok(Async::NotReady)));
    assert!(matches!(poll(&mut body), Err(StreamError::Inner("broken"))));
    assert!(matches!(body, HttpBody::Http2(ref left) if left.is_empty()));
}

#[test]
fn only_http2_bodies_have_trailers() {
    let mut body: HttpBody<u8, u8> = HttpBody::Http1(1);
    let polled: Result<Async<Option<u8>>, u8> = body.poll_trailers(|_| Ok(Async::NotReady));
    assert!(matches!(polled, Ok(Async::Ready(None))));
    let mut body: HttpBody<u8, u8> = HttpBody::Http2(1);
    let polled: Result<Async<Option<u8>>, u8> = body.poll_trailers(|b| {
        *b = 5;
        Err(3)
    });
    assert!(matches!(polled, Err(3)));
    assert!(matches!(body, HttpBody::Http2(5)));
}

#[test]
fn default_body_is_the_empty_http2_body() {
    let body: HttpBody<u8, Vec<u8>> = HttpBody::default();
    assert!(matches!(body, HttpBody::Http2(ref b) if b.is_empty()));
}

#[test]
fn internal_error_code() {
    assert_eq!(INTERNAL_ERROR, u32::from(h2::Reason::INTERNAL_ERROR));
}

#[test]
fn streamed_body_wraps_data_and_turns_errors_into_io_errors() {
    let mut body: BodyStream<Vec<Polled>> =
        BodyStream(vec![Ok(Async::Ready(Some(4))), Ok(Async::Ready(None)), Ok(Async::NotReady), Err("x")]);
    assert!(matches!(body.poll(|b| b.remove(0)), Ok(Async::Ready(Some(BufAsRef(4))))));
    assert!(matches!(body.poll(|b| b.remove(0)), Ok(Async::Ready(None))));
    assert!(matches!(body.poll(|b| b.remove(0)), Ok(Async::NotReady)));
    match body.poll(|b| b.remove(0)) {
        Err(e) => assert_eq!(e.message, None),
        Ok(_) => panic!("an error was expected"),
    }
}

#[test]
fn streamed_bodies_and_buffers_can_be_shown() {
    assert_eq!(format!("{:?}", BodyStream(BufAsRef(1u8))), "BodyStream(BufAsRef(1))");
}

#[test]
fn buffer_gives_its_bytes() {
    let buf = BufAsRef(vec![1u8, 2, 3]);
    assert_eq!(buf.as_ref(|b: &Vec<u8>| &b[1..]), &[2, 3]);
}

#[test]
fn pieces_are_sent_one_for_one_and_in_order() {
    let mut body: BodyStream<Vec<Polled>> = BodyStream(vec![
        Ok(Async::Ready(Some(1))),
        Ok(Async::NotReady),
        Ok(Async::Ready(Some(2))),
        Ok(Async::Ready(Some(2))),
        Ok(Async::NotReady),
        Ok(Async::NotReady),
        Ok(Async::Ready(Some(3))),
        Ok(Async::Ready(None)),
    ]);
    let mut seen: Vec<Option<u8>> = vec![];
    loop {
        match body.poll(|b| b.remove(0)) {
            Ok(Async::Ready(Some(BufAsRef(piece)))) => seen.push(Some(piece)),
            Ok(Async::NotReady) => seen.push(None),
            Ok(Async::Ready(None)) => break,
            Err(_) => panic!("no error was expected"),
        }
    }
    assert_eq!(seen, vec![Some(1), None, Some(2), Some(2), None, None, Some(3)]);
    assert!(body.0.is_empty());
}

#[test]
fn pieces_are_passed_on_one_for_one_and_in_order() {
    for http1 in [true, false] {
        let polls: Vec<Polled> =
            vec![Ok(Async::Ready(Some(5))), Ok(Async::NotReady), Ok(Async::Ready(Some(4)))];
        let mut body = if http1 { HttpBody::Http1(polls) } else { HttpBody::Http2(polls) };
        assert!(matches!(poll(&mut body), Ok(Async::Ready(Some(5)))));
        assert!(matches!(poll(&mut body), Ok(Async::NotReady)));
        assert!(matches!(poll(&mut body), Ok(Async::Ready(Some(4)))));
    }
}
