use transparency::protocol::{Head, HeadError, Protocol, H2_PREFACE};

#[test]
fn preface_constant_is_the_http2_preface() {
    assert_eq!(&H2_PREFACE[..], b"PRI * HTTP/2.0\r\n\r\nSM\r\n\r\n");
}

#[test]
fn preface_is_http2() {
    assert_eq!(Protocol::detect(b"PRI * HTTP/2.0\r\n\r\nSM\r\n\r\n"), Protocol::Http2);
    assert_eq!(Protocol::detect(b"PRI * HTTP/2.0\r\n\r\nSM\r\n\r\n\x00\x00\x12\x04"), Protocol::Http2);
}

#[test]
fn broken_preface_is_not_http2() {
    assert_eq!(Protocol::detect(b"PRI * HTTP/2.0\r\n\r\nSM\r\n\r"), Protocol::Tcp);
    assert_eq!(Protocol::detect(b"PRI * HTTP/2.0\r\n\r\nSM\r\n\rX"), Protocol::Tcp);
    assert_eq!(Protocol::detect(b"PRI * HTTP/2"), Protocol::Tcp);
    assert_eq!(Protocol::detect(b"PRI * HTTP/"), Protocol::Http1);
}

#[test]
fn whole_request_head_is_http1() {
    assert_eq!(Protocol::detect(b"GET / HTTP/1.1\r\n\r\n"), Protocol::Http1);
    assert_eq!(Protocol::detect(b"GET / HTTP/1.0\n\n"), Protocol::Http1);
}

#[test]
fn request_line_followed_by_fields_is_http1() {
    assert_eq!(Protocol::detect(b"GET / HTTP/1.1\r\nHost: foo.bar\r\n"), Protocol::Http1);
}

#[test]
fn beginning_of_a_request_is_http1() {
    assert_eq!(Protocol::detect(b"GET /a/really/long/path/that/goe"), Protocol::Http1);
    assert_eq!(Protocol::detect(b"G"), Protocol::Http1);
    assert_eq!(Protocol::detect(b"\r\n"), Protocol::Http1);
}

#[test]
fn no_bytes_are_http1() {
    assert_eq!(Protocol::detect(b""), Protocol::Http1);
}

#[test]
fn binary_protocols_are_tcp() {
    assert_eq!(Protocol::detect(b"\x16\x03\x01\x02\x00\x01\x00\x01\xfc"), Protocol::Tcp);
    assert_eq!(Protocol::detect(b"\x00\x00\x00\x2a"), Protocol::Tcp);
    assert_eq!(Protocol::detect(b"\xff\xfe"), Protocol::Tcp);
    assert_eq!(Protocol::detect(b"\x7fELF"), Protocol::Tcp);
}

#[test]
fn text_that_is_no_request_is_tcp() {
    assert_eq!(Protocol::detect(b"HELO mail.example.com\r\n"), Protocol::Tcp);
    assert_eq!(Protocol::detect(b"GET / HTTP/3.0\r\n\r\n"), Protocol::Tcp);
    assert_eq!(Protocol::detect(b"GET / HTTP/1.1\rX"), Protocol::Tcp);
    assert_eq!(Protocol::detect(b"\rGET / HTTP/1.1\r\n"), Protocol::Tcp);
    assert_eq!(Protocol::detect(b"GET / HTTP/1.1\r\n(bad): x\r\n"), Protocol::Tcp);
}

#[test]
fn protocol_by_head() {
    assert_eq!(Protocol::from_head(Head::Complete(18)), Protocol::Http1);
    assert_eq!(Protocol::from_head(Head::Partial), Protocol::Http1);
    assert_eq!(Protocol::from_head(Head::Invalid(HeadError::TooManyHeaders)), Protocol::Http1);
    assert_eq!(Protocol::from_head(Head::Invalid(HeadError::HeaderName)), Protocol::Tcp);
    assert_eq!(Protocol::from_head(Head::Invalid(HeadError::HeaderValue)), Protocol::Tcp);
    assert_eq!(Protocol::from_head(Head::Invalid(HeadError::NewLine)), Protocol::Tcp);
    assert_eq!(Protocol::from_head(Head::Invalid(HeadError::Status)), Protocol::Tcp);
    assert_eq!(Protocol::from_head(Head::Invalid(HeadError::Token)), Protocol::Tcp);
    assert_eq!(Protocol::from_head(Head::Invalid(HeadError::Version)), Protocol::Tcp);
}

#[test]
fn every_beginning_of_a_request_is_http1() {
    let requests: [&[u8]; 4] = [
        b"GET /a?b=c HTTP/1.1\r\nHost: foo.bar\r\n\r\n",
        b"OPTIONS * HTTP/1.0\r\n\r\n",
        b"CONNECT foo.bar:443 HTTP/1.1\r\n!#$%&'*+-.^_`|~: 1\r\n\r\n",
        b"PRI * HTTP/1.1\r\n\r\nSM\r\n\r\n",
    ];
    for request in requests.iter() {
        for n in 0..request.len() + 1 {
            assert_eq!(Protocol::detect(&request[..n]), Protocol::Http1);
        }
    }
}

#[test]
fn every_field_name_may_begin_with_its_first_byte() {
    for b in 0..256usize {
        let mut sent = b"GET / HTTP/1.1\r\n".to_vec();
        sent.push(b as u8);
        let name = (b as u8 as char).is_ascii_alphanumeric() || b"!#$%&'*+-.^_`|~".contains(&(b as u8));
        let ends = b == 10 || b == 13;
        let expected = if name || ends { Protocol::Http1 } else { Protocol::Tcp };
        assert_eq!(Protocol::detect(&sent), expected);
    }
}
