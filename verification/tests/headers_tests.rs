use http::header::{HeaderName, HeaderValue};
use http::HeaderMap;
use transparency::headers::{check_connection, strip_connection_headers};

fn map(fields: &[(&str, &[u8])]) -> HeaderMap {
    let mut headers = HeaderMap::new();
    for (name, value) in fields {
        headers.append(
            HeaderName::from_bytes(name.as_bytes()).unwrap(),
            HeaderValue::from_bytes(value).unwrap(),
        );
    }
    headers
}

fn values(headers: &HeaderMap, name: &str) -> Vec<Vec<u8>> {
    headers.get_all(name).iter().map(|v| v.as_bytes().to_vec()).collect()
}

#[test]
fn connection_and_listed_fields_go() {
    let mut headers = map(&[
        ("host", b"foo.bar"),
        ("connection", b"keep-alive, X-Foo ,\tx-bar"),
        ("keep-alive", b"timeout=5"),
        ("x-foo", b"1"),
        ("x-foo", b"2"),
        ("X-Bar", b"3"),
        ("x-baz", b"4"),
        ("x-baz", b"5"),
    ]);
    strip_connection_headers(&mut headers);
    assert_eq!(headers.keys_len(), 2);
    assert_eq!(values(&headers, "host"), vec![b"foo.bar".to_vec()]);
    assert_eq!(values(&headers, "x-baz"), vec![b"4".to_vec(), b"5".to_vec()]);
}

#[test]
fn nothing_goes_without_a_connection_field() {
    let mut headers = map(&[("host", b"foo.bar"), ("x-foo", b"1")]);
    let before = headers.clone();
    strip_connection_headers(&mut headers);
    assert_eq!(headers, before);
}

#[test]
fn connection_that_is_no_text_goes_alone() {
    let mut headers = map(&[("connection", b"x-foo, \xff"), ("x-foo", b"1")]);
    assert!(check_connection(&headers));
    strip_connection_headers(&mut headers);
    assert_eq!(headers.keys_len(), 1);
    assert_eq!(values(&headers, "x-foo"), vec![b"1".to_vec()]);
}

#[test]
fn only_the_first_connection_value_is_read() {
    let mut headers = map(&[
        ("connection", b"x-foo"),
        ("connection", b"x-bar"),
        ("x-foo", b"1"),
        ("x-bar", b"2"),
    ]);
    strip_connection_headers(&mut headers);
    assert_eq!(headers.keys_len(), 1);
    assert_eq!(values(&headers, "x-bar"), vec![b"2".to_vec()]);
}

#[test]
fn odd_items_name_nothing() {
    let mut headers = map(&[
        ("connection", b",, ,x foo,(bar),\t, x-foo"),
        ("x-foo", b"1"),
        ("x", b"2"),
        ("foo", b"3"),
        ("bar", b"4"),
    ]);
    strip_connection_headers(&mut headers);
    assert_eq!(headers.keys_len(), 3);
    assert!(headers.get("x-foo").is_none());
}

#[test]
fn empty_connection_field_goes() {
    let mut headers = map(&[("connection", b""), ("x-foo", b"1")]);
    strip_connection_headers(&mut headers);
    assert_eq!(headers.keys_len(), 1);
}

#[test]
fn stripping_twice_is_stripping_once() {
    let mut headers = map(&[("connection", b"host"), ("host", b"foo.bar"), ("x-foo", b"1")]);
    strip_connection_headers(&mut headers);
    let once = headers.clone();
    assert!(check_connection(&headers));
    strip_connection_headers(&mut headers);
    assert_eq!(headers, once);
    assert_eq!(headers.keys_len(), 1);
}

#[test]
fn long_names_are_found_in_any_case() {
    let name = "x-".to_string() + &"a".repeat(100);
    let mut headers = map(&[
        ("connection", name.to_uppercase().as_bytes()),
        (name.as_str(), b"1"),
        ("x-foo", b"2"),
    ]);
    strip_connection_headers(&mut headers);
    assert_eq!(headers.keys_len(), 1);
    assert_eq!(values(&headers, "x-foo"), vec![b"2".to_vec()]);
}

#[test]
fn overlong_names_do_not_fit() {
    let fits = map(&[("connection", "x".repeat(65535).as_bytes())]);
    assert!(check_connection(&fits));
    let blank = map(&[("connection", (" ".repeat(65536) + "x").as_bytes())]);
    assert!(check_connection(&blank));
    let long = map(&[("connection", ("a,".to_string() + &"x".repeat(65536)).as_bytes())]);
    assert!(!check_connection(&long));
}
