use http::header::{HeaderName, HeaderValue, HOST};
use http::HeaderMap;
use transparency::address::SocketAddr;
use transparency::request::{
    check_request, read_host_authority, reconstruct_uri, reconstruct_uri_with, try_reconstruct_uri,
    Request,
};
use transparency::uri::{Authority, Parts, Uri};

fn uri(scheme: Option<&str>, authority: Option<&str>, path: Option<&str>) -> Uri {
    let parts = Parts {
        scheme: scheme.map(String::from),
        authority: authority.map(|a| Authority::from_str(a).unwrap()),
        path_and_query: path.map(String::from),
    };
    match Uri::from_parts(parts) {
        Ok(uri) => uri,
        Err(e) => panic!("{:?}", e),
    }
}

fn request(uri: Uri, hosts: &[&[u8]]) -> Request<u8, u32> {
    let mut headers = HeaderMap::new();
    headers.insert("accept", HeaderValue::from_static("*/*"));
    for host in hosts {
        headers.append(HOST, HeaderValue::from_bytes(host).unwrap());
    }
    Request { uri, headers, ctx: Some(7), body: 42 }
}

fn addr(text: &str) -> Option<SocketAddr> {
    Some(SocketAddr::from_text(text.to_string()).unwrap())
}

fn parts(req: Request<u8, u32>) -> (Option<String>, Option<String>, Option<String>) {
    assert_eq!(req.ctx, Some(7));
    assert_eq!(req.body, 42);
    assert_eq!(req.headers.get("accept").unwrap(), "*/*");
    let p = req.uri.into_parts();
    (p.scheme, p.authority.map(|a| a.as_str().to_string()), p.path_and_query)
}

fn some(text: &str) -> Option<String> {
    Some(text.to_string())
}

fn hosts(req: &Request<u8, u32>) -> Vec<Vec<u8>> {
    req.headers.get_all(HOST).iter().map(|v| v.as_bytes().to_vec()).collect()
}

#[test]
fn absolute_form_adds_the_host_field() {
    let mut req = request(uri(Some("http"), Some("foo.bar:80"), Some("/a")), &[]);
    assert_eq!(reconstruct_uri(&mut req, addr("1.2.3.4:5")), Ok(()));
    assert_eq!(hosts(&req), vec![b"foo.bar:80".to_vec()]);
    assert_eq!(parts(req), (some("http"), some("foo.bar:80"), some("/a")));
}

#[test]
fn absolute_form_replaces_the_host_field() {
    let mut req = request(uri(Some("https"), Some("foo.bar"), Some("/a")), &[b"other", b"more"]);
    assert_eq!(reconstruct_uri(&mut req, None), Ok(()));
    assert_eq!(hosts(&req), vec![b"foo.bar".to_vec()]);
    assert_eq!(parts(req), (some("https"), some("foo.bar"), some("/a")));
}

#[test]
fn agreeing_host_field_is_left_alone() {
    let mut req = request(uri(Some("http"), Some("foo.bar"), Some("/a")), &[b"foo.bar", b"more"]);
    assert_eq!(reconstruct_uri(&mut req, None), Ok(()));
    assert_eq!(hosts(&req), vec![b"foo.bar".to_vec(), b"more".to_vec()]);
}

#[test]
fn case_counts_when_host_and_target_are_compared() {
    let mut req = request(uri(Some("http"), Some("foo.bar"), Some("/a")), &[b"FOO.bar"]);
    assert_eq!(reconstruct_uri(&mut req, None), Ok(()));
    assert_eq!(hosts(&req), vec![b"foo.bar".to_vec()]);
}

#[test]
fn authority_form_keeps_its_target() {
    let mut req = request(uri(None, Some("foo.bar:443"), None), &[]);
    assert_eq!(reconstruct_uri(&mut req, None), Ok(()));
    assert_eq!(hosts(&req), vec![b"foo.bar:443".to_vec()]);
    assert_eq!(parts(req), (None, some("foo.bar:443"), None));
}

#[test]
fn host_field_gives_the_authority() {
    let mut req = request(uri(None, None, Some("/a?b")), &[b"foo.bar:8080"]);
    assert_eq!(reconstruct_uri(&mut req, addr("1.2.3.4:5")), Ok(()));
    assert_eq!(hosts(&req), vec![b"foo.bar:8080".to_vec()]);
    assert_eq!(parts(req), (some("http"), some("foo.bar:8080"), some("/a?b")));
}

#[test]
fn original_destination_gives_the_authority() {
    for bad in [&b""[..], &b"foo bar"[..], &b"\xff"[..], &b"a:1:2"[..]] {
        let mut req = request(uri(None, None, Some("/")), &[bad]);
        assert_eq!(reconstruct_uri(&mut req, addr("1.2.3.4:5")), Ok(()));
        assert_eq!(hosts(&req), vec![bad.to_vec()]);
        assert_eq!(parts(req), (some("http"), some("1.2.3.4:5"), some("/")));
    }
    let mut req = request(uri(None, None, Some("*")), &[]);
    assert_eq!(reconstruct_uri(&mut req, addr("[::1]:5")), Ok(()));
    assert_eq!(parts(req), (some("http"), some("[::1]:5"), some("*")));
}

#[test]
fn request_without_authority_is_refused() {
    let mut req = request(uri(None, None, Some("/a")), &[b"foo bar"]);
    assert_eq!(reconstruct_uri(&mut req, None), Err(()));
    assert_eq!(hosts(&req), vec![b"foo bar".to_vec()]);
    assert_eq!(parts(req), (None, None, some("/a")));
    let mut bare = request(uri(None, None, None), &[]);
    assert_eq!(reconstruct_uri(&mut bare, None), Err(()));
    assert_eq!(parts(bare), (None, None, None));
}

#[test]
fn absolute_target_stays_when_reconstructed_again() {
    let mut req = request(uri(None, None, Some("/a")), &[]);
    assert_eq!(reconstruct_uri(&mut req, addr("1.2.3.4:5")), Ok(()));
    assert_eq!(reconstruct_uri(&mut req, addr("9.9.9.9:9")), Ok(()));
    assert_eq!(hosts(&req), vec![b"1.2.3.4:5".to_vec()]);
    assert_eq!(parts(req), (some("http"), some("1.2.3.4:5"), some("/a")));
}

#[test]
fn given_host_authority_is_used_only_where_the_target_has_none() {
    let host = Authority::from_str("given");
    let mut req = request(uri(None, None, Some("/a")), &[b"field"]);
    assert_eq!(reconstruct_uri_with(&mut req, host, addr("1.2.3.4:5")), Ok(()));
    assert_eq!(hosts(&req), vec![b"field".to_vec()]);
    assert_eq!(parts(req), (some("http"), some("given"), some("/a")));
    let host = Authority::from_str("given");
    let mut req = request(uri(Some("http"), Some("own"), Some("/a")), &[]);
    assert_eq!(reconstruct_uri_with(&mut req, host, None), Ok(()));
    assert_eq!(parts(req), (some("http"), some("own"), some("/a")));
}

#[test]
fn host_authority_is_read_from_the_first_value() {
    let req = request(uri(None, None, Some("/")), &[b"first:1", b"second"]);
    assert_eq!(read_host_authority(&req.headers).unwrap().as_str(), "first:1");
    let req = request(uri(None, None, Some("/")), &[b"a/b", b"second"]);
    assert!(read_host_authority(&req.headers).is_none());
}

#[test]
fn long_addresses_give_the_authority() {
    let long = "[2001:db8:1111:2222:3333:4444:5555:6666]:8080";
    let mut req = request(uri(None, None, Some("/p")), &[]);
    assert!(check_request(&req, &addr(long)));
    assert_eq!(reconstruct_uri(&mut req, addr(long)), Ok(()));
    assert_eq!(parts(req), (some("http"), some(long), some("/p")));
    let mut req = request(uri(None, None, Some("/a")), &[b"foo.bar"]);
    assert_eq!(try_reconstruct_uri(&mut req, addr(long)), Some(Ok(())));
    assert_eq!(parts(req), (some("http"), some("foo.bar"), some("/a")));
}

#[test]
fn longest_address_gives_the_authority() {
    let longest = "[1111:2222:3333:4444:5555:6666:7777:8888%4294967295]:65535";
    assert_eq!(longest.len(), 58);
    let mut req = request(uri(None, None, Some("/a")), &[]);
    assert_eq!(try_reconstruct_uri(&mut req, addr(longest)), Some(Ok(())));
    assert_eq!(parts(req), (some("http"), some(longest), some("/a")));
}

#[test]
fn target_without_a_path_is_given_up() {
    let mut req = request(uri(None, None, None), &[b"foo.bar"]);
    assert_eq!(try_reconstruct_uri(&mut req, None), None);
    let mut req = request(uri(None, None, None), &[]);
    assert_eq!(try_reconstruct_uri(&mut req, addr("1.2.3.4:5")), None);
    let mut req = request(uri(None, None, None), &[]);
    assert_eq!(try_reconstruct_uri(&mut req, None), Some(Err(())));
}

#[test]
fn full_header_map_takes_no_host_field() {
    let mut req = request(uri(Some("http"), Some("foo.bar"), Some("/a")), &[]);
    for i in 0..32766 {
        let name = HeaderName::from_bytes(format!("x-{}", i).as_bytes()).unwrap();
        req.headers.insert(name, HeaderValue::from_static("1"));
    }
    assert!(check_request(&req, &None));
    req.headers.insert("last", HeaderValue::from_static("1"));
    assert_eq!(req.headers.keys_len(), 32768);
    assert_eq!(try_reconstruct_uri(&mut req, None), None);
    req.headers.remove("last");
    assert_eq!(try_reconstruct_uri(&mut req, None), Some(Ok(())));
    assert_eq!(hosts(&req), vec![b"foo.bar".to_vec()]);
}
