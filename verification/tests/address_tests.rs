use transparency::address::{SocketAddr, MAX_ADDRESS_LEN};

fn parse(text: &str) -> Option<String> {
    SocketAddr::from_text(text.to_string()).map(|addr| addr.as_str().to_string())
}

#[test]
fn written_addresses_are_taken() {
    for addr in ["127.0.0.1:80", "10.1.2.3:65535", "[::1]:8080", "[fe80::1%3]:1", "[::ffff:1.2.3.4]:9"] {
        assert_eq!(parse(addr), Some(addr.to_string()));
    }
}

#[test]
fn other_text_is_no_address() {
    for text in ["", ":", ":80", "127.0.0.1", "127.0.0.1:", "a.b:80", "::1:80", "[::1]", "[]:80", "[::1:80", "1.2.3.4:8o", "1.2.3.4:80 "] {
        assert_eq!(parse(text), None);
    }
    assert_eq!(parse("1.2.3.4\u{e9}:80"), None);
}

#[test]
fn addresses_are_not_longer_than_they_can_get() {
    let longest = "[1111:2222:3333:4444:5555:6666:7777:8888%4294967295]:65535";
    assert_eq!(longest.len(), MAX_ADDRESS_LEN);
    assert_eq!(parse(longest), Some(longest.to_string()));
    assert_eq!(parse(&format!("{}0", longest)), None);
}

#[test]
fn numbers_are_in_range() {
    for text in ["255.255.255.255:65535", "0.0.0.0:0", "1.20.100.9:10"] {
        assert_eq!(parse(text), Some(text.to_string()));
    }
    for text in [
        "...:1", "1.2.3:1", "1.2.3.4.5:1", "256.1.1.1:1", "1.1.1.999:1", "1..2.3:1", "01.2.3.4:1",
        "1.2.3.4:65536", "1.2.3.4:999999", "1.2.3.4:080", "1.2.3.4:00", ".1.2.3:1", "1.2.3.:1",
    ] {
        assert_eq!(parse(text), None);
    }
}

#[test]
fn ipv6_addresses_have_eight_groups() {
    for text in [
        "[::]:1", "[1::]:1", "[::8]:1", "[1:2:3:4:5:6:7:8]:1", "[1::8]:1", "[1:2:3:4:5:6:7::]:1",
        "[::2:3:4:5:6:7:8]:1", "[1:2::7:8]:1", "[fe80::abcd%4294967295]:1", "[::1.2.3.4]:1",
        "[::ffff:255.255.255.255]:1",
    ] {
        assert_eq!(parse(text), Some(text.to_string()));
    }
    for text in [
        "[:]:1", "[:::]:1", "[1]:1", "[1:2:3:4:5:6:7]:1", "[1:2:3:4:5:6:7:8:9]:1", "[1::2::3]:1",
        "[1:2:3:4:5:6:7::8]:1", "[12345::]:1", "[g::]:1", "[A::]:1", "[:1::]:1", "[1::2:]:1",
        "[1::%]:1", "[1::%4294967296]:1", "[1::%1%2]:1", "[%1]:1", "[::ffff:1.2.3]:1",
        "[::fff:1.2.3.4]:1", "[1::]", "[[1::]]:1",
    ] {
        assert_eq!(parse(text), None);
    }
}

#[test]
fn a_copy_is_the_same_address() {
    let addr = SocketAddr::from_text("1.2.3.4:5".to_string()).unwrap();
    assert_eq!(addr.clone().as_str(), "1.2.3.4:5");
}
