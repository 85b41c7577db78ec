//! Telling protocols apart by the first bytes of a connection.
use vstd::prelude::*;

verus! {

/// What a client sends first over HTTP/2: `PRI * HTTP/2.0\r\n\r\nSM\r\n\r\n`.
pub const H2_PREFACE: [u8; 24] = [
    80, 82, 73, 32, 42, 32, 72, 84, 84, 80, 47, 50, 46, 48, 13, 10, 13, 10, 83, 77, 13, 10, 13, 10,
];

/// How bytes fail to be the head of an HTTP/1 request.
#[derive(Clone, Copy, Debug, PartialEq, Eq, Structural)]
pub enum HeadError {
    HeaderName,
    HeaderValue,
    NewLine,
    Status,
    Token,
    TooManyHeaders,
    Version,
}

/// What bytes are as the head of an HTTP/1 request: a whole one of some length, the beginning of
/// one, or neither.
#[derive(Clone, Copy, Debug, PartialEq, Eq, Structural)]
pub enum Head {
    Complete(usize),
    Partial,
    Invalid(HeadError),
}

/// What `httparse` makes of bytes as the head of a request, with no room for header fields.
pub uninterp spec fn parsed_head(bytes: Seq<u8>) -> Head;

/// A byte that begins no head: a control byte other than those that end a line, or a byte that
/// is not ASCII.
pub open spec fn begins_no_head(b: u8) -> bool {
    b < 32 && b != 10 && b != 13 || b >= 127
}

/// All bytes are visible ASCII characters.
pub open spec fn is_word(s: Seq<u8>) -> bool {
    &&& s.len() > 0
    &&& forall|i: int| 0 <= i < s.len() ==> 33 <= #[trigger] s[i] <= 126
}

/// The version `HTTP/1.0` or `HTTP/1.1`, by its last digit.
pub open spec fn http1_version(minor: u8) -> Seq<u8> {
    seq![72u8, 84, 84, 80, 47, 49, 46, minor]
}

/// The first line of an HTTP/1 request.
pub open spec fn request_line(method: Seq<u8>, target: Seq<u8>, minor: u8) -> Seq<u8> {
    method + seq![32u8] + target + seq![32u8] + http1_version(minor) + seq![13u8, 10]
}

/// A byte that the name of a header field may begin with.
pub open spec fn begins_field(b: u8) -> bool {
    ||| 48 <= b <= 57 || 65 <= b <= 90 || 97 <= b <= 122
    ||| b == 33 || 35 <= b <= 39 || b == 42 || b == 43 || b == 45 || b == 46
    ||| b == 94 || b == 95 || b == 96 || b == 124 || b == 126
}

/// What may follow the first line of a request: a header field, or an empty line.
pub open spec fn follows_line(rest: Seq<u8>) -> bool {
    ||| rest.len() == 0
    ||| begins_field(rest[0])
    ||| rest[0] == 13 && (rest.len() == 1 || rest[1] == 10)
}

/// `bytes` is the beginning of `line`, or `line` and what may follow it.
pub open spec fn begins_with_line(bytes: Seq<u8>, line: Seq<u8>) -> bool {
    if bytes.len() <= line.len() {
        bytes == line.take(bytes.len() as int)
    } else {
        bytes.take(line.len() as int) == line && follows_line(bytes.skip(line.len() as int))
    }
}

/// The bytes, as far as they go, are the beginning of an HTTP/1 request.
pub open spec fn looks_like_http1(bytes: Seq<u8>) -> bool {
    exists|method: Seq<u8>, target: Seq<u8>, minor: u8|
        is_word(method) && is_word(target) && (minor == 48 || minor == 49) && begins_with_line(
            bytes,
            #[trigger] request_line(method, target, minor),
        )
}

/// The bytes before `start` are empty lines.
pub open spec fn skips_empty_lines(bytes: Seq<u8>, start: int) -> bool {
    forall|k: int|
        0 <= k < start ==> #[trigger] bytes[k] == 10 || (bytes[k] == 13 && k + 1 < start
            && bytes[k + 1] == 10)
}

/// After any empty lines, all bytes before `at` are visible, but for one space at `gap` if that is
/// among them, and the byte at `at` is neither visible nor a space.
pub open spec fn breaks_word(bytes: Seq<u8>, start: int, gap: int, at: int) -> bool {
    &&& 0 <= start <= at < bytes.len()
    &&& skips_empty_lines(bytes, start)
    &&& forall|k: int|
        start <= k < at ==> 33 <= #[trigger] bytes[k] <= 126 || (k == gap && bytes[k] == 32)
    &&& bytes[at] < 32 || bytes[at] >= 127
    &&& at == start ==> bytes[at] != 10 && bytes[at] != 13
}

/// After any empty lines stand two words, each with a space after it, and after the second, at
/// `end`, what is not `HTTP/1.` at its byte `d`.
pub open spec fn has_other_version(
    bytes: Seq<u8>,
    start: int,
    gap: int,
    end: int,
    d: int,
) -> bool {
    &&& 0 <= start <= gap < end < bytes.len()
    &&& skips_empty_lines(bytes, start)
    &&& forall|k: int|
        start <= k < end ==> 33 <= #[trigger] bytes[k] <= 126 || (k == gap && bytes[k] == 32)
    &&& bytes[gap] == 32 && bytes[end] == 32
    &&& 0 <= d < 7 && end + 1 + d < bytes.len()
    &&& bytes[end + 1 + d] != http1_version(48)[d]
}

/// The bytes cannot be the beginning of an HTTP/1 request.
pub open spec fn is_no_request(bytes: Seq<u8>) -> bool {
    ||| exists|start: int, gap: int, at: int| breaks_word(bytes, start, gap, at)
    ||| exists|start: int, gap: int, end: int, d: int|
        has_other_version(bytes, start, gap, end, d)
}

/// Calls `httparse::Request::parse` on a request without room for header fields. No bytes are
/// the beginning of a head; a head begins with a visible character, once empty lines are
/// skipped. Bytes that break off inside a good first line, or right after it, are the beginning
/// of a head; a header field after the line is one too many, and an empty line ends the head. A
/// byte in the method or the target that is not visible is no token, and what does not say
/// `HTTP/1.` after them is another version.
#[verifier::external_body]
fn parse_head(bytes: &[u8]) -> (head: Head)
    ensures
        head == parsed_head(bytes@),
        bytes@.len() == 0 ==> head == Head::Partial,
        bytes@.len() > 0 && begins_no_head(bytes@[0]) ==> head == Head::Invalid(HeadError::Token),
        looks_like_http1(bytes@) ==> head is Complete || head == Head::Partial || head
            == Head::Invalid(HeadError::TooManyHeaders),
        is_no_request(bytes@) ==> head == Head::Invalid(HeadError::Token) || head == Head::Invalid(
            HeadError::Version,
        ),
{
    let mut headers = [httparse::EMPTY_HEADER; 0];
    match httparse::Request::new(&mut headers).parse(bytes) {
        Ok(httparse::Status::Complete(n)) => Head::Complete(n),
        Ok(httparse::Status::Partial) => Head::Partial,
        Err(httparse::Error::HeaderName) => Head::Invalid(HeadError::HeaderName),
        Err(httparse::Error::HeaderValue) => Head::Invalid(HeadError::HeaderValue),
        Err(httparse::Error::NewLine) => Head::Invalid(HeadError::NewLine),
        Err(httparse::Error::Status) => Head::Invalid(HeadError::Status),
        Err(httparse::Error::Token) => Head::Invalid(HeadError::Token),
        Err(httparse::Error::TooManyHeaders) => Head::Invalid(HeadError::TooManyHeaders),
        Err(httparse::Error::Version) => Head::Invalid(HeadError::Version),
    }
}

/// The protocol of a connection.
#[derive(Clone, Copy, Debug, PartialEq, Eq, Structural)]
pub enum Protocol {
    Tcp,
    Http1,
    Http2,
}

/// The bytes begin with the HTTP/2 preface.
pub open spec fn has_preface(bytes: Seq<u8>) -> bool {
    bytes.len() >= 24 && bytes.subrange(0, 24) == H2_PREFACE@
}

/// The protocol of bytes that do not begin with the HTTP/2 preface. A head that broke off where
/// its header fields begin had a good first line.
pub open spec fn head_protocol(head: Head) -> Protocol {
    match head {
        Head::Complete(_) | Head::Partial | Head::Invalid(HeadError::TooManyHeaders) =>
            Protocol::Http1,
        _ => Protocol::Tcp,
    }
}

/// The protocol of bytes that `head` describes.
pub open spec fn detected(bytes: Seq<u8>, head: Head) -> Protocol {
    if has_preface(bytes) {
        Protocol::Http2
    } else {
        head_protocol(head)
    }
}

/// Tells whether the bytes begin with the HTTP/2 preface.
fn check_preface(bytes: &[u8]) -> (has: bool)
    ensures
        has == has_preface(bytes@),
{
    if bytes.len() < 24 {
        return false;
    }
    let preface: [u8; 24] = H2_PREFACE;
    let mut i: usize = 0;
    while i < 24
        invariant
            i <= 24 <= bytes@.len(),
            preface == H2_PREFACE,
            forall|k: int| 0 <= k < i ==> bytes@[k] == preface@[k],
        decreases 24 - i,
    {
        if bytes[i] != preface[i] {
            assert(bytes@.subrange(0, 24)[i as int] != H2_PREFACE@[i as int]);
            return false;
        }
        i = i + 1;
    }
    assert(bytes@.subrange(0, 24) =~= H2_PREFACE@);
    true
}

impl Protocol {
    /// Tells the protocol of a connection by its first bytes. The HTTP/2 preface settles it;
    /// else what can be the head of an HTTP/1 request, or its beginning, is taken for one.
    pub fn detect(bytes: &[u8]) -> (protocol: Protocol)
        ensures
            protocol == detected(bytes@, parsed_head(bytes@)),
            bytes@.len() == 0 ==> protocol == Protocol::Http1,
            bytes@.len() > 0 && begins_no_head(bytes@[0]) ==> protocol == Protocol::Tcp,
            looks_like_http1(bytes@) ==> protocol == Protocol::Http1,
            is_no_request(bytes@) && !has_preface(bytes@) ==> protocol == Protocol::Tcp,
    {
        proof {
            law_http1_has_no_preface(bytes@);
        }
        if check_preface(bytes) {
            assert(bytes@[0] == bytes@.subrange(0, 24)[0]);
            assert(H2_PREFACE@[0] == 80);
            return Protocol::Http2;
        }
        Protocol::from_head(parse_head(bytes))
    }

    /// The protocol of bytes that do not begin with the HTTP/2 preface, by what they are as the
    /// head of an HTTP/1 request.
    pub fn from_head(head: Head) -> (protocol: Protocol)
        ensures
            protocol == head_protocol(head),
    {
        match head {
            Head::Complete(_) => Protocol::Http1,
            Head::Partial => Protocol::Http1,
            Head::Invalid(HeadError::TooManyHeaders) => Protocol::Http1,
            Head::Invalid(_) => Protocol::Tcp,
        }
    }
}

/// The preface settles the protocol: whatever follows it, and whatever else the bytes could be,
/// the connection is HTTP/2; and without it the connection is not.
pub proof fn law_preface_settles(bytes: Seq<u8>, more: Seq<u8>, head: Head)
    ensures
        detected(H2_PREFACE@ + more, head) == Protocol::Http2,
        detected(bytes, head) == Protocol::Http2 <==> has_preface(bytes),
        has_preface(bytes) ==> has_preface(bytes + more),
{
    assert((H2_PREFACE@ + more).subrange(0, 24) =~= H2_PREFACE@);
    if has_preface(bytes) {
        assert((bytes + more).subrange(0, 24) =~= bytes.subrange(0, 24));
    }
}

/// The bytes of a request line: the method, a space, the target, a space, the version.
proof fn lemma_request_line(method: Seq<u8>, target: Seq<u8>, minor: u8)
    ensures
        request_line(method, target, minor).len() == method.len() + target.len() + 12,
        forall|i: int|
            0 <= i < method.len() ==> #[trigger] request_line(method, target, minor)[i]
                == method[i],
        request_line(method, target, minor)[method.len() as int] == 32,
        forall|i: int|
            0 <= i < target.len() ==> request_line(method, target, minor)[method.len() + 1 + i]
                == #[trigger] target[i],
        request_line(method, target, minor)[method.len() + 1 + target.len() as int] == 32,
        request_line(method, target, minor)[method.len() + target.len() as int + 7] == 49,
{
}

/// What begins like an HTTP/1 request does not begin with the HTTP/2 preface.
pub proof fn law_http1_has_no_preface(bytes: Seq<u8>)
    ensures
        !(looks_like_http1(bytes) && has_preface(bytes)),
{
    if looks_like_http1(bytes) && has_preface(bytes) {
        let (method, target, minor) = choose|method: Seq<u8>, target: Seq<u8>, minor: u8|
            is_word(method) && is_word(target) && (minor == 48 || minor == 49) && begins_with_line(
                bytes,
                #[trigger] request_line(method, target, minor),
            );
        let line = request_line(method, target, minor);
        lemma_request_line(method, target, minor);
        assert forall|i: int| 0 <= i < 24 && i < line.len() implies #[trigger] line[i]
            == H2_PREFACE@[i] by {
            assert(bytes.subrange(0, 24)[i] == bytes[i]);
            if bytes.len() <= line.len() {
                assert(line.take(bytes.len() as int)[i] == line[i]);
            } else {
                assert(bytes.take(line.len() as int)[i] == bytes[i]);
            }
        }
        let m = method.len() as int;
        assert(m == 3) by {
            assert(line[m] == 32);
            assert(line[3] == 32);
        }
        let t = target.len() as int;
        assert(t == 1) by {
            assert(line[4 + t] == 32);
            assert(line[4] == target[0]);
            assert(line[5] == 32);
            if t > 1 {
                assert(line[m + 1 + 1] == target[1]);
            }
        }
        assert(line[11] == 49);
    }
}

/// However much of an HTTP/1 request has arrived, it looks like one: every beginning of bytes
/// that look like one does.
pub proof fn law_beginning_of_http1_is_http1(bytes: Seq<u8>, n: int)
    requires
        looks_like_http1(bytes),
        0 <= n <= bytes.len(),
    ensures
        looks_like_http1(bytes.take(n)),
{
    let (method, target, minor) = choose|method: Seq<u8>, target: Seq<u8>, minor: u8|
        is_word(method) && is_word(target) && (minor == 48 || minor == 49) && begins_with_line(
            bytes,
            #[trigger] request_line(method, target, minor),
        );
    let line = request_line(method, target, minor);
    let seen = bytes.take(n);
    if n <= line.len() {
        if bytes.len() > line.len() {
            assert(seen =~= bytes.take(line.len() as int).take(n));
        }
        assert(seen =~= line.take(n));
    } else {
        assert(seen.take(line.len() as int) =~= bytes.take(line.len() as int));
        let rest = bytes.skip(line.len() as int);
        assert(seen.skip(line.len() as int) =~= rest.take(n - line.len()));
    }
    assert(begins_with_line(seen, request_line(method, target, minor)));
}

/// Without the HTTP/2 preface, a connection is HTTP/1 just where its head is whole, is the
/// beginning of one, or breaks off where its header fields begin; any other failure means TCP.
/// With the preface, it is HTTP/2 and nothing else.
pub proof fn law_head_decides_without_the_preface(bytes: Seq<u8>, head: Head)
    ensures
        ({
            let preface = bytes.len() >= 24 && bytes.take(24) == H2_PREFACE@;
            let good = head is Complete || head == Head::Partial || head == Head::Invalid(
                HeadError::TooManyHeaders,
            );
            &&& detected(bytes, head) == Protocol::Http2 <==> preface
            &&& detected(bytes, head) == Protocol::Http1 <==> !preface && good
            &&& detected(bytes, head) == Protocol::Tcp <==> !preface && !good
            &&& head_protocol(head) == Protocol::Http1 <==> good
            &&& head_protocol(head) == Protocol::Tcp <==> !good
        }),
{
    if bytes.len() >= 24 {
        assert(bytes.subrange(0, 24) =~= bytes.take(24));
    }
}

/// A byte that is neither a space nor visible, in the method or in the target of what would be a
/// request, after any empty lines, shows that it is none: in the method where every byte before
/// is visible, in the target where one of them, at `gap`, is a space.
pub proof fn law_broken_word_is_no_request(bytes: Seq<u8>, start: int, gap: int, at: int)
    requires
        0 <= start <= at < bytes.len(),
        forall|k: int|
            0 <= k < start ==> #[trigger] bytes[k] == 10 || (bytes[k] == 13 && k + 1 < start
                && bytes[k + 1] == 10),
        forall|k: int|
            start <= k < at ==> 33 <= #[trigger] bytes[k] <= 126 || (k == gap && bytes[k] == 32),
        bytes[at] < 32 || bytes[at] >= 127,
        at == start ==> bytes[at] != 10 && bytes[at] != 13,
    ensures
        is_no_request(bytes),
{
    assert(breaks_word(bytes, start, gap, at));
}

/// A version that is not HTTP/1 where the version of a request would stand, after any empty lines
/// and two words with a space after each, shows that it is none.
pub proof fn law_other_version_is_no_request(
    bytes: Seq<u8>,
    start: int,
    gap: int,
    end: int,
    d: int,
)
    requires
        0 <= start <= gap < end < bytes.len(),
        forall|k: int|
            0 <= k < start ==> #[trigger] bytes[k] == 10 || (bytes[k] == 13 && k + 1 < start
                && bytes[k + 1] == 10),
        forall|k: int|
            start <= k < end ==> 33 <= #[trigger] bytes[k] <= 126 || (k == gap && bytes[k] == 32),
        bytes[gap] == 32,
        bytes[end] == 32,
        0 <= d < 7,
        end + 1 + d < bytes.len(),
        bytes[end + 1 + d] != seq![72u8, 84, 84, 80, 47, 49, 46][d],
    ensures
        is_no_request(bytes),
{
    assert(has_other_version(bytes, start, gap, end, d));
}

/// However much has arrived of a request line of HTTP/1.0 or HTTP/1.1, and of a header field or
/// an empty line after it, it looks like HTTP/1.
pub proof fn law_requests_look_like_http1(
    method: Seq<u8>,
    target: Seq<u8>,
    minor: u8,
    rest: Seq<u8>,
    n: int,
)
    requires
        method.len() > 0,
        forall|k: int| 0 <= k < method.len() ==> 33 <= #[trigger] method[k] <= 126,
        target.len() > 0,
        forall|k: int| 0 <= k < target.len() ==> 33 <= #[trigger] target[k] <= 126,
        minor == 48 || minor == 49,
        rest.len() > 0 ==> 65 <= rest[0] <= 90 || 97 <= rest[0] <= 122 || 48 <= rest[0] <= 57
            || rest == seq![13u8, 10],
        0 <= n <= method.len() + target.len() + 12 + rest.len(),
    ensures
        looks_like_http1(
            (method + seq![32u8] + target + seq![32u8, 72, 84, 84, 80, 47, 49, 46, minor, 13, 10]
                + rest).take(n),
        ),
{
    let line = request_line(method, target, minor);
    let bytes = method + seq![32u8] + target + seq![
        32u8,
        72,
        84,
        84,
        80,
        47,
        49,
        46,
        minor,
        13,
        10,
    ] + rest;
    assert(bytes =~= line + rest);
    assert(bytes.take(line.len() as int) =~= line);
    assert(bytes.skip(line.len() as int) =~= rest);
    if rest.len() == 0 {
        assert(line.take(bytes.len() as int) =~= bytes);
    }
    assert(begins_with_line(bytes, request_line(method, target, minor)));
    law_beginning_of_http1_is_http1(bytes, n);
}

/// No bytes both look like HTTP/1 and cannot be the beginning of a request.
pub proof fn law_http1_is_told_from_the_rest(bytes: Seq<u8>)
    ensures
        !(looks_like_http1(bytes) && is_no_request(bytes)),
{
    if looks_like_http1(bytes) && is_no_request(bytes) {
        let (method, target, minor) = choose|method: Seq<u8>, target: Seq<u8>, minor: u8|
            is_word(method) && is_word(target) && (minor == 48 || minor == 49) && begins_with_line(
                bytes,
                #[trigger] request_line(method, target, minor),
            );
        let line = request_line(method, target, minor);
        let m = method.len() as int;
        let t = target.len() as int;
        lemma_request_line(method, target, minor);
        assert forall|i: int| 0 <= i < bytes.len() && i < line.len() implies #[trigger] bytes[i]
            == line[i] by {
            if bytes.len() <= line.len() {
                assert(line.take(bytes.len() as int)[i] == line[i]);
            } else {
                assert(bytes.take(line.len() as int)[i] == bytes[i]);
            }
        }
        assert forall|i: int| 0 <= i < m && i < bytes.len() implies 33 <= #[trigger] bytes[i]
            <= 126 by {
            assert(line[i] == method[i]);
        }
        assert forall|i: int| m < i < m + 1 + t && i < bytes.len() implies 33 <= #[trigger] bytes[i]
            <= 126 by {
            assert(line[m + 1 + (i - m - 1)] == target[i - m - 1]);
        }
        if bytes.len() > m {
            assert(bytes[m] == 32);
        }
        if bytes.len() > m + 1 + t {
            assert(bytes[m + 1 + t] == 32);
        }
        if exists|start: int, gap: int, at: int| breaks_word(bytes, start, gap, at) {
            let (start, gap, at) = choose|start: int, gap: int, at: int|
                breaks_word(bytes, start, gap, at);
            if start > 0 {
                assert(bytes[0] == 10 || bytes[0] == 13);
            }
            assert(at > m + 1 + t);
            assert(bytes[m] == 32 && bytes[m + 1 + t] == 32);
        } else {
            let (start, gap, end, d) = choose|start: int, gap: int, end: int, d: int|
                has_other_version(bytes, start, gap, end, d);
            if start > 0 {
                assert(bytes[0] == 10 || bytes[0] == 13);
            }
            assert(gap == m) by {
                if gap < m {
                    assert(33 <= bytes[gap] <= 126);
                }
                if gap > m {
                    assert(bytes[m] == 32);
                }
            }
            assert(end == m + 1 + t) by {
                if end < m + 1 + t {
                    assert(33 <= bytes[end] <= 126);
                }
                if end > m + 1 + t {
                    assert(bytes[m + 1 + t] == 32);
                }
            }
            assert(line[end + 1 + d] == http1_version(minor)[d]);
            assert(bytes[end + 1 + d] == line[end + 1 + d]);
        }
    }
}

} // verus!
