//! Requests that arrive over HTTP/1, and how their target is made absolute.
use std::fmt::Write;

use vstd::prelude::*;

use crate::address::{self, MAX_ADDRESS_LEN, SocketAddr};
use crate::headers::{self, MAX_NAMES, get_header, insert_header, keys_len, value_to_str};
use crate::text;
use crate::uri::{self, Authority, MAX_AUTHORITY_LEN, Uri, set_authority};

verus! {

/// A request: its target, its header fields, the context of the connection that it came by, and
/// its body.
pub struct Request<C, B> {
    pub uri: Uri,
    pub headers: http::HeaderMap,
    pub ctx: Option<C>,
    pub body: B,
}

/// A response.
pub struct Response<B> {
    pub status: u16,
    pub headers: http::HeaderMap,
    pub body: B,
}

/// Writes `text` to a `bytes::BytesMut` made by `BytesMut::with_capacity` and gives its content.
/// A text that fits the capacity is always taken, and what was taken is the text's UTF-8. A
/// buffer may have more room than was asked for, so a longer text may be taken too.
#[verifier::external_body]
fn write_to_buffer(capacity: usize, text: &str) -> (content: Option<Vec<u8>>)
    requires
        capacity <= 4096,
    ensures
        vstd::utf8::encode_utf8(text@).len() <= capacity ==> content is Some,
        content matches Some(c) ==> c@ == vstd::utf8::encode_utf8(text@),
{
    let mut buffer = bytes::BytesMut::with_capacity(capacity);
    write!(&mut buffer, "{}", text).ok()?;
    Some(buffer.freeze().to_vec())
}

/// The name of the field that says at which host the target is.
pub open spec fn host() -> Seq<char> {
    "host"@
}

/// The authority that the `Host` field gives: its first value, if that is text, is not empty
/// and can be read as an authority.
pub open spec fn host_authority(entries: Map<Seq<char>, Seq<Seq<u8>>>) -> Option<Seq<char>> {
    if !entries.contains_key(host()) {
        None
    } else {
        let value = entries[host()][0];
        let text = text::text_of(value);
        if text::is_visible_text(value) && value.len() > 0 && uri::parses_as_authority(text) {
            Some(text)
        } else {
            None
        }
    }
}

/// The `Host` field, if it is text, is short enough to be read as an authority.
pub open spec fn host_fits(entries: Map<Seq<char>, Seq<Seq<u8>>>) -> bool {
    entries.contains_key(host()) && text::is_visible_text(entries[host()][0])
        ==> entries[host()][0].len() <= MAX_AUTHORITY_LEN
}

/// The authority of a request: that of its target, else that of its `Host` field, else the
/// original destination of the connection.
pub open spec fn chosen_authority(
    uri: uri::UriView,
    host: Option<Seq<char>>,
    orig_dst: Option<Seq<char>>,
) -> Option<Seq<char>> {
    if uri.authority is Some {
        uri.authority
    } else if host is Some {
        host
    } else {
        orig_dst
    }
}

/// The target of the request once its authority is known.
pub open spec fn absolute_target(
    uri: uri::UriView,
    host: Option<Seq<char>>,
    orig_dst: Option<Seq<char>>,
) -> uri::UriView {
    if uri.authority is Some {
        uri
    } else {
        match chosen_authority(uri, host, orig_dst) {
            Some(authority) => uri.with_authority(authority),
            None => uri,
        }
    }
}

/// The header fields of the request once its authority is known: where the target came with an
/// authority, the `Host` field says the same.
pub open spec fn agreeing_entries(
    uri: uri::UriView,
    entries: Map<Seq<char>, Seq<Seq<u8>>>,
) -> Map<Seq<char>, Seq<Seq<u8>>> {
    match uri.authority {
        Some(authority) => if entries.contains_key(host()) && entries[host()][0]
            == text::bytes_of(authority) {
            entries
        } else {
            entries.insert(host(), seq![text::bytes_of(authority)])
        },
        None => entries,
    }
}

/// Nothing stands in the way of making the target absolute: where a `Host` field must be added
/// there is room for it, and where the target gets an authority it has a path.
pub open spec fn can_reconstruct(
    uri: uri::UriView,
    entries: Map<Seq<char>, Seq<Seq<u8>>>,
    host: Option<Seq<char>>,
    orig_dst: Option<Seq<char>>,
) -> bool {
    if uri.authority is Some {
        entries.contains_key(self::host()) || entries.dom().len() < MAX_NAMES
    } else {
        host is Some || orig_dst is Some ==> uri.path_and_query is Some
    }
}

/// The address as text, if there is one.
pub open spec fn address_view(addr: Option<SocketAddr>) -> Option<Seq<char>> {
    match addr {
        Some(a) => Some(a@),
        None => None,
    }
}

/// The key of the `Host` field is its name, which is no other field's.
pub proof fn lemma_host_key()
    ensures
        headers::header_key(host()) == host(),
        headers::is_header_name(host()),
        vstd::utf8::is_ascii_chars(host()),
        host() != headers::connection(),
{
    reveal_strlit("host");
    reveal_strlit("connection");
    assert(headers::header_key(host()) =~= host());
}

/// Compares two byte strings.
fn same_bytes(a: &[u8], b: &[u8]) -> (same: bool)
    ensures
        same == (a@ == b@),
{
    if a.len() != b.len() {
        return false;
    }
    let mut i: usize = 0;
    while i < a.len()
        invariant
            i <= a@.len(),
            a@.len() == b@.len(),
            forall|k: int| 0 <= k < i ==> a@[k] == b@[k],
        decreases a@.len() - i,
    {
        if a[i] != b[i] {
            return false;
        }
        i = i + 1;
    }
    assert(a@ =~= b@);
    true
}

/// The bytes of an authority, which form a header value.
fn authority_bytes(auth: &Authority) -> (bytes: Vec<u8>)
    ensures
        bytes@ == text::bytes_of(auth@),
        headers::is_header_value(bytes@),
{
    let text: &str = auth.as_str();
    assert(text.is_ascii());
    let bytes: Vec<u8> = text.as_bytes_vec();
    assert(bytes@ =~= text::bytes_of(auth@));
    bytes
}

/// Reads the authority that the `Host` field gives.
pub fn read_host_authority(headers: &http::HeaderMap) -> (authority: Option<Authority>)
    requires
        host_fits(headers::header_entries(*headers)),
    ensures
        uri::authority_view(authority) == host_authority(headers::header_entries(*headers)),
{
    proof {
        lemma_host_key();
    }
    let value: Vec<u8> = match get_header(headers, "host") {
        Some(value) => value,
        None => {
            return None;
        },
    };
    match value_to_str(value.as_slice()) {
        Some(text) => if text.as_str().is_empty() {
            None
        } else {
            Authority::from_str(text.as_str())
        },
        None => None,
    }
}

/// Writes out a socket address as an authority.
fn address_authority(addr: &SocketAddr) -> (authority: Authority)
    ensures
        authority@ == addr@,
{
    let text: &str = addr.as_str();
    proof {
        address::law_address_is_short_and_visible(text@);
        assert(text.is_ascii());
        vstd::utf8::is_ascii_chars_encode_utf8(text@);
        assert(text::text_of(vstd::utf8::encode_utf8(text@)) =~= text@);
    }
    let bytes: Vec<u8> = write_to_buffer(MAX_ADDRESS_LEN, text).expect(
        "the address fits the buffer",
    );
    Authority::from_shared(bytes).expect("a socket address is a valid authority")
}

/// Makes the target of a request absolute, given the authority that its `Host` field gives.
///
/// A target that comes with an authority keeps it, and the `Host` field is made to agree. Any
/// other target gets the authority of the `Host` field or, failing that, the original
/// destination of the connection. The request is left as it is where there is none either.
pub fn reconstruct_uri_with<C, B>(
    req: &mut Request<C, B>,
    host: Option<Authority>,
    orig_dst: Option<SocketAddr>,
) -> (done: Result<(), ()>)
    requires
        can_reconstruct(
            old(req).uri@,
            headers::header_entries(old(req).headers),
            uri::authority_view(host),
            address_view(orig_dst),
        ),
    ensures
        done is Ok <==> chosen_authority(
            old(req).uri@,
            uri::authority_view(host),
            address_view(orig_dst),
        ) is Some,
        final(req).uri@ == absolute_target(
            old(req).uri@,
            uri::authority_view(host),
            address_view(orig_dst),
        ),
        headers::header_entries(final(req).headers) == agreeing_entries(
            old(req).uri@,
            headers::header_entries(old(req).headers),
        ),
        final(req).ctx == old(req).ctx,
        final(req).body == old(req).body,
{
    proof {
        lemma_host_key();
    }
    let own: Option<Authority> = match req.uri.authority_part() {
        Some(auth) => Some(auth.clone()),
        None => None,
    };
    if let Some(auth) = own {
        let value: Vec<u8> = authority_bytes(&auth);
        if let Some(given) = get_header(&req.headers, "host") {
            if same_bytes(value.as_slice(), given.as_slice()) {
                return Ok(());
            }
        }
        insert_header(&mut req.headers, "host", value);
        return Ok(());
    }
    if let Some(auth) = host {
        set_authority(&mut req.uri, auth);
        return Ok(());
    }
    if let Some(addr) = orig_dst {
        let auth: Authority = address_authority(&addr);
        set_authority(&mut req.uri, auth);
        return Ok(());
    }
    Err(())
}

/// Nothing stands in the way of making the target of a request absolute, whatever authority its
/// `Host` field gives.
pub open spec fn request_fits(
    uri: uri::UriView,
    entries: Map<Seq<char>, Seq<Seq<u8>>>,
    orig_dst: Option<Seq<char>>,
) -> bool {
    &&& uri.authority is None ==> host_fits(entries)
    &&& can_reconstruct(uri, entries, host_authority(entries), orig_dst)
}

/// The authority of a request that came by a connection with this original destination.
pub open spec fn request_authority<C, B>(
    req: Request<C, B>,
    orig_dst: Option<Seq<char>>,
) -> Option<Seq<char>> {
    chosen_authority(req.uri@, host_authority(headers::header_entries(req.headers)), orig_dst)
}

/// Makes the target of a request absolute. `orig_dst` is the original destination of the
/// connection that the request came by, unless that is the proxy itself.
pub fn reconstruct_uri<C, B>(req: &mut Request<C, B>, orig_dst: Option<SocketAddr>) -> (done:
    Result<(), ()>)
    requires
        request_fits(
            old(req).uri@,
            headers::header_entries(old(req).headers),
            address_view(orig_dst),
        ),
    ensures
        done is Ok <==> request_authority(*old(req), address_view(orig_dst)) is Some,
        final(req).uri@ == absolute_target(
            old(req).uri@,
            host_authority(headers::header_entries(old(req).headers)),
            address_view(orig_dst),
        ),
        headers::header_entries(final(req).headers) == agreeing_entries(
            old(req).uri@,
            headers::header_entries(old(req).headers),
        ),
        final(req).ctx == old(req).ctx,
        final(req).body == old(req).body,
{
    let host: Option<Authority> = match req.uri.authority_part() {
        Some(_) => None,
        None => read_host_authority(&req.headers),
    };
    reconstruct_uri_with(req, host, orig_dst)
}

/// Tells whether the target of a request can be made absolute, as `request_fits` says.
pub fn check_request<C, B>(req: &Request<C, B>, orig_dst: &Option<SocketAddr>) -> (fits: bool)
    ensures
        fits == request_fits(
            req.uri@,
            headers::header_entries(req.headers),
            address_view(*orig_dst),
        ),
{
    proof {
        lemma_host_key();
    }
    let given: Option<Vec<u8>> = get_header(&req.headers, "host");
    if req.uri.authority_part().is_some() {
        return given.is_some() || keys_len(&req.headers) < MAX_NAMES;
    }
    if let Some(value) = given {
        if value.len() > MAX_AUTHORITY_LEN && value_to_str(value.as_slice()).is_some() {
            return false;
        }
    }
    if orig_dst.is_some() || read_host_authority(&req.headers).is_some() {
        req.uri.has_path()
    } else {
        true
    }
}

/// Makes the target of a request absolute where nothing stands in the way; says so, and leaves
/// the request as it is, where something does.
pub fn try_reconstruct_uri<C, B>(req: &mut Request<C, B>, orig_dst: Option<SocketAddr>) -> (done:
    Option<Result<(), ()>>)
    ensures
        done is Some <==> request_fits(
            old(req).uri@,
            headers::header_entries(old(req).headers),
            address_view(orig_dst),
        ),
        done is None ==> *final(req) == *old(req),
        done matches Some(d) ==> {
            &&& d is Ok <==> request_authority(*old(req), address_view(orig_dst)) is Some
            &&& final(req).uri@ == absolute_target(
                old(req).uri@,
                host_authority(headers::header_entries(old(req).headers)),
                address_view(orig_dst),
            )
            &&& headers::header_entries(final(req).headers) == agreeing_entries(
                old(req).uri@,
                headers::header_entries(old(req).headers),
            )
            &&& final(req).ctx == old(req).ctx
            &&& final(req).body == old(req).body
        },
{
    if check_request(req, &orig_dst) {
        Some(reconstruct_uri(req, orig_dst))
    } else {
        None
    }
}

/// RFC 7230, section 5.4: where the target comes with an authority, the `Host` field says the
/// same, and no other field is touched. A field that says the same already stays as it is.
pub proof fn law_host_agrees_with_target(uri: uri::UriView, entries: Map<Seq<char>, Seq<Seq<u8>>>)
    requires
        uri.authority is Some,
    ensures
        agreeing_entries(uri, entries).contains_key(host()),
        agreeing_entries(uri, entries)[host()][0] == text::bytes_of(uri.authority->0),
        agreeing_entries(uri, entries).remove(host()) == entries.remove(host()),
        agreeing_entries(uri, agreeing_entries(uri, entries)) == agreeing_entries(uri, entries),
{
    assert(agreeing_entries(uri, entries).remove(host()) =~= entries.remove(host()));
}

/// Where the target comes without an authority and the `Host` field gives one, the target ends
/// up with what the `Host` field says, and the field stays.
pub proof fn law_target_agrees_with_host(
    uri: uri::UriView,
    entries: Map<Seq<char>, Seq<Seq<u8>>>,
    orig_dst: Option<Seq<char>>,
)
    requires
        uri.authority is None,
        host_authority(entries) is Some,
    ensures
        absolute_target(uri, host_authority(entries), orig_dst).authority matches Some(a)
            && text::bytes_of(a) == entries[host()][0],
        agreeing_entries(uri, entries) == entries,
{
    let value = entries[host()][0];
    assert forall|i: int| 0 <= i < value.len() implies value[i] == (value[i] as char) as u8 by {
        assert(text::is_visible(value[i]));
    }
    assert(text::bytes_of(text::text_of(value)) =~= value);
}

/// The path and query are never touched, and where an authority is found the target has it.
pub proof fn law_target_keeps_its_path(
    uri: uri::UriView,
    host: Option<Seq<char>>,
    orig_dst: Option<Seq<char>>,
)
    ensures
        absolute_target(uri, host, orig_dst).path_and_query == uri.path_and_query,
        absolute_target(uri, host, orig_dst).authority == chosen_authority(uri, host, orig_dst),
{
}

/// A target that comes with an authority is never touched, so a request whose target has been
/// made absolute keeps it, whatever its `Host` field and its connection say.
pub proof fn law_absolute_target_is_final(
    uri: uri::UriView,
    host: Option<Seq<char>>,
    orig_dst: Option<Seq<char>>,
    later_host: Option<Seq<char>>,
    later_dst: Option<Seq<char>>,
)
    requires
        chosen_authority(uri, host, orig_dst) is Some,
    ensures
        absolute_target(absolute_target(uri, host, orig_dst), later_host, later_dst)
            == absolute_target(uri, host, orig_dst),
{
}

/// A request for which there is no authority is left as it is.
pub proof fn law_refused_request_is_unchanged(
    uri: uri::UriView,
    entries: Map<Seq<char>, Seq<Seq<u8>>>,
    host: Option<Seq<char>>,
    orig_dst: Option<Seq<char>>,
)
    requires
        chosen_authority(uri, host, orig_dst) is None,
    ensures
        absolute_target(uri, host, orig_dst) == uri,
        agreeing_entries(uri, entries) == entries,
{
}

/// Every authority is a valid header value.
pub proof fn law_authority_is_header_value(authority: Seq<char>)
    requires
        uri::is_authority_text(authority),
    ensures
        headers::is_header_value(text::bytes_of(authority)),
{
}

/// The address is seen as the text that it is.
pub proof fn law_address_is_seen_as_its_text(addr: SocketAddr)
    ensures
        address_view(Some(addr)) == Some(addr@),
        address_view(None) is None,
{
}

/// The precedence of authorities: the target's own, else the `Host` field's, else the original
/// destination. The target becomes one at that authority over HTTP, with its own path and query.
pub proof fn law_precedence_of_authorities(
    uri: uri::UriView,
    host: Option<Seq<char>>,
    orig_dst: Option<Seq<char>>,
)
    ensures
        uri.authority is Some ==> absolute_target(uri, host, orig_dst) == uri && chosen_authority(
            uri,
            host,
            orig_dst,
        ) == uri.authority,
        uri.authority is None ==> (host matches Some(h) ==> absolute_target(uri, host, orig_dst)
            == (uri::UriView {
            scheme: Some("http"@),
            authority: Some(h),
            path_and_query: uri.path_and_query,
        })) && (host is Some ==> chosen_authority(uri, host, orig_dst) == host),
        uri.authority is None && host is None ==> chosen_authority(uri, host, orig_dst)
            == orig_dst && (orig_dst matches Some(d) ==> absolute_target(uri, host, orig_dst)
            == (uri::UriView {
            scheme: Some("http"@),
            authority: Some(d),
            path_and_query: uri.path_and_query,
        })) && (orig_dst is None ==> absolute_target(uri, host, orig_dst) == uri),
{
}

/// The bytes of a header value are those of a text, seen in either way.
proof fn lemma_visible(value: Seq<u8>)
    ensures
        text::is_visible_text(value) <==> forall|k: int|
            0 <= k < value.len() ==> 32 <= #[trigger] value[k] <= 126 || value[k] == 9,
{
    if text::is_visible_text(value) {
        assert forall|k: int| 0 <= k < value.len() implies 32 <= #[trigger] value[k] <= 126
            || value[k] == 9 by {
            assert(text::is_visible(value[k]));
        }
    }
}

/// Where the target comes without an authority, a `Host` field whose first value is of visible
/// bytes, not empty, and an authority to `http`, decides, whatever its length and whatever the
/// original destination: the request succeeds, and its target has just that text as its authority.
pub proof fn law_host_field_decides<C, B>(
    req: Request<C, B>,
    orig_dst: Option<Seq<char>>,
    value: Seq<u8>,
    text: Seq<char>,
)
    requires
        req.uri@.authority is None,
        headers::header_entries(req.headers).contains_key("host"@),
        value == headers::header_entries(req.headers)["host"@][0],
        value.len() > 0,
        forall|k: int| 0 <= k < value.len() ==> 32 <= #[trigger] value[k] <= 126 || value[k] == 9,
        text.len() == value.len(),
        forall|k: int| 0 <= k < value.len() ==> #[trigger] text[k] == value[k] as char,
        uri::parses_as_authority(text),
    ensures
        request_authority(req, orig_dst) == Some(text),
        host_authority(headers::header_entries(req.headers)) == Some(text),
        absolute_target(
            req.uri@,
            host_authority(headers::header_entries(req.headers)),
            orig_dst,
        ) == (uri::UriView {
            scheme: Some("http"@),
            authority: Some(text),
            path_and_query: req.uri@.path_and_query,
        }),
        agreeing_entries(req.uri@, headers::header_entries(req.headers))
            == headers::header_entries(req.headers),
{
    lemma_visible(value);
    assert(text::text_of(value) =~= text);
}

/// The original destination is the last resort: where the target comes without an authority, it
/// is used just where the `Host` field is missing, or its first value is not of visible bytes, is
/// empty, or is no authority to `http`. Without one either, the request is refused as it is.
pub proof fn law_original_destination_is_the_last_resort<C, B>(
    req: Request<C, B>,
    orig_dst: Option<Seq<char>>,
)
    requires
        req.uri@.authority is None,
        ({
            let entries = headers::header_entries(req.headers);
            let value = entries["host"@][0];
            ||| !entries.contains_key("host"@)
            ||| value.len() == 0
            ||| exists|k: int|
                0 <= k < value.len() && !(32 <= #[trigger] value[k] <= 126) && value[k] != 9
            ||| !uri::parses_as_authority(Seq::new(value.len(), |k: int| value[k] as char))
        }),
    ensures
        request_authority(req, orig_dst) == orig_dst,
        host_authority(headers::header_entries(req.headers)) is None,
        ({
            let target = absolute_target(
                req.uri@,
                host_authority(headers::header_entries(req.headers)),
                orig_dst,
            );
            match orig_dst {
                Some(d) => target == (uri::UriView {
                    scheme: Some("http"@),
                    authority: Some(d),
                    path_and_query: req.uri@.path_and_query,
                }),
                None => target == req.uri@,
            }
        }),
        agreeing_entries(req.uri@, headers::header_entries(req.headers))
            == headers::header_entries(req.headers),
{
    let value = headers::header_entries(req.headers)["host"@][0];
    lemma_visible(value);
    assert(text::text_of(value) =~= Seq::new(value.len(), |k: int| value[k] as char));
}

/// A target that comes with an authority stays as it is. Its `Host` field ends up saying that
/// authority: as it came where its first value says so already, else with just this one value.
/// No other field changes.
pub proof fn law_own_authority_decides<C, B>(
    req: Request<C, B>,
    orig_dst: Option<Seq<char>>,
    authority: Seq<char>,
    said: Seq<u8>,
    key: Seq<char>,
)
    requires
        req.uri@.authority == Some(authority),
        said.len() == authority.len(),
        forall|k: int| 0 <= k < said.len() ==> #[trigger] said[k] == authority[k] as u8,
    ensures
        request_authority(req, orig_dst) == Some(authority),
        absolute_target(
            req.uri@,
            host_authority(headers::header_entries(req.headers)),
            orig_dst,
        ) == req.uri@,
        ({
            let before = headers::header_entries(req.headers);
            let after = agreeing_entries(req.uri@, before);
            &&& after.contains_key("host"@)
            &&& after["host"@] == if before.contains_key("host"@) && before["host"@][0] == said {
                before["host"@]
            } else {
                seq![said]
            }
            &&& key != "host"@ ==> (after.contains_key(key) <==> before.contains_key(key))
            &&& key != "host"@ && before.contains_key(key) ==> after[key] == before[key]
        }),
{
    assert(text::bytes_of(authority) =~= said);
}

/// What making a target absolute needs. A target with an authority needs a `Host` field, or room
/// for one; any other that gets an authority needs a path.
pub proof fn law_what_an_absolute_target_needs(
    uri: uri::UriView,
    entries: Map<Seq<char>, Seq<Seq<u8>>>,
    host: Option<Seq<char>>,
    orig_dst: Option<Seq<char>>,
)
    ensures
        uri.authority is Some ==> (can_reconstruct(uri, entries, host, orig_dst)
            <==> entries.contains_key("host"@) || entries.dom().len() < 32768),
        uri.authority is None && uri.path_and_query is Some ==> can_reconstruct(
            uri,
            entries,
            host,
            orig_dst,
        ),
        uri.authority is None && uri.path_and_query is None ==> (can_reconstruct(
            uri,
            entries,
            host,
            orig_dst,
        ) <==> host is None && orig_dst is None),
{
}

/// What a request needs for its target to be made absolute, besides: a `Host` field that is read,
/// and is of visible bytes, is no longer than an authority can be.
pub proof fn law_what_a_request_needs(
    uri: uri::UriView,
    entries: Map<Seq<char>, Seq<Seq<u8>>>,
    orig_dst: Option<Seq<char>>,
)
    ensures
        ({
            let value = entries["host"@][0];
            let short = entries.contains_key("host"@) && (forall|k: int|
                0 <= k < value.len() ==> 32 <= #[trigger] value[k] <= 126 || value[k] == 9)
                ==> value.len() <= 0x7fff_ffff;
            &&& host_fits(entries) <==> short
            &&& request_fits(uri, entries, orig_dst) <==> can_reconstruct(
                uri,
                entries,
                host_authority(entries),
                orig_dst,
            ) && (uri.authority is Some || short)
        }),
{
    lemma_visible(entries["host"@][0]);
}

} // verus!
