//! Request targets: authorities and URIs.
use vstd::prelude::*;

use crate::address;
use crate::text;

verus! {

/// The scheme of the URIs that the proxy makes.
pub open spec fn http() -> Seq<char> {
    "http"@
}

/// An authority is not empty, and all its characters are visible.
pub open spec fn is_authority_text(s: Seq<char>) -> bool {
    &&& s.len() > 0
    &&& forall|i: int| 0 <= i < s.len() ==> '!' <= #[trigger] s[i] <= '~'
}

/// Whether `http` takes the text for an authority (`Authority`'s `FromStr`).
pub uninterp spec fn parses_as_authority(s: Seq<char>) -> bool;

/// Whether `http` takes the bytes for an authority (`Authority::from_shared`).
pub uninterp spec fn is_shared_authority(s: Seq<u8>) -> bool;

/// The longest text whose colons `http` can count while it reads an authority.
pub const MAX_AUTHORITY_LEN: usize = 0x7fff_ffff;

/// Calls `<http::uri::Authority as FromStr>::from_str`. An authority that it takes is the text
/// itself; it takes no empty text, and none with a character that is not visible. More than
/// `MAX_AUTHORITY_LEN` colons overflow the count that it keeps.
#[verifier::external_body]
fn parse_authority(s: &str) -> (authority: Option<String>)
    requires
        s@.len() <= MAX_AUTHORITY_LEN,
    ensures
        authority is Some <==> parses_as_authority(s@),
        authority matches Some(a) ==> a@ == s@ && is_authority_text(s@),
{
    let authority: http::uri::Authority = s.parse().ok()?;
    Some(authority.as_str().to_owned())
}

/// Calls `http::uri::Authority::from_shared`. An authority that it takes is the text that the
/// bytes spell; it takes no empty text, and none with a character that is not visible. It takes
/// every socket address: there colons and percent signs stand inside square brackets, but for the
/// colon before the port. More than `MAX_AUTHORITY_LEN` colons overflow the count that it keeps.
#[verifier::external_body]
fn authority_from_shared(s: Vec<u8>) -> (authority: Option<String>)
    requires
        s@.len() <= MAX_AUTHORITY_LEN,
    ensures
        authority is Some <==> is_shared_authority(s@),
        authority matches Some(a) ==> a@ == text::text_of(s@) && is_authority_text(a@),
        address::is_socket_address(text::text_of(s@)) ==> authority is Some,
{
    let authority = http::uri::Authority::from_shared(bytes::Bytes::from(s)).ok()?;
    Some(authority.as_str().to_owned())
}

/// The authority of a URI: the host, with a port and user information where they are given.
pub struct Authority {
    text: String,
}

impl View for Authority {
    type V = Seq<char>;

    closed spec fn view(&self) -> Seq<char> {
        self.text@
    }
}

impl Authority {
    #[verifier::type_invariant]
    spec fn inv(self) -> bool {
        is_authority_text(self.text@)
    }

    /// Reads an authority from text.
    pub fn from_str(s: &str) -> (authority: Option<Authority>)
        requires
            s@.len() <= MAX_AUTHORITY_LEN,
        ensures
            authority is Some <==> parses_as_authority(s@),
            authority matches Some(a) ==> a@ == s@,
    {
        match parse_authority(s) {
            Some(text) => Some(Authority { text }),
            None => None,
        }
    }

    /// Reads an authority from bytes.
    pub fn from_shared(s: Vec<u8>) -> (authority: Option<Authority>)
        requires
            s@.len() <= MAX_AUTHORITY_LEN,
        ensures
            authority is Some <==> is_shared_authority(s@),
            authority matches Some(a) ==> a@ == text::text_of(s@),
            address::is_socket_address(text::text_of(s@)) ==> authority is Some,
    {
        match authority_from_shared(s) {
            Some(text) => Some(Authority { text }),
            None => None,
        }
    }

    /// The authority as text.
    pub fn as_str(&self) -> (text: &str)
        ensures
            text@ == self@,
            is_authority_text(text@),
    {
        proof {
            use_type_invariant(self);
        }
        self.text.as_str()
    }
}

impl Clone for Authority {
    fn clone(&self) -> (copy: Authority)
        ensures
            copy == *self,
    {
        proof {
            use_type_invariant(self);
        }
        Authority { text: self.text.clone() }
    }
}

/// The components of a URI.
pub struct Parts {
    pub scheme: Option<String>,
    pub authority: Option<Authority>,
    pub path_and_query: Option<String>,
}

/// The components of a URI, as texts.
pub struct UriView {
    pub scheme: Option<Seq<char>>,
    pub authority: Option<Seq<char>>,
    pub path_and_query: Option<Seq<char>>,
}

/// The text, if there is one.
pub open spec fn text_view(text: Option<String>) -> Option<Seq<char>> {
    match text {
        Some(t) => Some(t@),
        None => None,
    }
}

/// The authority as text, if there is one.
pub open spec fn authority_view(authority: Option<Authority>) -> Option<Seq<char>> {
    match authority {
        Some(a) => Some(a@),
        None => None,
    }
}

impl View for Parts {
    type V = UriView;

    open spec fn view(&self) -> UriView {
        UriView {
            scheme: text_view(self.scheme),
            authority: authority_view(self.authority),
            path_and_query: text_view(self.path_and_query),
        }
    }
}

/// Why components do not make up a URI.
#[derive(Clone, Copy, Debug, PartialEq, Eq, Structural)]
pub enum InvalidUriParts {
    AuthorityMissing,
    PathAndQueryMissing,
    SchemeMissing,
}

impl UriView {
    /// What keeps the components from making up a URI: with a scheme an authority and a path
    /// are needed, and without one they do not go together.
    pub open spec fn defect(self) -> Option<InvalidUriParts> {
        if self.scheme is Some && self.authority is None {
            Some(InvalidUriParts::AuthorityMissing)
        } else if self.scheme is Some && self.path_and_query is None {
            Some(InvalidUriParts::PathAndQueryMissing)
        } else if self.scheme is None && self.authority is Some && self.path_and_query is Some {
            Some(InvalidUriParts::SchemeMissing)
        } else {
            None
        }
    }

    /// The absolute URI for `authority` that has the path and query of this one.
    pub open spec fn with_authority(self, authority: Seq<char>) -> UriView {
        UriView {
            scheme: Some(http()),
            authority: Some(authority),
            path_and_query: self.path_and_query,
        }
    }
}

/// A request target: a path, an authority, or both with a scheme.
pub struct Uri {
    parts: Parts,
}

impl View for Uri {
    type V = UriView;

    closed spec fn view(&self) -> UriView {
        self.parts@
    }
}

impl Uri {
    #[verifier::type_invariant]
    spec fn inv(self) -> bool {
        self.parts@.defect() is None
    }

    /// Makes a URI of its components.
    pub fn from_parts(parts: Parts) -> (uri: Result<Uri, InvalidUriParts>)
        ensures
            match uri {
                Ok(u) => parts@.defect() is None && u@ == parts@,
                Err(e) => parts@.defect() == Some(e),
            },
    {
        if parts.scheme.is_some() {
            if parts.authority.is_none() {
                return Err(InvalidUriParts::AuthorityMissing);
            }
            if parts.path_and_query.is_none() {
                return Err(InvalidUriParts::PathAndQueryMissing);
            }
        } else {
            if parts.authority.is_some() && parts.path_and_query.is_some() {
                return Err(InvalidUriParts::SchemeMissing);
            }
        }
        Ok(Uri { parts })
    }

    /// Takes the URI apart.
    pub fn into_parts(self) -> (parts: Parts)
        ensures
            parts@ == self@,
            parts@.defect() is None,
    {
        proof {
            use_type_invariant(&self);
        }
        self.parts
    }

    /// The authority, if the URI has one.
    pub fn authority_part(&self) -> (authority: Option<&Authority>)
        ensures
            match authority {
                Some(a) => self@.authority == Some(a@),
                None => self@.authority is None,
            },
    {
        self.parts.authority.as_ref()
    }

    /// Whether the URI has a path.
    pub fn has_path(&self) -> (has: bool)
        ensures
            has == (self@.path_and_query is Some),
    {
        self.parts.path_and_query.is_some()
    }
}

impl Default for Uri {
    /// The path `/`.
    fn default() -> (uri: Uri)
        ensures
            uri@ == (UriView { scheme: None, authority: None, path_and_query: Some("/"@) }),
    {
        Uri {
            parts: Parts {
                scheme: None,
                authority: None,
                path_and_query: Some("/".to_owned()),
            },
        }
    }
}

/// Turns the target into an absolute one at `auth`, keeping its path and query.
pub fn set_authority(uri: &mut Uri, auth: Authority)
    requires
        old(uri)@.path_and_query is Some,
    ensures
        final(uri)@ == old(uri)@.with_authority(auth@),
{
    let mut taken: Uri = Uri::default();
    core::mem::swap(uri, &mut taken);
    let mut parts: Parts = taken.into_parts();
    parts.scheme = Some("http".to_owned());
    parts.authority = Some(auth);
    *uri = Uri::from_parts(parts).expect("an absolute URI");
}

/// With an authority, a target that has a path is a URI, and it has just the one authority that
/// was set last.
pub proof fn law_authority_makes_a_uri(uri: UriView, first: Seq<char>, last: Seq<char>)
    ensures
        uri.path_and_query is Some ==> uri.with_authority(first).defect() is None,
        uri.with_authority(first).with_authority(last) == uri.with_authority(last),
        uri.with_authority(first).path_and_query == uri.path_and_query,
{
}

/// The view of components shows each of them, and nothing else.
pub proof fn law_view_shows_all_components(parts: Parts)
    ensures
        parts.scheme matches Some(s) ==> parts@.scheme == Some(s@),
        parts.scheme is None ==> parts@.scheme is None,
        parts.authority matches Some(a) ==> parts@.authority == Some(a@),
        parts.authority is None ==> parts@.authority is None,
        parts.path_and_query matches Some(p) ==> parts@.path_and_query == Some(p@),
        parts.path_and_query is None ==> parts@.path_and_query is None,
{
}

/// Components make up a URI just where they are a path, an authority, nothing, or all three.
/// Where they do not, the error names what is missing, an authority before a path.
pub proof fn law_components_of_a_uri(uri: UriView)
    ensures
        uri.defect() is None <==> {
            let (s, a, p) = (uri.scheme is Some, uri.authority is Some, uri.path_and_query is Some);
            (s && a && p) || (!s && !a) || (!s && !p)
        },
        uri.defect() == Some(InvalidUriParts::AuthorityMissing) <==> uri.scheme is Some
            && uri.authority is None,
        uri.defect() == Some(InvalidUriParts::PathAndQueryMissing) <==> uri.scheme is Some
            && uri.authority is Some && uri.path_and_query is None,
        uri.defect() == Some(InvalidUriParts::SchemeMissing) <==> uri.scheme is None
            && uri.authority is Some && uri.path_and_query is Some,
{
}

/// A target with another authority differs in nothing but its scheme, which is `http`, and its
/// authority, which is the one it was given.
pub proof fn law_authority_is_set_as_given(uri: UriView, authority: Seq<char>)
    ensures
        uri.with_authority(authority).scheme == Some("http"@),
        uri.with_authority(authority).authority == Some(authority),
        uri.with_authority(authority).path_and_query == uri.path_and_query,
{
}

} // verus!
