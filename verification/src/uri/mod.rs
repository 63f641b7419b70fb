//! URIs that name a socket in their host, hex-encoded, and the parts of a
//! parsed URI that the socket connectors read.

pub mod firecracker;
pub mod unix;
pub mod vsock;

use vstd::prelude::*;
use vstd::slice::slice_subrange;
use vstd::string::StringSliceAdditionalSpecFns;
use vstd::utf8::{pop_first_scalar, valid_utf8};

verus! {

#[verifier::external_type_specification]
#[verifier::external_body]
pub struct ExUri(http::Uri);

#[verifier::external_type_specification]
#[verifier::external_body]
pub struct ExInvalidUri(http::uri::InvalidUri);

/// A byte vector, optionally present, as a sequence.
pub open spec fn opt_bytes(o: Option<Vec<u8>>) -> Option<Seq<u8>> {
    match o {
        Some(v) => Some(v@),
        None => None,
    }
}

/// A URI parsed by the `http` crate, together with the two parts of it that
/// socket addressing reads: its scheme and its host, as bytes.
pub struct SocketUri {
    uri: http::Uri,
    scheme: Option<Vec<u8>>,
    host: Option<Vec<u8>>,
}

/// What a `SocketUri` holds: the parsed URI, and its scheme and host as bytes.
pub struct UriView {
    pub uri: http::Uri,
    pub scheme: Option<Seq<u8>>,
    pub host: Option<Seq<u8>>,
}

impl UriView {
    /// The scheme and the host.
    pub open spec fn parts(self) -> (Option<Seq<u8>>, Option<Seq<u8>>) {
        (self.scheme, self.host)
    }
}

impl View for SocketUri {
    type V = UriView;

    closed spec fn view(&self) -> UriView {
        UriView { uri: self.uri, scheme: opt_bytes(self.scheme), host: opt_bytes(self.host) }
    }
}

/// The scheme and host that `http` reads from a URI text, or `None` where it
/// refuses the text.
pub uninterp spec fn http_uri_parts(text: Seq<u8>) -> Option<(Option<Seq<u8>>, Option<Seq<u8>>)>;

/// The URI that `http` parses from a text that it accepts.
pub uninterp spec fn http_uri_of(text: Seq<u8>) -> http::Uri;

/// The scheme and host of a parsed URI, as `http::Uri::scheme_str` and
/// `http::Uri::host` give them, in bytes.
pub uninterp spec fn http_parts_of(uri: http::Uri) -> (Option<Seq<u8>>, Option<Seq<u8>>);

/// True for a non-empty word of lowercase ASCII letters.
pub open spec fn is_scheme_word(s: Seq<u8>) -> bool {
    s.len() > 0 && forall|i: int| 0 <= i < s.len() ==> 0x61 <= #[trigger] s[i] <= 0x7a
}

/// True for a lowercase ASCII hex digit.
pub open spec fn is_lower_hex_digit(c: u8) -> bool {
    (0x30 <= c <= 0x39) || (0x61 <= c <= 0x66)
}

/// True when every byte is a lowercase ASCII hex digit.
pub open spec fn is_lower_hex_text(a: Seq<u8>) -> bool {
    forall|i: int| 0 <= i < a.len() ==> is_lower_hex_digit(#[trigger] a[i])
}

/// The text `scheme://authority/rest`.
pub open spec fn absolute_uri(scheme: Seq<u8>, authority: Seq<u8>, rest: Seq<u8>) -> Seq<u8> {
    scheme + seq![0x3au8, 0x2fu8, 0x2fu8] + authority + seq![0x2fu8] + rest
}

/// `<http::Uri as TryFrom<&[u8]>>::try_from`, with the parsed URI's
/// `scheme_str` and `host` read back as bytes. What `http` reads from a text is
/// named by `http_uri_parts`, the URI by `http_uri_of` and its scheme and host
/// by `http_parts_of`; beyond that, this states one fact that `http`'s
/// documentation and source give: in a text `scheme://authority/rest` whose
/// scheme is made of lowercase letters and whose authority is made of
/// lowercase hex digits, the scheme is the scheme and the host is the whole
/// authority, and an empty authority is refused.
#[verifier::external_body]
fn http_parse(text: &[u8]) -> (parsed: Result<SocketUri, http::uri::InvalidUri>)
    ensures
        match parsed {
            Ok(uri) => {
                &&& http_uri_parts(text@) == Some(uri@.parts())
                &&& uri@.uri == http_uri_of(text@)
                &&& uri@.parts() == http_parts_of(uri@.uri)
            },
            Err(_) => http_uri_parts(text@) is None,
        },
        forall|s: Seq<u8>, a: Seq<u8>, p: Seq<u8>|
            #[trigger] absolute_uri(s, a, p) == text@ && is_scheme_word(s) && is_lower_hex_text(a)
                && parsed is Ok ==> a.len() > 0 && parsed->Ok_0@.parts() == (Some(s), Some(a)),
{
    let uri = http::Uri::try_from(text)?;
    let scheme = uri.scheme_str().map(|s| s.as_bytes().to_vec());
    let host = uri.host().map(|h| h.as_bytes().to_vec());
    Ok(SocketUri { uri, scheme, host })
}

/// `http::Uri::scheme_str` and `http::Uri::host`, read as bytes; what they
/// give for a URI is named by `http_parts_of`.
#[verifier::external_body]
fn http_parts(uri: &http::Uri) -> (parts: (Option<Vec<u8>>, Option<Vec<u8>>))
    ensures
        (opt_bytes(parts.0), opt_bytes(parts.1)) == http_parts_of(*uri),
{
    (uri.scheme_str().map(|s| s.as_bytes().to_vec()), uri.host().map(|h| h.as_bytes().to_vec()))
}

impl SocketUri {
    /// The URI that `http` parsed.
    pub open spec fn http(&self) -> http::Uri {
        self@.uri
    }

    /// Parses a URI text with `http`. In a text `scheme://authority/rest` whose
    /// scheme is lowercase letters and whose authority is lowercase hex digits,
    /// the scheme and host are those two pieces.
    pub fn parse(text: &str) -> (parsed: Result<SocketUri, http::uri::InvalidUri>)
        ensures
            match parsed {
                Ok(uri) => {
                    &&& http_uri_parts(text.spec_bytes()) == Some(uri@.parts())
                    &&& uri.http() == http_uri_of(text.spec_bytes())
                    &&& uri@.parts() == http_parts_of(uri.http())
                },
                Err(_) => http_uri_parts(text.spec_bytes()) is None,
            },
            forall|s: Seq<u8>, a: Seq<u8>, p: Seq<u8>|
                #[trigger] absolute_uri(s, a, p) == text.spec_bytes() && is_scheme_word(s) && is_lower_hex_text(a)
                    && parsed is Ok ==> a.len() > 0 && parsed->Ok_0@.parts() == (Some(s), Some(a)),
    {
        http_parse(text.as_bytes())
    }

    /// Takes a URI that `http` has already parsed.
    pub fn from_http(uri: http::Uri) -> (socket_uri: SocketUri)
        ensures
            socket_uri.http() == uri,
            socket_uri@.parts() == http_parts_of(uri),
    {
        let (scheme, host) = http_parts(&uri);
        SocketUri { uri, scheme, host }
    }

    /// The URI itself.
    pub fn as_http(&self) -> (uri: &http::Uri)
        ensures
            *uri == self.http(),
    {
        &self.uri
    }

    /// The URI itself, by value.
    pub fn into_http(self) -> (uri: http::Uri)
        ensures
            uri == self.http(),
    {
        self.uri
    }

    /// The scheme, as bytes.
    pub fn scheme(&self) -> (scheme: Option<&[u8]>)
        ensures
            match scheme {
                Some(s) => self@.scheme == Some(s@),
                None => self@.scheme is None,
            },
    {
        match &self.scheme {
            Some(s) => Some(s.as_slice()),
            None => None,
        }
    }

    /// The host, as bytes.
    pub fn host(&self) -> (host: Option<&[u8]>)
        ensures
            match host {
                Some(h) => self@.host == Some(h@),
                None => self@.host is None,
            },
    {
        match &self.host {
            Some(h) => Some(h.as_slice()),
            None => None,
        }
    }
}

/// `std::str::from_utf8`, reduced to whether it accepts the bytes: it does
/// exactly when they are well-formed UTF-8.
#[verifier::external_body]
pub(crate) fn is_utf8(bytes: &[u8]) -> (valid: bool)
    ensures
        valid == valid_utf8(bytes@),
{
    std::str::from_utf8(bytes).is_ok()
}

/// Bytes below 0x80 are well-formed UTF-8.
pub proof fn lemma_ascii_is_utf8(bytes: Seq<u8>)
    requires
        forall|i: int| 0 <= i < bytes.len() ==> #[trigger] bytes[i] < 0x80,
    ensures
        valid_utf8(bytes),
    decreases bytes.len(),
{
    if bytes.len() > 0 {
        let b = bytes[0];
        assert((b & 0x7f) as u32 <= 0x7f) by (bit_vector);
        let rest = pop_first_scalar(bytes);
        assert(rest =~= bytes.drop_first());
        lemma_ascii_is_utf8(rest);
    }
}

/// The text with its leading `/` characters removed.
pub open spec fn trim_leading_slashes(s: Seq<u8>) -> Seq<u8>
    decreases s.len(),
{
    if s.len() > 0 && s[0] == 0x2f {
        trim_leading_slashes(s.drop_first())
    } else {
        s
    }
}

/// Leading `/` characters of a URL make no difference.
pub proof fn lemma_leading_slash_ignored(url: Seq<u8>)
    ensures
        trim_leading_slashes(seq![0x2fu8] + url) == trim_leading_slashes(url),
        trim_leading_slashes(trim_leading_slashes(url)) == trim_leading_slashes(url),
    decreases url.len(),
{
    assert((seq![0x2fu8] + url).drop_first() =~= url);
    if url.len() > 0 && url[0] == 0x2f {
        lemma_leading_slash_ignored(url.drop_first());
    }
}

/// A socket URI built from a URL with one more leading `/` is the same URI:
/// the same text, so the same outcome and the same parsed URI.
pub proof fn lemma_leading_slash_same_uri(scheme: Seq<u8>, authority: Seq<u8>, url: Seq<u8>)
    ensures
        absolute_uri(scheme, authority, trim_leading_slashes(seq![0x2fu8] + url))
            == absolute_uri(scheme, authority, trim_leading_slashes(url)),
        http_uri_parts(absolute_uri(scheme, authority, trim_leading_slashes(seq![0x2fu8] + url)))
            == http_uri_parts(absolute_uri(scheme, authority, trim_leading_slashes(url))),
        http_uri_of(absolute_uri(scheme, authority, trim_leading_slashes(seq![0x2fu8] + url)))
            == http_uri_of(absolute_uri(scheme, authority, trim_leading_slashes(url))),
{
    lemma_leading_slash_ignored(url);
}

/// Trimming removes exactly the leading `/` bytes: the result is the suffix of
/// the text that follows a run of `/` bytes and does not start with `/`.
pub proof fn lemma_trim_leading_slashes_suffix(s: Seq<u8>)
    ensures
        trim_leading_slashes(s).len() <= s.len(),
        trim_leading_slashes(s) == s.subrange(s.len() - trim_leading_slashes(s).len(), s.len() as int),
        forall|i: int| 0 <= i < s.len() - trim_leading_slashes(s).len() ==> s[i] == 0x2f,
        trim_leading_slashes(s).len() > 0 ==> trim_leading_slashes(s)[0] != 0x2f,
    decreases s.len(),
{
    if s.len() > 0 && s[0] == 0x2f {
        let r = s.drop_first();
        lemma_trim_leading_slashes_suffix(r);
        let t = trim_leading_slashes(r);
        assert(r.subrange(r.len() - t.len(), r.len() as int) =~= s.subrange(s.len() - t.len(), s.len() as int));
        assert forall|i: int| 0 <= i < s.len() - t.len() implies s[i] == 0x2f by {
            if i > 0 {
                assert(s[i] == r[i - 1]);
            }
        }
    } else {
        assert(s.subrange(0, s.len() as int) =~= s);
    }
}

/// `str::trim_start_matches('/')`, on the text's UTF-8 bytes (a `/` byte is
/// always a whole character in UTF-8).
pub fn trim_leading_slashes_of(s: &[u8]) -> (trimmed: &[u8])
    ensures
        trimmed@ == trim_leading_slashes(s@),
        trimmed@.len() <= s@.len(),
        trimmed@ == s@.subrange(s@.len() - trimmed@.len(), s@.len() as int),
        forall|i: int| 0 <= i < s@.len() - trimmed@.len() ==> s@[i] == 0x2f,
        trimmed@.len() > 0 ==> trimmed@[0] != 0x2f,
{
    proof {
        lemma_trim_leading_slashes_suffix(s@);
    }
    let mut i: usize = 0;
    assert(s@.subrange(0, s@.len() as int) =~= s@);
    while i < s.len() && s[i] == 0x2f
        invariant
            i <= s.len(),
            trim_leading_slashes(s@) == trim_leading_slashes(s@.subrange(i as int, s@.len() as int)),
        decreases s.len() - i,
    {
        let ghost rest = s@.subrange(i as int, s@.len() as int);
        assert(rest.drop_first() =~= s@.subrange(i + 1, s@.len() as int));
        i = i + 1;
    }
    slice_subrange(s, i, s.len())
}

/// Builds `scheme://authority/url`, with the leading `/` characters of the URL
/// dropped, and parses it with `http`.
pub(crate) fn build_uri(scheme: &[u8], authority: &[u8], url: &str) -> (built: Result<
    SocketUri,
    http::uri::InvalidUri,
>)
    requires
        is_scheme_word(scheme@),
        is_lower_hex_text(authority@),
    ensures
        match built {
            Ok(uri) => {
                &&& http_uri_parts(
                    absolute_uri(scheme@, authority@, trim_leading_slashes(url.spec_bytes())),
                ) == Some(uri@.parts())
                &&& uri.http() == http_uri_of(
                    absolute_uri(scheme@, authority@, trim_leading_slashes(url.spec_bytes())),
                )
                &&& authority@.len() > 0
                &&& uri@.parts() == (Some(scheme@), Some(authority@))
            },
            Err(_) => http_uri_parts(
                absolute_uri(scheme@, authority@, trim_leading_slashes(url.spec_bytes())),
            ) is None,
        },
{
    let rest = trim_leading_slashes_of(url.as_bytes());
    let mut text: Vec<u8> = Vec::new();
    append_bytes(&mut text, scheme);
    text.push(0x3a);
    text.push(0x2f);
    text.push(0x2f);
    append_bytes(&mut text, authority);
    text.push(0x2f);
    append_bytes(&mut text, rest);
    assert(text@ =~= absolute_uri(scheme@, authority@, rest@));
    http_parse(text.as_slice())
}

/// Appends the bytes of `tail` to `out`.
pub(crate) fn append_bytes(out: &mut Vec<u8>, tail: &[u8])
    ensures
        final(out)@ == old(out)@ + tail@,
{
    let ghost start = out@;
    let mut i: usize = 0;
    while i < tail.len()
        invariant
            i <= tail.len(),
            out@ == start + tail@.subrange(0, i as int),
        decreases tail.len() - i,
    {
        out.push(tail[i]);
        i = i + 1;
        assert(out@ =~= start + tail@.subrange(0, i as int));
    }
    assert(tail@.subrange(0, tail.len() as int) =~= tail@);
}

/// Why a URI does not name a socket of the expected kind.
#[derive(Debug, Clone, Copy, PartialEq, Eq, Structural)]
pub enum UriError {
    UnixSchemeMismatch,
    FirecrackerSchemeMismatch,
    VsockSchemeMismatch,
    HostMissing,
    HostNotHexEncoded,
    VsockHostNotHex,
    PortMissing,
    PortNotUtf8,
    PortUnparsable,
    CidPortSeparatorMissing,
    CidUnparsable,
    VsockPortUnparsable,
}

/// The message that goes with each error.
pub open spec fn uri_error_message(e: UriError) -> Seq<char> {
    match e {
        UriError::UnixSchemeMismatch => "URI scheme on a Unix Domain socket must be unix://"@,
        UriError::FirecrackerSchemeMismatch => "URI scheme on a Firecracker socket must be fc://"@,
        UriError::VsockSchemeMismatch => "URI scheme on a VSOCK socket must be vsock://"@,
        UriError::HostMissing => "URI host must be present"@,
        UriError::HostNotHexEncoded => "URI host must be hexadecimal encoded"@,
        UriError::VsockHostNotHex => "URI host must be hex"@,
        UriError::PortMissing => "URI host does not encode port"@,
        UriError::PortNotUtf8 => "URI guest port is not valid UTF8"@,
        UriError::PortUnparsable => "URI guest port could not be parsed"@,
        UriError::CidPortSeparatorMissing => "URI host could not be split at . into 2 slices (CID, then port)"@,
        UriError::CidUnparsable => "First split of URI (CID) can't be parsed"@,
        UriError::VsockPortUnparsable => "Second split of URI (port) can't be parsed"@,
    }
}

impl UriError {
    /// The message of this error; every one of them is an invalid-input error.
    pub fn message(&self) -> (message: &'static str)
        ensures
            message@ == uri_error_message(*self),
    {
        match self {
            UriError::UnixSchemeMismatch => "URI scheme on a Unix Domain socket must be unix://",
            UriError::FirecrackerSchemeMismatch => "URI scheme on a Firecracker socket must be fc://",
            UriError::VsockSchemeMismatch => "URI scheme on a VSOCK socket must be vsock://",
            UriError::HostMissing => "URI host must be present",
            UriError::HostNotHexEncoded => "URI host must be hexadecimal encoded",
            UriError::VsockHostNotHex => "URI host must be hex",
            UriError::PortMissing => "URI host does not encode port",
            UriError::PortNotUtf8 => "URI guest port is not valid UTF8",
            UriError::PortUnparsable => "URI guest port could not be parsed",
            UriError::CidPortSeparatorMissing => "URI host could not be split at . into 2 slices (CID, then port)",
            UriError::CidUnparsable => "First split of URI (CID) can't be parsed",
            UriError::VsockPortUnparsable => "Second split of URI (port) can't be parsed",
        }
    }
}

/// The abstract socket name that a path stands for: what follows a leading NUL byte.
pub open spec fn abstract_name_spec(path: Seq<u8>) -> Option<Seq<u8>> {
    if path.len() > 0 && path[0] == 0 {
        Some(path.drop_first())
    } else {
        None
    }
}

/// The abstract socket name of a path that starts with a NUL byte: where a path
/// is no valid socket pathname, it is read as an abstract name this way.
pub fn abstract_socket_name(path: &[u8]) -> (name: Option<Vec<u8>>)
    ensures
        opt_bytes(name) == abstract_name_spec(path@),
        name is Some <==> (path@.len() > 0 && path@[0] == 0),
        name matches Some(n) ==> seq![0u8] + n@ == path@,
{
    if path.len() > 0 && path[0] == 0 {
        let mut name: Vec<u8> = Vec::new();
        append_bytes(&mut name, slice_subrange(path, 1, path.len()));
        assert(name@ =~= path@.drop_first());
        assert(seq![0u8] + name@ =~= path@);
        Some(name)
    } else {
        None
    }
}

} // verus!
