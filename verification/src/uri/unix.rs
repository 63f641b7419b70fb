//! Unix Domain socket URIs: `unix://<hex of the socket path>/<url>`.

use vstd::prelude::*;
use vstd::string::StringSliceAdditionalSpecFns;

use crate::hexcode::{hex_decode, hex_decode_spec, hex_encode, hex_encode_spec, lemma_hex_encode_concat, lemma_hex_roundtrip};
use crate::uri::{http_uri_of, 
    absolute_uri, abstract_name_spec, append_bytes, build_uri, http_uri_parts, is_lower_hex_digit,
    is_lower_hex_text, trim_leading_slashes, SocketUri, UriError,
};

verus! {

/// The scheme `unix`.
pub open spec fn unix_scheme() -> Seq<u8> {
    seq![0x75u8, 0x6eu8, 0x69u8, 0x78u8]
}

/// The prefix `00` that marks an abstract or unnamed socket address.
pub open spec fn unnamed_prefix() -> Seq<u8> {
    seq![0x30u8, 0x30u8]
}

/// The host of a Unix URI: the prefix, then the hex encoding of the octets.
pub open spec fn unix_host(prefix: Seq<u8>, octets: Seq<u8>) -> Seq<u8> {
    prefix + hex_encode_spec(octets)
}

/// The text of a Unix URI.
pub open spec fn unix_uri_text(prefix: Seq<u8>, octets: Seq<u8>, url: Seq<u8>) -> Seq<u8> {
    absolute_uri(unix_scheme(), unix_host(prefix, octets), trim_leading_slashes(url))
}

/// The socket path that a Unix URI names, or why it names none.
pub open spec fn unix_path_of(parts: (Option<Seq<u8>>, Option<Seq<u8>>)) -> Result<Seq<u8>, UriError> {
    if parts.0 != Some(unix_scheme()) {
        Err(UriError::UnixSchemeMismatch)
    } else {
        match parts.1 {
            None => Err(UriError::HostMissing),
            Some(host) => match hex_decode_spec(host) {
                Some(path) => Ok(path),
                None => Err(UriError::HostNotHexEncoded),
            },
        }
    }
}

/// The address of a Unix Domain socket.
#[derive(Debug, PartialEq, Eq)]
pub enum UnixAddress {
    /// A socket bound to a path in the file system.
    Pathname(Vec<u8>),
    /// A socket bound to a name in the abstract namespace.
    Abstract(Vec<u8>),
    /// A socket bound to no name.
    Unnamed,
}

/// The prefix with which an address is encoded.
pub open spec fn address_prefix(addr: UnixAddress) -> Seq<u8> {
    match addr {
        UnixAddress::Pathname(_) => seq![],
        _ => unnamed_prefix(),
    }
}

/// The octets with which an address is encoded.
pub open spec fn address_octets(addr: UnixAddress) -> Seq<u8> {
    match addr {
        UnixAddress::Pathname(p) => p@,
        UnixAddress::Abstract(n) => n@,
        UnixAddress::Unnamed => seq![],
    }
}

/// The socket path under which an address comes back out of its URI: the
/// pathname itself, or a NUL byte followed by the abstract name.
pub open spec fn address_path(addr: UnixAddress) -> Seq<u8> {
    match addr {
        UnixAddress::Pathname(p) => p@,
        UnixAddress::Abstract(n) => seq![0u8] + n@,
        UnixAddress::Unnamed => seq![0u8],
    }
}

/// Encodes the octets, after the prefix, into the host of a Unix URI.
fn from_octets(prefix: &[u8], octets: &[u8], url: &str) -> (uri: Result<SocketUri, http::uri::InvalidUri>)
    requires
        prefix@ == Seq::<u8>::empty() || prefix@ == unnamed_prefix(),
        octets@.len() * 2 <= isize::MAX,
    ensures
        match uri {
            Ok(u) => {
                &&& http_uri_parts(unix_uri_text(prefix@, octets@, url.spec_bytes())) == Some(u@.parts())
                &&& u.http() == http_uri_of(unix_uri_text(prefix@, octets@, url.spec_bytes()))
                &&& u@.parts() == (Some(unix_scheme()), Some(unix_host(prefix@, octets@)))
            },
            Err(_) => http_uri_parts(unix_uri_text(prefix@, octets@, url.spec_bytes())) is None,
        },
{
    let mut authority: Vec<u8> = Vec::new();
    append_bytes(&mut authority, prefix);
    let hex = hex_encode(octets);
    proof {
        lemma_hex_text_is_lower(octets@);
    }
    append_bytes(&mut authority, hex.as_slice());
    let scheme: Vec<u8> = vec![0x75, 0x6e, 0x69, 0x78];
    assert(scheme@ =~= unix_scheme());
    assert(authority@ =~= unix_host(prefix@, octets@));
    build_uri(scheme.as_slice(), authority.as_slice(), url)
}

impl SocketUri {
    /// The Unix URI for a socket path (given as its bytes) and an in-socket URL.
    pub fn unix(socket_path: &[u8], url: &str) -> (uri: Result<SocketUri, http::uri::InvalidUri>)
        requires
            socket_path@.len() * 2 <= isize::MAX,
        ensures
            match uri {
                Ok(u) => {
                    &&& http_uri_parts(unix_uri_text(seq![], socket_path@, url.spec_bytes())) == Some(u@.parts())
                    &&& u.http() == http_uri_of(unix_uri_text(seq![], socket_path@, url.spec_bytes()))
                    &&& u@.parts() == (Some(unix_scheme()), Some(unix_host(seq![], socket_path@)))
                },
                Err(_) => http_uri_parts(unix_uri_text(seq![], socket_path@, url.spec_bytes())) is None,
            },
            uri matches Ok(u) ==> (u@.scheme == Some(seq![0x75u8, 0x6eu8, 0x69u8, 0x78u8])
                && u@.host == Some(hex_encode_spec(socket_path@))),
    {
        let prefix: Vec<u8> = Vec::new();
        assert(Seq::<u8>::empty() + hex_encode_spec(socket_path@) =~= hex_encode_spec(socket_path@));
        from_octets(prefix.as_slice(), socket_path, url)
    }

    /// The Unix URI for a socket address and an in-socket URL: a pathname is
    /// encoded as it is, an abstract name after the prefix `00`, and an unnamed
    /// address as the prefix `00` alone.
    pub fn unix_addr(socket_addr: &UnixAddress, url: &str) -> (uri: Result<SocketUri, http::uri::InvalidUri>)
        requires
            address_octets(*socket_addr).len() * 2 <= isize::MAX,
        ensures
            match uri {
                Ok(u) => {
                    &&& http_uri_parts(
                        unix_uri_text(address_prefix(*socket_addr), address_octets(*socket_addr), url.spec_bytes()),
                    ) == Some(u@.parts())
                    &&& u.http() == http_uri_of(
                        unix_uri_text(address_prefix(*socket_addr), address_octets(*socket_addr), url.spec_bytes()),
                    )
                    &&& u@.parts() == (Some(unix_scheme()), Some(
                        unix_host(address_prefix(*socket_addr), address_octets(*socket_addr)),
                    ))
                },
                Err(_) => http_uri_parts(
                    unix_uri_text(address_prefix(*socket_addr), address_octets(*socket_addr), url.spec_bytes()),
                ) is None,
            },
            uri matches Ok(u) ==> (u@.scheme == Some(seq![0x75u8, 0x6eu8, 0x69u8, 0x78u8])
                && u@.host == Some(hex_encode_spec(match *socket_addr {
                    UnixAddress::Pathname(p) => p@,
                    UnixAddress::Abstract(n) => seq![0u8] + n@,
                    UnixAddress::Unnamed => seq![0u8],
                }))),
    {
        proof {
            lemma_unnamed_prefix_is_nul(address_octets(*socket_addr));
            assert(Seq::<u8>::empty() + hex_encode_spec(address_octets(*socket_addr)) =~= hex_encode_spec(address_octets(*socket_addr)));
            assert(seq![0u8] + Seq::<u8>::empty() =~= seq![0u8]);
        }
        match socket_addr {
            UnixAddress::Pathname(path) => {
                let prefix: Vec<u8> = Vec::new();
                from_octets(prefix.as_slice(), path.as_slice(), url)
            },
            UnixAddress::Abstract(name) => {
                let prefix: Vec<u8> = vec![0x30, 0x30];
                assert(prefix@ =~= unnamed_prefix());
                from_octets(prefix.as_slice(), name.as_slice(), url)
            },
            UnixAddress::Unnamed => {
                let prefix: Vec<u8> = vec![0x30, 0x30];
                assert(prefix@ =~= unnamed_prefix());
                let octets: Vec<u8> = Vec::new();
                from_octets(prefix.as_slice(), octets.as_slice(), url)
            },
        }
    }

    /// The socket path that this Unix URI names: its host, hex-decoded.
    pub fn parse_unix(&self) -> (path: Result<Vec<u8>, UriError>)
        ensures
            match path {
                Ok(p) => unix_path_of(self@.parts()) == Ok::<Seq<u8>, UriError>(p@),
                Err(e) => unix_path_of(self@.parts()) == Err::<Seq<u8>, UriError>(e),
            },
            forall|q: Seq<u8>|
                self@.scheme == Some(seq![0x75u8, 0x6eu8, 0x69u8, 0x78u8]) && self@.host == Some(#[trigger] hex_encode_spec(q))
                    ==> (path matches Ok(p) && p@ == q),
            path matches Ok(p) ==> (self@.host matches Some(h) && hex_decode_spec(h) == Some(p@)),
            self@.scheme != Some(seq![0x75u8, 0x6eu8, 0x69u8, 0x78u8]) ==> path == Err::<Vec<u8>, UriError>(UriError::UnixSchemeMismatch),
            self@.scheme == Some(seq![0x75u8, 0x6eu8, 0x69u8, 0x78u8]) && self@.host is None ==> path == Err::<Vec<u8>, UriError>(UriError::HostMissing),
            self@.scheme == Some(seq![0x75u8, 0x6eu8, 0x69u8, 0x78u8]) && (self@.host matches Some(h) && hex_decode_spec(h) is None)
                ==> path == Err::<Vec<u8>, UriError>(UriError::HostNotHexEncoded),
            path is Ok ==> self@.scheme == Some(seq![0x75u8, 0x6eu8, 0x69u8, 0x78u8]) && (self@.host matches Some(h) && hex_decode_spec(h) is Some),
    {
        proof {
            assert forall|q: Seq<u8>| #[trigger] hex_decode_spec(hex_encode_spec(q)) == Some(q) by {
                lemma_hex_roundtrip(q);
            }
            assert(unix_scheme() == seq![0x75u8, 0x6eu8, 0x69u8, 0x78u8]);
        }
        let scheme: Vec<u8> = vec![0x75, 0x6e, 0x69, 0x78];
        assert(scheme@ =~= unix_scheme());
        let is_unix = match self.scheme() {
            Some(s) => bytes_eq(s, scheme.as_slice()),
            None => false,
        };
        if !is_unix {
            return Err(UriError::UnixSchemeMismatch);
        }
        match self.host() {
            Some(host) => match hex_decode(host) {
                Some(octets) => Ok(octets),
                None => Err(UriError::HostNotHexEncoded),
            },
            None => Err(UriError::HostMissing),
        }
    }
}

/// Compares two byte strings.
pub fn bytes_eq(a: &[u8], b: &[u8]) -> (equal: bool)
    ensures
        equal == (a@ == b@),
{
    if a.len() != b.len() {
        return false;
    }
    let mut i: usize = 0;
    while i < a.len()
        invariant
            i <= a.len() == b.len(),
            forall|j: int| 0 <= j < i ==> a@[j] == b@[j],
        decreases a.len() - i,
    {
        if a[i] != b[i] {
            return false;
        }
        i = i + 1;
    }
    assert(a@ =~= b@);
    true
}

/// Hex encoding only writes lowercase hex digits.
pub proof fn lemma_hex_text_is_lower(octets: Seq<u8>)
    ensures
        is_lower_hex_text(hex_encode_spec(octets)),
    decreases octets.len(),
{
    if octets.len() > 0 {
        lemma_hex_text_is_lower(octets.drop_first());
        let e = hex_encode_spec(octets);
        let rest = hex_encode_spec(octets.drop_first());
        assert forall|i: int| 0 <= i < e.len() implies is_lower_hex_digit(#[trigger] e[i]) by {
            if i >= 2 {
                assert(e[i] == rest[i - 2]);
            }
        }
    }
}

/// The prefix `00` is the hex encoding of one NUL byte: an abstract name is
/// encoded exactly as the path made of a NUL byte and that name.
pub proof fn lemma_unnamed_prefix_is_nul(octets: Seq<u8>)
    ensures
        unix_host(unnamed_prefix(), octets) == hex_encode_spec(seq![0u8] + octets),
        unix_host(unnamed_prefix(), octets) == unix_host(seq![], seq![0u8] + octets),
{
    assert(Seq::<u8>::empty() + hex_encode_spec(seq![0u8] + octets) =~= hex_encode_spec(seq![0u8] + octets));
    lemma_hex_encode_concat(seq![0u8], octets);
    assert(seq![0u8].drop_first() =~= Seq::<u8>::empty());
    assert(hex_encode_spec(Seq::<u8>::empty()) == Seq::<u8>::empty());
    assert(hex_encode_spec(seq![0u8]) =~= unnamed_prefix());
}

/// The URI of a socket address is the URI of the address's path: the same
/// text, so the same outcome and the same parsed URI.
pub proof fn lemma_unix_addr_is_path_uri(addr: UnixAddress, url: Seq<u8>)
    ensures
        unix_uri_text(address_prefix(addr), address_octets(addr), url) == unix_uri_text(seq![], address_path(addr), url),
        http_uri_parts(unix_uri_text(address_prefix(addr), address_octets(addr), url))
            == http_uri_parts(unix_uri_text(seq![], address_path(addr), url)),
        http_uri_of(unix_uri_text(address_prefix(addr), address_octets(addr), url))
            == http_uri_of(unix_uri_text(seq![], address_path(addr), url)),
{
    if !(addr is Pathname) {
        lemma_unnamed_prefix_is_nul(address_octets(addr));
        assert(seq![0u8] + address_octets(addr) =~= address_path(addr));
    } else {
        assert(address_prefix(addr) =~= Seq::<u8>::empty());
    }
}

/// The text of a Unix URI: `unix://`, the prefix, the hex of the octets, `/`
/// and the URL without its leading `/` bytes.
pub proof fn lemma_unix_uri_text(prefix: Seq<u8>, octets: Seq<u8>, url: Seq<u8>)
    ensures
        unix_uri_text(prefix, octets, url) == seq![0x75u8, 0x6eu8, 0x69u8, 0x78u8, 0x3au8, 0x2fu8, 0x2fu8] + prefix
            + hex_encode_spec(octets) + seq![0x2fu8] + trim_leading_slashes(url),
{
    assert(unix_uri_text(prefix, octets, url) =~= seq![0x75u8, 0x6eu8, 0x69u8, 0x78u8, 0x3au8, 0x2fu8, 0x2fu8] + prefix
        + hex_encode_spec(octets) + seq![0x2fu8] + trim_leading_slashes(url));
}

/// A Unix URI whose host is the hex encoding of any bytes names exactly those
/// bytes as its socket path.
pub proof fn lemma_unix_decodes_hex(socket_path: Seq<u8>)
    ensures
        unix_path_of((Some(seq![0x75u8, 0x6eu8, 0x69u8, 0x78u8]), Some(hex_encode_spec(socket_path))))
            == Ok::<Seq<u8>, UriError>(socket_path),
{
    lemma_hex_roundtrip(socket_path);
    assert(unix_scheme() == seq![0x75u8, 0x6eu8, 0x69u8, 0x78u8]);
}

/// Decoding the URI of a socket path gives back that path.
pub proof fn lemma_unix_roundtrip(socket_path: Seq<u8>)
    ensures
        unix_path_of((Some(unix_scheme()), Some(unix_host(seq![], socket_path)))) == Ok::<Seq<u8>, UriError>(socket_path),
{
    lemma_hex_roundtrip(socket_path);
    assert(unix_host(seq![], socket_path) =~= hex_encode_spec(socket_path));
}

/// Decoding the URI of a socket address gives back the path of that address:
/// the pathname, or a NUL byte followed by the abstract name, which reads back
/// as that abstract name.
pub proof fn lemma_unix_addr_roundtrip(addr: UnixAddress)
    ensures
        unix_path_of((Some(unix_scheme()), Some(unix_host(address_prefix(addr), address_octets(addr)))))
            == Ok::<Seq<u8>, UriError>(address_path(addr)),
        addr is Abstract ==> abstract_name_spec(address_path(addr)) == Some(address_octets(addr)),
{
    match addr {
        UnixAddress::Pathname(p) => {
            lemma_unix_roundtrip(p@);
        },
        _ => {
            lemma_unnamed_prefix_is_nul(address_octets(addr));
            lemma_hex_roundtrip(seq![0u8] + address_octets(addr));
            assert(seq![0u8] + address_octets(addr) =~= address_path(addr));
            assert(address_path(addr).drop_first() =~= address_octets(addr));
        },
    }
}

} // verus!
