//! Firecracker socket URIs: `fc://<hex of "<host socket path>:<guest port>">/<url>`.

use vstd::prelude::*;
use vstd::slice::slice_subrange;
use vstd::string::StringSliceAdditionalSpecFns;
use vstd::utf8::valid_utf8;

use crate::decimal::{lemma_decimal_length, decimal_spec, lemma_decimal_digits, lemma_decimal_roundtrip, parse_u32, parse_u32_spec, push_decimal, all_digits};
use crate::hexcode::{hex_decode, hex_decode_spec, hex_encode, hex_encode_spec, lemma_hex_encode_concat, lemma_hex_roundtrip};
use crate::uri::{http_uri_of, 
    absolute_uri, append_bytes, build_uri, http_uri_parts, is_utf8, lemma_ascii_is_utf8,
    trim_leading_slashes, SocketUri, UriError,
};
use crate::uri::unix::{
    address_octets, address_path, address_prefix, bytes_eq, lemma_hex_text_is_lower, unnamed_prefix,
    UnixAddress,
};

verus! {

/// The scheme `fc`.
pub open spec fn firecracker_scheme() -> Seq<u8> {
    seq![0x66u8, 0x63u8]
}

/// What a Firecracker URI's host encodes: the socket octets, a `:` and the
/// decimal guest port.
pub open spec fn firecracker_payload(octets: Seq<u8>, guest_port: u32) -> Seq<u8> {
    octets + seq![0x3au8] + decimal_spec(guest_port as nat)
}

/// The host of a Firecracker URI: the prefix, the hex of the octets, the hex of
/// `:` and the hex of the decimal guest port.
pub open spec fn firecracker_host(prefix: Seq<u8>, octets: Seq<u8>, guest_port: u32) -> Seq<u8> {
    prefix + hex_encode_spec(octets) + hex_encode_spec(seq![0x3au8]) + hex_encode_spec(
        decimal_spec(guest_port as nat),
    )
}

/// The text of a Firecracker URI.
pub open spec fn firecracker_uri_text(prefix: Seq<u8>, octets: Seq<u8>, guest_port: u32, url: Seq<u8>) -> Seq<u8> {
    absolute_uri(firecracker_scheme(), firecracker_host(prefix, octets, guest_port), trim_leading_slashes(url))
}

/// The index of the last occurrence of a byte.
pub open spec fn last_index_of(s: Seq<u8>, b: u8) -> Option<int>
    decreases s.len(),
{
    if s.len() == 0 {
        None
    } else if s.last() == b {
        Some(s.len() - 1)
    } else {
        last_index_of(s.drop_last(), b)
    }
}

/// The host socket path and guest port that a Firecracker URI names, or why it
/// names none. The port follows the last `:` of the decoded host.
pub open spec fn firecracker_target_of(parts: (Option<Seq<u8>>, Option<Seq<u8>>)) -> Result<(Seq<u8>, u32), UriError> {
    if parts.0 != Some(firecracker_scheme()) {
        Err(UriError::FirecrackerSchemeMismatch)
    } else {
        match parts.1 {
            None => Err(UriError::HostMissing),
            Some(host) => match hex_decode_spec(host) {
                None => Err(UriError::HostNotHexEncoded),
                Some(octets) => match last_index_of(octets, 0x3a) {
                    None => Err(UriError::PortMissing),
                    Some(colon) => if !valid_utf8(octets.subrange(colon, octets.len() as int)) {
                        Err(UriError::PortNotUtf8)
                    } else {
                        match parse_u32_spec(octets.subrange(colon + 1, octets.len() as int)) {
                            None => Err(UriError::PortUnparsable),
                            Some(port) => Ok((octets.subrange(0, colon), port)),
                        }
                    },
                },
            },
        }
    }
}

/// `last_index_of` finds the last occurrence: the byte is there, and not after it.
pub proof fn lemma_last_index_of(s: Seq<u8>, b: u8)
    ensures
        last_index_of(s, b) is None <==> !s.contains(b),
        last_index_of(s, b) matches Some(i) ==> 0 <= i < s.len() && s[i] == b && forall|j: int| i < j < s.len() ==> s[j] != b,
    decreases s.len(),
{
    if s.len() > 0 {
        lemma_last_index_of(s.drop_last(), b);
        if s.last() != b {
            if s.contains(b) {
                let k = choose|k: int| 0 <= k < s.len() && s[k] == b;
                assert(s.drop_last()[k] == b);
            }
            if s.drop_last().contains(b) {
                let k = choose|k: int| 0 <= k < s.drop_last().len() && s.drop_last()[k] == b;
                assert(s[k] == b);
            }
            if last_index_of(s, b) is Some {
                let i = last_index_of(s, b)->0;
                assert forall|j: int| i < j < s.len() implies s[j] != b by {
                    if j < s.len() - 1 {
                        assert(s[j] == s.drop_last()[j]);
                    }
                }
            }
        } else {
            assert(s[s.len() - 1] == b);
        }
    }
}

/// Finds the last occurrence of a byte.
pub fn last_position(s: &[u8], b: u8) -> (pos: Option<usize>)
    ensures
        match pos {
            Some(p) => p < s@.len() && last_index_of(s@, b) == Some(p as int),
            None => last_index_of(s@, b) is None,
        },
{
    let mut i: usize = s.len();
    assert(s@.subrange(0, s@.len() as int) =~= s@);
    while i > 0
        invariant
            i <= s.len(),
            last_index_of(s@, b) == last_index_of(s@.subrange(0, i as int), b),
        decreases i,
    {
        if s[i - 1] == b {
            return Some(i - 1);
        }
        assert(s@.subrange(0, i as int).drop_last() =~= s@.subrange(0, i - 1));
        i = i - 1;
    }
    None
}

/// Encodes the octets, after the prefix, and the guest port into the host of a
/// Firecracker URI.
fn from_octets(prefix: &[u8], octets: &[u8], guest_port: u32, url: &str) -> (uri: Result<
    SocketUri,
    http::uri::InvalidUri,
>)
    requires
        prefix@ == Seq::<u8>::empty() || prefix@ == unnamed_prefix(),
        octets@.len() * 2 <= isize::MAX,
    ensures
        match uri {
            Ok(u) => {
                &&& http_uri_parts(firecracker_uri_text(prefix@, octets@, guest_port, url.spec_bytes())) == Some(u@.parts())
                &&& u.http() == http_uri_of(firecracker_uri_text(prefix@, octets@, guest_port, url.spec_bytes()))
                &&& u@.parts() == (Some(firecracker_scheme()), Some(firecracker_host(prefix@, octets@, guest_port)))
            },
            Err(_) => http_uri_parts(firecracker_uri_text(prefix@, octets@, guest_port, url.spec_bytes())) is None,
        },
{
    let mut authority: Vec<u8> = Vec::new();
    append_bytes(&mut authority, prefix);
    let host = hex_encode(octets);
    append_bytes(&mut authority, host.as_slice());
    let colon: Vec<u8> = vec![0x3a];
    let colon_hex = hex_encode(colon.as_slice());
    append_bytes(&mut authority, colon_hex.as_slice());
    let mut port_text: Vec<u8> = Vec::new();
    push_decimal(guest_port, &mut port_text);
    proof {
        lemma_decimal_length(guest_port);
    }
    let port_hex = hex_encode(port_text.as_slice());
    append_bytes(&mut authority, port_hex.as_slice());
    proof {
        lemma_hex_text_is_lower(prefix@ + octets@);
        lemma_hex_text_is_lower(octets@);
        lemma_hex_text_is_lower(colon@);
        lemma_hex_text_is_lower(port_text@);
        assert(colon@ =~= seq![0x3au8]);
        assert(port_text@ =~= decimal_spec(guest_port as nat));
        assert(authority@ =~= firecracker_host(prefix@, octets@, guest_port));
        lemma_lower_hex_concat(prefix@, hex_encode_spec(octets@), hex_encode_spec(colon@), hex_encode_spec(port_text@));
    }
    let scheme: Vec<u8> = vec![0x66, 0x63];
    assert(scheme@ =~= firecracker_scheme());
    build_uri(scheme.as_slice(), authority.as_slice(), url)
}

/// A concatenation of lowercase hex texts after a prefix of `0` digits is a
/// lowercase hex text.
proof fn lemma_lower_hex_concat(p: Seq<u8>, a: Seq<u8>, b: Seq<u8>, c: Seq<u8>)
    requires
        p == Seq::<u8>::empty() || p == unnamed_prefix(),
        crate::uri::is_lower_hex_text(a),
        crate::uri::is_lower_hex_text(b),
        crate::uri::is_lower_hex_text(c),
    ensures
        crate::uri::is_lower_hex_text(p + a + b + c),
{
    let t = p + a + b + c;
    assert forall|i: int| 0 <= i < t.len() implies crate::uri::is_lower_hex_digit(#[trigger] t[i]) by {
        if i < p.len() {
        } else if i < p.len() + a.len() {
            assert(t[i] == a[i - p.len()]);
        } else if i < p.len() + a.len() + b.len() {
            assert(t[i] == b[i - p.len() - a.len()]);
        } else {
            assert(t[i] == c[i - p.len() - a.len() - b.len()]);
        }
    }
}

impl SocketUri {
    /// The Firecracker URI for a host socket path, a guest port and an in-socket URL.
    pub fn firecracker(host_socket_path: &[u8], guest_port: u32, url: &str) -> (uri: Result<SocketUri, http::uri::InvalidUri>)
        requires
            host_socket_path@.len() * 2 <= isize::MAX,
        ensures
            match uri {
                Ok(u) => {
                    &&& http_uri_parts(firecracker_uri_text(seq![], host_socket_path@, guest_port, url.spec_bytes())) == Some(u@.parts())
                    &&& u.http() == http_uri_of(firecracker_uri_text(seq![], host_socket_path@, guest_port, url.spec_bytes()))
                    &&& u@.parts() == (Some(firecracker_scheme()), Some(firecracker_host(seq![], host_socket_path@, guest_port)))
                },
                Err(_) => http_uri_parts(firecracker_uri_text(seq![], host_socket_path@, guest_port, url.spec_bytes())) is None,
            },
            uri matches Ok(u) ==> (u@.scheme == Some(seq![0x66u8, 0x63u8]) && u@.host == Some(
                hex_encode_spec(host_socket_path@ + seq![0x3au8] + decimal_spec(guest_port as nat)),
            )),
    {
        proof {
            lemma_firecracker_host_is_hex(seq![], host_socket_path@, guest_port);
        }
        let prefix: Vec<u8> = Vec::new();
        from_octets(prefix.as_slice(), host_socket_path, guest_port, url)
    }

    /// The Firecracker URI for a host socket address, a guest port and an
    /// in-socket URL, with the address encoded as in Unix URIs.
    pub fn firecracker_addr(host_socket_addr: &UnixAddress, guest_port: u32, url: &str) -> (uri: Result<
        SocketUri,
        http::uri::InvalidUri,
    >)
        requires
            address_octets(*host_socket_addr).len() * 2 <= isize::MAX,
        ensures
            match uri {
                Ok(u) => {
                    &&& http_uri_parts(
                        firecracker_uri_text(
                            address_prefix(*host_socket_addr),
                            address_octets(*host_socket_addr),
                            guest_port,
                            url.spec_bytes(),
                        ),
                    ) == Some(u@.parts())
                    &&& u.http() == http_uri_of(
                        firecracker_uri_text(
                            address_prefix(*host_socket_addr),
                            address_octets(*host_socket_addr),
                            guest_port,
                            url.spec_bytes(),
                        ),
                    )
                    &&& u@.parts() == (Some(firecracker_scheme()), Some(
                        firecracker_host(address_prefix(*host_socket_addr), address_octets(*host_socket_addr), guest_port),
                    ))
                },
                Err(_) => http_uri_parts(
                    firecracker_uri_text(
                        address_prefix(*host_socket_addr),
                        address_octets(*host_socket_addr),
                        guest_port,
                        url.spec_bytes(),
                    ),
                ) is None,
            },
            uri matches Ok(u) ==> (u@.scheme == Some(seq![0x66u8, 0x63u8]) && u@.host == Some(
                hex_encode_spec((match *host_socket_addr {
                    UnixAddress::Pathname(p) => p@,
                    UnixAddress::Abstract(n) => seq![0u8] + n@,
                    UnixAddress::Unnamed => seq![0u8],
                }) + seq![0x3au8] + decimal_spec(guest_port as nat)),
            )),
    {
        proof {
            lemma_firecracker_host_is_hex(address_prefix(*host_socket_addr), address_octets(*host_socket_addr), guest_port);
            if !(*host_socket_addr is Pathname) {
                assert(address_prefix(*host_socket_addr) == unnamed_prefix());
                assert(seq![0u8] + Seq::<u8>::empty() =~= seq![0u8]);
            } else {
                assert(address_prefix(*host_socket_addr) != unnamed_prefix()) by {
                    assert(address_prefix(*host_socket_addr).len() == 0);
                }
            }
        }
        match host_socket_addr {
            UnixAddress::Pathname(path) => {
                let prefix: Vec<u8> = Vec::new();
                from_octets(prefix.as_slice(), path.as_slice(), guest_port, url)
            },
            UnixAddress::Abstract(name) => {
                let prefix: Vec<u8> = vec![0x30, 0x30];
                assert(prefix@ =~= unnamed_prefix());
                from_octets(prefix.as_slice(), name.as_slice(), guest_port, url)
            },
            UnixAddress::Unnamed => {
                let prefix: Vec<u8> = vec![0x30, 0x30];
                assert(prefix@ =~= unnamed_prefix());
                let octets: Vec<u8> = Vec::new();
                from_octets(prefix.as_slice(), octets.as_slice(), guest_port, url)
            },
        }
    }

    /// The host socket path and guest port that this Firecracker URI names.
    pub fn parse_firecracker(&self) -> (target: Result<(Vec<u8>, u32), UriError>)
        ensures
            match target {
                Ok((path, port)) => firecracker_target_of(self@.parts()) == Ok::<(Seq<u8>, u32), UriError>((path@, port)),
                Err(e) => firecracker_target_of(self@.parts()) == Err::<(Seq<u8>, u32), UriError>(e),
            },
            forall|path: Seq<u8>, port: u32|
                self@.scheme == Some(seq![0x66u8, 0x63u8]) && self@.host == Some(
                    #[trigger] hex_encode_spec(path + seq![0x3au8] + decimal_spec(port as nat)),
                ) ==> (target matches Ok((p, q)) && p@ == path && q == port),
            self@.scheme != Some(seq![0x66u8, 0x63u8]) ==> target == Err::<(Vec<u8>, u32), UriError>(UriError::FirecrackerSchemeMismatch),
            self@.scheme == Some(seq![0x66u8, 0x63u8]) && self@.host is None ==> target == Err::<(Vec<u8>, u32), UriError>(UriError::HostMissing),
            self@.scheme == Some(seq![0x66u8, 0x63u8]) && (self@.host matches Some(h) && hex_decode_spec(h) is None)
                ==> target == Err::<(Vec<u8>, u32), UriError>(UriError::HostNotHexEncoded),
            target is Ok ==> self@.scheme == Some(seq![0x66u8, 0x63u8]) && (self@.host matches Some(h) && hex_decode_spec(h) is Some),
            self@.scheme == Some(seq![0x66u8, 0x63u8]) && (self@.host matches Some(h) && hex_decode_spec(h) matches Some(o)
                && !o.contains(0x3au8)) ==> target == Err::<(Vec<u8>, u32), UriError>(UriError::PortMissing),
    {
        proof {
            assert forall|path: Seq<u8>, port: u32|
                firecracker_target_of((Some(firecracker_scheme()), Some(
                    #[trigger] hex_encode_spec(path + seq![0x3au8] + decimal_spec(port as nat)),
                ))) == Ok::<(Seq<u8>, u32), UriError>((path, port)) by {
                lemma_firecracker_decodes(path, port);
            }
            assert(firecracker_scheme() == seq![0x66u8, 0x63u8]);
        }
        let scheme: Vec<u8> = vec![0x66, 0x63];
        assert(scheme@ =~= firecracker_scheme());
        let is_firecracker = match self.scheme() {
            Some(s) => bytes_eq(s, scheme.as_slice()),
            None => false,
        };
        if !is_firecracker {
            return Err(UriError::FirecrackerSchemeMismatch);
        }
        let host_hex = match self.host() {
            Some(h) => h,
            None => return Err(UriError::HostMissing),
        };
        let mut host_octets = match hex_decode(host_hex) {
            Some(o) => o,
            None => return Err(UriError::HostNotHexEncoded),
        };
        let ghost octets = host_octets@;
        proof {
            lemma_last_index_of(octets, 0x3a);
        }
        let colon_pos = match last_position(host_octets.as_slice(), 0x3a) {
            Some(p) => p,
            None => return Err(UriError::PortMissing),
        };
        let port_part = host_octets.split_off(colon_pos);
        if !is_utf8(port_part.as_slice()) {
            return Err(UriError::PortNotUtf8);
        }
        let digits = slice_subrange(port_part.as_slice(), 1, port_part.len());
        assert(digits@ =~= octets.subrange(colon_pos + 1, octets.len() as int));
        let guest_port = match parse_u32(digits) {
            Some(p) => p,
            None => return Err(UriError::PortUnparsable),
        };
        Ok((host_octets, guest_port))
    }
}

/// The host of a Firecracker URI is the hex encoding of the socket path (a NUL
/// byte and the name, after the prefix `00`), a `:` and the decimal guest port.
pub proof fn lemma_firecracker_host_is_hex(prefix: Seq<u8>, octets: Seq<u8>, guest_port: u32)
    requires
        prefix == Seq::<u8>::empty() || prefix == unnamed_prefix(),
    ensures
        firecracker_host(prefix, octets, guest_port) == hex_encode_spec(
            (if prefix == unnamed_prefix() { seq![0u8] + octets } else { octets }) + seq![0x3au8] + decimal_spec(
                guest_port as nat,
            ),
        ),
{
    let path = if prefix == unnamed_prefix() { seq![0u8] + octets } else { octets };
    let digits = decimal_spec(guest_port as nat);
    lemma_hex_encode_concat(path, seq![0x3au8]);
    lemma_hex_encode_concat(path + seq![0x3au8], digits);
    lemma_hex_encode_concat(seq![0u8], octets);
    assert(seq![0u8].drop_first() =~= Seq::<u8>::empty());
    assert(hex_encode_spec(Seq::<u8>::empty()) == Seq::<u8>::empty());
    assert(hex_encode_spec(seq![0u8]) =~= unnamed_prefix());
    assert(firecracker_host(prefix, octets, guest_port) =~= hex_encode_spec(path + seq![0x3au8] + digits));
}

/// A Firecracker URI whose host is the hex encoding of a path, a `:` and the
/// decimal text of a port names exactly that path and that port.
pub proof fn lemma_firecracker_decodes(path: Seq<u8>, guest_port: u32)
    ensures
        firecracker_target_of((Some(seq![0x66u8, 0x63u8]), Some(
            hex_encode_spec(path + seq![0x3au8] + decimal_spec(guest_port as nat)),
        ))) == Ok::<(Seq<u8>, u32), UriError>((path, guest_port)),
{
    lemma_firecracker_roundtrip(seq![], path, guest_port);
    lemma_firecracker_host_is_hex(seq![], path, guest_port);
    assert(Seq::<u8>::empty() != unnamed_prefix()) by {
        assert(unnamed_prefix().len() == 2);
    }
    assert(firecracker_scheme() == seq![0x66u8, 0x63u8]);
}

/// The text of a Firecracker URI: `fc://`, the host, `/` and the URL without
/// its leading `/` bytes.
pub proof fn lemma_firecracker_uri_text(prefix: Seq<u8>, octets: Seq<u8>, guest_port: u32, url: Seq<u8>)
    ensures
        firecracker_uri_text(prefix, octets, guest_port, url) == seq![0x66u8, 0x63u8, 0x3au8, 0x2fu8, 0x2fu8]
            + firecracker_host(prefix, octets, guest_port) + seq![0x2fu8] + trim_leading_slashes(url),
{
    assert(firecracker_uri_text(prefix, octets, guest_port, url) =~= seq![0x66u8, 0x63u8, 0x3au8, 0x2fu8, 0x2fu8]
        + firecracker_host(prefix, octets, guest_port) + seq![0x2fu8] + trim_leading_slashes(url));
}

/// Decoding the URI of a host socket address and guest port gives back the
/// address's path and the port.
pub proof fn lemma_firecracker_roundtrip(prefix: Seq<u8>, octets: Seq<u8>, guest_port: u32)
    requires
        prefix == Seq::<u8>::empty() || prefix == unnamed_prefix(),
    ensures
        firecracker_target_of((Some(firecracker_scheme()), Some(firecracker_host(prefix, octets, guest_port))))
            == Ok::<(Seq<u8>, u32), UriError>((if prefix == unnamed_prefix() { seq![0u8] + octets } else { octets }, guest_port)),
{
    let path = if prefix == unnamed_prefix() { seq![0u8] + octets } else { octets };
    let payload = firecracker_payload(path, guest_port);
    let digits = decimal_spec(guest_port as nat);
    // The host is the hex encoding of the payload.
    lemma_hex_encode_concat(path, seq![0x3au8]);
    lemma_hex_encode_concat(path + seq![0x3au8], digits);
    lemma_hex_encode_concat(seq![0u8], octets);
    assert(seq![0u8].drop_first() =~= Seq::<u8>::empty());
    assert(hex_encode_spec(Seq::<u8>::empty()) == Seq::<u8>::empty());
    assert(hex_encode_spec(seq![0u8]) =~= unnamed_prefix());
    assert(firecracker_host(prefix, octets, guest_port) =~= hex_encode_spec(payload));
    lemma_hex_roundtrip(payload);
    // The last `:` is the one before the port.
    lemma_decimal_digits(guest_port as nat);
    lemma_last_index_before_digits(path, digits);
    let tail = payload.subrange(path.len() as int, payload.len() as int);
    assert(tail =~= seq![0x3au8] + digits);
    assert forall|i: int| 0 <= i < tail.len() implies #[trigger] tail[i] < 0x80 by {
        if i > 0 {
            assert(tail[i] == digits[i - 1]);
            assert(crate::decimal::is_digit(digits[i - 1]));
        }
    }
    lemma_ascii_is_utf8(tail);
    assert(payload.subrange(path.len() as int + 1, payload.len() as int) =~= digits);
    lemma_decimal_roundtrip(guest_port);
    assert(payload.subrange(0, path.len() as int) =~= path);
}

/// In `a + [':'] + d` where `d` is made of digits, the last `:` is at the length of `a`.
proof fn lemma_last_index_before_digits(a: Seq<u8>, d: Seq<u8>)
    requires
        all_digits(d),
    ensures
        last_index_of(a + seq![0x3au8] + d, 0x3a) == Some(a.len() as int),
    decreases d.len(),
{
    let s = a + seq![0x3au8] + d;
    if d.len() == 0 {
        assert(s.last() == 0x3a);
    } else {
        assert(crate::decimal::is_digit(d[d.len() - 1]));
        assert(s.last() == d.last());
        assert(s.drop_last() =~= a + seq![0x3au8] + d.drop_last());
        lemma_last_index_before_digits(a, d.drop_last());
    }
}

/// An abstract name is encoded exactly as the path made of a NUL byte and that name.
pub proof fn lemma_firecracker_abstract_as_nul_path(name: Seq<u8>, guest_port: u32)
    ensures
        firecracker_host(unnamed_prefix(), name, guest_port) == firecracker_host(seq![], seq![0u8] + name, guest_port),
{
    crate::uri::unix::lemma_unnamed_prefix_is_nul(name);
    assert(unnamed_prefix() + hex_encode_spec(name) == hex_encode_spec(seq![0u8] + name));
    assert(Seq::<u8>::empty() + hex_encode_spec(seq![0u8] + name) =~= hex_encode_spec(seq![0u8] + name));
}

/// The Firecracker URI of a socket address is the Firecracker URI of the
/// address's path: the same text, so the same outcome and the same parsed URI.
pub proof fn lemma_firecracker_addr_is_path_uri(addr: UnixAddress, guest_port: u32, url: Seq<u8>)
    ensures
        firecracker_uri_text(address_prefix(addr), address_octets(addr), guest_port, url)
            == firecracker_uri_text(seq![], address_path(addr), guest_port, url),
        http_uri_parts(firecracker_uri_text(address_prefix(addr), address_octets(addr), guest_port, url))
            == http_uri_parts(firecracker_uri_text(seq![], address_path(addr), guest_port, url)),
        http_uri_of(firecracker_uri_text(address_prefix(addr), address_octets(addr), guest_port, url))
            == http_uri_of(firecracker_uri_text(seq![], address_path(addr), guest_port, url)),
{
    if !(addr is Pathname) {
        lemma_firecracker_abstract_as_nul_path(address_octets(addr), guest_port);
        assert(seq![0u8] + address_octets(addr) =~= address_path(addr));
    } else {
        assert(address_prefix(addr) =~= Seq::<u8>::empty());
    }
}

/// Decoding the Firecracker URI of a socket address gives back the path of
/// that address and the guest port.
pub proof fn lemma_firecracker_addr_roundtrip(addr: UnixAddress, guest_port: u32)
    ensures
        firecracker_target_of((Some(firecracker_scheme()), Some(
            firecracker_host(address_prefix(addr), address_octets(addr), guest_port),
        ))) == Ok::<(Seq<u8>, u32), UriError>((address_path(addr), guest_port)),
{
    lemma_firecracker_roundtrip(address_prefix(addr), address_octets(addr), guest_port);
    if !(addr is Pathname) {
        assert(address_prefix(addr) == unnamed_prefix());
        assert(seq![0u8] + address_octets(addr) =~= address_path(addr));
    } else {
        assert(address_prefix(addr) != unnamed_prefix()) by {
            assert(address_prefix(addr).len() == 0);
        }
    }
}

} // verus!
