//! VSOCK socket URIs: `vsock://<hex of "<cid>.<port>">/<url>`.

use vstd::prelude::*;
use vstd::slice::slice_subrange;
use vstd::string::StringSliceAdditionalSpecFns;

use crate::decimal::{lemma_decimal_length, decimal_spec, is_digit, lemma_decimal_digits, lemma_decimal_roundtrip, parse_u32, parse_u32_spec, push_decimal};
use crate::hexcode::{hex_decode, hex_decode_spec, hex_encode, hex_encode_spec, lemma_hex_roundtrip};
use crate::uri::{http_uri_of, build_uri, http_uri_parts, absolute_uri, trim_leading_slashes, SocketUri, UriError};
use crate::uri::unix::{bytes_eq, lemma_hex_text_is_lower};

verus! {

/// The address of a VSOCK socket: a context identifier and a port.
#[derive(Debug, Clone, Copy, PartialEq, Eq, Structural)]
pub struct VsockAddress {
    pub cid: u32,
    pub port: u32,
}

impl VsockAddress {
    /// The address with the given context identifier and port.
    pub fn new(cid: u32, port: u32) -> (addr: VsockAddress)
        ensures
            addr.cid == cid,
            addr.port == port,
    {
        VsockAddress { cid, port }
    }
}

/// The scheme `vsock`.
pub open spec fn vsock_scheme() -> Seq<u8> {
    seq![0x76u8, 0x73u8, 0x6fu8, 0x63u8, 0x6bu8]
}

/// What a VSOCK URI's host encodes: `<cid>.<port>` in decimal.
pub open spec fn vsock_payload(addr: VsockAddress) -> Seq<u8> {
    decimal_spec(addr.cid as nat) + seq![0x2eu8] + decimal_spec(addr.port as nat)
}

/// The host of a VSOCK URI.
pub open spec fn vsock_host(addr: VsockAddress) -> Seq<u8> {
    hex_encode_spec(vsock_payload(addr))
}

/// The text of a VSOCK URI.
pub open spec fn vsock_uri_text(addr: VsockAddress, url: Seq<u8>) -> Seq<u8> {
    absolute_uri(vsock_scheme(), vsock_host(addr), trim_leading_slashes(url))
}

/// The index of the first occurrence of a byte.
pub open spec fn first_index_of(s: Seq<u8>, b: u8) -> Option<int>
    decreases s.len(),
{
    if s.len() == 0 {
        None
    } else if s[0] == b {
        Some(0)
    } else {
        match first_index_of(s.drop_first(), b) {
            Some(i) => Some(i + 1),
            None => None,
        }
    }
}

/// The VSOCK address that a VSOCK URI names, or why it names none: the decoded
/// host is split at its first `.` into the context identifier and the port.
pub open spec fn vsock_address_of(parts: (Option<Seq<u8>>, Option<Seq<u8>>)) -> Result<VsockAddress, UriError> {
    if parts.0 != Some(vsock_scheme()) {
        Err(UriError::VsockSchemeMismatch)
    } else {
        match parts.1 {
            None => Err(UriError::HostMissing),
            Some(host) => match hex_decode_spec(host) {
                None => Err(UriError::VsockHostNotHex),
                Some(text) => match first_index_of(text, 0x2e) {
                    None => Err(UriError::CidPortSeparatorMissing),
                    Some(dot) => match parse_u32_spec(text.subrange(0, dot)) {
                        None => Err(UriError::CidUnparsable),
                        Some(cid) => match parse_u32_spec(text.subrange(dot + 1, text.len() as int)) {
                            None => Err(UriError::VsockPortUnparsable),
                            Some(port) => Ok(VsockAddress { cid, port }),
                        },
                    },
                },
            },
        }
    }
}

/// `first_index_of` finds the first occurrence: the byte is there, and not before it.
pub proof fn lemma_first_index_of(s: Seq<u8>, b: u8)
    ensures
        first_index_of(s, b) is None <==> !s.contains(b),
        first_index_of(s, b) matches Some(i) ==> 0 <= i < s.len() && s[i] == b && forall|j: int| 0 <= j < i ==> s[j] != b,
    decreases s.len(),
{
    if s.len() > 0 {
        lemma_first_index_of(s.drop_first(), b);
        if s[0] != b {
            if s.contains(b) {
                let k = choose|k: int| 0 <= k < s.len() && s[k] == b;
                assert(s.drop_first()[k - 1] == b);
            }
            if s.drop_first().contains(b) {
                let k = choose|k: int| 0 <= k < s.drop_first().len() && s.drop_first()[k] == b;
                assert(s[k + 1] == b);
            }
            if first_index_of(s, b) is Some {
                let i = first_index_of(s, b)->0;
                assert forall|j: int| 0 <= j < i implies s[j] != b by {
                    if j > 0 {
                        assert(s[j] == s.drop_first()[j - 1]);
                    }
                }
            }
        } else {
            assert(s[0] == b);
        }
    }
}

/// Finds the first occurrence of a byte.
pub fn first_position(s: &[u8], b: u8) -> (pos: Option<usize>)
    ensures
        match pos {
            Some(p) => p < s@.len() && first_index_of(s@, b) == Some(p as int),
            None => first_index_of(s@, b) is None,
        },
{
    let mut i: usize = 0;
    while i < s.len()
        invariant
            i <= s.len(),
            forall|j: int| 0 <= j < i ==> s@[j] != b,
        decreases s.len() - i,
    {
        if s[i] == b {
            proof {
                lemma_first_index(s@, b, i as int);
            }
            return Some(i);
        }
        i = i + 1;
    }
    proof {
        lemma_first_index_none(s@, b);
    }
    None
}

proof fn lemma_first_index(s: Seq<u8>, b: u8, k: int)
    requires
        0 <= k < s.len(),
        s[k] == b,
        forall|j: int| 0 <= j < k ==> s[j] != b,
    ensures
        first_index_of(s, b) == Some(k),
    decreases k,
{
    if k > 0 {
        lemma_first_index(s.drop_first(), b, k - 1);
    }
}

proof fn lemma_first_index_none(s: Seq<u8>, b: u8)
    requires
        forall|j: int| 0 <= j < s.len() ==> s[j] != b,
    ensures
        first_index_of(s, b) is None,
    decreases s.len(),
{
    if s.len() > 0 {
        lemma_first_index_none(s.drop_first(), b);
    }
}

impl SocketUri {
    /// The VSOCK URI for an address and an in-socket URL.
    pub fn vsock(addr: VsockAddress, url: &str) -> (uri: Result<SocketUri, http::uri::InvalidUri>)
        ensures
            match uri {
                Ok(u) => {
                    &&& http_uri_parts(vsock_uri_text(addr, url.spec_bytes())) == Some(u@.parts())
                    &&& u.http() == http_uri_of(vsock_uri_text(addr, url.spec_bytes()))
                    &&& u@.parts() == (Some(vsock_scheme()), Some(vsock_host(addr)))
                },
                Err(_) => http_uri_parts(vsock_uri_text(addr, url.spec_bytes())) is None,
            },
            uri matches Ok(u) ==> (u@.scheme == Some(seq![0x76u8, 0x73u8, 0x6fu8, 0x63u8, 0x6bu8])
                && u@.host == Some(hex_encode_spec(
                    decimal_spec(addr.cid as nat) + seq![0x2eu8] + decimal_spec(addr.port as nat),
                ))),
    {
        let mut payload: Vec<u8> = Vec::new();
        push_decimal(addr.cid, &mut payload);
        payload.push(0x2e);
        push_decimal(addr.port, &mut payload);
        proof {
            lemma_decimal_length(addr.cid);
            lemma_decimal_length(addr.port);
        }
        assert(payload@ =~= vsock_payload(addr));
        let authority = hex_encode(payload.as_slice());
        proof {
            lemma_hex_text_is_lower(payload@);
        }
        let scheme: Vec<u8> = vec![0x76, 0x73, 0x6f, 0x63, 0x6b];
        assert(scheme@ =~= vsock_scheme());
        build_uri(scheme.as_slice(), authority.as_slice(), url)
    }

    /// The VSOCK address that this VSOCK URI names.
    pub fn parse_vsock(&self) -> (addr: Result<VsockAddress, UriError>)
        ensures
            match addr {
                Ok(a) => vsock_address_of(self@.parts()) == Ok::<VsockAddress, UriError>(a),
                Err(e) => vsock_address_of(self@.parts()) == Err::<VsockAddress, UriError>(e),
            },
            forall|cid: u32, port: u32|
                self@.scheme == Some(seq![0x76u8, 0x73u8, 0x6fu8, 0x63u8, 0x6bu8]) && self@.host == Some(
                    #[trigger] hex_encode_spec(decimal_spec(cid as nat) + seq![0x2eu8] + decimal_spec(port as nat)),
                ) ==> addr == Ok::<VsockAddress, UriError>(VsockAddress { cid, port }),
            self@.scheme != Some(seq![0x76u8, 0x73u8, 0x6fu8, 0x63u8, 0x6bu8]) ==> addr == Err::<VsockAddress, UriError>(UriError::VsockSchemeMismatch),
            self@.scheme == Some(seq![0x76u8, 0x73u8, 0x6fu8, 0x63u8, 0x6bu8]) && self@.host is None ==> addr == Err::<VsockAddress, UriError>(UriError::HostMissing),
            self@.scheme == Some(seq![0x76u8, 0x73u8, 0x6fu8, 0x63u8, 0x6bu8]) && (self@.host matches Some(h) && hex_decode_spec(h) is None)
                ==> addr == Err::<VsockAddress, UriError>(UriError::VsockHostNotHex),
            addr is Ok ==> self@.scheme == Some(seq![0x76u8, 0x73u8, 0x6fu8, 0x63u8, 0x6bu8]) && (self@.host matches Some(h) && hex_decode_spec(h) is Some),
            self@.scheme == Some(seq![0x76u8, 0x73u8, 0x6fu8, 0x63u8, 0x6bu8]) && (self@.host matches Some(h)
                && hex_decode_spec(h) matches Some(o) && !o.contains(0x2eu8))
                ==> addr == Err::<VsockAddress, UriError>(UriError::CidPortSeparatorMissing),
    {
        proof {
            assert forall|cid: u32, port: u32|
                vsock_address_of((Some(vsock_scheme()), Some(
                    #[trigger] hex_encode_spec(decimal_spec(cid as nat) + seq![0x2eu8] + decimal_spec(port as nat)),
                ))) == Ok::<VsockAddress, UriError>(VsockAddress { cid, port }) by {
                lemma_vsock_decodes_address(cid, port);
            }
            assert(vsock_scheme() == seq![0x76u8, 0x73u8, 0x6fu8, 0x63u8, 0x6bu8]);
        }
        let scheme: Vec<u8> = vec![0x76, 0x73, 0x6f, 0x63, 0x6b];
        assert(scheme@ =~= vsock_scheme());
        let is_vsock = match self.scheme() {
            Some(s) => bytes_eq(s, scheme.as_slice()),
            None => false,
        };
        if !is_vsock {
            return Err(UriError::VsockSchemeMismatch);
        }
        let host = match self.host() {
            Some(h) => h,
            None => return Err(UriError::HostMissing),
        };
        let text = match hex_decode(host) {
            Some(t) => t,
            None => return Err(UriError::VsockHostNotHex),
        };
        proof {
            lemma_first_index_of(text@, 0x2e);
        }
        let dot = match first_position(text.as_slice(), 0x2e) {
            Some(d) => d,
            None => return Err(UriError::CidPortSeparatorMissing),
        };
        let cid = match parse_u32(slice_subrange(text.as_slice(), 0, dot)) {
            Some(c) => c,
            None => return Err(UriError::CidUnparsable),
        };
        let port = match parse_u32(slice_subrange(text.as_slice(), dot + 1, text.len())) {
            Some(p) => p,
            None => return Err(UriError::VsockPortUnparsable),
        };
        Ok(VsockAddress { cid, port })
    }
}

/// A VSOCK URI whose host is the hex encoding of `<cid>.<port>` in decimal
/// names the address with that context identifier and that port.
pub proof fn lemma_vsock_decodes_address(cid: u32, port: u32)
    ensures
        vsock_address_of((Some(seq![0x76u8, 0x73u8, 0x6fu8, 0x63u8, 0x6bu8]), Some(
            hex_encode_spec(decimal_spec(cid as nat) + seq![0x2eu8] + decimal_spec(port as nat)),
        ))) == Ok::<VsockAddress, UriError>(VsockAddress { cid, port }),
{
    lemma_vsock_roundtrip(VsockAddress { cid, port });
    assert(vsock_scheme() == seq![0x76u8, 0x73u8, 0x6fu8, 0x63u8, 0x6bu8]);
}

/// The text of a VSOCK URI: `vsock://`, the hex of `<cid>.<port>` in decimal,
/// `/` and the URL without its leading `/` bytes.
pub proof fn lemma_vsock_uri_text(addr: VsockAddress, url: Seq<u8>)
    ensures
        vsock_uri_text(addr, url) == seq![0x76u8, 0x73u8, 0x6fu8, 0x63u8, 0x6bu8, 0x3au8, 0x2fu8, 0x2fu8]
            + hex_encode_spec(decimal_spec(addr.cid as nat) + seq![0x2eu8] + decimal_spec(addr.port as nat))
            + seq![0x2fu8] + trim_leading_slashes(url),
{
    assert(vsock_uri_text(addr, url) =~= seq![0x76u8, 0x73u8, 0x6fu8, 0x63u8, 0x6bu8, 0x3au8, 0x2fu8, 0x2fu8]
        + hex_encode_spec(decimal_spec(addr.cid as nat) + seq![0x2eu8] + decimal_spec(addr.port as nat))
        + seq![0x2fu8] + trim_leading_slashes(url));
}

/// Decoding the URI of a VSOCK address gives back that address.
pub proof fn lemma_vsock_roundtrip(addr: VsockAddress)
    ensures
        vsock_address_of((Some(vsock_scheme()), Some(vsock_host(addr)))) == Ok::<VsockAddress, UriError>(addr),
{
    let payload = vsock_payload(addr);
    let c = decimal_spec(addr.cid as nat);
    let p = decimal_spec(addr.port as nat);
    lemma_hex_roundtrip(payload);
    lemma_decimal_digits(addr.cid as nat);
    lemma_decimal_digits(addr.port as nat);
    assert forall|j: int| 0 <= j < c.len() implies payload[j] != 0x2e by {
        assert(payload[j] == c[j]);
        assert(is_digit(c[j]));
    }
    lemma_first_index(payload, 0x2e, c.len() as int);
    assert(payload.subrange(0, c.len() as int) =~= c);
    assert(payload.subrange(c.len() as int + 1, payload.len() as int) =~= p);
    lemma_decimal_roundtrip(addr.cid);
    lemma_decimal_roundtrip(addr.port);
}

} // verus!
