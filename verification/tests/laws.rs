use hyper_client_sockets::decimal::{parse_u32, push_decimal};
use hyper_client_sockets::uri::unix::UnixAddress;
use hyper_client_sockets::uri::vsock::VsockAddress;
use hyper_client_sockets::uri::{abstract_socket_name, trim_leading_slashes_of, SocketUri, UriError};

#[test]
fn unix_path_roundtrip() {
    for path in [&b"/tmp/socket.sock"[..], b"\0abstract", b"relative/path", &[0xff, 0x00, 0x3a]] {
        let uri = SocketUri::unix(path, "/route").unwrap();
        assert_eq!(uri.parse_unix().unwrap(), path.to_vec());
    }
}

#[test]
fn unix_address_roundtrip() {
    let pathname = SocketUri::unix_addr(&UnixAddress::Pathname(b"/run/a.sock".to_vec()), "x").unwrap();
    assert_eq!(pathname.parse_unix().unwrap(), b"/run/a.sock".to_vec());
    let abstract_uri = SocketUri::unix_addr(&UnixAddress::Abstract(b"name".to_vec()), "x").unwrap();
    let path = abstract_uri.parse_unix().unwrap();
    assert_eq!(path, b"\0name".to_vec());
    assert_eq!(abstract_socket_name(&path), Some(b"name".to_vec()));
    let unnamed = SocketUri::unix_addr(&UnixAddress::Unnamed, "x").unwrap();
    assert_eq!(unnamed.host(), Some(&b"00"[..]));
    assert_eq!(unnamed.parse_unix().unwrap(), vec![0u8]);
}

#[test]
fn firecracker_roundtrip() {
    for (path, port) in [(&b"/tmp/fc.sock"[..], 0u32), (b"a:b:c", 52), (b"", u32::MAX)] {
        let uri = SocketUri::firecracker(path, port, "/x?y=z").unwrap();
        assert_eq!(uri.parse_firecracker().unwrap(), (path.to_vec(), port));
    }
    let abstract_uri =
        SocketUri::firecracker_addr(&UnixAddress::Abstract(b"vm".to_vec()), 1024, "/").unwrap();
    assert_eq!(abstract_uri.parse_firecracker().unwrap(), (b"\0vm".to_vec(), 1024));
}

#[test]
fn vsock_roundtrip() {
    for (cid, port) in [(0u32, 0u32), (3, 1024), (u32::MAX, u32::MAX)] {
        let uri = SocketUri::vsock(VsockAddress::new(cid, port), "route").unwrap();
        assert_eq!(uri.parse_vsock().unwrap(), VsockAddress::new(cid, port));
    }
}

#[test]
fn encoded_text_is_exact() {
    let uri = SocketUri::unix(b"/a", "//x/y").unwrap();
    assert_eq!(uri.as_http().to_string(), "unix://2f61/x/y");
    assert_eq!(uri.scheme(), Some(&b"unix"[..]));
    assert_eq!(uri.host(), Some(&b"2f61"[..]));
    let fc = SocketUri::firecracker(b"/a", 7, "q").unwrap();
    assert_eq!(fc.as_http().to_string(), "fc://2f613a37/q");
    let vs = SocketUri::vsock(VsockAddress::new(1, 2), "").unwrap();
    assert_eq!(vs.as_http().to_string(), "vsock://312e32/");
}

#[test]
fn empty_unix_path_is_refused_by_http() {
    assert!(SocketUri::unix(b"", "/route").is_err());
}

#[test]
fn invalid_url_is_refused_by_http() {
    assert!(SocketUri::unix(b"/a", "has space").is_err());
}

#[test]
fn scheme_errors() {
    let uri = SocketUri::parse("http://2f61/x").unwrap();
    assert_eq!(uri.parse_unix(), Err(UriError::UnixSchemeMismatch));
    assert_eq!(uri.parse_firecracker(), Err(UriError::FirecrackerSchemeMismatch));
    assert_eq!(uri.parse_vsock(), Err(UriError::VsockSchemeMismatch));
    assert_eq!(UriError::UnixSchemeMismatch.message(), "URI scheme on a Unix Domain socket must be unix://");
    assert_eq!(UriError::FirecrackerSchemeMismatch.message(), "URI scheme on a Firecracker socket must be fc://");
    assert_eq!(UriError::VsockSchemeMismatch.message(), "URI scheme on a VSOCK socket must be vsock://");
}

#[test]
fn missing_host() {
    let relative = SocketUri::parse("/only/a/path").unwrap();
    assert_eq!(relative.parse_unix(), Err(UriError::UnixSchemeMismatch));
    let no_scheme_host = SocketUri::parse("/x").unwrap();
    assert_eq!(no_scheme_host.host(), None);
    let from_http = SocketUri::from_http("unix:/x".parse::<http::Uri>().unwrap_or_else(|_| "/x".parse().unwrap()));
    assert!(from_http.parse_unix().is_err());
    assert_eq!(UriError::HostMissing.message(), "URI host must be present");
}

#[test]
fn host_not_hex() {
    let uri = SocketUri::parse("unix://zz/x").unwrap();
    assert_eq!(uri.parse_unix(), Err(UriError::HostNotHexEncoded));
    let odd = SocketUri::parse("unix://abc/x").unwrap();
    assert_eq!(odd.parse_unix(), Err(UriError::HostNotHexEncoded));
    let fc = SocketUri::parse("fc://zz/x").unwrap();
    assert_eq!(fc.parse_firecracker(), Err(UriError::HostNotHexEncoded));
    let vs = SocketUri::parse("vsock://zz/x").unwrap();
    assert_eq!(vs.parse_vsock(), Err(UriError::VsockHostNotHex));
    assert_eq!(UriError::VsockHostNotHex.message(), "URI host must be hex");
}

#[test]
fn uppercase_hex_is_accepted() {
    let uri = SocketUri::parse("unix://2F61/x").unwrap();
    assert_eq!(uri.parse_unix().unwrap(), b"/a".to_vec());
}

#[test]
fn firecracker_port_errors() {
    let no_port = SocketUri::parse(&format!("fc://{}/x", hex::encode("/tmp/a"))).unwrap();
    assert_eq!(no_port.parse_firecracker(), Err(UriError::PortMissing));
    let bad_utf8 = SocketUri::parse(&format!("fc://{}/x", hex::encode([b'/', b':', 0xff]))).unwrap();
    assert_eq!(bad_utf8.parse_firecracker(), Err(UriError::PortNotUtf8));
    let not_number = SocketUri::parse(&format!("fc://{}/x", hex::encode("/a:12x"))).unwrap();
    assert_eq!(not_number.parse_firecracker(), Err(UriError::PortUnparsable));
    let too_big = SocketUri::parse(&format!("fc://{}/x", hex::encode("/a:4294967296"))).unwrap();
    assert_eq!(too_big.parse_firecracker(), Err(UriError::PortUnparsable));
    let empty = SocketUri::parse(&format!("fc://{}/x", hex::encode("/a:"))).unwrap();
    assert_eq!(empty.parse_firecracker(), Err(UriError::PortUnparsable));
    let plus = SocketUri::parse(&format!("fc://{}/x", hex::encode("/a:b:+12"))).unwrap();
    assert_eq!(plus.parse_firecracker(), Ok((b"/a:b".to_vec(), 12)));
    assert_eq!(UriError::PortMissing.message(), "URI host does not encode port");
    assert_eq!(UriError::PortNotUtf8.message(), "URI guest port is not valid UTF8");
    assert_eq!(UriError::PortUnparsable.message(), "URI guest port could not be parsed");
}

#[test]
fn vsock_split_errors() {
    let no_dot = SocketUri::parse(&format!("vsock://{}/x", hex::encode("1020"))).unwrap();
    assert_eq!(no_dot.parse_vsock(), Err(UriError::CidPortSeparatorMissing));
    let bad_cid = SocketUri::parse(&format!("vsock://{}/x", hex::encode("a.20"))).unwrap();
    assert_eq!(bad_cid.parse_vsock(), Err(UriError::CidUnparsable));
    let bad_port = SocketUri::parse(&format!("vsock://{}/x", hex::encode("10.2.0"))).unwrap();
    assert_eq!(bad_port.parse_vsock(), Err(UriError::VsockPortUnparsable));
    let invalid_utf8 = SocketUri::parse(&format!("vsock://{}/x", hex::encode([b'1', b'.', 0xff]))).unwrap();
    assert_eq!(invalid_utf8.parse_vsock(), Err(UriError::VsockPortUnparsable));
    assert_eq!(
        UriError::CidPortSeparatorMissing.message(),
        "URI host could not be split at . into 2 slices (CID, then port)"
    );
    assert_eq!(UriError::CidUnparsable.message(), "First split of URI (CID) can't be parsed");
    assert_eq!(UriError::VsockPortUnparsable.message(), "Second split of URI (port) can't be parsed");
}

#[test]
fn decimal_text() {
    let mut out = b"n=".to_vec();
    push_decimal(90210, &mut out);
    assert_eq!(out, b"n=90210".to_vec());
    assert_eq!(parse_u32(b"007"), Some(7));
    assert_eq!(parse_u32(b"+5"), Some(5));
    assert_eq!(parse_u32(b"+"), None);
    assert_eq!(parse_u32(b""), None);
    assert_eq!(parse_u32(b"-1"), None);
    assert_eq!(parse_u32(b"4294967295"), Some(u32::MAX));
    assert_eq!(parse_u32(b"4294967296"), None);
    assert_eq!(parse_u32(b"99999999999x"), None);
}

#[test]
fn trim_only_leading_slashes() {
    assert_eq!(trim_leading_slashes_of(b"///a/b/"), b"a/b/");
    assert_eq!(trim_leading_slashes_of(b"a"), b"a");
    assert_eq!(trim_leading_slashes_of(b"//"), b"");
}
