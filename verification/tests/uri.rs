use hyper_client_sockets::uri::vsock::VsockAddress;
use hyper_client_sockets::uri::SocketUri;

fn parse(text: &str) -> SocketUri {
    SocketUri::parse(text).unwrap()
}

#[test]
fn unix_uri_with_pathname_should_be_constructed_correctly() {
    let uri_str = format!("unix://{}/route", hex::encode("/tmp/socket.sock"));
    assert_eq!(
        SocketUri::unix(b"/tmp/socket.sock", "/route").unwrap().as_http(),
        parse(&uri_str).as_http()
    );
}

#[test]
fn unix_uri_with_abstract_name_should_be_constructed_correctly() {
    let uri_str = format!("unix://00{}/route", hex::encode("/tmp/socket.sock"));
    assert_eq!(
        SocketUri::unix(b"\0/tmp/socket.sock", "/route").unwrap().as_http(),
        parse(&uri_str).as_http()
    );
}

#[test]
fn unix_uri_with_pathname_should_be_deconstructed_correctly() {
    let uri = format!("unix://{}/route", hex::encode("/tmp/socket.sock"));
    assert_eq!(parse(&uri).parse_unix().unwrap(), b"/tmp/socket.sock".to_vec());
}

#[test]
fn unix_uri_with_abstract_name_should_be_deconstructed_correctly() {
    let uri = format!("unix://00{}/route", hex::encode("/tmp/socket.sock"));
    assert_eq!(parse(&uri).parse_unix().unwrap(), b"\0/tmp/socket.sock".to_vec());
}

#[test]
fn vsock_uri_should_be_constructed_correctly() {
    let uri = format!("vsock://{}/route", hex::encode("10.20"));
    assert_eq!(
        parse(&uri).as_http(),
        SocketUri::vsock(VsockAddress::new(10, 20), "/route").unwrap().as_http()
    );
}

#[test]
fn vsock_uri_should_be_deconstructed_correctly() {
    let uri = parse(&format!("vsock://{}/route", hex::encode("10.20")));
    assert_eq!(uri.parse_vsock().unwrap(), VsockAddress::new(10, 20));
}

#[test]
fn firecracker_uri_with_pathname_should_be_constructed_correctly() {
    let uri_str = format!("fc://{}/route", hex::encode("/tmp/socket.sock:1000"));
    assert_eq!(
        SocketUri::firecracker(b"/tmp/socket.sock", 1000, "/route").unwrap().as_http(),
        parse(&uri_str).as_http()
    );
}

#[test]
fn firecracker_uri_with_abstract_name_should_be_constructed_correctly() {
    let uri_str = format!("fc://00{}/route", hex::encode("/tmp/socket.sock:1000"));
    assert_eq!(
        SocketUri::firecracker(b"\0/tmp/socket.sock", 1000, "/route").unwrap().as_http(),
        parse(&uri_str).as_http()
    );
}

#[test]
fn firecracker_uri_with_pathname_should_be_deconstructed_correctly() {
    let uri = parse(&format!("fc://{}/route", hex::encode("/tmp/socket.sock:1000")));
    let (socket_path, port) = uri.parse_firecracker().unwrap();
    assert_eq!(socket_path, b"/tmp/socket.sock".to_vec());
    assert_eq!(port, 1000);
}

#[test]
fn firecracker_uri_with_abstract_name_should_be_deconstructed_correctly() {
    let uri = parse(&format!("fc://00{}/route", hex::encode("/tmp/socket.sock:1000")));
    let (socket_path, port) = uri.parse_firecracker().unwrap();
    assert_eq!(socket_path, b"\0/tmp/socket.sock".to_vec());
    assert_eq!(port, 1000);
}

#[test]
fn decode() {
    let cid = 10;
    let port = 20;
    let path_and_query = "/route";
    let uri = {
        let formatted = format!("{cid}.{port}");
        let uri_str = format!("vsock://{}{path_and_query}", hex::encode(formatted));
        parse(&uri_str)
    };
    let expected = VsockAddress::new(cid, port);
    assert_eq!(expected, uri.parse_vsock().unwrap());
}

#[test]
fn encode() {
    let cid = 10;
    let port = 20;
    let path_and_query = "/route";
    let address = VsockAddress::new(cid, port);
    let expected = {
        let formatted = format!("{cid}.{port}");
        let uri_str = format!("vsock://{}{path_and_query}", hex::encode(formatted));
        parse(&uri_str)
    };
    assert_eq!(expected.as_http(), SocketUri::vsock(address, path_and_query).unwrap().as_http());
}
