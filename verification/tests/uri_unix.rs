use hyper_client_sockets::uri::unix::UnixAddress;
use hyper_client_sockets::uri::{abstract_socket_name, SocketUri};

fn parse(text: &str) -> SocketUri {
    SocketUri::parse(text).unwrap()
}

#[test]
fn tests_decode_abstract_name_address() {
    let abstract_name = "abstract";
    let path_and_query = "/route";
    let uri = parse(&format!("unix://00{}{path_and_query}", hex::encode(abstract_name)));
    let path = uri.parse_unix().unwrap();
    assert_eq!(abstract_socket_name(&path), Some(abstract_name.as_bytes().to_vec()));
}

#[test]
fn tests_decode_abstract_name_path() {
    let abstract_name = "\0abstract";
    let path_and_query = "/route";
    let uri = parse(&format!("unix://{}{path_and_query}", hex::encode(abstract_name)));
    assert_eq!(abstract_name.as_bytes().to_vec(), uri.parse_unix().unwrap());
}

#[test]
fn tests_decode_pathname_address() {
    let path = "/tmp/socket.sock";
    let path_and_query = "/route";
    let uri = parse(&format!("unix://{}{path_and_query}", hex::encode(path)));
    let decoded = uri.parse_unix().unwrap();
    assert_eq!(decoded, path.as_bytes().to_vec());
    assert_eq!(abstract_socket_name(&decoded), None);
}

#[test]
fn tests_decode_pathname_path() {
    let path = "/tmp/socket.sock";
    let path_and_query = "/route";
    let uri = parse(&format!("unix://{}{path_and_query}", hex::encode(path)));
    assert_eq!(path.as_bytes().to_vec(), uri.parse_unix().unwrap());
}

#[test]
fn tests_encode_abstract_name_as_address() {
    let abstract_name = "abstract";
    let path_and_query = "/route";
    let address = UnixAddress::Abstract(abstract_name.as_bytes().to_vec());
    let expected = parse(&format!("unix://00{}{path_and_query}", hex::encode(abstract_name)));
    assert_eq!(expected.as_http(), SocketUri::unix_addr(&address, path_and_query).unwrap().as_http());
}

#[test]
fn tests_encode_abstract_name_as_path() {
    let abstract_name = "\0abstract";
    let path_and_query = "/route";
    let expected = parse(&format!("unix://{}{path_and_query}", hex::encode(abstract_name)));
    assert_eq!(
        expected.as_http(),
        SocketUri::unix(abstract_name.as_bytes(), path_and_query).unwrap().as_http()
    );
}

#[test]
fn tests_encode_pathname_as_address() {
    let path = "/tmp/socket.sock";
    let path_and_query = "/route";
    let address = UnixAddress::Pathname(path.as_bytes().to_vec());
    let expected = parse(&format!("unix://{}{path_and_query}", hex::encode(path)));
    assert_eq!(expected.as_http(), SocketUri::unix_addr(&address, path_and_query).unwrap().as_http());
}

#[test]
fn tests_encode_pathname_as_path() {
    let path = "/tmp/socket.sock";
    let path_and_query = "/route";
    let expected = parse(&format!("unix://{}{path_and_query}", hex::encode(path)));
    assert_eq!(expected.as_http(), SocketUri::unix(path.as_bytes(), path_and_query).unwrap().as_http());
}
