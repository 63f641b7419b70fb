use hyper_client_sockets::uri::unix::UnixAddress;
use hyper_client_sockets::uri::{abstract_socket_name, SocketUri};

fn parse(text: &str) -> SocketUri {
    SocketUri::parse(text).unwrap()
}

#[test]
fn decode_abstract_name_address() {
    let abstract_name = "abstract";
    let port = 1000;
    let path_and_query = "/route";
    let uri = {
        let formatted = format!("{abstract_name}:{port}");
        parse(&format!("fc://00{}{path_and_query}", hex::encode(formatted)))
    };
    let (path, decoded_port) = uri.parse_firecracker().unwrap();
    assert_eq!(abstract_socket_name(&path), Some(abstract_name.as_bytes().to_vec()));
    assert_eq!(decoded_port, port);
}

#[test]
fn decode_abstract_name_path() {
    let abstract_name = "\0abstract";
    let port = 1000;
    let path_and_query = "/route";
    let uri = {
        let formatted = format!("{abstract_name}:{port}");
        parse(&format!("fc://{}{path_and_query}", hex::encode(formatted)))
    };
    let expected = (abstract_name.as_bytes().to_vec(), port);
    assert_eq!(expected, uri.parse_firecracker().unwrap());
}

#[test]
fn decode_pathname_address() {
    let path = "/tmp/socket.sock";
    let port = 1000;
    let path_and_query = "/route";
    let uri = {
        let formatted = format!("{path}:{port}");
        parse(&format!("fc://{}{path_and_query}", hex::encode(formatted)))
    };
    let (decoded, decoded_port) = uri.parse_firecracker().unwrap();
    assert_eq!(decoded, path.as_bytes().to_vec());
    assert_eq!(abstract_socket_name(&decoded), None);
    assert_eq!(decoded_port, port);
}

#[test]
fn decode_pathname_path() {
    let path = "/tmp/socket.sock";
    let port = 1000;
    let path_and_query = "/route";
    let uri = {
        let formatted = format!("{path}:{port}");
        parse(&format!("fc://{}{path_and_query}", hex::encode(formatted)))
    };
    let expected = (path.as_bytes().to_vec(), port);
    assert_eq!(expected, uri.parse_firecracker().unwrap());
}

#[test]
fn encode_abstract_name_as_address() {
    let abstract_name = "abstract";
    let port = 1000;
    let path_and_query = "/route";
    let address = UnixAddress::Abstract(abstract_name.as_bytes().to_vec());
    let expected = {
        let formatted = format!("{abstract_name}:{port}");
        parse(&format!("fc://00{}{path_and_query}", hex::encode(formatted)))
    };
    assert_eq!(
        expected.as_http(),
        SocketUri::firecracker_addr(&address, port, path_and_query).unwrap().as_http()
    );
}

#[test]
fn encode_abstract_name_as_path() {
    let abstract_name = "\0abstract";
    let port = 1000;
    let path_and_query = "/route";
    let expected = {
        let formatted = format!("{abstract_name}:{port}");
        parse(&format!("fc://{}{path_and_query}", hex::encode(formatted)))
    };
    assert_eq!(
        expected.as_http(),
        SocketUri::firecracker(abstract_name.as_bytes(), port, path_and_query).unwrap().as_http()
    );
}

#[test]
fn encode_pathname_as_address() {
    let path = "/tmp/socket.sock";
    let port = 1000;
    let path_and_query = "/route";
    let address = UnixAddress::Pathname(path.as_bytes().to_vec());
    let expected = {
        let formatted = format!("{path}:{port}");
        parse(&format!("fc://{}{path_and_query}", hex::encode(formatted)))
    };
    assert_eq!(
        expected.as_http(),
        SocketUri::firecracker_addr(&address, port, path_and_query).unwrap().as_http()
    );
}

#[test]
fn encode_pathname_as_path() {
    let path = "/tmp/socket.sock";
    let port = 1000;
    let path_and_query = "/route";
    let expected = {
        let formatted = format!("{path}:{port}");
        parse(&format!("fc://{}{path_and_query}", hex::encode(formatted)))
    };
    assert_eq!(
        expected.as_http(),
        SocketUri::firecracker(path.as_bytes(), port, path_and_query).unwrap().as_http()
    );
}
