use socks_weather::proxy::{EventStep, Proxy, LISTENER_KEY};
use socks_weather::socks::{
    connection_status_reply, dest_index, get_dest_state, request_is_decodable, ClientState,
    Connection, Interest, RequestTarget,
};

fn request(bytes: &[u8]) -> [u8; 256] {
    let mut buff = [0u8; 256];
    buff[..bytes.len()].copy_from_slice(bytes);
    buff
}

fn domain_request(name: &[u8], port: u16) -> [u8; 256] {
    let mut bytes = vec![5u8, 1, 0, 3, name.len() as u8];
    bytes.extend_from_slice(name);
    bytes.push((port >> 8) as u8);
    bytes.push((port & 0xff) as u8);
    request(&bytes)
}

#[test]
fn new_connection_waits_for_greeting() {
    let c = Connection::new(7);
    assert_eq!(c.key, 7);
    assert_eq!(c.dest, None);
    assert_eq!(c.state, ClientState::WaitingForReceiveHandshake);
    assert!(!c.is_ready_to_send);
    assert!(c.buffer_to_send.is_empty());
}

#[test]
fn greeting_then_answer() {
    let mut c = Connection::new(0);
    assert_eq!(c.handle_handshake(), Interest::Writable);
    assert_eq!(c.state, ClientState::WaitForAnswerToHandshake);
    let (bytes, interest) = c.answer_to_handshake();
    assert_eq!(bytes, vec![5, 0]);
    assert_eq!(interest, Interest::Readable);
    assert_eq!(c.state, ClientState::WaitingForRequest);
}

#[test]
fn ipv4_request_is_decoded_big_endian_port() {
    let mut c = Connection::new(0);
    let buff = request(&[5, 1, 0, 1, 127, 0, 0, 1, 0x1f, 0x90]);
    assert!(request_is_decodable(&buff));
    match c.handle_request(&buff) {
        Some(RequestTarget::Ipv4 { ip, port }) => {
            assert_eq!(ip, [127, 0, 0, 1]);
            assert_eq!(port, 8080);
        }
        _ => panic!("expected an IPv4 target"),
    }
    assert_eq!(c.state, ClientState::StateNone);
}

#[test]
fn domain_request_is_decoded() {
    let mut c = Connection::new(3);
    let buff = domain_request(b"example.com", 443);
    assert!(request_is_decodable(&buff));
    match c.handle_request(&buff) {
        Some(RequestTarget::Domain { name, port }) => {
            assert_eq!(name, "example.com");
            assert_eq!(port, 443);
        }
        _ => panic!("expected a domain target"),
    }
    assert_eq!(c.state, ClientState::StateNone);
    assert_eq!(c.key, 3);
}

#[test]
fn domain_request_with_utf8_name() {
    let name = "пример.рф";
    let buff = domain_request(name.as_bytes(), 80);
    assert!(request_is_decodable(&buff));
    match RequestTarget::parse(&buff) {
        Some(RequestTarget::Domain { name: decoded, port }) => {
            assert_eq!(decoded, name);
            assert_eq!(port, 80);
        }
        _ => panic!("expected a domain target"),
    }
}

#[test]
fn ipv6_and_unknown_address_types_are_refused() {
    let mut c = Connection::new(0);
    let buff = request(&[5, 1, 0, 4, 0, 0, 0, 0]);
    assert!(c.handle_request(&buff).is_none());
    assert_eq!(c.state, ClientState::StateNone);
    let buff = request(&[5, 1, 0, 9]);
    assert!(RequestTarget::parse(&buff).is_none());
}

#[test]
fn undecodable_requests() {
    // invalid UTF-8 in the domain name
    let buff = domain_request(&[0xff, 0xfe, 0x41], 80);
    assert!(!request_is_decodable(&buff));
    // a name so long that its port would lie past the buffer
    let mut buff = [b'a'; 256];
    buff[3] = 3;
    buff[4] = 250;
    assert!(!request_is_decodable(&buff));
    buff[4] = 249;
    assert!(request_is_decodable(&buff));
    // other address types never look at a name
    assert!(request_is_decodable(&request(&[5, 1, 0, 1, 0xff, 0xff, 0xff, 0xff])));
}

#[test]
fn longest_domain_name_fits() {
    let name = vec![b'x'; 249];
    let buff = domain_request(&name, 0x1234);
    match RequestTarget::parse(&buff) {
        Some(RequestTarget::Domain { name: decoded, port }) => {
            assert_eq!(decoded.len(), 249);
            assert_eq!(port, 0x1234);
        }
        _ => panic!("expected a domain target"),
    }
}

#[test]
fn get_response_keeps_the_bytes_read() {
    let mut buff = [0u8; 300];
    buff[0] = 1;
    buff[1] = 2;
    buff[2] = 3;
    assert_eq!(Connection::get_response(&buff, 2), vec![1, 2]);
    assert_eq!(Connection::get_response(&buff, 0), Vec::<u8>::new());
    assert_eq!(Connection::get_response(&buff, 300).len(), 300);
}

#[test]
fn status_reply_layout() {
    // port 5080 = 0x13d8, written least significant byte first
    assert_eq!(
        connection_status_reply([127, 0, 0, 1], 5080),
        vec![5, 0, 0, 1, 127, 0, 0, 1, 0xd8, 0x13]
    );
    assert_eq!(
        connection_status_reply([10, 1, 2, 3], 1),
        vec![5, 0, 0, 1, 10, 1, 2, 3, 1, 0]
    );
}

#[test]
fn destination_lookup() {
    let mut a = Connection::new(0);
    a.dest = Some(1);
    let mut b = Connection::new(1);
    b.state = ClientState::Connected;
    b.dest = Some(0);
    let mut c = Connection::new(2);
    c.dest = Some(9);
    let cs = vec![a, b, c];
    assert_eq!(dest_index(&cs, 0), Some(1));
    assert_eq!(get_dest_state(&cs, 0), Some(ClientState::Connected));
    assert_eq!(get_dest_state(&cs, 1), Some(ClientState::WaitingForReceiveHandshake));
    assert_eq!(dest_index(&cs, 2), None);
    assert_eq!(get_dest_state(&cs, 2), None);
}

#[test]
fn proxy_walks_a_client_through_the_exchange() {
    let mut p = Proxy::new();
    assert_eq!(p.len(), 0);
    assert_ne!(LISTENER_KEY, 0);
    let client = p.accept();
    assert_eq!(client, 0);
    match p.on_event(client, true) {
        EventStep::ReadHandshake { then } => assert_eq!(then, Interest::Writable),
        _ => panic!("expected to read the greeting"),
    }
    match p.on_event(client, false) {
        EventStep::Send { bytes, then } => {
            assert_eq!(bytes, vec![5, 0]);
            assert_eq!(then, Interest::Readable);
        }
        _ => panic!("expected the greeting's answer"),
    }
    assert!(matches!(p.on_event(client, true), EventStep::ReadRequest));
    let buff = request(&[5, 1, 0, 1, 93, 184, 216, 34, 0, 80]);
    match p.receive_request(client, &buff) {
        Some(RequestTarget::Ipv4 { ip, port }) => {
            assert_eq!(ip, [93, 184, 216, 34]);
            assert_eq!(port, 80);
        }
        _ => panic!("expected an IPv4 target"),
    }
    assert_eq!(p.connections()[client].state, ClientState::StateNone);
    let remote = p.attach_remote(client);
    assert_eq!(remote, 1);
    assert_eq!(p.len(), 2);
    assert_eq!(p.connections()[client].dest, Some(remote));
    assert_eq!(
        p.connections()[client].state,
        ClientState::WaitingForSendingConnectionStatus
    );
    assert_eq!(p.connections()[remote].dest, Some(client));
    assert_eq!(p.connections()[remote].state, ClientState::Connected);
    assert_eq!(p.connections()[remote].key, remote);
    assert!(matches!(p.on_event(client, false), EventStep::SendConnectionStatus));
    let (bytes, then) = p.send_connection_status(client, [127, 0, 0, 1], 5080);
    assert_eq!(bytes, vec![5, 0, 0, 1, 127, 0, 0, 1, 0xd8, 0x13]);
    assert_eq!(then, Interest::Readable);
    assert_eq!(p.connections()[client].state, ClientState::Connected);
    match p.on_event(client, true) {
        EventStep::Forward { dest } => assert_eq!(dest, remote),
        _ => panic!("expected to forward"),
    }
    assert!(matches!(p.on_event(client, false), EventStep::Ignore));
    let dest = p.forward(client, b"GET / HTTP/1.0\r\n\r\n".to_vec());
    assert_eq!(dest, remote);
    assert!(p.connections()[remote].is_ready_to_send);
    assert_eq!(p.connections()[remote].buffer_to_send, b"GET / HTTP/1.0\r\n\r\n".to_vec());
    assert!(!p.connections()[client].is_ready_to_send);
    let back = p.forward(remote, b"HTTP/1.0 200 OK".to_vec());
    assert_eq!(back, client);
    assert_eq!(p.connections()[client].buffer_to_send, b"HTTP/1.0 200 OK".to_vec());
}

#[test]
fn refused_request_leaves_the_client_idle() {
    let mut p = Proxy::new();
    let a = p.accept();
    let b = p.accept();
    assert_eq!((a, b), (0, 1));
    p.on_event(b, true);
    p.on_event(b, false);
    let buff = request(&[5, 1, 0, 4]);
    assert!(p.receive_request(b, &buff).is_none());
    assert_eq!(p.connections()[b].state, ClientState::StateNone);
    assert!(matches!(p.on_event(b, true), EventStep::Ignore));
    assert_eq!(
        p.connections()[a].state,
        ClientState::WaitingForReceiveHandshake
    );
}
