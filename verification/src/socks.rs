use vstd::prelude::*;
use vstd::string::*;
use vstd::utf8::*;

verus! {

/// Where a proxied connection stands in the SOCKS5 exchange.
#[derive(PartialEq, Eq, Structural, Clone, Copy, Debug)]
pub enum ClientState {
    WaitingForReceiveHandshake,
    WaitForAnswerToHandshake,
    WaitingForRequest,
    WaitingForRemoteServerConnection,
    WaitingForSendingConnectionStatus,
    Connected,
    StateNone,
}

/// Which readiness the event loop should watch a socket for next.
#[derive(PartialEq, Eq, Structural, Clone, Copy, Debug)]
pub enum Interest {
    Readable,
    Writable,
}

/// One socket of the proxy: a client, or the remote server a client asked for.
/// The socket itself is held by the event loop; this is what the logic reads.
pub struct Connection {
    /// The poller key of the socket, which is also its index in the proxy.
    pub key: usize,
    /// The index of the connection that traffic is forwarded to.
    pub dest: Option<usize>,
    pub state: ClientState,
    pub is_ready_to_send: bool,
    pub buffer_to_send: Vec<u8>,
}

/// The mathematical value of a `Connection`.
pub struct ConnectionView {
    pub key: usize,
    pub dest: Option<usize>,
    pub state: ClientState,
    pub is_ready_to_send: bool,
    pub buffer_to_send: Seq<u8>,
}

impl View for Connection {
    type V = ConnectionView;

    open spec fn view(&self) -> ConnectionView {
        ConnectionView {
            key: self.key,
            dest: self.dest,
            state: self.state,
            is_ready_to_send: self.is_ready_to_send,
            buffer_to_send: self.buffer_to_send@,
        }
    }
}

/// `c` with its state replaced by `state`.
pub open spec fn with_state(c: ConnectionView, state: ClientState) -> ConnectionView {
    ConnectionView { state, ..c }
}

impl Connection {
    /// A freshly accepted client, waiting for its SOCKS5 greeting.
    pub fn new(key: usize) -> (r: Connection)
        ensures
            r.key == key,
            r.dest is None,
            r.state == ClientState::WaitingForReceiveHandshake,
            !r.is_ready_to_send,
            r.buffer_to_send@ == Seq::<u8>::empty(),
    {
        Connection {
            key,
            dest: None,
            state: ClientState::WaitingForReceiveHandshake,
            is_ready_to_send: false,
            buffer_to_send: Vec::new(),
        }
    }

    /// The greeting has been read (its content is not inspected): the proxy
    /// now owes the client its answer, so the socket is watched for writing.
    pub fn handle_handshake(&mut self) -> (r: Interest)
        ensures
            r == Interest::Writable,
            final(self).state == ClientState::WaitForAnswerToHandshake,
            final(self).key == old(self).key,
            final(self).dest == old(self).dest,
            final(self).is_ready_to_send == old(self).is_ready_to_send,
            final(self).buffer_to_send@ == old(self).buffer_to_send@,
    {
        self.state = ClientState::WaitForAnswerToHandshake;
        Interest::Writable
    }

    /// The answer to the greeting: protocol version 5, no authentication.
    /// Once it is written the proxy waits for the client's request.
    pub fn answer_to_handshake(&mut self) -> (r: (Vec<u8>, Interest))
        ensures
            r.0@ == seq![SOCKS_VERSION, NO_AUTHENTICATION],
            r.0@ == seq![5u8, 0u8],
            r.1 == Interest::Readable,
            final(self).state == ClientState::WaitingForRequest,
            final(self).key == old(self).key,
            final(self).dest == old(self).dest,
            final(self).is_ready_to_send == old(self).is_ready_to_send,
            final(self).buffer_to_send@ == old(self).buffer_to_send@,
    {
        let mut buff: Vec<u8> = Vec::new();
        buff.push(SOCKS_VERSION);
        buff.push(NO_AUTHENTICATION);
        self.state = ClientState::WaitingForRequest;
        (buff, Interest::Readable)
    }

    /// The client's request has been read into `buff`: the connection leaves
    /// the handshake (whatever comes of the request) and the address it asks
    /// for is decoded; `None` when the address type is neither IPv4 nor a
    /// domain name.
    pub fn handle_request(&mut self, buff: &[u8; 256]) -> (r: Option<RequestTarget>)
        requires
            request_decodable(buff@),
        ensures
            r matches Some(t) ==> requested_target(buff@) == Some(t@),
            r is None ==> requested_target(buff@) is None,
            buff@[3] == 1 ==> (r matches Some(RequestTarget::Ipv4 { ip, port }) && ip@ == seq![
                buff@[4],
                buff@[5],
                buff@[6],
                buff@[7],
            ] && port == buff@[8] * 256 + buff@[9]),
            buff@[3] == 3 ==> (r matches Some(RequestTarget::Domain { name, port }) && encode_utf8(
                name@,
            ) == buff@.subrange(5, 5 + buff@[4]) && port == buff@[5 + buff@[4]] * 256 + buff@[6
                + buff@[4]]),
            r is None <==> (buff@[3] != 1 && buff@[3] != 3),
            final(self).state == ClientState::StateNone,
            final(self).key == old(self).key,
            final(self).dest == old(self).dest,
            final(self).is_ready_to_send == old(self).is_ready_to_send,
            final(self).buffer_to_send@ == old(self).buffer_to_send@,
    {
        self.state = ClientState::StateNone;
        RequestTarget::parse(buff)
    }

    /// The bytes that a read of `bytes_number` bytes into `buff` delivered.
    pub fn get_response(buff: &[u8], bytes_number: usize) -> (r: Vec<u8>)
        requires
            bytes_number <= buff@.len(),
        ensures
            r@ == buff@.take(bytes_number as int),
    {
        let mut r: Vec<u8> = Vec::new();
        let mut i: usize = 0;
        while i < bytes_number
            invariant
                i <= bytes_number <= buff@.len(),
                r@ == buff@.take(i as int),
            decreases bytes_number - i,
        {
            r.push(buff[i]);
            i += 1;
            assert(r@ =~= buff@.take(i as int));
        }
        r
    }
}

/// The address a client asks the proxy to connect to.
pub enum RequestTarget {
    /// A host name, still to be resolved, and a port.
    Domain { name: String, port: u16 },
    /// An IPv4 address, most significant octet first, and a port.
    Ipv4 { ip: [u8; 4], port: u16 },
}

/// The mathematical value of a `RequestTarget`.
pub enum TargetView {
    Domain { name: Seq<char>, port: int },
    Ipv4 { ip: Seq<u8>, port: int },
}

impl View for RequestTarget {
    type V = TargetView;

    open spec fn view(&self) -> TargetView {
        match self {
            RequestTarget::Domain { name, port } => TargetView::Domain { name: name@, port: *port as int },
            RequestTarget::Ipv4 { ip, port } => TargetView::Ipv4 { ip: ip@, port: *port as int },
        }
    }
}

/// The protocol version byte of SOCKS5.
pub const SOCKS_VERSION: u8 = 5;

/// The method byte that selects "no authentication required".
pub const NO_AUTHENTICATION: u8 = 0;

/// The size of the buffer a request is read into.
pub const REQUEST_BUFFER_LEN: usize = 256;

/// Address type byte of a SOCKS5 request for an IPv4 address.
pub const ATYP_IPV4: u8 = 1;

/// Address type byte of a SOCKS5 request for a domain name.
pub const ATYP_DOMAIN: u8 = 3;

/// A port sent as two bytes, most significant first.
pub open spec fn port_of(hi: u8, lo: u8) -> int {
    hi * 256 + lo
}

/// The bytes of the domain name in a request buffer: its length is at
/// offset 4 and the name follows it.
pub open spec fn domain_bytes(buff: Seq<u8>) -> Seq<u8> {
    buff.subrange(5, 5 + buff[4] as int)
}

/// A request buffer that can be decoded without reading past its end and,
/// for a domain name, whose name is valid UTF-8.
pub open spec fn request_decodable(buff: Seq<u8>) -> bool {
    &&& buff.len() == REQUEST_BUFFER_LEN
    &&& buff[3] == ATYP_DOMAIN ==> {
        &&& buff[4] as int + 7 <= REQUEST_BUFFER_LEN
        &&& valid_utf8(domain_bytes(buff))
    }
}

/// What a request buffer asks for: the address type is at offset 3; an IPv4
/// address occupies offsets 4 to 7 and its port 8 and 9; a domain name of
/// length `n` (at offset 4) occupies offsets 5 to 4 + n and its port the two
/// bytes after it. Other address types are refused.
pub open spec fn requested_target(buff: Seq<u8>) -> Option<TargetView> {
    if buff[3] == ATYP_IPV4 {
        Some(TargetView::Ipv4 { ip: buff.subrange(4, 8), port: port_of(buff[8], buff[9]) })
    } else if buff[3] == ATYP_DOMAIN {
        let n = buff[4] as int;
        Some(
            TargetView::Domain {
                name: decode_utf8(domain_bytes(buff)),
                port: port_of(buff[5 + n], buff[6 + n]),
            },
        )
    } else {
        None
    }
}

/// `std::str::from_utf8`'s error type, carried through unopened.
#[verifier::external_type_specification]
#[verifier::external_body]
pub struct ExUtf8Error(core::str::Utf8Error);

/// `core::str::from_utf8` (what `std::str::from_utf8` names): its documentation
/// says that it returns the string slice when the bytes are valid UTF-8 and an
/// error otherwise. This states that, with vstd's definition of valid UTF-8,
/// and that the slice's UTF-8 encoding is the given bytes.
pub assume_specification<'a>[ core::str::from_utf8 ](v: &'a [u8]) -> (r: Result<
    &'a str,
    core::str::Utf8Error,
>)
    ensures
        r is Ok <==> valid_utf8(v@),
        r matches Ok(s) ==> s.spec_bytes() == v@,
;

/// Two bytes, most significant first, combined into a port.
fn port_from_bytes(hi: u8, lo: u8) -> (port: u16)
    ensures
        port == port_of(hi, lo),
{
    let h: u16 = hi as u16;
    let l: u16 = lo as u16;
    let mut port: u16 = 0;
    port = h | port;
    port = port << 8;
    port = l | port;
    assert(l | ((h | 0u16) << 8u16) == h * 256 + l) by (bit_vector)
        requires
            h < 256,
            l < 256,
    ;
    port
}

/// Whether `handle_request` can decode the buffer (see `request_decodable`).
pub fn request_is_decodable(buff: &[u8; 256]) -> (r: bool)
    ensures
        r == request_decodable(buff@),
{
    if buff[3] != ATYP_DOMAIN {
        return true;
    }
    let n: usize = buff[4] as usize;
    if n + 7 > REQUEST_BUFFER_LEN {
        return false;
    }
    let bytes = copy_range(buff, 5, 5 + n);
    std::str::from_utf8(bytes.as_slice()).is_ok()
}

/// The bytes of `buff` from `start` up to (not including) `end`.
fn copy_range(buff: &[u8; 256], start: usize, end: usize) -> (r: Vec<u8>)
    requires
        start <= end <= 256,
    ensures
        r@ == buff@.subrange(start as int, end as int),
{
    let mut r: Vec<u8> = Vec::new();
    let mut i = start;
    while i < end
        invariant
            start <= i <= end <= 256,
            r@ == buff@.subrange(start as int, i as int),
        decreases end - i,
    {
        r.push(buff[i]);
        i += 1;
    }
    r
}

/// What a request asks for, read off its bytes: address type 1 is the IPv4
/// address in bytes 4 to 7 with the port in bytes 8 (high) and 9 (low);
/// address type 3 is the domain name whose UTF-8 encoding is the `buff[4]`
/// bytes from offset 5, with the port in the two bytes after it (high
/// first); every other address type is refused.
pub proof fn lemma_request_offsets(buff: Seq<u8>)
    requires
        request_decodable(buff),
    ensures
        buff[3] == 1 ==> (requested_target(buff) matches Some(TargetView::Ipv4 { ip, port })
            && ip == seq![buff[4], buff[5], buff[6], buff[7]] && port == buff[8] * 256 + buff[9]),
        buff[3] == 3 ==> (requested_target(buff) matches Some(TargetView::Domain { name, port })
            && encode_utf8(name) == buff.subrange(5, 5 + buff[4]) && port == buff[5 + buff[4]]
            * 256 + buff[6 + buff[4]]),
        requested_target(buff) is None <==> (buff[3] != 1 && buff[3] != 3),
{
    broadcast use vstd::utf8::decode_utf8_encode_utf8;

    if buff[3] == 1 {
        assert(buff.subrange(4, 8) =~= seq![buff[4], buff[5], buff[6], buff[7]]);
    }
}

impl RequestTarget {
    /// Decodes what a request buffer asks for (see `requested_target`).
    pub fn parse(buff: &[u8; 256]) -> (r: Option<RequestTarget>)
        requires
            request_decodable(buff@),
        ensures
            r matches Some(t) ==> requested_target(buff@) == Some(t@),
            r is None ==> requested_target(buff@) is None,
            buff@[3] == 1 ==> (r matches Some(RequestTarget::Ipv4 { ip, port }) && ip@ == seq![
                buff@[4],
                buff@[5],
                buff@[6],
                buff@[7],
            ] && port == buff@[8] * 256 + buff@[9]),
            buff@[3] == 3 ==> (r matches Some(RequestTarget::Domain { name, port }) && encode_utf8(
                name@,
            ) == buff@.subrange(5, 5 + buff@[4]) && port == buff@[5 + buff@[4]] * 256 + buff@[6
                + buff@[4]]),
            r is None <==> (buff@[3] != 1 && buff@[3] != 3),
    {
        proof {
            lemma_request_offsets(buff@);
        }
        if buff[3] == ATYP_DOMAIN {
            let n: usize = buff[4] as usize;
            let bytes = copy_range(buff, 5, 5 + n);
            let name = match std::str::from_utf8(bytes.as_slice()) {
                Ok(s) => s.to_owned(),
                Err(_) => {
                    return None;
                },
            };
            proof {
                broadcast use vstd::utf8::encode_utf8_decode_utf8;
            }
            let port = port_from_bytes(buff[5 + n], buff[6 + n]);
            Some(RequestTarget::Domain { name, port })
        } else if buff[3] == ATYP_IPV4 {
            let ip: [u8; 4] = [buff[4], buff[5], buff[6], buff[7]];
            let port = port_from_bytes(buff[8], buff[9]);
            assert(ip@ == buff@.subrange(4, 8));
            Some(RequestTarget::Ipv4 { ip, port })
        } else {
            None
        }
    }
}

/// The destination of the connection at `key`, when it has one that
/// exists among `connections`.
pub open spec fn dest_of(connections: Seq<ConnectionView>, key: int) -> Option<usize> {
    match connections[key].dest {
        Some(j) => if j < connections.len() {
            Some(j)
        } else {
            None
        },
        None => None,
    }
}

/// The destination lookup: a destination index that lies inside the
/// connections is found, and nothing is found exactly when there is no
/// destination or it lies past the end.
pub proof fn lemma_dest_lookup(connections: Seq<ConnectionView>, key: int)
    requires
        0 <= key < connections.len(),
    ensures
        connections[key].dest is Some && connections[key].dest->0 < connections.len() ==> dest_of(
            connections,
            key,
        ) == connections[key].dest,
        dest_of(connections, key) matches Some(j) ==> connections[key].dest == Some(j) && j
            < connections.len(),
        dest_of(connections, key) is None <==> (connections[key].dest is None
            || connections[key].dest->0 >= connections.len()),
{
}

/// The index of the connection that the one at `key` forwards to.
pub fn dest_index(connections: &Vec<Connection>, key: usize) -> (r: Option<usize>)
    requires
        key < connections@.len(),
    ensures
        r == dest_of(connections@.map_values(|c: Connection| c@), key as int),
        connections@[key as int].dest is Some && connections@[key as int].dest->0
            < connections@.len() ==> r == connections@[key as int].dest,
        r matches Some(j) ==> connections@[key as int].dest == Some(j) && j < connections@.len(),
        r is None <==> (connections@[key as int].dest is None || connections@[key as int].dest->0
            >= connections@.len()),
{
    proof {
        lemma_dest_lookup(connections@.map_values(|c: Connection| c@), key as int);
    }
    let connection: &Connection = &connections[key];
    match connection.dest {
        Some(j) => if j < connections.len() {
            Some(j)
        } else {
            None
        },
        None => None,
    }
}

/// The state of the connection that the one at `key` forwards to.
pub fn get_dest_state(connections: &Vec<Connection>, key: usize) -> (r: Option<ClientState>)
    requires
        key < connections@.len(),
    ensures
        r == (match dest_of(connections@.map_values(|c: Connection| c@), key as int) {
            Some(j) => Some(connections@[j as int].state),
            None => None,
        }),
        connections@[key as int].dest is Some && connections@[key as int].dest->0
            < connections@.len() ==> r == Some(
            connections@[connections@[key as int].dest->0 as int].state,
        ),
        r is None <==> (connections@[key as int].dest is None || connections@[key as int].dest->0
            >= connections@.len()),
{
    match dest_index(connections, key) {
        Some(j) => Some(connections[j].state),
        None => None,
    }
}

/// The reply that tells a client its connection is established: version 5,
/// success, a reserved zero, address type IPv4, then the four octets of
/// `ip` and the two bytes of `port`, least significant first.
pub open spec fn status_reply(ip: Seq<u8>, port: u16) -> Seq<u8> {
    seq![SOCKS_VERSION, 0u8, 0u8, ATYP_IPV4, ip[0], ip[1], ip[2], ip[3], (port % 256) as u8, (port / 256) as u8]
}

/// Builds `status_reply(ip, port)`.
pub fn connection_status_reply(ip: [u8; 4], port: u16) -> (r: Vec<u8>)
    ensures
        r@ == status_reply(ip@, port),
        r@.len() == 10,
        r@[0] == 5 && r@[1] == 0 && r@[2] == 0 && r@[3] == 1,
        r@.subrange(4, 8) == ip@,
        r@[8] as int + r@[9] as int * 256 == port,
{
    let low: u8 = (port & 0xff) as u8;
    let high: u8 = (port >> 8) as u8;
    assert(low == port % 256 && high == port / 256) by (bit_vector)
        requires
            low == (port & 0xff) as u8,
            high == (port >> 8) as u8,
    ;
    let mut r: Vec<u8> = Vec::new();
    r.push(SOCKS_VERSION);
    r.push(0);
    r.push(0);
    r.push(ATYP_IPV4);
    r.push(ip[0]);
    r.push(ip[1]);
    r.push(ip[2]);
    r.push(ip[3]);
    r.push(low);
    r.push(high);
    assert(r@ =~= status_reply(ip@, port));
    assert(r@.subrange(4, 8) =~= ip@);
    r
}

} // verus!
