use vstd::prelude::*;
use vstd::utf8::*;

use crate::socks::{
    connection_status_reply, request_decodable, requested_target, status_reply, with_state,
    ClientState, Connection, ConnectionView, Interest, RequestTarget, NO_AUTHENTICATION,
    SOCKS_VERSION,
};

verus! {

/// The poller key of the listening socket.
pub const LISTENER_KEY: usize = 1000000000;

/// Whether a connection in `state` is paired with another one.
pub open spec fn is_paired_state(state: ClientState) -> bool {
    state == ClientState::WaitingForSendingConnectionStatus || state == ClientState::Connected
}

/// The shape that every proxy keeps: each connection's key is its index; a
/// connection has a destination exactly when it is paired (its remote server
/// is connected); destinations are other existing connections, and the
/// destination of a connection's destination is that connection.
pub open spec fn links_well_formed(cs: Seq<ConnectionView>) -> bool {
    &&& forall|i: int| 0 <= i < cs.len() ==> #[trigger] cs[i].key == i
    &&& forall|i: int| 0 <= i < cs.len() ==> (#[trigger] cs[i].dest is Some <==> is_paired_state(cs[i].state))
    &&& forall|i: int|
        #![trigger cs[i].dest]
        0 <= i < cs.len() && cs[i].dest is Some ==> {
            let j = cs[i].dest->0 as int;
            &&& 0 <= j < cs.len()
            &&& j != i
            &&& cs[j].dest == Some(i as usize)
        }
}

/// How far a connection has come through the exchange: greeting, answer,
/// request, the request handled (or refused), status reply, connected.
pub open spec fn progress(state: ClientState) -> nat {
    match state {
        ClientState::WaitingForReceiveHandshake => 0,
        ClientState::WaitForAnswerToHandshake => 1,
        ClientState::WaitingForRequest => 2,
        ClientState::WaitingForRemoteServerConnection => 3,
        ClientState::StateNone => 3,
        ClientState::WaitingForSendingConnectionStatus => 4,
        ClientState::Connected => 5,
    }
}

/// From `before` to `after` no connection went away or back in the exchange.
pub open spec fn never_regresses(before: Seq<ConnectionView>, after: Seq<ConnectionView>) -> bool {
    &&& before.len() <= after.len()
    &&& forall|i: int|
        0 <= i < before.len() ==> progress(#[trigger] before[i].state) <= progress(after[i].state)
}

/// What the event loop does next for an event on a connection.
pub enum EventStep {
    /// Read the client's greeting (its content is not used), then watch the socket.
    ReadHandshake { then: Interest },
    /// Write `bytes` to the socket, then watch it.
    Send { bytes: Vec<u8>, then: Interest },
    /// Read the client's request and hand it to `Proxy::receive_request`.
    ReadRequest,
    /// Look up the socket's local address and hand it to `Proxy::send_connection_status`.
    SendConnectionStatus,
    /// Read what arrived and hand it to `Proxy::forward`; it goes to `dest`.
    Forward { dest: usize },
    /// Nothing to do.
    Ignore,
}

/// The connections of the proxy, indexed by poller key.
pub struct Proxy {
    connections: Vec<Connection>,
}

impl View for Proxy {
    type V = Seq<ConnectionView>;

    closed spec fn view(&self) -> Seq<ConnectionView> {
        self.connections@.map_values(|c: Connection| c@)
    }
}

impl Proxy {
    /// The proxy keeps `links_well_formed`.
    pub open spec fn wf(&self) -> bool {
        links_well_formed(self@)
    }

    /// A proxy with no connections.
    pub fn new() -> (r: Proxy)
        ensures
            r@ == Seq::<ConnectionView>::empty(),
            r.wf(),
    {
        let r = Proxy { connections: Vec::new() };
        assert(r@ =~= Seq::<ConnectionView>::empty());
        r
    }

    /// The connections, indexed by key.
    pub fn connections(&self) -> (r: &Vec<Connection>)
        ensures
            r@.map_values(|c: Connection| c@) == self@,
    {
        &self.connections
    }

    /// The number of connections.
    pub fn len(&self) -> (r: usize)
        ensures
            r == self@.len(),
    {
        self.connections.len()
    }

    /// A client was accepted: it gets the next key and waits for its greeting.
    pub fn accept(&mut self) -> (key: usize)
        requires
            old(self).wf(),
            old(self)@.len() < usize::MAX,
        ensures
            never_regresses(old(self)@, final(self)@),
            key == old(self)@.len(),
            final(self)@ == old(self)@.push(
                ConnectionView {
                    key,
                    dest: None,
                    state: ClientState::WaitingForReceiveHandshake,
                    is_ready_to_send: false,
                    buffer_to_send: Seq::empty(),
                },
            ),
            final(self).wf(),
    {
        let key = self.connections.len();
        self.connections.push(Connection::new(key));
        assert(self@ =~= old(self)@.push(self@[key as int]));
        key
    }

    /// Decides what an event on the connection at `key` leads to, from the
    /// connection's state; the handshake steps advance the state here.
    pub fn on_event(&mut self, key: usize, readable: bool) -> (r: EventStep)
        requires
            old(self).wf(),
            key < old(self)@.len(),
        ensures
            never_regresses(old(self)@, final(self)@),
            final(self).wf(),
            final(self)@.len() == old(self)@.len(),
            ({
                let c = old(self)@[key as int];
                match c.state {
                    ClientState::WaitingForReceiveHandshake => {
                        &&& r matches EventStep::ReadHandshake { then } && then == Interest::Writable
                        &&& final(self)@ == old(self)@.update(
                            key as int,
                            with_state(c, ClientState::WaitForAnswerToHandshake),
                        )
                    },
                    ClientState::WaitForAnswerToHandshake => {
                        &&& r matches EventStep::Send { bytes, then } && bytes@ == seq![
                            SOCKS_VERSION,
                            NO_AUTHENTICATION,
                        ] && then == Interest::Readable
                        &&& final(self)@ == old(self)@.update(
                            key as int,
                            with_state(c, ClientState::WaitingForRequest),
                        )
                    },
                    ClientState::WaitingForRequest => {
                        &&& r is ReadRequest
                        &&& final(self)@ == old(self)@
                    },
                    ClientState::WaitingForSendingConnectionStatus => {
                        &&& r is SendConnectionStatus
                        &&& final(self)@ == old(self)@
                    },
                    ClientState::Connected => {
                        &&& readable ==> (r matches EventStep::Forward { dest } && Some(dest) == c.dest)
                        &&& !readable ==> r is Ignore
                        &&& final(self)@ == old(self)@
                    },
                    _ => {
                        &&& r is Ignore
                        &&& final(self)@ == old(self)@
                    },
                }
            }),
    {
        let state = self.connections[key].state;
        match state {
            ClientState::WaitingForReceiveHandshake => {
                let then = self.connections[key].handle_handshake();
                proof {
                    assert(self@ =~= old(self)@.update(
                        key as int,
                        with_state(old(self)@[key as int], ClientState::WaitForAnswerToHandshake),
                    ));
                }
                EventStep::ReadHandshake { then }
            },
            ClientState::WaitForAnswerToHandshake => {
                let (bytes, then) = self.connections[key].answer_to_handshake();
                proof {
                    assert(self@ =~= old(self)@.update(
                        key as int,
                        with_state(old(self)@[key as int], ClientState::WaitingForRequest),
                    ));
                }
                EventStep::Send { bytes, then }
            },
            ClientState::WaitingForRequest => EventStep::ReadRequest,
            ClientState::WaitingForSendingConnectionStatus => EventStep::SendConnectionStatus,
            ClientState::Connected => {
                if readable {
                    proof {
                        assert(self@[key as int].dest is Some);
                    }
                    match self.connections[key].dest {
                        Some(dest) => EventStep::Forward { dest },
                        None => EventStep::Ignore,
                    }
                } else {
                    EventStep::Ignore
                }
            },
            _ => EventStep::Ignore,
        }
    }

    /// The request of the client at `key` was read into `buff`: the client
    /// leaves the handshake and the address it asks for is decoded (`None`
    /// for an address type other than IPv4 or a domain name).
    pub fn receive_request(&mut self, key: usize, buff: &[u8; 256]) -> (r: Option<RequestTarget>)
        requires
            old(self).wf(),
            key < old(self)@.len(),
            old(self)@[key as int].state == ClientState::WaitingForRequest,
            request_decodable(buff@),
        ensures
            never_regresses(old(self)@, final(self)@),
            final(self).wf(),
            final(self)@ == old(self)@.update(
                key as int,
                with_state(old(self)@[key as int], ClientState::StateNone),
            ),
            r matches Some(t) ==> requested_target(buff@) == Some(t@),
            r is None ==> requested_target(buff@) is None,
            buff@[3] == 1 ==> (r matches Some(RequestTarget::Ipv4 { ip, port }) && ip@ == seq![
                buff@[4],
                buff@[5],
                buff@[6],
                buff@[7],
            ] && port == buff@[8] * 256 + buff@[9]),
            buff@[3] == 3 ==> (r matches Some(RequestTarget::Domain { name, port }) && encode_utf8(
                name@,
            ) == buff@.subrange(5, 5 + buff@[4]) && port == buff@[5 + buff@[4]] * 256 + buff@[6
                + buff@[4]]),
            r is None <==> (buff@[3] != 1 && buff@[3] != 3),
    {
        let r = self.connections[key].handle_request(buff);
        proof {
            assert(self@ =~= old(self)@.update(
                key as int,
                with_state(old(self)@[key as int], ClientState::StateNone),
            ));
        }
        r
    }

    /// The remote server that the client at `key` asked for is connected: it
    /// becomes a new connection, with the next key, paired with the client;
    /// the client now owes its status reply.
    pub fn attach_remote(&mut self, key: usize) -> (remote: usize)
        requires
            old(self).wf(),
            key < old(self)@.len(),
            old(self)@[key as int].state == ClientState::StateNone,
            old(self)@.len() < usize::MAX,
        ensures
            never_regresses(old(self)@, final(self)@),
            final(self).wf(),
            remote == old(self)@.len(),
            final(self)@ == old(self)@.update(
                key as int,
                ConnectionView {
                    dest: Some(remote),
                    state: ClientState::WaitingForSendingConnectionStatus,
                    ..old(self)@[key as int]
                },
            ).push(
                ConnectionView {
                    key: remote,
                    dest: Some(key),
                    state: ClientState::Connected,
                    is_ready_to_send: false,
                    buffer_to_send: Seq::empty(),
                },
            ),
    {
        let remote = self.connections.len();
        self.connections[key].dest = Some(remote);
        self.connections[key].state = ClientState::WaitingForSendingConnectionStatus;
        self.connections.push(
            Connection {
                key: remote,
                dest: Some(key),
                state: ClientState::Connected,
                is_ready_to_send: false,
                buffer_to_send: Vec::new(),
            },
        );
        proof {
            let expected = old(self)@.update(
                key as int,
                ConnectionView {
                    dest: Some(remote),
                    state: ClientState::WaitingForSendingConnectionStatus,
                    ..old(self)@[key as int]
                },
            ).push(
                ConnectionView {
                    key: remote,
                    dest: Some(key),
                    state: ClientState::Connected,
                    is_ready_to_send: false,
                    buffer_to_send: Seq::empty(),
                },
            );
            assert(self@ =~= expected);
        }
        remote
    }

    /// The status reply for the client at `key`, whose socket has local
    /// address `ip` and `port`: once it is written the client is connected.
    pub fn send_connection_status(&mut self, key: usize, ip: [u8; 4], port: u16) -> (r: (
        Vec<u8>,
        Interest,
    ))
        requires
            old(self).wf(),
            key < old(self)@.len(),
            old(self)@[key as int].state == ClientState::WaitingForSendingConnectionStatus,
        ensures
            never_regresses(old(self)@, final(self)@),
            final(self).wf(),
            r.0@ == status_reply(ip@, port),
            r.1 == Interest::Readable,
            final(self)@ == old(self)@.update(
                key as int,
                with_state(old(self)@[key as int], ClientState::Connected),
            ),
    {
        let bytes = connection_status_reply(ip, port);
        self.connections[key].state = ClientState::Connected;
        proof {
            assert(self@ =~= old(self)@.update(
                key as int,
                with_state(old(self)@[key as int], ClientState::Connected),
            ));
        }
        (bytes, Interest::Readable)
    }

    /// `data` arrived on the connected socket at `key`: it is queued on the
    /// connection's destination, whose key is returned, for the event loop
    /// to write there.
    pub fn forward(&mut self, key: usize, data: Vec<u8>) -> (dest: usize)
        requires
            old(self).wf(),
            key < old(self)@.len(),
            old(self)@[key as int].state == ClientState::Connected,
        ensures
            never_regresses(old(self)@, final(self)@),
            final(self).wf(),
            Some(dest) == old(self)@[key as int].dest,
            final(self)@ == old(self)@.update(
                dest as int,
                ConnectionView {
                    is_ready_to_send: true,
                    buffer_to_send: data@,
                    ..old(self)@[dest as int]
                },
            ),
    {
        proof {
            assert(old(self)@[key as int].dest is Some);
        }
        let dest = match self.connections[key].dest {
            Some(d) => d,
            None => key,
        };
        let ghost data_view = data@;
        self.connections[dest].is_ready_to_send = true;
        self.connections[dest].buffer_to_send = data;
        proof {
            assert(self@ =~= old(self)@.update(
                dest as int,
                ConnectionView {
                    is_ready_to_send: true,
                    buffer_to_send: data_view,
                    ..old(self)@[dest as int]
                },
            ));
        }
        dest
    }
}

} // verus!
