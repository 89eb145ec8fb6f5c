use rendezvous::client::{AcceptFailurePolicy, Client, ClientAction, ClientEvent, ClientState};
use rendezvous::endpoint::{multicast_socket, Endpoint, IpAddress};
use rendezvous::retry::Delay;
use rendezvous::server::{handle, Handler, HandlerAction, Server, ServerAction};

fn client_host() -> IpAddress {
    IpAddress::V4([192, 168, 1, 20])
}

fn server_host() -> IpAddress {
    IpAddress::V4([192, 168, 1, 1])
}

fn listening() -> Server {
    let (mut server, _) = Server::new();
    server.step(Ok(()));
    assert_eq!(server.step(Ok(())), ServerAction::Receive);
    server
}

#[test]
fn rendezvous_ends_in_a_session_on_both_sides() {
    let port = 45678;
    let mut server = listening();
    let mut client = Client::new(AcceptFailurePolicy::Resilient);
    client.step(ClientEvent::Started);
    client.step(ClientEvent::ListenerBound(Ok(port)));
    let datagram = match client.step(ClientEvent::SocketBound(Ok(()))) {
        ClientAction::Discover { payload, to, .. } => {
            assert_eq!(to, multicast_socket());
            payload
        }
        other => panic!("no discovery but {:?}", other),
    };

    assert_eq!(server.step(Ok(())), ServerAction::Dispatch);
    let from = Endpoint { ip: client_host(), port: 33333 };
    let (mut handler, action) = handle(from, &datagram);
    let target = Endpoint { ip: client_host(), port };
    assert_eq!(action, HandlerAction::Connect { target });

    let peer = Endpoint { ip: server_host(), port: 50505 };
    assert_eq!(
        client.step(ClientEvent::Accepted(Ok(peer))),
        ClientAction::Migrate { peer }
    );
    assert_eq!(client.state, ClientState::Session { peer });
    assert_eq!(client.step(ClientEvent::HeartbeatDue), ClientAction::Nothing);

    assert!(matches!(handler.step(Ok(())), HandlerAction::Greet { .. }));
    assert_eq!(handler, Handler::Serving { target });
    assert_eq!(server, Server::Listening);
}

#[test]
fn ten_zero_bytes_lead_to_no_connect() {
    let mut server = listening();
    assert_eq!(server.step(Ok(())), ServerAction::Dispatch);
    let from = Endpoint { ip: client_host(), port: 33333 };
    let (handler, action) = handle(from, &[0u8; 10]);
    assert_eq!(action, HandlerAction::Done);
    assert_eq!(handler, Handler::Finished);
    assert_eq!(server, Server::Listening);
    assert_eq!(server.step(Ok(())), ServerAction::Dispatch);
}

#[test]
fn busy_port_is_retried_every_second_until_free() {
    let (mut server, first) = Server::new();
    assert_eq!(first, ServerAction::Bind { after: Delay { secs: 0 }, port: 8888 });
    let mut clock = 0u64;
    let mut binds_at = vec![clock];
    for _ in 0..30 {
        match server.step(Err(())) {
            ServerAction::Bind { after, port } => {
                assert_eq!(port, 8888);
                clock += after.secs;
                binds_at.push(clock);
            }
            other => panic!("no bind but {:?}", other),
        }
        assert_eq!(server, Server::Binding);
    }
    let expected: Vec<u64> = (0..=30).collect();
    assert_eq!(binds_at, expected);

    let (mut fresh, _) = Server::new();
    let after_retries = server.step(Ok(()));
    assert_eq!(after_retries, fresh.step(Ok(())));
    assert_eq!(server, fresh);
    assert_eq!(server.step(Ok(())), ServerAction::Receive);
    assert_eq!(server, Server::Listening);
}

#[test]
fn failed_connect_leaves_server_and_client_as_they_were() {
    let port = 45678;
    let mut server = listening();
    let mut client = Client::new(AcceptFailurePolicy::Resilient);
    client.step(ClientEvent::Started);
    client.step(ClientEvent::ListenerBound(Ok(port)));
    let first = match client.step(ClientEvent::SocketBound(Ok(()))) {
        ClientAction::Discover { payload, .. } => payload,
        other => panic!("no discovery but {:?}", other),
    };
    let from = Endpoint { ip: client_host(), port: 33333 };
    let target = Endpoint { ip: client_host(), port };

    assert_eq!(server.step(Ok(())), ServerAction::Dispatch);
    let (mut handler, action) = handle(from, &first);
    assert_eq!(action, HandlerAction::Connect { target });
    assert_eq!(handler.step(Err(())), HandlerAction::GiveUp { target });
    assert_eq!(handler, Handler::Finished);
    assert_eq!(server, Server::Listening);
    assert_eq!(client.state, ClientState::Advertising { port });

    let second = match client.step(ClientEvent::HeartbeatDue) {
        ClientAction::Announce { payload, .. } => payload,
        other => panic!("no heartbeat but {:?}", other),
    };
    assert_eq!(second, first);
    assert_eq!(server.step(Ok(())), ServerAction::Dispatch);
    let (mut handler, action) = handle(from, &second);
    assert_eq!(action, HandlerAction::Connect { target });
    assert!(matches!(handler.step(Ok(())), HandlerAction::Greet { .. }));
    let peer = Endpoint { ip: server_host(), port: 50505 };
    assert_eq!(
        client.step(ClientEvent::Accepted(Ok(peer))),
        ClientAction::Migrate { peer }
    );
}
