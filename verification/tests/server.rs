use rendezvous::endpoint::{multicast_socket, Endpoint, IpAddress, MULTICAST_ADDRESS, MULTICAST_PORT};
use rendezvous::retry::Delay;
use rendezvous::server::{
    communicate, handle, Handler, HandlerAction, Server, ServerAction, GREETING,
    GREETING_INTERVAL_SECS, STARTUP_RETRY_SECS,
};
use rendezvous::wire::encode_heartbeat;

fn sender() -> Endpoint {
    Endpoint { ip: IpAddress::V4([192, 168, 1, 20]), port: 50000 }
}

fn greeting(target: Endpoint) -> HandlerAction {
    HandlerAction::Greet { target, greeting: *b"Hello World!", pause: Delay { secs: 10 } }
}

#[test]
fn network_parameters() {
    assert_eq!(MULTICAST_ADDRESS, [239, 2, 2, 2]);
    assert_eq!(MULTICAST_PORT, 8888);
    assert_eq!(
        multicast_socket(),
        Endpoint { ip: IpAddress::V4([239, 2, 2, 2]), port: 8888 }
    );
    assert_eq!(STARTUP_RETRY_SECS, 1);
    assert_eq!(GREETING_INTERVAL_SECS, 10);
    assert_eq!(&GREETING, b"Hello World!");
}

#[test]
fn server_binds_then_joins_then_listens() {
    let (mut server, first) = Server::new();
    assert_eq!(server, Server::Binding);
    assert_eq!(first, ServerAction::Bind { after: Delay { secs: 0 }, port: 8888 });
    assert_eq!(
        server.step(Ok(())),
        ServerAction::Join { after: Delay { secs: 0 }, group: [239, 2, 2, 2] }
    );
    assert_eq!(server, Server::Joining);
    assert_eq!(server.step(Ok(())), ServerAction::Receive);
    assert_eq!(server, Server::Listening);
}

#[test]
fn failed_join_is_retried_every_second() {
    let (mut server, _) = Server::new();
    server.step(Ok(()));
    for _ in 0..50 {
        assert_eq!(
            server.step(Err(())),
            ServerAction::Join { after: Delay { secs: 1 }, group: [239, 2, 2, 2] }
        );
        assert_eq!(server, Server::Joining);
    }
    assert_eq!(server.step(Ok(())), ServerAction::Receive);
}

#[test]
fn listening_server_dispatches_every_datagram() {
    let mut server = Server::Listening;
    for round in 0..100 {
        if round % 3 == 0 {
            assert_eq!(server.step(Err(())), ServerAction::Receive);
        } else {
            assert_eq!(server.step(Ok(())), ServerAction::Dispatch);
        }
        assert_eq!(server, Server::Listening);
    }
}

#[test]
fn valid_heartbeat_is_answered_by_one_connect_to_sender_and_port() {
    let msg = encode_heartbeat(40123);
    let (handler, action) = handle(sender(), &msg);
    let target = Endpoint { ip: IpAddress::V4([192, 168, 1, 20]), port: 40123 };
    assert_eq!(action, HandlerAction::Connect { target });
    assert_eq!(handler, Handler::Connecting { target });
}

#[test]
fn target_keeps_an_ipv6_sender_address() {
    let ip = IpAddress::V6([0xfe, 0x80, 0, 0, 0, 0, 0, 0, 0, 0, 0, 0, 0, 0, 0, 1]);
    let msg = encode_heartbeat(9);
    let (_, action) = handle(Endpoint { ip, port: 1 }, &msg);
    assert_eq!(action, HandlerAction::Connect { target: Endpoint { ip, port: 9 } });
}

#[test]
fn malformed_datagram_is_dropped_without_a_connect() {
    let good = encode_heartbeat(40123);
    let mut wrong_tag = good.clone();
    wrong_tag[7] = !wrong_tag[7];
    let mut long = good.clone();
    long.push(0);
    let cases: Vec<Vec<u8>> = vec![
        vec![],
        vec![0u8; 10],
        vec![0u8; 34],
        good[..32].to_vec(),
        good[..33].to_vec(),
        long,
        wrong_tag,
    ];
    for msg in cases {
        let (mut handler, action) = handle(sender(), &msg);
        assert_eq!(action, HandlerAction::Done);
        assert_eq!(handler, Handler::Finished);
        assert_eq!(handler.step(Ok(())), HandlerAction::Done);
        assert_eq!(handler.step(Err(())), HandlerAction::Done);
        assert_eq!(handler, Handler::Finished);
    }
}

#[test]
fn failed_connect_is_not_retried() {
    let msg = encode_heartbeat(40123);
    let (mut handler, first) = handle(sender(), &msg);
    let target = Endpoint { ip: IpAddress::V4([192, 168, 1, 20]), port: 40123 };
    assert_eq!(first, HandlerAction::Connect { target });
    assert_eq!(handler.step(Err(())), HandlerAction::GiveUp { target });
    assert_eq!(handler, Handler::Finished);
    for _ in 0..10 {
        assert_eq!(handler.step(Ok(())), HandlerAction::Done);
        assert_eq!(handler.step(Err(())), HandlerAction::Done);
    }
}

#[test]
fn session_greets_every_ten_seconds_whatever_the_writes_do() {
    let msg = encode_heartbeat(40123);
    let (mut handler, _) = handle(sender(), &msg);
    let target = Endpoint { ip: IpAddress::V4([192, 168, 1, 20]), port: 40123 };
    assert_eq!(handler.step(Ok(())), greeting(target));
    assert_eq!(handler, Handler::Serving { target });
    let mut clock = 0u64;
    for round in 0..100u64 {
        let written = if round % 2 == 0 { Err(()) } else { Ok(()) };
        match handler.step(written) {
            HandlerAction::Greet { target: to, greeting, pause } => {
                assert_eq!(to, target);
                assert_eq!(&greeting, b"Hello World!");
                clock += pause.secs;
            }
            other => panic!("no greeting but {:?}", other),
        }
        assert_eq!(handler, Handler::Serving { target });
    }
    assert_eq!(clock, 1000);
    assert_eq!(communicate(target), greeting(target));
}

#[test]
fn repeated_heartbeats_each_lead_to_a_connect() {
    let mut server = Server::Listening;
    let msg = encode_heartbeat(40123);
    let target = Endpoint { ip: IpAddress::V4([192, 168, 1, 20]), port: 40123 };
    let mut connects = Vec::new();
    for _ in 0..25 {
        assert_eq!(server.step(Ok(())), ServerAction::Dispatch);
        let (mut handler, action) = handle(sender(), &msg);
        if let HandlerAction::Connect { target } = action {
            connects.push(target);
        }
        assert_eq!(handler.step(Err(())), HandlerAction::GiveUp { target });
    }
    assert_eq!(connects, vec![target; 25]);
}
