//! The client side of the rendezvous.
//!
//! A client lives through discovery cycles. In each cycle it binds a TCP
//! listener on a port that the system picks, binds a UDP socket, and then
//! advertises the listener's port in a heartbeat every five seconds while it
//! waits for a connection. The first connection accepted ends the
//! heartbeat and starts a session; when the session ends, the next cycle
//! begins.

use crate::endpoint::{multicast_socket, Endpoint};
use crate::retry::{retry_step, try_until, Delay, Retry};
use crate::wire::{encode_heartbeat, heartbeat_payload};
use vstd::prelude::*;
use vstd::utf8::{decode_utf8, valid_utf8};

verus! {

/// Seconds between two heartbeats.
pub const HEARTBEAT_INTERVAL_SECS: u64 = 5;

/// Seconds of rest between a discovery cycle that failed and the next one.
pub const CYCLE_RETRY_SECS: u64 = 5;

/// Seconds between a failed accept and the next one: none.
pub const ACCEPT_RETRY_SECS: u64 = 0;

/// What becomes of the client when the task that accepts connections ends
/// without a connection.
#[derive(Clone, Copy, Debug, PartialEq, Eq)]
pub enum AcceptFailurePolicy {
    /// Rest, then start a new discovery cycle.
    Resilient,
    /// Stop the client and let the failure end the process.
    Escalate,
}

/// Where the client stands.
#[derive(Clone, Copy, Debug, PartialEq, Eq)]
pub enum ClientState {
    /// Between two cycles: nothing is bound, nothing is sent.
    Idle,
    /// Discovering: the TCP listener is being bound.
    Binding,
    /// Discovering: the listener has `port`, the UDP socket is being bound.
    Opening { port: u16 },
    /// Discovering: heartbeats for `port` go out while a connection is
    /// awaited.
    Advertising { port: u16 },
    /// In a session with `peer`.
    Session { peer: Endpoint },
    /// Stopped for good.
    Stopped,
}

/// What happened. An event that the current state does not wait for is
/// passed over.
#[derive(Clone, Copy, Debug, PartialEq, Eq)]
pub enum ClientEvent {
    /// The client was switched on, or a rest is over.
    Started,
    /// The bind of the TCP listener ended: with the port that the system
    /// assigned, or in failure.
    ListenerBound(Result<u16, ()>),
    /// The bind of the UDP socket ended.
    SocketBound(Result<(), ()>),
    /// The pause after the last heartbeat is over.
    HeartbeatDue,
    /// An accept on the listener ended: with the peer's address, or in a
    /// passing error.
    Accepted(Result<Endpoint, ()>),
    /// The task that accepts connections ended without a connection.
    AcceptAbandoned,
    /// The session ended: the peer closed the stream.
    SessionEnded,
}

/// What the client asks for next.
#[derive(Debug, PartialEq, Eq)]
pub enum ClientAction {
    /// Let go of the cycle's sockets and tasks, wait `wait`, then report
    /// `Started`.
    Rest { wait: Delay },
    /// Bind a TCP listener to the wildcard address on a port that the system
    /// picks, and report `ListenerBound`.
    BindListener,
    /// Bind a UDP socket to the wildcard address, and report `SocketBound`.
    BindSocket,
    /// Start to accept on the listener, reporting `Accepted`; send `payload`
    /// to `to`, and report `HeartbeatDue` after `pause`.
    Discover { payload: Vec<u8>, to: Endpoint, pause: Delay },
    /// Send `payload` to `to`, and report `HeartbeatDue` after `pause`.
    Announce { payload: Vec<u8>, to: Endpoint, pause: Delay },
    /// Wait `after`, then accept on the listener again.
    Accept { after: Delay },
    /// Send no further heartbeat, and run the session with `peer` on the
    /// accepted stream; report `SessionEnded` when it returns.
    Migrate { peer: Endpoint },
    /// End the process with a failure.
    Terminate,
    /// Nothing new: go on waiting for what is under way.
    Nothing,
}

/// A [`ClientAction`] as a value of the specification.
pub enum ClientActionView {
    Rest { wait: Delay },
    BindListener,
    BindSocket,
    Discover { payload: Seq<u8>, to: Endpoint, pause: Delay },
    Announce { payload: Seq<u8>, to: Endpoint, pause: Delay },
    Accept { after: Delay },
    Migrate { peer: Endpoint },
    Terminate,
    Nothing,
}

impl View for ClientAction {
    type V = ClientActionView;

    open spec fn view(&self) -> ClientActionView {
        match *self {
            ClientAction::Rest { wait } => ClientActionView::Rest { wait },
            ClientAction::BindListener => ClientActionView::BindListener,
            ClientAction::BindSocket => ClientActionView::BindSocket,
            ClientAction::Discover { payload, to, pause } => ClientActionView::Discover {
                payload: payload@,
                to,
                pause,
            },
            ClientAction::Announce { payload, to, pause } => ClientActionView::Announce {
                payload: payload@,
                to,
                pause,
            },
            ClientAction::Accept { after } => ClientActionView::Accept { after },
            ClientAction::Migrate { peer } => ClientActionView::Migrate { peer },
            ClientAction::Terminate => ClientActionView::Terminate,
            ClientAction::Nothing => ClientActionView::Nothing,
        }
    }
}

impl ClientActionView {
    /// Whether the action sends a heartbeat.
    pub open spec fn sends_heartbeat(self) -> bool {
        self is Discover || self is Announce
    }
}

/// A client: its policy, which never changes, and its state.
#[derive(Clone, Copy, Debug, PartialEq, Eq)]
pub struct Client {
    pub policy: AcceptFailurePolicy,
    pub state: ClientState,
}

/// The heartbeat for `port`, to the rendezvous endpoint, with the pause
/// that follows it.
pub open spec fn announcement(port: u16) -> ClientActionView {
    ClientActionView::Announce {
        payload: heartbeat_payload(port),
        to: multicast_socket(),
        pause: Delay::from_secs(HEARTBEAT_INTERVAL_SECS),
    }
}

/// The start of the advertising for `port`: the first heartbeat, with the
/// accept beside it.
pub open spec fn discovery(port: u16) -> ClientActionView {
    ClientActionView::Discover {
        payload: heartbeat_payload(port),
        to: multicast_socket(),
        pause: Delay::from_secs(HEARTBEAT_INTERVAL_SECS),
    }
}

impl Client {
    /// A client that is switched off, with the given policy.
    pub open spec fn spec_new(policy: AcceptFailurePolicy) -> Client {
        Client { policy, state: ClientState::Idle }
    }

    /// The same client in another state.
    pub open spec fn at(self, state: ClientState) -> Client {
        Client { policy: self.policy, state }
    }

    /// The client's transition: the client and the action that follow
    /// `event`.
    pub open spec fn next(self, event: ClientEvent) -> (Client, ClientActionView) {
        match (self.state, event) {
            (ClientState::Idle, ClientEvent::Started) => (
                self.at(ClientState::Binding),
                ClientActionView::BindListener,
            ),
            (ClientState::Binding, ClientEvent::ListenerBound(outcome)) => match retry_step(
                outcome,
                Delay::from_secs(CYCLE_RETRY_SECS),
            ) {
                Retry::Done { value } => (
                    self.at(ClientState::Opening { port: value }),
                    ClientActionView::BindSocket,
                ),
                Retry::Again { wait, .. } => (
                    self.at(ClientState::Idle),
                    ClientActionView::Rest { wait },
                ),
            },
            (ClientState::Opening { port }, ClientEvent::SocketBound(outcome)) => match retry_step(
                outcome,
                Delay::from_secs(CYCLE_RETRY_SECS),
            ) {
                Retry::Done { .. } => (self.at(ClientState::Advertising { port }), discovery(port)),
                Retry::Again { wait, .. } => (
                    self.at(ClientState::Idle),
                    ClientActionView::Rest { wait },
                ),
            },
            (ClientState::Advertising { port }, ClientEvent::HeartbeatDue) => (
                self,
                announcement(port),
            ),
            (ClientState::Advertising { port }, ClientEvent::Accepted(outcome)) => match retry_step(
                outcome,
                Delay::from_secs(ACCEPT_RETRY_SECS),
            ) {
                Retry::Done { value } => (
                    self.at(ClientState::Session { peer: value }),
                    ClientActionView::Migrate { peer: value },
                ),
                Retry::Again { wait, .. } => (self, ClientActionView::Accept { after: wait }),
            },
            (ClientState::Advertising { port }, ClientEvent::AcceptAbandoned) => match self.policy {
                AcceptFailurePolicy::Resilient => (
                    self.at(ClientState::Idle),
                    ClientActionView::Rest { wait: Delay::from_secs(CYCLE_RETRY_SECS) },
                ),
                AcceptFailurePolicy::Escalate => (
                    self.at(ClientState::Stopped),
                    ClientActionView::Terminate,
                ),
            },
            (ClientState::Session { peer }, ClientEvent::SessionEnded) => (
                self.at(ClientState::Binding),
                ClientActionView::BindListener,
            ),
            _ => (self, ClientActionView::Nothing),
        }
    }

    /// The client reached and the actions asked for while `events` come in
    /// one after another.
    pub open spec fn run(self, events: Seq<ClientEvent>) -> (Client, Seq<ClientActionView>)
        decreases events.len(),
    {
        if events.len() == 0 {
            (self, Seq::empty())
        } else {
            let (before, actions) = self.run(events.drop_last());
            let (after, action) = before.next(events.last());
            (after, actions.push(action))
        }
    }

    /// A client that is switched off. The first event to hand it is
    /// `Started`.
    pub fn new(policy: AcceptFailurePolicy) -> (client: Client)
        ensures
            client == Client::spec_new(policy),
    {
        Client { policy, state: ClientState::Idle }
    }

    /// Takes an event, moves to the next state and answers with the action
    /// to perform.
    pub fn step(&mut self, event: ClientEvent) -> (action: ClientAction)
        ensures
            (*final(self), action@) == old(self).next(event),
    {
        match (self.state, event) {
            (ClientState::Idle, ClientEvent::Started) => {
                self.state = ClientState::Binding;
                ClientAction::BindListener
            },
            (ClientState::Binding, ClientEvent::ListenerBound(outcome)) => match try_until(
                outcome,
                Delay::from_secs(CYCLE_RETRY_SECS),
            ) {
                Retry::Done { value } => {
                    self.state = ClientState::Opening { port: value };
                    ClientAction::BindSocket
                },
                Retry::Again { wait, .. } => {
                    self.state = ClientState::Idle;
                    ClientAction::Rest { wait }
                },
            },
            (ClientState::Opening { port }, ClientEvent::SocketBound(outcome)) => match try_until(
                outcome,
                Delay::from_secs(CYCLE_RETRY_SECS),
            ) {
                Retry::Done { .. } => {
                    self.state = ClientState::Advertising { port };
                    ClientAction::Discover {
                        payload: encode_heartbeat(port),
                        to: multicast_socket(),
                        pause: Delay::from_secs(HEARTBEAT_INTERVAL_SECS),
                    }
                },
                Retry::Again { wait, .. } => {
                    self.state = ClientState::Idle;
                    ClientAction::Rest { wait }
                },
            },
            (ClientState::Advertising { port }, ClientEvent::HeartbeatDue) => heartbeat(port),
            (ClientState::Advertising { .. }, ClientEvent::Accepted(outcome)) => match try_until(
                outcome,
                Delay::from_secs(ACCEPT_RETRY_SECS),
            ) {
                Retry::Done { value } => {
                    self.state = ClientState::Session { peer: value };
                    ClientAction::Migrate { peer: value }
                },
                Retry::Again { wait, .. } => ClientAction::Accept { after: wait },
            },
            (ClientState::Advertising { .. }, ClientEvent::AcceptAbandoned) => match self.policy {
                AcceptFailurePolicy::Resilient => {
                    self.state = ClientState::Idle;
                    ClientAction::Rest { wait: Delay::from_secs(CYCLE_RETRY_SECS) }
                },
                AcceptFailurePolicy::Escalate => {
                    self.state = ClientState::Stopped;
                    ClientAction::Terminate
                },
            },
            (ClientState::Session { .. }, ClientEvent::SessionEnded) => {
                self.state = ClientState::Binding;
                ClientAction::BindListener
            },
            _ => ClientAction::Nothing,
        }
    }
}

/// One beat of the heartbeat for `port`: the datagram, where it goes, and
/// the pause before the next beat.
pub fn heartbeat(port: u16) -> (action: ClientAction)
    ensures
        action@ == announcement(port),
{
    ClientAction::Announce {
        payload: encode_heartbeat(port),
        to: multicast_socket(),
        pause: Delay::from_secs(HEARTBEAT_INTERVAL_SECS),
    }
}

/// What to do with what one read of the session's stream gave.
#[derive(Debug, PartialEq, Eq)]
pub enum SessionStep {
    /// Print `text`, and read again.
    Print { text: String },
    /// Read again.
    Skip,
    /// The peer closed the stream: the session is over.
    End,
}

/// A [`SessionStep`] as a value of the specification.
pub enum SessionStepView {
    Print { text: Seq<char> },
    Skip,
    End,
}

impl View for SessionStep {
    type V = SessionStepView;

    open spec fn view(&self) -> SessionStepView {
        match *self {
            SessionStep::Print { text } => SessionStepView::Print { text: text@ },
            SessionStep::Skip => SessionStepView::Skip,
            SessionStep::End => SessionStepView::End,
        }
    }
}

/// The client's part of a session, for one read: a read of no bytes ends
/// the session; bytes that are text in UTF-8 are printed as that text; other
/// bytes, and a read that failed, are passed over.
pub open spec fn reading(read: Result<Seq<u8>, ()>) -> SessionStepView {
    match read {
        Ok(bytes) => if bytes.len() == 0 {
            SessionStepView::End
        } else if valid_utf8(bytes) {
            SessionStepView::Print { text: decode_utf8(bytes) }
        } else {
            SessionStepView::Skip
        },
        Err(_) => SessionStepView::Skip,
    }
}

/// What a read gave, as a value of the specification.
pub open spec fn read_view(read: Result<Vec<u8>, ()>) -> Result<Seq<u8>, ()> {
    match read {
        Ok(bytes) => Ok(bytes@),
        Err(_) => Err(()),
    }
}

/// `String::from_utf8` of the standard library: the text that `bytes` hold
/// in UTF-8, or nothing where they are not well-formed UTF-8.
#[verifier::external_body]
fn text_of(bytes: Vec<u8>) -> (text: Option<String>)
    ensures
        text is Some <==> valid_utf8(bytes@),
        text matches Some(t) ==> t@ == decode_utf8(bytes@),
{
    match String::from_utf8(bytes) {
        Ok(text) => Some(text),
        Err(_) => None,
    }
}

/// Decides what follows one read of the session's stream, where `read`
/// holds the bytes that the read gave, or its failure.
pub fn communicate(read: Result<Vec<u8>, ()>) -> (step: SessionStep)
    ensures
        step@ == reading(read_view(read)),
{
    match read {
        Ok(bytes) => {
            if bytes.len() == 0 {
                SessionStep::End
            } else {
                match text_of(bytes) {
                    Some(text) => SessionStep::Print { text },
                    None => SessionStep::Skip,
                }
            }
        },
        Err(_) => SessionStep::Skip,
    }
}

/// The policy of a client never changes.
pub proof fn lemma_policy_is_kept(client: Client, events: Seq<ClientEvent>)
    ensures
        client.run(events).0.policy == client.policy,
        client.run(events).1.len() == events.len(),
    decreases events.len(),
{
    if events.len() != 0 {
        lemma_policy_is_kept(client, events.drop_last());
    }
}

/// A heartbeat goes out only while the client advertises: as the first one,
/// when the UDP socket is bound, and then whenever one is due.
pub proof fn lemma_heartbeat_only_while_advertising(client: Client, event: ClientEvent)
    requires
        client.next(event).1.sends_heartbeat(),
    ensures
        client.next(event).0.state is Advertising,
        client.state is Advertising || client.state is Opening,
        client.state matches ClientState::Advertising { port } ==> event is HeartbeatDue
            && client.next(event) == (client, announcement(port)),
        client.state matches ClientState::Opening { port } ==> client.next(event).1 == discovery(
            port,
        ),
{
}

/// A client to which no connection comes in goes on with its heartbeat
/// without end: as long as only heartbeats fall due and accepts fail in
/// passing, it stays where it is, answers every due heartbeat with the
/// heartbeat for its port, to the rendezvous endpoint, with a pause of five
/// seconds after it, and answers every failed accept with the next accept at
/// once.
pub proof fn lemma_heartbeat_goes_on(client: Client, port: u16, events: Seq<ClientEvent>)
    requires
        client.state == (ClientState::Advertising { port }),
        forall|i: int|
            0 <= i < events.len() ==> events[i] is HeartbeatDue || (#[trigger] events[i]
                matches ClientEvent::Accepted(outcome) && outcome is Err),
    ensures
        client.run(events).0 == client,
        client.run(events).1.len() == events.len(),
        forall|i: int|
            0 <= i < events.len() ==> #[trigger] client.run(events).1[i] == (
            if events[i] is HeartbeatDue {
                announcement(port)
            } else {
                ClientActionView::Accept { after: Delay::zero() }
            }),
    decreases events.len(),
{
    if events.len() != 0 {
        let earlier = events.drop_last();
        assert forall|i: int| 0 <= i < earlier.len() implies earlier[i] is HeartbeatDue || (
        #[trigger] earlier[i] matches ClientEvent::Accepted(outcome) && outcome is Err) by {
            assert(earlier[i] == events[i]);
        }
        lemma_heartbeat_goes_on(client, port, earlier);
        assert(events.last() == events[events.len() - 1]);
    }
}

/// In a session no heartbeat goes out: until the session ends the client
/// stays in it and passes over every event, a due heartbeat included.
pub proof fn lemma_session_is_silent(client: Client, peer: Endpoint, events: Seq<ClientEvent>)
    requires
        client.state == (ClientState::Session { peer }),
        forall|i: int| 0 <= i < events.len() ==> !(#[trigger] events[i] is SessionEnded),
    ensures
        client.run(events).0 == client,
        client.run(events).1.len() == events.len(),
        forall|i: int|
            0 <= i < events.len() ==> #[trigger] client.run(events).1[i]
                == ClientActionView::Nothing,
    decreases events.len(),
{
    if events.len() != 0 {
        let earlier = events.drop_last();
        assert forall|i: int| 0 <= i < earlier.len() implies !(#[trigger] earlier[i]
            is SessionEnded) by {
            assert(earlier[i] == events[i]);
        }
        lemma_session_is_silent(client, peer, earlier);
        assert(events.last() == events[events.len() - 1]);
    }
}

/// Once a connection is accepted no further heartbeat goes out: the accept
/// is answered by the migration to the session, and whatever follows before
/// the session ends, a due heartbeat included, is answered by nothing.
pub proof fn lemma_accept_ends_heartbeat(
    client: Client,
    port: u16,
    peer: Endpoint,
    later: Seq<ClientEvent>,
)
    requires
        client.state == (ClientState::Advertising { port }),
        forall|i: int| 0 <= i < later.len() ==> !(#[trigger] later[i] is SessionEnded),
    ensures
        client.next(ClientEvent::Accepted(Ok(peer))) == (
            client.at(ClientState::Session { peer }),
            ClientActionView::Migrate { peer },
        ),
        client.at(ClientState::Session { peer }).run(later).0 == client.at(
            ClientState::Session { peer },
        ),
        forall|i: int|
            0 <= i < later.len() ==> !(#[trigger] client.at(ClientState::Session { peer }).run(
                later,
            ).1[i]).sends_heartbeat(),
{
    lemma_session_is_silent(client.at(ClientState::Session { peer }), peer, later);
}

/// Events that come in one after another may be taken in two parts: the
/// second part starts from the client that the first part reached, and the
/// actions of both follow one another.
pub proof fn lemma_run_in_two_parts(
    client: Client,
    first: Seq<ClientEvent>,
    second: Seq<ClientEvent>,
)
    ensures
        client.run(first + second).0 == client.run(first).0.run(second).0,
        client.run(first + second).1 == client.run(first).1 + client.run(first).0.run(second).1,
    decreases second.len(),
{
    let middle = client.run(first).0;
    if second.len() == 0 {
        assert(first + second =~= first);
        assert(client.run(first).1 + middle.run(second).1 =~= client.run(first).1);
    } else {
        lemma_run_in_two_parts(client, first, second.drop_last());
        assert((first + second).drop_last() =~= first + second.drop_last());
        assert((first + second).last() == second.last());
        let (before, actions) = middle.run(second.drop_last());
        let action = before.next(second.last()).1;
        assert((client.run(first).1 + actions).push(action) =~= client.run(first).1 + actions.push(
            action,
        ));
    }
}

/// A cycle advertises the port of its own listener. A client that is
/// switched on binds the listener, then the UDP socket, and then sends the
/// heartbeat for the port that the listener was given: once at the start of
/// the advertising and once more whenever a heartbeat is due.
pub proof fn lemma_cycle_advertises_listener_port(
    policy: AcceptFailurePolicy,
    port: u16,
    beats: nat,
)
    ensures
        Client::spec_new(policy).run(
            seq![
                ClientEvent::Started,
                ClientEvent::ListenerBound(Ok(port)),
                ClientEvent::SocketBound(Ok(())),
            ] + Seq::new(beats, |i: int| ClientEvent::HeartbeatDue),
        ) == (
            Client { policy, state: ClientState::Advertising { port } },
            seq![ClientActionView::BindListener, ClientActionView::BindSocket, discovery(port)]
                + Seq::new(beats, |i: int| announcement(port)),
        ),
{
    let client = Client::spec_new(policy);
    let opening = seq![
        ClientEvent::Started,
        ClientEvent::ListenerBound(Ok(port)),
        ClientEvent::SocketBound(Ok(())),
    ];
    let due = Seq::new(beats, |i: int| ClientEvent::HeartbeatDue);
    let advertising = Client { policy, state: ClientState::Advertising { port } };

    let one = opening.drop_last();
    let none = one.drop_last();
    assert(none.drop_last() =~= Seq::<ClientEvent>::empty());
    assert(client.run(none.drop_last()) == (client, Seq::<ClientActionView>::empty()));
    assert(client.run(none) == (
        client.at(ClientState::Binding),
        Seq::<ClientActionView>::empty().push(ClientActionView::BindListener),
    ));
    assert(client.run(one).0 == client.at(ClientState::Opening { port }));
    assert(client.run(opening).0 == advertising);
    assert(client.run(opening).1 =~= seq![
        ClientActionView::BindListener,
        ClientActionView::BindSocket,
        discovery(port),
    ]);

    lemma_heartbeat_goes_on(advertising, port, due);
    assert(advertising.run(due).1 =~= Seq::new(beats, |i: int| announcement(port)));
    lemma_run_in_two_parts(client, opening, due);
}

/// A cycle has one listener. A listener is bound only where no cycle runs:
/// by a client that is idle, or at the end of a session.
pub proof fn lemma_one_listener_per_cycle(client: Client, event: ClientEvent)
    requires
        client.next(event).1 is BindListener,
    ensures
        client.state is Idle || client.state is Session,
        client.next(event).0.state is Binding,
{
}

/// A resilient client never stops: whatever happens, it is never asked to
/// end the process.
pub proof fn lemma_resilient_never_stops(client: Client, events: Seq<ClientEvent>)
    requires
        client.policy == AcceptFailurePolicy::Resilient,
        !(client.state is Stopped),
    ensures
        !(client.run(events).0.state is Stopped),
        forall|i: int|
            0 <= i < events.len() ==> !(#[trigger] client.run(events).1[i] is Terminate),
    decreases events.len(),
{
    if events.len() != 0 {
        lemma_resilient_never_stops(client, events.drop_last());
        lemma_policy_is_kept(client, events.drop_last());
    }
}

/// A cycle ends in one way only. From the advertising, an accepted
/// connection leads to the session and to nothing else, and an abandoned
/// accept leads, by the policy, to the rest before the next cycle or to the
/// end of the client.
pub proof fn lemma_cycle_ends_one_way(client: Client, port: u16, event: ClientEvent)
    requires
        client.state == (ClientState::Advertising { port }),
    ensures
        client.next(event).0.state is Session <==> (event matches ClientEvent::Accepted(outcome)
            && outcome is Ok),
        client.next(event).0.state is Idle <==> (event is AcceptAbandoned && client.policy
            == AcceptFailurePolicy::Resilient),
        client.next(event).0.state is Stopped <==> (event is AcceptAbandoned && client.policy
            == AcceptFailurePolicy::Escalate),
        !(client.next(event).0.state is Session || client.next(event).0.state is Idle
            || client.next(event).0.state is Stopped) ==> client.next(event).0 == client,
{
}

} // verus!
