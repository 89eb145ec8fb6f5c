//! The server side of the rendezvous.
//!
//! The server binds a UDP socket on the rendezvous port, joins the multicast
//! group, and then hands every datagram it receives to a handler of its own.
//! A handler connects back to the sender of a well-formed heartbeat, once,
//! and greets the peer over the stream for as long as it runs.

use crate::endpoint::{Endpoint, MULTICAST_ADDRESS, MULTICAST_PORT};
use crate::retry::{retry_step, try_until, Delay, Retry};
use crate::wire::{advertised_port, decode_heartbeat, is_heartbeat};
use vstd::prelude::*;

verus! {

/// Seconds between two attempts to bind the socket or to join the group.
pub const STARTUP_RETRY_SECS: u64 = 1;

/// Seconds between two greetings on an established stream.
pub const GREETING_INTERVAL_SECS: u64 = 10;

/// The greeting written to a connected peer: the text "Hello World!".
pub const GREETING: [u8; 12] = [
    0x48, 0x65, 0x6c, 0x6c, 0x6f, 0x20, 0x57, 0x6f, 0x72, 0x6c, 0x64, 0x21,
];

/// The outcome of the one operation that a machine of this module is
/// waiting for: it went through, or it failed.
pub type Outcome = Result<(), ()>;

/// Where the server stands.
#[derive(Clone, Copy, Debug, PartialEq, Eq)]
pub enum Server {
    /// Binding the UDP socket to the wildcard address on the rendezvous port.
    Binding,
    /// Joining the multicast group on the wildcard interface.
    Joining,
    /// Receiving datagrams.
    Listening,
}

/// The operation that the server asks for next. Each one ends in exactly one
/// outcome, which is handed to [`Server::step`].
#[derive(Clone, Copy, Debug, PartialEq, Eq)]
pub enum ServerAction {
    /// Wait `after`, then bind a UDP socket to the wildcard address on `port`.
    Bind { after: Delay, port: u16 },
    /// Wait `after`, then join the multicast group `group` on the wildcard
    /// interface.
    Join { after: Delay, group: [u8; 4] },
    /// Receive the next datagram.
    Receive,
    /// Start a handler of its own for the datagram just received, without
    /// waiting for it, and receive the next datagram.
    Dispatch,
}

impl Server {
    /// A server that has not bound its socket yet.
    pub open spec fn spec_new() -> Server {
        Server::Binding
    }

    /// The first operation of a server: bind at once.
    pub open spec fn first_action() -> ServerAction {
        ServerAction::Bind { after: Delay::zero(), port: MULTICAST_PORT }
    }

    /// The server's transition: the state and the operation that follow
    /// `outcome`, the outcome of the operation last asked for.
    ///
    /// A failed bind or join is tried again after one second, without end. A
    /// received datagram is dispatched whatever it holds and whatever came
    /// before it; a failed receive is passed over.
    pub open spec fn next(self, outcome: Outcome) -> (Server, ServerAction) {
        let pace = Delay::from_secs(STARTUP_RETRY_SECS);
        match self {
            Server::Binding => match retry_step(outcome, pace) {
                Retry::Done { .. } => (
                    Server::Joining,
                    ServerAction::Join { after: Delay::zero(), group: MULTICAST_ADDRESS },
                ),
                Retry::Again { wait, .. } => (
                    Server::Binding,
                    ServerAction::Bind { after: wait, port: MULTICAST_PORT },
                ),
            },
            Server::Joining => match retry_step(outcome, pace) {
                Retry::Done { .. } => (Server::Listening, ServerAction::Receive),
                Retry::Again { wait, .. } => (
                    Server::Joining,
                    ServerAction::Join { after: wait, group: MULTICAST_ADDRESS },
                ),
            },
            Server::Listening => match outcome {
                Ok(_) => (Server::Listening, ServerAction::Dispatch),
                Err(_) => (Server::Listening, ServerAction::Receive),
            },
        }
    }

    /// The state reached and the operations asked for while `outcomes` come
    /// in one after another.
    pub open spec fn run(self, outcomes: Seq<Outcome>) -> (Server, Seq<ServerAction>)
        decreases outcomes.len(),
    {
        if outcomes.len() == 0 {
            (self, Seq::empty())
        } else {
            let (before, actions) = self.run(outcomes.drop_last());
            let (after, action) = before.next(outcomes.last());
            (after, actions.push(action))
        }
    }

    /// Starts a server: its state and its first operation.
    pub fn new() -> (start: (Server, ServerAction))
        ensures
            start.0 == Server::spec_new(),
            start.1 == Server::first_action(),
    {
        (Server::Binding, ServerAction::Bind { after: Delay::zero(), port: MULTICAST_PORT })
    }

    /// Takes the outcome of the operation last asked for, moves to the next
    /// state and answers with the next operation.
    pub fn step(&mut self, outcome: Outcome) -> (action: ServerAction)
        ensures
            (*final(self), action) == old(self).next(outcome),
    {
        let pace = Delay::from_secs(STARTUP_RETRY_SECS);
        match *self {
            Server::Binding => match try_until(outcome, pace) {
                Retry::Done { .. } => {
                    *self = Server::Joining;
                    ServerAction::Join { after: Delay::zero(), group: MULTICAST_ADDRESS }
                },
                Retry::Again { wait, .. } => ServerAction::Bind {
                    after: wait,
                    port: MULTICAST_PORT,
                },
            },
            Server::Joining => match try_until(outcome, pace) {
                Retry::Done { .. } => {
                    *self = Server::Listening;
                    ServerAction::Receive
                },
                Retry::Again { wait, .. } => ServerAction::Join {
                    after: wait,
                    group: MULTICAST_ADDRESS,
                },
            },
            Server::Listening => match outcome {
                Ok(_) => ServerAction::Dispatch,
                Err(_) => ServerAction::Receive,
            },
        }
    }
}

/// Where the handler of one datagram stands.
#[derive(Clone, Copy, Debug, PartialEq, Eq)]
pub enum Handler {
    /// Connecting to the advertiser.
    Connecting { target: Endpoint },
    /// Greeting the peer over the established stream.
    Serving { target: Endpoint },
    /// Nothing is left to do.
    Finished,
}

/// The operation that a handler asks for next. Each one but `Done` ends in
/// exactly one outcome, which is handed to [`Handler::step`].
#[derive(Clone, Copy, Debug, PartialEq, Eq)]
pub enum HandlerAction {
    /// Open a TCP connection to `target`.
    Connect { target: Endpoint },
    /// Write `greeting` to the stream to `target`, then wait `pause`. The
    /// outcome is that of the write.
    Greet { target: Endpoint, greeting: [u8; 12], pause: Delay },
    /// The connection to `target` could not be opened: report it and end.
    GiveUp { target: Endpoint },
    /// End without a word.
    Done,
}

/// The address that a handler connects to: the sender's address, with the
/// port that the heartbeat advertises in place of the sender's own.
pub open spec fn target_of(src: Endpoint, msg: Seq<u8>) -> Endpoint
    recommends
        is_heartbeat(msg),
{
    src.with_port(advertised_port(msg))
}

/// The state and the first operation of the handler of the datagram `msg`
/// that came from `src`: a connect for a well-formed heartbeat, and the end
/// for anything else.
pub open spec fn handler_for(src: Endpoint, msg: Seq<u8>) -> (Handler, HandlerAction) {
    if is_heartbeat(msg) {
        let target = target_of(src, msg);
        (Handler::Connecting { target }, HandlerAction::Connect { target })
    } else {
        (Handler::Finished, HandlerAction::Done)
    }
}

/// One round of the server's part of a session with `target`.
pub open spec fn greeting_round(target: Endpoint) -> HandlerAction {
    HandlerAction::Greet {
        target,
        greeting: GREETING,
        pause: Delay::from_secs(GREETING_INTERVAL_SECS),
    }
}

/// Starts the handler of one datagram: validates the tag and the length,
/// reads the advertised port and names the address to connect to. A
/// malformed datagram ends the handler at once, with no connect.
pub fn handle(src: Endpoint, msg: &[u8]) -> (start: (Handler, HandlerAction))
    ensures
        start == handler_for(src, msg@),
{
    match decode_heartbeat(msg) {
        Some(port) => {
            let target = src.with_port(port);
            (Handler::Connecting { target }, HandlerAction::Connect { target })
        },
        None => (Handler::Finished, HandlerAction::Done),
    }
}

/// The server's part of a session: greet the peer, pause, and so on. What
/// became of the last write plays no part in it.
pub fn communicate(target: Endpoint) -> (action: HandlerAction)
    ensures
        action == greeting_round(target),
{
    HandlerAction::Greet {
        target,
        greeting: GREETING,
        pause: Delay::from_secs(GREETING_INTERVAL_SECS),
    }
}

impl Handler {
    /// The handler's transition: the state and the operation that follow
    /// `outcome`, the outcome of the operation last asked for.
    ///
    /// A connect that went through starts the session; one that failed ends
    /// the handler, and is not tried again. Within the session greeting
    /// follows greeting, whether the last write failed or not.
    pub open spec fn next(self, outcome: Outcome) -> (Handler, HandlerAction) {
        match self {
            Handler::Connecting { target } => match outcome {
                Ok(_) => (Handler::Serving { target }, greeting_round(target)),
                Err(_) => (Handler::Finished, HandlerAction::GiveUp { target }),
            },
            Handler::Serving { target } => (Handler::Serving { target }, greeting_round(target)),
            Handler::Finished => (Handler::Finished, HandlerAction::Done),
        }
    }

    /// The state reached and the operations asked for while `outcomes` come
    /// in one after another.
    pub open spec fn run(self, outcomes: Seq<Outcome>) -> (Handler, Seq<HandlerAction>)
        decreases outcomes.len(),
    {
        if outcomes.len() == 0 {
            (self, Seq::empty())
        } else {
            let (before, actions) = self.run(outcomes.drop_last());
            let (after, action) = before.next(outcomes.last());
            (after, actions.push(action))
        }
    }

    /// Takes the outcome of the operation last asked for, moves to the next
    /// state and answers with the next operation.
    pub fn step(&mut self, outcome: Outcome) -> (action: HandlerAction)
        ensures
            (*final(self), action) == old(self).next(outcome),
    {
        match *self {
            Handler::Connecting { target } => match outcome {
                Ok(_) => {
                    *self = Handler::Serving { target };
                    communicate(target)
                },
                Err(_) => {
                    *self = Handler::Finished;
                    HandlerAction::GiveUp { target }
                },
            },
            Handler::Serving { target } => communicate(target),
            Handler::Finished => HandlerAction::Done,
        }
    }
}

/// All the operations of the handler of the datagram `msg` from `src`, from
/// its first one on, while `outcomes` come in.
pub open spec fn handler_trace(
    src: Endpoint,
    msg: Seq<u8>,
    outcomes: Seq<Outcome>,
) -> Seq<HandlerAction> {
    let (handler, first) = handler_for(src, msg);
    seq![first] + handler.run(outcomes).1
}

/// The addresses of the connects among `actions`, in their order.
pub open spec fn connects(actions: Seq<HandlerAction>) -> Seq<Endpoint>
    decreases actions.len(),
{
    if actions.len() == 0 {
        Seq::empty()
    } else {
        let earlier = connects(actions.drop_last());
        match actions.last() {
            HandlerAction::Connect { target } => earlier.push(target),
            _ => earlier,
        }
    }
}

/// The addresses that the handlers of `datagrams` connect to, in the order
/// in which the datagrams were received. A datagram is a sender and a
/// payload.
pub open spec fn connect_attempts(datagrams: Seq<(Endpoint, Seq<u8>)>) -> Seq<Endpoint>
    decreases datagrams.len(),
{
    if datagrams.len() == 0 {
        Seq::empty()
    } else {
        let (src, msg) = datagrams.last();
        connect_attempts(datagrams.drop_last()) + connects(seq![handler_for(src, msg).1])
    }
}

proof fn lemma_connects_of_one(action: HandlerAction)
    ensures
        connects(seq![action]) == match action {
            HandlerAction::Connect { target } => seq![target],
            _ => Seq::<Endpoint>::empty(),
        },
{
    let one = seq![action];
    assert(one.drop_last() =~= Seq::<HandlerAction>::empty());
    assert(connects(one.drop_last()) =~= Seq::<Endpoint>::empty());
    assert(one.last() == action);
    match action {
        HandlerAction::Connect { target } => {
            assert(Seq::<Endpoint>::empty().push(target) =~= seq![target]);
        },
        _ => {},
    }
}

proof fn lemma_connects_of_concat(first: Seq<HandlerAction>, second: Seq<HandlerAction>)
    ensures
        connects(first + second) == connects(first) + connects(second),
    decreases second.len(),
{
    if second.len() == 0 {
        assert(first + second =~= first);
        assert(connects(first) + connects(second) =~= connects(first));
    } else {
        lemma_connects_of_concat(first, second.drop_last());
        assert((first + second).drop_last() =~= first + second.drop_last());
        assert((first + second).last() == second.last());
        match second.last() {
            HandlerAction::Connect { target } => {
                assert((connects(first) + connects(second.drop_last())).push(target) =~= connects(
                    first,
                ) + connects(second.drop_last()).push(target));
            },
            _ => {},
        }
    }
}

/// Once started, a handler never asks for a connect: whatever the outcomes,
/// the one connect of a handler is its first operation.
pub proof fn lemma_steps_never_connect(handler: Handler, outcomes: Seq<Outcome>)
    ensures
        connects(handler.run(outcomes).1) == Seq::<Endpoint>::empty(),
    decreases outcomes.len(),
{
    if outcomes.len() != 0 {
        lemma_steps_never_connect(handler, outcomes.drop_last());
        let (before, actions) = handler.run(outcomes.drop_last());
        let (after, action) = before.next(outcomes.last());
        assert(handler.run(outcomes).1 == actions.push(action));
        assert(actions.push(action).drop_last() =~= actions);
        assert(actions.push(action).last() == action);
    }
}

/// A datagram of another length than 34, or of another tag, never leads to
/// a connect, whatever happens afterwards.
pub proof fn lemma_malformed_never_connects(src: Endpoint, msg: Seq<u8>, outcomes: Seq<Outcome>)
    requires
        !is_heartbeat(msg),
    ensures
        connects(handler_trace(src, msg, outcomes)) == Seq::<Endpoint>::empty(),
{
    let (handler, first) = handler_for(src, msg);
    lemma_connects_of_one(first);
    lemma_steps_never_connect(handler, outcomes);
    lemma_connects_of_concat(seq![first], handler.run(outcomes).1);
}

/// A well-formed heartbeat leads to exactly one connect, to the sender's
/// address and the advertised port, whatever happens afterwards: a failed
/// connect is not tried again.
pub proof fn lemma_heartbeat_connects_once(src: Endpoint, msg: Seq<u8>, outcomes: Seq<Outcome>)
    requires
        is_heartbeat(msg),
    ensures
        connects(handler_trace(src, msg, outcomes)) == seq![target_of(src, msg)],
        handler_trace(src, msg, outcomes)[0] == (HandlerAction::Connect {
            target: target_of(src, msg),
        }),
{
    let (handler, first) = handler_for(src, msg);
    lemma_connects_of_one(first);
    lemma_steps_never_connect(handler, outcomes);
    lemma_connects_of_concat(seq![first], handler.run(outcomes).1);
}

/// A listening server stays listening and dispatches every datagram that it
/// receives, whatever it received before.
pub proof fn lemma_every_datagram_is_dispatched(outcomes: Seq<Outcome>)
    ensures
        Server::Listening.run(outcomes).0 == Server::Listening,
        Server::Listening.run(outcomes).1.len() == outcomes.len(),
        forall|i: int|
            0 <= i < outcomes.len() ==> #[trigger] Server::Listening.run(outcomes).1[i] == (
            if outcomes[i] is Ok {
                ServerAction::Dispatch
            } else {
                ServerAction::Receive
            }),
    decreases outcomes.len(),
{
    if outcomes.len() != 0 {
        lemma_every_datagram_is_dispatched(outcomes.drop_last());
    }
}

/// The server does not deduplicate: a well-formed heartbeat adds one connect
/// to the sender's address and the advertised port, whatever was received
/// before it, the same heartbeat included; a malformed datagram adds none.
pub proof fn lemma_no_deduplication(
    history: Seq<(Endpoint, Seq<u8>)>,
    src: Endpoint,
    msg: Seq<u8>,
)
    ensures
        is_heartbeat(msg) ==> connect_attempts(history.push((src, msg))) == connect_attempts(
            history,
        ).push(target_of(src, msg)),
        !is_heartbeat(msg) ==> connect_attempts(history.push((src, msg))) == connect_attempts(
            history,
        ),
{
    let all = history.push((src, msg));
    assert(all.drop_last() =~= history);
    assert(all.last() == (src, msg));
    lemma_connects_of_one(handler_for(src, msg).1);
    if is_heartbeat(msg) {
        assert(connect_attempts(history) + seq![target_of(src, msg)] =~= connect_attempts(
            history,
        ).push(target_of(src, msg)));
    } else {
        assert(connect_attempts(history) + Seq::<Endpoint>::empty() =~= connect_attempts(history));
    }
}

/// The same heartbeat received `times` times leads to `times` connects.
pub proof fn lemma_repeated_heartbeats(src: Endpoint, msg: Seq<u8>, times: nat)
    requires
        is_heartbeat(msg),
    ensures
        connect_attempts(Seq::new(times, |i: int| (src, msg))) == Seq::new(
            times,
            |i: int| target_of(src, msg),
        ),
    decreases times,
{
    let all = Seq::new(times, |i: int| (src, msg));
    if times != 0 {
        let fewer = Seq::new((times - 1) as nat, |i: int| (src, msg));
        lemma_repeated_heartbeats(src, msg, (times - 1) as nat);
        assert(all =~= fewer.push((src, msg)));
        lemma_no_deduplication(fewer, src, msg);
        assert(Seq::new((times - 1) as nat, |i: int| target_of(src, msg)).push(target_of(src, msg))
            =~= Seq::new(times, |i: int| target_of(src, msg)));
    } else {
        assert(connect_attempts(all) =~= Seq::new(times, |i: int| target_of(src, msg)));
    }
}

/// While binding fails the server stays where it is and binds again after
/// one second, without end; the first bind that goes through is followed at
/// once by the join.
pub proof fn lemma_bind_is_retried(failures: nat)
    ensures
        Server::Binding.run(Seq::new(failures, |i: int| Err::<(), ()>(()))).0 == Server::Binding,
        Server::Binding.run(Seq::new(failures, |i: int| Err::<(), ()>(()))).1 == Seq::new(
            failures,
            |i: int|
                ServerAction::Bind {
                    after: Delay::from_secs(STARTUP_RETRY_SECS),
                    port: MULTICAST_PORT,
                },
        ),
        Server::Binding.next(Ok(())) == (
            Server::Joining,
            ServerAction::Join { after: Delay::zero(), group: MULTICAST_ADDRESS },
        ),
    decreases failures,
{
    let all = Seq::new(failures, |i: int| Err::<(), ()>(()));
    if failures != 0 {
        lemma_bind_is_retried((failures - 1) as nat);
        assert(all.drop_last() =~= Seq::new((failures - 1) as nat, |i: int| Err::<(), ()>(())));
    }
    assert(Server::Binding.run(all).1 =~= Seq::new(
        failures,
        |i: int|
            ServerAction::Bind {
                after: Delay::from_secs(STARTUP_RETRY_SECS),
                port: MULTICAST_PORT,
            },
    ));
}


/// While joining fails the server stays where it is and joins again after
/// one second, without end; the first join that goes through is followed at
/// once by the first receive.
pub proof fn lemma_join_is_retried(failures: nat)
    ensures
        Server::Joining.run(Seq::new(failures, |i: int| Err::<(), ()>(()))).0 == Server::Joining,
        Server::Joining.run(Seq::new(failures, |i: int| Err::<(), ()>(()))).1 == Seq::new(
            failures,
            |i: int|
                ServerAction::Join {
                    after: Delay::from_secs(STARTUP_RETRY_SECS),
                    group: MULTICAST_ADDRESS,
                },
        ),
        Server::Joining.next(Ok(())) == (Server::Listening, ServerAction::Receive),
    decreases failures,
{
    let all = Seq::new(failures, |i: int| Err::<(), ()>(()));
    if failures != 0 {
        lemma_join_is_retried((failures - 1) as nat);
        assert(all.drop_last() =~= Seq::new((failures - 1) as nat, |i: int| Err::<(), ()>(())));
    }
    assert(Server::Joining.run(all).1 =~= Seq::new(
        failures,
        |i: int|
            ServerAction::Join {
                after: Delay::from_secs(STARTUP_RETRY_SECS),
                group: MULTICAST_ADDRESS,
            },
    ));
}

} // verus!
