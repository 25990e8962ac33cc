//! What holds of sessions over whole runs of the broker, whatever the order
//! in which connections take their steps.
//!
//! The broker sits behind one lock, so every run is a sequence of steps,
//! each of them one of the three ways in which the library changes a broker:
//! a step of some control connection, the arrival of a connection on some
//! forwarding port, or the release of a tunnel.

use vstd::prelude::*;

use crate::conf::Conf;
use crate::control::{
    control_next, refusal_frame, registration_next, success_frame, ActionView, BrokerView,
    ControlState, EventView,
};
use crate::error::{ClaimError, CloseCause};
use crate::forward::{
    admission, broker_after_arrival, broker_after_relay, claim_verdict, token_verdict, ArrivalView,
};
use crate::registry::{RegistryView, SessionView};
use crate::relay::RelayOutcome;
use crate::wire::register_outcome;

verus! {

/// One change to the broker.
pub enum BrokerStep {
    /// A control connection in `state` sees `event` at time `now`; `token`
    /// is the token it would issue, `timeout` the silence it puts up with.
    Control { state: ControlState, event: EventView, token: u128, now: u128, timeout: u128 },
    /// A connection arrives on forwarding port `port`.
    Arrival { port: u16, arrival: ArrivalView },
    /// The tunnel of `token` has gone.
    Release { token: u128, outcome: RelayOutcome },
}

/// The broker after one step.
pub open spec fn broker_step(conf: Conf, broker: BrokerView, step: BrokerStep) -> BrokerView {
    match step {
        BrokerStep::Control { state, event, token, now, timeout } => control_next(
            state,
            event,
            conf,
            broker,
            token,
            now,
            timeout,
        ).broker,
        BrokerStep::Arrival { port, arrival } => broker_after_arrival(broker, port, arrival),
        BrokerStep::Release { token, outcome } => broker_after_relay(broker, token, outcome),
    }
}

/// The broker after a run of steps, taken in order.
pub open spec fn broker_run(conf: Conf, broker: BrokerView, steps: Seq<BrokerStep>) -> BrokerView
    decreases steps.len(),
{
    if steps.len() == 0 {
        broker
    } else {
        broker_run(conf, broker_step(conf, broker, steps[0]), steps.drop_first())
    }
}

impl RegistryView {
    /// The token was issued once and its session is gone.
    pub open spec fn retired(self, token: u128) -> bool {
        self.was_issued(token) && !self.is_live(token)
    }
}

/// No step breaks the registry's invariant, drops a token from the record
/// of issued tokens, or brings a retired token back to life.
pub proof fn lemma_step_keeps_registry_sound(conf: Conf, broker: BrokerView, step: BrokerStep)
    ensures
        broker.registry.wf() ==> broker_step(conf, broker, step).registry.wf(),
        forall|t: u128| #[trigger]
            broker.registry.was_issued(t) ==> broker_step(conf, broker, step).registry.was_issued(t),
        forall|t: u128| #[trigger]
            broker.registry.retired(t) ==> broker_step(conf, broker, step).registry.retired(t),
{
}

/// No step rewrites a session: for as long as a session is live, its name,
/// its time of registration and its forwarding port stay what they were,
/// and its last heartbeat never moves back.
pub proof fn lemma_step_keeps_sessions_steady(conf: Conf, broker: BrokerView, step: BrokerStep, t: u128)
    requires
        broker.registry.wf(),
        broker.registry.is_live(t),
        broker_step(conf, broker, step).registry.is_live(t),
    ensures
        ({
            let before = broker.registry.live[t];
            let after = broker_step(conf, broker, step).registry.live[t];
            &&& after.token == t
            &&& after.name == before.name
            &&& after.register_time == before.register_time
            &&& after.forwarding_port == before.forwarding_port
            &&& after.last_heart_beat >= before.last_heart_beat
        }),
{
}

/// No run breaks the registry's invariant or brings a retired token back to life.
pub proof fn lemma_run_keeps_registry_sound(conf: Conf, broker: BrokerView, steps: Seq<BrokerStep>)
    ensures
        broker.registry.wf() ==> broker_run(conf, broker, steps).registry.wf(),
        forall|t: u128| #[trigger]
            broker.registry.was_issued(t) ==> broker_run(conf, broker, steps).registry.was_issued(t),
        forall|t: u128| #[trigger]
            broker.registry.retired(t) ==> broker_run(conf, broker, steps).registry.retired(t),
    decreases steps.len(),
{
    if steps.len() > 0 {
        let next = broker_step(conf, broker, steps[0]);
        lemma_step_keeps_registry_sound(conf, broker, steps[0]);
        lemma_run_keeps_registry_sound(conf, next, steps.drop_first());
    }
}

/// A connection never leaves a session behind: once it is closed, the
/// session whose token it held is gone from the registry, and a connection
/// that is closed on its first message has changed nothing at all.
pub proof fn lemma_closed_connection_leaves_no_session(
    state: ControlState,
    event: EventView,
    conf: Conf,
    broker: BrokerView,
    token: u128,
    now: u128,
    timeout: u128,
)
    requires
        control_next(state, event, conf, broker, token, now, timeout).state == ControlState::Closed,
    ensures
        ({
            let next = control_next(state, event, conf, broker, token, now, timeout);
            &&& next.broker.listeners == broker.listeners
            &&& match state {
                ControlState::AwaitingBind { token: held, port } => !next.broker.registry.is_live(held),
                ControlState::Registered { token: held } => !next.broker.registry.is_live(held),
                _ => next.broker == broker,
            }
        }),
{
}

/// A registration with credentials that the configuration holds, and with a
/// token that was never issued, opens a session under that token and leads
/// to the answer that carries it: at once where the forwarding listener is
/// bound already, else as soon as the caller reports it bound.
pub proof fn lemma_admitted_registration_succeeds(
    conf: Conf,
    broker: BrokerView,
    bytes: Seq<u8>,
    token: u128,
    now: u128,
)
    requires
        register_outcome(bytes) is Ok,
        conf.authorizes(register_outcome(bytes)->Ok_0.name, register_outcome(bytes)->Ok_0.secret),
        !broker.registry.was_issued(token),
    ensures
        ({
            let message = register_outcome(bytes)->Ok_0;
            let port = conf.client@[conf.first_match(message.name, message.secret)->0].port;
            let first = registration_next(conf, broker, bytes, token, now);
            let second = control_next(
                first.state,
                EventView::BindSucceeded,
                conf,
                first.broker,
                0,
                now,
                0,
            );
            &&& first.broker.registry == broker.registry.insert(
                SessionView::fresh(token, message.name, port, now),
            )
            &&& first.broker.registry.lookup(token) == Some(
                SessionView::fresh(token, message.name, port, now),
            )
            &&& first.broker.listeners == broker.listeners
            &&& if broker.listeners.contains(port) {
                &&& first.state == ControlState::Registered { token }
                &&& first.action == ActionView::Send(success_frame(token))
            } else {
                &&& first.state == (ControlState::AwaitingBind { token, port })
                &&& first.action == ActionView::Bind { port }
                &&& second.state == ControlState::Registered { token }
                &&& second.action == ActionView::Send(success_frame(token))
                &&& second.broker.registry == first.broker.registry
                &&& second.broker.listeners == broker.listeners.insert(port)
            }
        }),
{
    let message = register_outcome(bytes)->Ok_0;
    conf.lemma_first_match(message.name, message.secret);
}

/// A registration never hands out a token twice: whenever a step opens a
/// session, its token had not been issued before.
pub proof fn lemma_issued_token_is_new(
    conf: Conf,
    broker: BrokerView,
    bytes: Seq<u8>,
    token: u128,
    now: u128,
)
    ensures
        ({
            let next = registration_next(conf, broker, bytes, token, now);
            next.state != ControlState::Closed ==> {
                &&& !broker.registry.was_issued(token)
                &&& next.broker.registry.was_issued(token)
                &&& next.broker.registry.is_live(token)
                &&& next.state == ControlState::Registered { token } || exists|port: u16|
                    next.state == (ControlState::AwaitingBind { token, port })
            }
        }),
{
    let next = registration_next(conf, broker, bytes, token, now);
    if next.state != ControlState::Closed {
        let message = register_outcome(bytes)->Ok_0;
        let port = conf.client@[conf.first_match(message.name, message.secret)->0].port;
        if !broker.listeners.contains(port) {
            assert(next.state == (ControlState::AwaitingBind { token, port }));
        }
    }
}

/// A registration with credentials that the configuration does not hold is
/// refused with the same answer whatever was wrong with them, and changes
/// neither the registry nor the listeners.
pub proof fn lemma_refused_registration_changes_nothing(
    conf: Conf,
    broker: BrokerView,
    bytes: Seq<u8>,
    token: u128,
    now: u128,
)
    requires
        register_outcome(bytes) is Ok,
        !conf.authorizes(register_outcome(bytes)->Ok_0.name, register_outcome(bytes)->Ok_0.secret),
    ensures
        registration_next(conf, broker, bytes, token, now).state == ControlState::Closed,
        registration_next(conf, broker, bytes, token, now).action == (ActionView::SendAndClose {
            bytes: refusal_frame(),
            cause: CloseCause::Auth,
        }),
        registration_next(conf, broker, bytes, token, now).broker == broker,
{
    let message = register_outcome(bytes)->Ok_0;
    conf.lemma_first_match(message.name, message.secret);
}

/// Once the control connection of a session is lost, or the session has
/// been silent for too long, the session is removed, and from then on a
/// claim that presents its token is rejected as unknown, on every port and
/// after any run of further steps: whatever bytes arrive, no connection is
/// admitted as a tunnel of it.
pub proof fn lemma_removed_token_stays_rejected(
    conf: Conf,
    broker: BrokerView,
    token: u128,
    event: EventView,
    now: u128,
    timeout: u128,
    steps: Seq<BrokerStep>,
    port: u16,
    bytes: Seq<u8>,
)
    requires
        broker.registry.wf(),
        broker.registry.is_live(token),
        event is Disconnected || (event is TimedOut && broker.registry.live[token].expired_at(
            now,
            timeout,
        )),
    ensures
        ({
            let closed = control_next(
                ControlState::Registered { token },
                event,
                conf,
                broker,
                0,
                now,
                timeout,
            );
            let later = broker_run(conf, closed.broker, steps);
            &&& closed.state == ControlState::Closed
            &&& closed.broker.registry == broker.registry.remove(token)
            &&& token_verdict(later.registry, port, Some(token)) == Err::<u128, ClaimError>(
                ClaimError::UnknownToken,
            )
            &&& claim_verdict(later.registry, port, bytes) != Ok::<u128, ClaimError>(token)
            &&& admission(later.registry, port, ArrivalView::Claim(bytes)) is Tunnel ==> admission(
                later.registry,
                port,
                ArrivalView::Claim(bytes),
            )->Tunnel_token != token
        }),
{
    let closed = control_next(
        ControlState::Registered { token },
        event,
        conf,
        broker,
        0,
        now,
        timeout,
    );
    assert(closed.broker.registry.retired(token));
    lemma_run_keeps_registry_sound(conf, closed.broker, steps);
}

/// A claim that presents the token of a live session on a port other than
/// the one the session is bound to is rejected for that reason: whatever
/// bytes arrive there, no connection is admitted as a tunnel of that token.
pub proof fn lemma_cross_port_claim_is_rejected(broker: BrokerView, token: u128, port: u16, bytes: Seq<u8>)
    requires
        broker.registry.is_live(token),
        broker.registry.live[token].forwarding_port != port,
    ensures
        token_verdict(broker.registry, port, Some(token)) == Err::<u128, ClaimError>(
            ClaimError::WrongPort,
        ),
        claim_verdict(broker.registry, port, bytes) != Ok::<u128, ClaimError>(token),
        claim_verdict(broker.registry, port, bytes) is Err ==> broker_after_arrival(
            broker,
            port,
            ArrivalView::Claim(bytes),
        ) == broker,
{
}

/// A claim that presents the token of a live session on the port the
/// session is bound to is accepted.
pub proof fn lemma_claim_on_own_port_is_accepted(registry: RegistryView, token: u128)
    requires
        registry.is_live(token),
    ensures
        token_verdict(registry, registry.live[token].forwarding_port, Some(token)) == Ok::<
            u128,
            ClaimError,
        >(token),
{
}

/// One registration request, with the token drawn for it.
pub struct Request {
    pub bytes: Seq<u8>,
    pub token: u128,
    pub now: u128,
}

/// The broker after the registrations in `requests`, taken in order, each
/// on a fresh control connection.
pub open spec fn register_all(conf: Conf, broker: BrokerView, requests: Seq<Request>) -> BrokerView
    decreases requests.len(),
{
    if requests.len() == 0 {
        broker
    } else {
        let last = requests.last();
        registration_next(
            conf,
            register_all(conf, broker, requests.drop_last()),
            last.bytes,
            last.token,
            last.now,
        ).broker
    }
}

/// The session that an admitted request opens.
pub open spec fn session_of(conf: Conf, request: Request) -> SessionView {
    let message = register_outcome(request.bytes)->Ok_0;
    let port = conf.client@[conf.first_match(message.name, message.secret)->0].port;
    SessionView::fresh(request.token, message.name, port, request.now)
}

/// Whether the request carries credentials that the configuration holds.
pub open spec fn admissible(conf: Conf, request: Request) -> bool {
    &&& register_outcome(request.bytes) is Ok
    &&& conf.authorizes(
        register_outcome(request.bytes)->Ok_0.name,
        register_outcome(request.bytes)->Ok_0.secret,
    )
}

/// However many admissible registrations are taken, in whatever order, each
/// with a token of its own that was never issued, each of them ends up with
/// a live session of its own, and no session that was live before is lost
/// or altered: the number of live sessions grows by the number of requests.
pub proof fn lemma_registrations_accumulate(conf: Conf, broker: BrokerView, requests: Seq<Request>)
    requires
        broker.registry.wf(),
        forall|i: int| 0 <= i < requests.len() ==> admissible(conf, #[trigger] requests[i]),
        forall|i: int|
            0 <= i < requests.len() ==> !broker.registry.was_issued((#[trigger] requests[i]).token),
        forall|i: int, j: int|
            0 <= i < j < requests.len() ==> (#[trigger] requests[i]).token != (
            #[trigger] requests[j]).token,
    ensures
        ({
            let after = register_all(conf, broker, requests);
            &&& after.registry.wf()
            &&& after.listeners == broker.listeners
            &&& after.registry.live.len() == broker.registry.live.len() + requests.len()
            &&& forall|i: int|
                0 <= i < requests.len() ==> after.registry.lookup((#[trigger] requests[i]).token)
                    == Some(session_of(conf, requests[i]))
            &&& forall|t: u128| #[trigger]
                broker.registry.is_live(t) ==> after.registry.lookup(t) == broker.registry.lookup(t)
            &&& forall|t: u128| #[trigger]
                after.registry.was_issued(t) <==> broker.registry.was_issued(t) || exists|i: int|
                    0 <= i < requests.len() && (#[trigger] requests[i]).token == t
        }),
    decreases requests.len(),
{
    if requests.len() > 0 {
        let earlier = requests.drop_last();
        let last = requests.last();
        lemma_registrations_accumulate(conf, broker, earlier);
        let before = register_all(conf, broker, earlier);
        let after = register_all(conf, broker, requests);
        assert(forall|i: int| 0 <= i < earlier.len() ==> earlier[i] == requests[i]);
        assert(!before.registry.was_issued(last.token)) by {
            if before.registry.was_issued(last.token) {
                let i = choose|i: int| 0 <= i < earlier.len() && (#[trigger] earlier[i]).token == last.token;
                assert(requests[i].token == requests[requests.len() - 1].token);
            }
        }
        lemma_admitted_registration_succeeds(conf, before, last.bytes, last.token, last.now);
        assert(after.registry == before.registry.insert(session_of(conf, last)));
        assert(!before.registry.live.contains_key(last.token));
        assert(after.registry.live.len() == before.registry.live.len() + 1);
        assert forall|i: int| 0 <= i < requests.len() implies after.registry.lookup(
            (#[trigger] requests[i]).token,
        ) == Some(session_of(conf, requests[i])) by {
            if i < earlier.len() {
                assert(earlier[i] == requests[i]);
                assert(requests[i].token != requests[requests.len() - 1].token);
            }
        }
        assert forall|t: u128| #[trigger]
            after.registry.was_issued(t) <==> broker.registry.was_issued(t) || exists|i: int|
                0 <= i < requests.len() && (#[trigger] requests[i]).token == t by {
            let was = before.registry.was_issued(t);
            assert(after.registry.was_issued(t) == (was || t == last.token));
            if t == last.token {
                assert(requests[requests.len() - 1].token == t);
            } else if was && !broker.registry.was_issued(t) {
                let i = choose|i: int| 0 <= i < earlier.len() && (#[trigger] earlier[i]).token == t;
                assert(requests[i].token == t);
            }
            if exists|i: int| 0 <= i < requests.len() && (#[trigger] requests[i]).token == t {
                let i = choose|i: int| 0 <= i < requests.len() && (#[trigger] requests[i]).token == t;
                if i < earlier.len() {
                    assert(earlier[i].token == t);
                }
            }
        }
    }
}

} // verus!
