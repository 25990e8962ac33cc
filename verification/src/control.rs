//! The control-channel handshake: authentication, token issuance, the
//! forwarding listener, and the heartbeat loop, as a state machine that the
//! caller drives with the events of one control connection.

use std::collections::HashSet;
use vstd::prelude::*;

use crate::conf::Conf;
use crate::error::{CloseCause, ProtocolError};
use crate::registry::{ConnectionState, RegistryView, SessionRegistry, SessionView};
use crate::token::{draw_token, is_random_uuid, render_token, token_text};
use crate::wire::{
    decode_register_message, encode_response, register_outcome, response_frame, RegisterResponse,
    ResponseView,
};

verus! {

broadcast use vstd::std_specs::hash::group_hash_axioms;

/// How many tokens are drawn for one registration before it is given up.
pub const TOKEN_DRAWS: usize = 8;

/// The state shared by every connection: the live sessions and the set of
/// forwarding ports on which a listener is bound.
pub struct Broker {
    pub registry: SessionRegistry,
    pub listeners: HashSet<u16>,
}

/// The mathematical content of a [`Broker`].
#[verifier::ext_equal]
pub struct BrokerView {
    pub registry: RegistryView,
    pub listeners: Set<u16>,
}

impl View for Broker {
    type V = BrokerView;

    open spec fn view(&self) -> BrokerView {
        BrokerView { registry: self.registry@, listeners: self.listeners@ }
    }
}

impl Broker {
    /// A broker with no session and no listener.
    pub fn new() -> (broker: Broker)
        ensures
            broker@.registry == RegistryView::empty(),
            broker@.registry.wf(),
            broker@.listeners == Set::<u16>::empty(),
    {
        Broker { registry: SessionRegistry::new(), listeners: HashSet::new() }
    }
}

/// Where one control connection stands.
#[derive(Debug, Clone, Copy, PartialEq, Eq, Structural)]
pub enum ControlState {
    /// Nothing was read yet; the next message must be a registration.
    AwaitingRegistration,
    /// The session exists and the caller is binding its forwarding listener.
    AwaitingBind { token: u128, port: u16 },
    /// The client holds its token; every further message is a heartbeat.
    Registered { token: u128 },
    /// The connection is over.
    Closed,
}

/// What happened on a control connection.
#[derive(Debug, Clone, PartialEq, Eq)]
pub enum ControlEvent {
    /// A message arrived, with these bytes.
    Message(Vec<u8>),
    /// The listener asked for by [`ControlAction::Bind`] is bound.
    BindSucceeded,
    /// The listener asked for by [`ControlAction::Bind`] could not be bound.
    BindFailed,
    /// No message arrived within the time allowed.
    TimedOut,
    /// The peer closed the connection, or it failed.
    Disconnected,
}

/// The mathematical content of a [`ControlEvent`].
pub enum EventView {
    Message(Seq<u8>),
    BindSucceeded,
    BindFailed,
    TimedOut,
    Disconnected,
}

impl View for ControlEvent {
    type V = EventView;

    open spec fn view(&self) -> EventView {
        match self {
            ControlEvent::Message(bytes) => EventView::Message(bytes@),
            ControlEvent::BindSucceeded => EventView::BindSucceeded,
            ControlEvent::BindFailed => EventView::BindFailed,
            ControlEvent::TimedOut => EventView::TimedOut,
            ControlEvent::Disconnected => EventView::Disconnected,
        }
    }
}

/// What the caller must do next on a control connection.
#[derive(Debug, Clone, PartialEq, Eq)]
pub enum ControlAction {
    /// Keep waiting for the next event.
    Continue,
    /// Bind a listener on this forwarding port and report how it went.
    Bind { port: u16 },
    /// Send these bytes and keep the connection.
    Send(Vec<u8>),
    /// Send these bytes, then close the connection.
    SendAndClose { bytes: Vec<u8>, cause: CloseCause },
    /// Close the connection without sending anything.
    Close { cause: CloseCause },
}

/// The mathematical content of a [`ControlAction`].
pub enum ActionView {
    Continue,
    Bind { port: u16 },
    Send(Seq<u8>),
    SendAndClose { bytes: Seq<u8>, cause: CloseCause },
    Close { cause: CloseCause },
}

impl View for ControlAction {
    type V = ActionView;

    open spec fn view(&self) -> ActionView {
        match self {
            ControlAction::Continue => ActionView::Continue,
            ControlAction::Bind { port } => ActionView::Bind { port: *port },
            ControlAction::Send(bytes) => ActionView::Send(bytes@),
            ControlAction::SendAndClose { bytes, cause } => ActionView::SendAndClose {
                bytes: bytes@,
                cause: *cause,
            },
            ControlAction::Close { cause } => ActionView::Close { cause: *cause },
        }
    }
}

/// The answer to credentials that name no configured client. It is the same
/// whether the name is unknown or the secret is wrong.
pub open spec fn refusal_frame() -> Seq<u8> {
    response_frame(ResponseView::Failed { reason: "Invalid register configuration."@ })
}

/// The answer when no unused token could be drawn.
pub open spec fn exhausted_frame() -> Seq<u8> {
    response_frame(ResponseView::Failed { reason: "No session token available."@ })
}

/// The answer when the forwarding listener could not be bound.
pub open spec fn bind_failure_frame() -> Seq<u8> {
    response_frame(ResponseView::Failed { reason: "Forwarding port unavailable."@ })
}

/// The answer that carries the session token.
pub open spec fn success_frame(token: u128) -> Seq<u8> {
    response_frame(ResponseView::Success { uuid: token_text(token) })
}

/// State, action and broker after one step.
pub struct ControlOutcome {
    pub state: ControlState,
    pub action: ActionView,
    pub broker: BrokerView,
}

/// The step taken on the first message of a connection, `token` being the
/// token to issue if the registration is admitted.
pub open spec fn registration_next(
    conf: Conf,
    broker: BrokerView,
    bytes: Seq<u8>,
    token: u128,
    now: u128,
) -> ControlOutcome {
    match register_outcome(bytes) {
        Err(e) => ControlOutcome {
            state: ControlState::Closed,
            action: ActionView::Close { cause: CloseCause::Protocol(e) },
            broker,
        },
        Ok(message) => match conf.first_match(message.name, message.secret) {
            None => ControlOutcome {
                state: ControlState::Closed,
                action: ActionView::SendAndClose { bytes: refusal_frame(), cause: CloseCause::Auth },
                broker,
            },
            Some(i) => {
                let port = conf.client@[i].port;
                if broker.registry.was_issued(token) {
                    ControlOutcome {
                        state: ControlState::Closed,
                        action: ActionView::SendAndClose {
                            bytes: exhausted_frame(),
                            cause: CloseCause::TokenExhausted,
                        },
                        broker,
                    }
                } else {
                    let session = SessionView::fresh(token, message.name, port, now);
                    let opened = BrokerView { registry: broker.registry.insert(session), ..broker };
                    if broker.listeners.contains(port) {
                        ControlOutcome {
                            state: ControlState::Registered { token },
                            action: ActionView::Send(success_frame(token)),
                            broker: opened,
                        }
                    } else {
                        ControlOutcome {
                            state: ControlState::AwaitingBind { token, port },
                            action: ActionView::Bind { port },
                            broker: opened,
                        }
                    }
                }
            },
        },
    }
}

/// The step that closes the connection without an answer.
pub open spec fn closing(cause: CloseCause, broker: BrokerView) -> ControlOutcome {
    ControlOutcome { state: ControlState::Closed, action: ActionView::Close { cause }, broker }
}

/// The broker with the session under `token` removed.
pub open spec fn without_session(broker: BrokerView, token: u128) -> BrokerView {
    BrokerView { registry: broker.registry.remove(token), ..broker }
}

/// The step taken when a registered client has sent nothing for a while:
/// the session is removed once it has been silent for `timeout` or longer,
/// counted from its last heartbeat, and the wait goes on if it has not.
pub open spec fn silence_next(broker: BrokerView, held: u128, now: u128, timeout: u128) -> ControlOutcome {
    if !broker.registry.is_live(held) {
        closing(CloseCause::SessionLost, broker)
    } else if broker.registry.live[held].expired_at(now, timeout) {
        closing(CloseCause::HeartbeatTimeout, without_session(broker, held))
    } else {
        ControlOutcome {
            state: ControlState::Registered { token: held },
            action: ActionView::Continue,
            broker,
        }
    }
}

/// One step of a control connection: state, event and broker before, to
/// state, action and broker after. `token` is the token to issue should
/// the step admit a registration; no other step looks at it. `timeout` is
/// the silence after which a registered client is given up.
pub open spec fn control_next(
    state: ControlState,
    event: EventView,
    conf: Conf,
    broker: BrokerView,
    token: u128,
    now: u128,
    timeout: u128,
) -> ControlOutcome {
    match state {
        ControlState::AwaitingRegistration => match event {
            EventView::Message(bytes) => registration_next(conf, broker, bytes, token, now),
            EventView::BindSucceeded | EventView::BindFailed => ControlOutcome {
                state,
                action: ActionView::Continue,
                broker,
            },
            EventView::TimedOut => closing(CloseCause::Protocol(ProtocolError::TimedOut), broker),
            EventView::Disconnected => closing(CloseCause::Disconnected, broker),
        },
        ControlState::AwaitingBind { token: held, port } => match event {
            EventView::BindSucceeded => ControlOutcome {
                state: ControlState::Registered { token: held },
                action: ActionView::Send(success_frame(held)),
                broker: BrokerView { listeners: broker.listeners.insert(port), ..broker },
            },
            EventView::BindFailed => ControlOutcome {
                state: ControlState::Closed,
                action: ActionView::SendAndClose {
                    bytes: bind_failure_frame(),
                    cause: CloseCause::Bind,
                },
                broker: without_session(broker, held),
            },
            EventView::Message(_) => ControlOutcome { state, action: ActionView::Continue, broker },
            EventView::TimedOut => closing(
                CloseCause::HeartbeatTimeout,
                without_session(broker, held),
            ),
            EventView::Disconnected => closing(
                CloseCause::Disconnected,
                without_session(broker, held),
            ),
        },
        ControlState::Registered { token: held } => match event {
            EventView::Message(_) => if broker.registry.is_live(held) {
                ControlOutcome {
                    state,
                    action: ActionView::Continue,
                    broker: BrokerView { registry: broker.registry.touch(held, now), ..broker },
                }
            } else {
                closing(CloseCause::SessionLost, broker)
            },
            EventView::BindSucceeded | EventView::BindFailed => ControlOutcome {
                state,
                action: ActionView::Continue,
                broker,
            },
            EventView::TimedOut => silence_next(broker, held, now, timeout),
            EventView::Disconnected => closing(
                CloseCause::Disconnected,
                without_session(broker, held),
            ),
        },
        ControlState::Closed => closing(CloseCause::Finished, broker),
    }
}

/// Whether a step with `token` leads from the values before to the values after.
pub open spec fn steps_to(
    state: ControlState,
    event: EventView,
    conf: Conf,
    broker: BrokerView,
    token: u128,
    now: u128,
    timeout: u128,
    next_state: ControlState,
    action: ActionView,
    next_broker: BrokerView,
) -> bool {
    let next = control_next(state, event, conf, broker, token, now, timeout);
    next.state == next_state && next.action == action && next.broker == next_broker
}

/// The handler of one control connection.
pub struct ControlHandler {
    pub state: ControlState,
    /// The silence, in milliseconds, after which a registered client is given up.
    pub heartbeat_timeout: u128,
}

impl ControlHandler {
    /// The handler of a connection that was just accepted.
    pub fn new(heartbeat_timeout: u128) -> (handler: ControlHandler)
        ensures
            handler.state == ControlState::AwaitingRegistration,
            handler.heartbeat_timeout == heartbeat_timeout,
    {
        ControlHandler { state: ControlState::AwaitingRegistration, heartbeat_timeout }
    }

    /// Whether the connection is over.
    pub fn is_closed(&self) -> (closed: bool)
        ensures
            closed == (self.state == ControlState::Closed),
    {
        match self.state {
            ControlState::Closed => true,
            _ => false,
        }
    }

    /// Closes the connection without an answer.
    fn close(&mut self, cause: CloseCause) -> (action: ControlAction)
        ensures
            final(self).state == ControlState::Closed,
            final(self).heartbeat_timeout == old(self).heartbeat_timeout,
            action@ == (ActionView::Close { cause }),
    {
        self.state = ControlState::Closed;
        ControlAction::Close { cause }
    }

    /// Handles the first message of a connection.
    fn register(
        &mut self,
        bytes: &[u8],
        token: u128,
        conf: &Conf,
        broker: &mut Broker,
        now: u128,
    ) -> (action: ControlAction)
        ensures
            final(self).heartbeat_timeout == old(self).heartbeat_timeout,
            steps_to(
                ControlState::AwaitingRegistration,
                EventView::Message(bytes@),
                *conf,
                old(broker)@,
                token,
                now,
                old(self).heartbeat_timeout,
                final(self).state,
                action@,
                final(broker)@,
            ),
    {
        let message = match decode_register_message(bytes) {
            Ok(message) => message,
            Err(e) => {
                self.state = ControlState::Closed;
                return ControlAction::Close { cause: CloseCause::Protocol(e) };
            },
        };
        let found = conf.find_client(message.name.as_str(), message.secret.as_str());
        let index = match found {
            Some(index) => index,
            None => {
                self.state = ControlState::Closed;
                let reply = RegisterResponse::Failed {
                    reason: "Invalid register configuration.".to_owned(),
                };
                return ControlAction::SendAndClose {
                    bytes: encode_response(&reply),
                    cause: CloseCause::Auth,
                };
            },
        };
        let port = conf.client[index].port;
        if broker.registry.was_issued(token) {
            self.state = ControlState::Closed;
            let reply = RegisterResponse::Failed { reason: "No session token available.".to_owned() };
            return ControlAction::SendAndClose {
                bytes: encode_response(&reply),
                cause: CloseCause::TokenExhausted,
            };
        }
        broker.registry.insert(
            ConnectionState {
                last_heart_beat: now,
                register_time: now,
                name: message.name,
                token,
                forwarding_port: port,
                tunnel_attached: false,
            },
        );
        if broker.listeners.contains(&port) {
            self.state = ControlState::Registered { token };
            let reply = RegisterResponse::Success { uuid: render_token(token) };
            ControlAction::Send(encode_response(&reply))
        } else {
            self.state = ControlState::AwaitingBind { token, port };
            ControlAction::Bind { port }
        }
    }

    /// Takes one step with a given token: the step is a function of the
    /// arguments alone.
    pub fn step_with(
        &mut self,
        event: &ControlEvent,
        token: u128,
        conf: &Conf,
        broker: &mut Broker,
        now: u128,
    ) -> (action: ControlAction)
        ensures
            final(self).heartbeat_timeout == old(self).heartbeat_timeout,
            steps_to(
                old(self).state,
                event@,
                *conf,
                old(broker)@,
                token,
                now,
                old(self).heartbeat_timeout,
                final(self).state,
                action@,
                final(broker)@,
            ),
    {
        match self.state {
            ControlState::AwaitingRegistration => match event {
                ControlEvent::Message(bytes) => self.register(
                    bytes.as_slice(),
                    token,
                    conf,
                    broker,
                    now,
                ),
                ControlEvent::BindSucceeded | ControlEvent::BindFailed => ControlAction::Continue,
                ControlEvent::TimedOut => self.close(CloseCause::Protocol(ProtocolError::TimedOut)),
                ControlEvent::Disconnected => self.close(CloseCause::Disconnected),
            },
            ControlState::AwaitingBind { token: held, port } => match event {
                ControlEvent::BindSucceeded => {
                    broker.listeners.insert(port);
                    self.state = ControlState::Registered { token: held };
                    let reply = RegisterResponse::Success { uuid: render_token(held) };
                    ControlAction::Send(encode_response(&reply))
                },
                ControlEvent::BindFailed => {
                    broker.registry.remove(held);
                    self.state = ControlState::Closed;
                    let reply = RegisterResponse::Failed {
                        reason: "Forwarding port unavailable.".to_owned(),
                    };
                    ControlAction::SendAndClose {
                        bytes: encode_response(&reply),
                        cause: CloseCause::Bind,
                    }
                },
                ControlEvent::Message(_) => ControlAction::Continue,
                ControlEvent::TimedOut => {
                    broker.registry.remove(held);
                    self.close(CloseCause::HeartbeatTimeout)
                },
                ControlEvent::Disconnected => {
                    broker.registry.remove(held);
                    self.close(CloseCause::Disconnected)
                },
            },
            ControlState::Registered { token: held } => match event {
                ControlEvent::Message(_) => match broker.registry.touch(held, now) {
                    Ok(()) => ControlAction::Continue,
                    Err(_) => self.close(CloseCause::SessionLost),
                },
                ControlEvent::BindSucceeded | ControlEvent::BindFailed => ControlAction::Continue,
                ControlEvent::TimedOut => {
                    let expired = match broker.registry.get(held) {
                        Some(session) => Some(session.is_expired(now, self.heartbeat_timeout)),
                        None => None,
                    };
                    match expired {
                        None => self.close(CloseCause::SessionLost),
                        Some(true) => {
                            broker.registry.remove(held);
                            self.close(CloseCause::HeartbeatTimeout)
                        },
                        Some(false) => ControlAction::Continue,
                    }
                },
                ControlEvent::Disconnected => {
                    broker.registry.remove(held);
                    self.close(CloseCause::Disconnected)
                },
            },
            ControlState::Closed => self.close(CloseCause::Finished),
        }
    }

    /// Takes one step, drawing a fresh random token where the step may issue
    /// one. A drawn token that was issued before is discarded and another is
    /// drawn, up to [`TOKEN_DRAWS`] times in all.
    ///
    /// Whatever tokens are drawn, the step taken is the step for one of them,
    /// and a token that is issued is one that was drawn.
    pub fn step(&mut self, event: &ControlEvent, conf: &Conf, broker: &mut Broker, now: u128) -> (action:
        ControlAction)
        ensures
            final(self).heartbeat_timeout == old(self).heartbeat_timeout,
            exists|token: u128|
                (old(self).state == ControlState::AwaitingRegistration && event@ is Message
                    ==> is_random_uuid(token)) && #[trigger] steps_to(
                    old(self).state,
                    event@,
                    *conf,
                    old(broker)@,
                    token,
                    now,
                    old(self).heartbeat_timeout,
                    final(self).state,
                    action@,
                    final(broker)@,
                ),
    {
        let mut token: u128 = 0;
        let registering = match (&self.state, event) {
            (ControlState::AwaitingRegistration, ControlEvent::Message(_)) => true,
            _ => false,
        };
        if registering {
            token = draw_token();
            let mut draws: usize = 1;
            while draws < TOKEN_DRAWS && broker.registry.was_issued(token)
                invariant
                    draws <= TOKEN_DRAWS,
                    is_random_uuid(token),
                decreases TOKEN_DRAWS - draws,
            {
                token = draw_token();
                draws += 1;
            }
        }
        self.step_with(event, token, conf, broker, now)
    }
}

} // verus!
