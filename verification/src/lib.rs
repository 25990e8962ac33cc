//! A reverse-tunnel relay broker.
//!
//! Clients behind a firewall register over a control connection, receive a
//! session token bound to their forwarding port, and present that token on a
//! second connection which the broker pairs with visitor traffic and relays.
//!
//! Every decision the broker takes lives here as a function from plain values
//! to plain values; sockets, timers and task spawning stay with the caller.

pub mod conf;
pub mod control;
pub mod error;
pub mod forward;
pub mod lifecycle;
pub mod pairing;
pub mod registry;
pub mod relay;
pub mod token;
pub mod wire;

pub use conf::{ClientConfig, Conf};
pub use control::{Broker, ControlAction, ControlEvent, ControlHandler, ControlState};
pub use error::{ClaimError, CloseCause, NotFound, ProtocolError};
pub use forward::{check_claim, judge_token, Admission, Arrival};
pub use pairing::{Pairing, PairingState, PortPairing, Tunnel, Visitor};
pub use relay::{RelayAction, RelayEvent, RelayOutcome, RelayPump, Side};
pub use registry::{ConnectionState, RegistryView, SessionRegistry, SessionView};
pub use wire::{ClientRegisterMessage, RegisterResponse};
