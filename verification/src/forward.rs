//! The forwarding channel: a data connection presents a session token on a
//! forwarding port and is admitted as a tunnel only if that token names a
//! live session bound to that very port.

use vstd::prelude::*;
use vstd::string::{StrSliceExecFns, StringSliceAdditionalSpecFns};
use vstd::utf8::encode_utf8;

use crate::control::{Broker, BrokerView};
use crate::error::ClaimError;
use crate::registry::{RegistryView, SessionRegistry};
use crate::relay::RelayOutcome;
use crate::token::{parsed_token, read_token};
use crate::wire::{ack_frame, claim_outcome, decode_claim, text_frame};

verus! {

/// What becomes of a claim once its text has been read as a token, or found
/// to be none: the token must name a live session, and that session must be
/// bound to the port the claim arrived on.
pub open spec fn token_verdict(registry: RegistryView, port: u16, claimed: Option<u128>) -> Result<
    u128,
    ClaimError,
> {
    match claimed {
        None => Err(ClaimError::MalformedToken),
        Some(token) => match registry.lookup(token) {
            None => Err(ClaimError::UnknownToken),
            Some(session) => if session.forwarding_port == port {
                Ok(token)
            } else {
                Err(ClaimError::WrongPort)
            },
        },
    }
}

/// What becomes of the bytes of a claim that arrived on `port`.
pub open spec fn claim_verdict(registry: RegistryView, port: u16, bytes: Seq<u8>) -> Result<
    u128,
    ClaimError,
> {
    match claim_outcome(bytes) {
        Err(e) => Err(ClaimError::Protocol(e)),
        Ok(text) => token_verdict(registry, port, parsed_token(text)),
    }
}

/// The line sent to a connection whose claim is turned away. It is the same
/// for every cause.
pub open spec fn rejection_line() -> Seq<u8> {
    encode_utf8("Service Unavaliable.\n"@)
}

/// Judges a claim whose text has already been read as a token, or found to be none.
pub fn judge_token(registry: &SessionRegistry, port: u16, claimed: Option<u128>) -> (verdict: Result<
    u128,
    ClaimError,
>)
    ensures
        verdict == token_verdict(registry@, port, claimed),
{
    match claimed {
        None => Err(ClaimError::MalformedToken),
        Some(token) => match registry.get(token) {
            None => Err(ClaimError::UnknownToken),
            Some(session) => if session.forwarding_port == port {
                Ok(token)
            } else {
                Err(ClaimError::WrongPort)
            },
        },
    }
}

/// Judges the bytes of a claim that arrived on `port`. The registry is
/// consulted as it stands at the time of the call.
pub fn check_claim(registry: &SessionRegistry, port: u16, bytes: &[u8]) -> (verdict: Result<
    u128,
    ClaimError,
>)
    ensures
        verdict == claim_verdict(registry@, port, bytes@),
{
    match decode_claim(bytes) {
        Err(e) => Err(ClaimError::Protocol(e)),
        Ok(text) => judge_token(registry, port, read_token(text.as_str())),
    }
}

/// What a new connection on a forwarding port did within the time allowed
/// for a claim.
#[derive(Debug, Clone, PartialEq, Eq)]
pub enum Arrival {
    /// It sent these bytes.
    Claim(Vec<u8>),
    /// It sent nothing: it claims no tunnel, so it is a visitor.
    Silent,
}

/// The mathematical content of an [`Arrival`].
pub enum ArrivalView {
    Claim(Seq<u8>),
    Silent,
}

impl View for Arrival {
    type V = ArrivalView;

    open spec fn view(&self) -> ArrivalView {
        match self {
            Arrival::Claim(bytes) => ArrivalView::Claim(bytes@),
            Arrival::Silent => ArrivalView::Silent,
        }
    }
}

/// What a new connection on a forwarding port is taken for.
#[derive(Debug, Clone, PartialEq, Eq)]
pub enum Admission {
    /// Send `ack` and put the connection in line as a tunnel of `token`.
    Tunnel { token: u128, ack: Vec<u8> },
    /// Put the connection in line as a visitor.
    Visitor,
    /// Send `line` and close the connection.
    Rejected { error: ClaimError, line: Vec<u8> },
}

/// The mathematical content of an [`Admission`].
pub enum AdmissionView {
    Tunnel { token: u128, ack: Seq<u8> },
    Visitor,
    Rejected { error: ClaimError, line: Seq<u8> },
}

impl View for Admission {
    type V = AdmissionView;

    open spec fn view(&self) -> AdmissionView {
        match self {
            Admission::Tunnel { token, ack } => AdmissionView::Tunnel { token: *token, ack: ack@ },
            Admission::Visitor => AdmissionView::Visitor,
            Admission::Rejected { error, line } => AdmissionView::Rejected {
                error: *error,
                line: line@,
            },
        }
    }
}

/// What a connection that arrived on `port` is taken for.
pub open spec fn admission(registry: RegistryView, port: u16, arrival: ArrivalView) -> AdmissionView {
    match arrival {
        ArrivalView::Silent => AdmissionView::Visitor,
        ArrivalView::Claim(bytes) => match claim_verdict(registry, port, bytes) {
            Ok(token) => AdmissionView::Tunnel { token, ack: text_frame("OK"@) },
            Err(error) => AdmissionView::Rejected { error, line: rejection_line() },
        },
    }
}

/// The broker after a connection arrived on `port`. Admitting a tunnel
/// marks the tunnel of its session as attached; nothing else changes
/// the broker.
pub open spec fn broker_after_arrival(broker: BrokerView, port: u16, arrival: ArrivalView) -> BrokerView {
    match admission(broker.registry, port, arrival) {
        AdmissionView::Tunnel { token, ack } => BrokerView {
            registry: broker.registry.set_tunnel(token, true),
            ..broker
        },
        _ => broker,
    }
}

/// The broker after the tunnel of `token` has gone: a relay that completed
/// ends the session, a broken one frees the tunnel slot and leaves the
/// session in place for the client to reconnect.
pub open spec fn broker_after_relay(broker: BrokerView, token: u128, outcome: RelayOutcome) -> BrokerView {
    match outcome {
        RelayOutcome::Completed => BrokerView { registry: broker.registry.remove(token), ..broker },
        RelayOutcome::Broken => BrokerView {
            registry: broker.registry.set_tunnel(token, false),
            ..broker
        },
    }
}

impl Broker {
    /// Decides what a connection that arrived on the forwarding port `port`
    /// is taken for, and records the tunnel as attached when it is admitted
    /// as one.
    pub fn on_arrival(&mut self, port: u16, arrival: &Arrival) -> (admitted: Admission)
        ensures
            admitted@ == admission(old(self)@.registry, port, arrival@),
            final(self)@ == broker_after_arrival(old(self)@, port, arrival@),
    {
        match arrival {
            Arrival::Silent => Admission::Visitor,
            Arrival::Claim(bytes) => match check_claim(&self.registry, port, bytes.as_slice()) {
                Ok(token) => {
                    let attached = self.registry.set_tunnel(token, true);
                    Admission::Tunnel { token, ack: ack_frame() }
                },
                Err(error) => {
                    let text = "Service Unavaliable.\n";
                    Admission::Rejected { error, line: text.as_bytes_vec() }
                },
            },
        }
    }

    /// Records that the tunnel of `token` has gone, and how.
    pub fn release_tunnel(&mut self, token: u128, outcome: RelayOutcome)
        ensures
            final(self)@ == broker_after_relay(old(self)@, token, outcome),
    {
        match outcome {
            RelayOutcome::Completed => {
                let gone = self.registry.remove(token);
            },
            RelayOutcome::Broken => {
                let freed = self.registry.set_tunnel(token, false);
            },
        }
    }
}

} // verus!
