//! The relay pump: the decisions of a two-way byte shuttle between a tunnel
//! connection and a visitor connection.
//!
//! The caller reads from both connections and reports what it read; the pump
//! says what to write where, when to pass on a half-close, and when to let go
//! of both connections.

use vstd::prelude::*;

verus! {

/// The two ends of a relay.
#[derive(Debug, Clone, Copy, PartialEq, Eq, Structural)]
pub enum Side {
    Tunnel,
    Visitor,
}

impl Side {
    pub open spec fn other(self) -> Side {
        match self {
            Side::Tunnel => Side::Visitor,
            Side::Visitor => Side::Tunnel,
        }
    }

    /// The opposite end.
    pub fn peer(self) -> (side: Side)
        ensures
            side == self.other(),
    {
        match self {
            Side::Tunnel => Side::Visitor,
            Side::Visitor => Side::Tunnel,
        }
    }
}

/// How a relay came to its end.
#[derive(Debug, Clone, Copy, PartialEq, Eq, Structural)]
pub enum RelayOutcome {
    /// Both directions were closed in good order.
    Completed,
    /// A read or write failed on one of the two connections.
    Broken,
}

/// What happened on one of the two connections of a relay.
#[derive(Debug, Clone, PartialEq, Eq)]
pub enum RelayEvent {
    /// These bytes were read from `from`.
    Data { from: Side, bytes: Vec<u8> },
    /// `from` has closed its sending direction.
    Eof { from: Side },
    /// A read or a write failed on `on`.
    Failed { on: Side },
}

/// The mathematical content of a [`RelayEvent`].
pub enum RelayEventView {
    Data { from: Side, bytes: Seq<u8> },
    Eof { from: Side },
    Failed { on: Side },
}

impl View for RelayEvent {
    type V = RelayEventView;

    open spec fn view(&self) -> RelayEventView {
        match self {
            RelayEvent::Data { from, bytes } => RelayEventView::Data { from: *from, bytes: bytes@ },
            RelayEvent::Eof { from } => RelayEventView::Eof { from: *from },
            RelayEvent::Failed { on } => RelayEventView::Failed { on: *on },
        }
    }
}

/// What the caller must do for a relay.
#[derive(Debug, Clone, PartialEq, Eq)]
pub enum RelayAction {
    /// Nothing: the event has no bearing on the relay any more.
    Ignore,
    /// Write these bytes to `to`.
    Write { to: Side, bytes: Vec<u8> },
    /// Close the sending direction towards `to`, and keep reading from it.
    Shutdown { to: Side },
    /// Let go of both connections; the relay is over.
    Release { outcome: RelayOutcome },
}

/// The mathematical content of a [`RelayAction`].
pub enum RelayActionView {
    Ignore,
    Write { to: Side, bytes: Seq<u8> },
    Shutdown { to: Side },
    Release { outcome: RelayOutcome },
}

impl View for RelayAction {
    type V = RelayActionView;

    open spec fn view(&self) -> RelayActionView {
        match self {
            RelayAction::Ignore => RelayActionView::Ignore,
            RelayAction::Write { to, bytes } => RelayActionView::Write { to: *to, bytes: bytes@ },
            RelayAction::Shutdown { to } => RelayActionView::Shutdown { to: *to },
            RelayAction::Release { outcome } => RelayActionView::Release { outcome: *outcome },
        }
    }
}

/// The state of one relay: which of the two directions still carry bytes,
/// and how the relay ended if it has.
#[derive(Debug, Clone, Copy, PartialEq, Eq, Structural)]
pub struct RelayPump {
    /// Bytes are still read from the tunnel and written to the visitor.
    pub from_tunnel: bool,
    /// Bytes are still read from the visitor and written to the tunnel.
    pub from_visitor: bool,
    /// How the relay ended, once it has.
    pub outcome: Option<RelayOutcome>,
}

impl RelayPump {
    /// A relay with both directions open.
    pub open spec fn start() -> RelayPump {
        RelayPump { from_tunnel: true, from_visitor: true, outcome: None }
    }

    /// Whether bytes read from `side` are still passed on.
    pub open spec fn carries(self, side: Side) -> bool {
        self.outcome.is_none() && match side {
            Side::Tunnel => self.from_tunnel,
            Side::Visitor => self.from_visitor,
        }
    }

    /// The pump with the direction that reads from `side` closed.
    pub open spec fn closed(self, side: Side) -> RelayPump {
        match side {
            Side::Tunnel => RelayPump { from_tunnel: false, ..self },
            Side::Visitor => RelayPump { from_visitor: false, ..self },
        }
    }

    /// The pump after the relay has ended with `outcome`.
    pub open spec fn ended(outcome: RelayOutcome) -> RelayPump {
        RelayPump { from_tunnel: false, from_visitor: false, outcome: Some(outcome) }
    }

    /// One step: the pump and the event before, to the pump and the action after.
    ///
    /// Bytes read from a side whose direction is open go to the other side
    /// unchanged. The end of one direction is passed on as a half-close while
    /// the other direction is open, and ends the relay once both are closed.
    /// A failure on either side ends the relay at once.
    pub open spec fn next(self, event: RelayEventView) -> (RelayPump, RelayActionView) {
        match event {
            RelayEventView::Data { from, bytes } => if self.carries(from) {
                (self, RelayActionView::Write { to: from.other(), bytes })
            } else {
                (self, RelayActionView::Ignore)
            },
            RelayEventView::Eof { from } => if !self.carries(from) {
                (self, RelayActionView::Ignore)
            } else if self.carries(from.other()) {
                (self.closed(from), RelayActionView::Shutdown { to: from.other() })
            } else {
                (
                    RelayPump::ended(RelayOutcome::Completed),
                    RelayActionView::Release { outcome: RelayOutcome::Completed },
                )
            },
            RelayEventView::Failed { on } => if self.outcome.is_some() {
                (self, RelayActionView::Ignore)
            } else {
                (
                    RelayPump::ended(RelayOutcome::Broken),
                    RelayActionView::Release { outcome: RelayOutcome::Broken },
                )
            },
        }
    }

    /// The actions that a run of events calls for, one for each event.
    pub open spec fn run(self, events: Seq<RelayEventView>) -> Seq<RelayActionView>
        decreases events.len(),
    {
        if events.len() == 0 {
            Seq::empty()
        } else {
            seq![self.next(events[0]).1] + self.next(events[0]).0.run(events.drop_first())
        }
    }

    /// A relay with both directions open.
    pub fn new() -> (pump: RelayPump)
        ensures
            pump == RelayPump::start(),
    {
        RelayPump { from_tunnel: true, from_visitor: true, outcome: None }
    }

    /// Whether the relay is over.
    pub fn is_finished(&self) -> (finished: bool)
        ensures
            finished == self.outcome.is_some(),
    {
        self.outcome.is_some()
    }

    /// Whether bytes read from `side` are still passed on.
    pub fn is_carrying(&self, side: Side) -> (carrying: bool)
        ensures
            carrying == self.carries(side),
    {
        self.outcome.is_none() && match side {
            Side::Tunnel => self.from_tunnel,
            Side::Visitor => self.from_visitor,
        }
    }

    /// Takes one step.
    pub fn step(&mut self, event: RelayEvent) -> (action: RelayAction)
        ensures
            (*final(self), action@) == old(self).next(event@),
    {
        match event {
            RelayEvent::Data { from, bytes } => {
                if self.is_carrying(from) {
                    RelayAction::Write { to: from.peer(), bytes }
                } else {
                    RelayAction::Ignore
                }
            },
            RelayEvent::Eof { from } => {
                if !self.is_carrying(from) {
                    RelayAction::Ignore
                } else if self.is_carrying(from.peer()) {
                    match from {
                        Side::Tunnel => {
                            self.from_tunnel = false;
                        },
                        Side::Visitor => {
                            self.from_visitor = false;
                        },
                    }
                    RelayAction::Shutdown { to: from.peer() }
                } else {
                    self.from_tunnel = false;
                    self.from_visitor = false;
                    self.outcome = Some(RelayOutcome::Completed);
                    RelayAction::Release { outcome: RelayOutcome::Completed }
                }
            },
            RelayEvent::Failed { on } => {
                if self.outcome.is_some() {
                    RelayAction::Ignore
                } else {
                    self.from_tunnel = false;
                    self.from_visitor = false;
                    self.outcome = Some(RelayOutcome::Broken);
                    RelayAction::Release { outcome: RelayOutcome::Broken }
                }
            },
        }
    }
}

/// Everything that a run of actions writes to `to`, in order.
pub open spec fn written(actions: Seq<RelayActionView>, to: Side) -> Seq<u8>
    decreases actions.len(),
{
    if actions.len() == 0 {
        Seq::empty()
    } else {
        let rest = written(actions.drop_first(), to);
        match actions[0] {
            RelayActionView::Write { to: target, bytes } => if target == to {
                bytes + rest
            } else {
                rest
            },
            _ => rest,
        }
    }
}

/// Everything that was read from `from` before that side closed its sending
/// direction or a failure ended the relay, in order.
pub open spec fn offered(events: Seq<RelayEventView>, from: Side) -> Seq<u8>
    decreases events.len(),
{
    if events.len() == 0 {
        Seq::empty()
    } else {
        match events[0] {
            RelayEventView::Data { from: source, bytes } => if source == from {
                bytes + offered(events.drop_first(), from)
            } else {
                offered(events.drop_first(), from)
            },
            RelayEventView::Eof { from: source } => if source == from {
                Seq::empty()
            } else {
                offered(events.drop_first(), from)
            },
            RelayEventView::Failed { on } => Seq::empty(),
        }
    }
}

/// From a state that no longer carries bytes read from `from`, nothing more
/// is written to the other side.
proof fn lemma_closed_direction_is_silent(pump: RelayPump, events: Seq<RelayEventView>, from: Side)
    requires
        !pump.carries(from),
    ensures
        written(pump.run(events), from.other()) == Seq::<u8>::empty(),
    decreases events.len(),
{
    if events.len() > 0 {
        let (next, action) = pump.next(events[0]);
        let rest = next.run(events.drop_first());
        assert(pump.run(events).drop_first() =~= rest);
        assert(!next.carries(from));
        lemma_closed_direction_is_silent(next, events.drop_first(), from);
    }
}

/// While the relay carries bytes read from `from`, the bytes written to the
/// other side are the bytes read, unchanged and in order.
proof fn lemma_open_direction_is_faithful(pump: RelayPump, events: Seq<RelayEventView>, from: Side)
    requires
        pump.carries(from),
    ensures
        written(pump.run(events), from.other()) == offered(events, from),
    decreases events.len(),
{
    if events.len() > 0 {
        let (next, action) = pump.next(events[0]);
        let rest = next.run(events.drop_first());
        assert(pump.run(events).drop_first() =~= rest);
        if next.carries(from) {
            lemma_open_direction_is_faithful(next, events.drop_first(), from);
        } else {
            lemma_closed_direction_is_silent(next, events.drop_first(), from);
        }
    }
}

/// A relay delivers to each side exactly what the other side sent, byte for
/// byte and in order, up to the point where the sender closed its direction
/// or a failure ended the relay.
pub proof fn lemma_relay_is_verbatim(events: Seq<RelayEventView>, from: Side)
    ensures
        written(RelayPump::start().run(events), from.other()) == offered(events, from),
{
    lemma_open_direction_is_faithful(RelayPump::start(), events, from);
}

/// Once a failure has been reported, or both sides have closed their sending
/// direction, the relay is over: the step that sees it releases both
/// connections, and no later step asks for anything.
pub proof fn lemma_relay_ends(pump: RelayPump, event: RelayEventView, later: Seq<RelayEventView>)
    requires
        pump.outcome.is_none(),
        event is Failed || (event is Eof && pump.carries(event->Eof_from) && !pump.carries(
            event->Eof_from.other(),
        )),
    ensures
        pump.next(event).1 is Release,
        pump.next(event).0.outcome.is_some(),
        forall|i: int| 0 <= i < later.len() ==> #[trigger] pump.next(event).0.run(later)[i] is Ignore,
        pump.next(event).0.run(later).len() == later.len(),
{
    lemma_finished_pump_ignores(pump.next(event).0, later);
}

/// A relay that is over answers every event with `Ignore`.
proof fn lemma_finished_pump_ignores(pump: RelayPump, events: Seq<RelayEventView>)
    requires
        pump.outcome.is_some(),
    ensures
        pump.run(events).len() == events.len(),
        forall|i: int| 0 <= i < events.len() ==> #[trigger] pump.run(events)[i] is Ignore,
    decreases events.len(),
{
    if events.len() > 0 {
        let (next, action) = pump.next(events[0]);
        assert(next == pump);
        lemma_finished_pump_ignores(pump, events.drop_first());
        let rest = pump.run(events.drop_first());
        assert forall|i: int| 0 <= i < events.len() implies #[trigger] pump.run(events)[i] is Ignore by {
            if i > 0 {
                assert(pump.run(events)[i] == rest[i - 1]);
            }
        }
    }
}

} // verus!
