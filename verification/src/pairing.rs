//! Pairing of tunnel and visitor connections on one forwarding port.
//!
//! Tunnels are the authenticated data connections of the registered client;
//! visitors are the outside connections whose traffic a tunnel is to carry.
//! One pair is relayed at a time. Whoever arrives while no partner is free
//! waits in line, and lines are served first come, first served.

use vstd::prelude::*;

verus! {

/// The three states of a forwarding port.
#[derive(Debug, Clone, Copy, PartialEq, Eq, Structural)]
pub enum PairingState {
    /// No pair is relayed and no tunnel is at hand; visitors, if any, wait.
    WaitingForTunnel,
    /// No pair is relayed and a tunnel is at hand, waiting for a visitor.
    WaitingForVisitor,
    /// A tunnel and a visitor are paired and being relayed.
    Paired,
}

/// A visitor in line: its connection, and the time until which it will wait.
#[derive(Debug, Clone, Copy, PartialEq, Eq, Structural)]
pub struct Visitor {
    pub id: u64,
    pub deadline: u128,
}

/// A tunnel in line: its connection, and the token of the session it belongs to.
#[derive(Debug, Clone, Copy, PartialEq, Eq, Structural)]
pub struct Tunnel {
    pub id: u64,
    pub token: u128,
}

/// A tunnel connection and the visitor connection it carries, with the token
/// of the session that the tunnel belongs to.
#[derive(Debug, Clone, Copy, PartialEq, Eq, Structural)]
pub struct Pairing {
    pub tunnel: u64,
    pub visitor: u64,
    pub token: u128,
}

/// The mathematical content of a [`PortPairing`].
#[verifier::ext_equal]
pub struct PairingView {
    /// The tunnels in line, oldest first.
    pub tunnels: Seq<Tunnel>,
    /// The visitors in line, oldest first.
    pub visitors: Seq<Visitor>,
    /// The pair being relayed, if any.
    pub active: Option<Pairing>,
}

impl PairingView {
    pub open spec fn idle() -> PairingView {
        PairingView { tunnels: Seq::empty(), visitors: Seq::empty(), active: None }
    }

    /// Nobody waits needlessly: while no pair is relayed, at most one of
    /// the two lines is occupied.
    pub open spec fn settled(self) -> bool {
        self.active.is_none() ==> self.tunnels.len() == 0 || self.visitors.len() == 0
    }

    pub open spec fn state(self) -> PairingState {
        if self.active.is_some() {
            PairingState::Paired
        } else if self.tunnels.len() > 0 {
            PairingState::WaitingForVisitor
        } else {
            PairingState::WaitingForTunnel
        }
    }

    /// Whether the heads of the two lines can be paired now.
    pub open spec fn can_pair(self) -> bool {
        self.active.is_none() && self.tunnels.len() > 0 && self.visitors.len() > 0
    }

    /// The pair that is formed now, if one can be: the heads of the two lines.
    pub open spec fn formed(self) -> Option<Pairing> {
        if self.can_pair() {
            Some(
                Pairing {
                    tunnel: self.tunnels[0].id,
                    visitor: self.visitors[0].id,
                    token: self.tunnels[0].token,
                },
            )
        } else {
            None
        }
    }

    /// The port after the heads of the two lines were paired, if they can be.
    pub open spec fn settle(self) -> PairingView {
        if self.can_pair() {
            PairingView {
                tunnels: self.tunnels.drop_first(),
                visitors: self.visitors.drop_first(),
                active: self.formed(),
            }
        } else {
            self
        }
    }

    pub open spec fn with_tunnel(self, tunnel: Tunnel) -> PairingView {
        PairingView { tunnels: self.tunnels.push(tunnel), ..self }
    }

    pub open spec fn with_visitor(self, visitor: Visitor) -> PairingView {
        PairingView { visitors: self.visitors.push(visitor), ..self }
    }

    pub open spec fn without_active(self) -> PairingView {
        PairingView { active: None, ..self }
    }

    /// The port without the visitors whose deadline lies before `now`.
    pub open spec fn unexpired(self, now: u128) -> PairingView {
        PairingView { visitors: self.visitors.filter(waits_at(now)), ..self }
    }

    /// The visitors whose deadline lies before `now`, in line order.
    pub open spec fn expired(self, now: u128) -> Seq<Visitor> {
        self.visitors.filter(lapsed_at(now))
    }

    /// The port without the tunnels in line that belong to the session of `token`.
    pub open spec fn without_session(self, token: u128) -> PairingView {
        PairingView { tunnels: self.tunnels.filter(of_other_session(token)), ..self }
    }

    /// The tunnels in line that belong to the session of `token`, in line order.
    pub open spec fn session_tunnels(self, token: u128) -> Seq<Tunnel> {
        self.tunnels.filter(of_session(token))
    }
}

/// Nobody waits needlessly: a port on which at most one line is occupied
/// while no pair is relayed is still such a port after any arrival, after
/// the end of a relay, after visitors have run out of time, and after the
/// tunnels of a session have left the line.
pub proof fn lemma_port_stays_settled(port: PairingView, tunnel: Tunnel, visitor: Visitor, now: u128)
    requires
        port.settled(),
    ensures
        port.with_tunnel(tunnel).settle().settled(),
        port.with_visitor(visitor).settle().settled(),
        port.without_active().settle().settled(),
        port.unexpired(now).settled(),
        port.without_session(tunnel.token).settled(),
{
    assert(port.with_tunnel(tunnel).settle().settled()) by {
        let arrived = port.with_tunnel(tunnel);
        if arrived.can_pair() {
            assert(port.tunnels.len() == 0);
            assert(arrived.tunnels.drop_first().len() == 0);
        }
    }
    assert(port.with_visitor(visitor).settle().settled()) by {
        let arrived = port.with_visitor(visitor);
        if arrived.can_pair() {
            assert(port.visitors.len() == 0);
            assert(arrived.visitors.drop_first().len() == 0);
        }
    }
    port.visitors.lemma_filter_len(waits_at(now));
    port.tunnels.lemma_filter_len(of_other_session(tunnel.token));
}

/// Lines are served in order of arrival: a pair is formed of the oldest
/// tunnel and the oldest visitor in line, and whoever stays in line keeps
/// their place.
pub proof fn lemma_pairs_are_formed_in_order(port: PairingView)
    requires
        port.can_pair(),
    ensures
        port.formed() == Some(
            Pairing {
                tunnel: port.tunnels[0].id,
                visitor: port.visitors[0].id,
                token: port.tunnels[0].token,
            },
        ),
        port.settle().active == port.formed(),
        port.settle().tunnels == port.tunnels.skip(1),
        port.settle().visitors == port.visitors.skip(1),
{
    assert(port.tunnels.drop_first() =~= port.tunnels.skip(1));
    assert(port.visitors.drop_first() =~= port.visitors.skip(1));
}

/// The visitors that still wait at time `now`.
pub open spec fn waits_at(now: u128) -> spec_fn(Visitor) -> bool {
    |v: Visitor| v.deadline >= now
}

/// The visitors whose deadline lies before `now`.
pub open spec fn lapsed_at(now: u128) -> spec_fn(Visitor) -> bool {
    |v: Visitor| v.deadline < now
}

/// The tunnels that belong to the session of `token`.
pub open spec fn of_session(token: u128) -> spec_fn(Tunnel) -> bool {
    |t: Tunnel| t.token == token
}

/// The tunnels that belong to another session than that of `token`.
pub open spec fn of_other_session(token: u128) -> spec_fn(Tunnel) -> bool {
    |t: Tunnel| t.token != token
}

/// The time until which a visitor that arrived at `now` waits.
pub open spec fn deadline_for(now: u128, wait: u128) -> u128 {
    if now + wait > u128::MAX {
        u128::MAX
    } else {
        (now + wait) as u128
    }
}

/// The pairing state of one forwarding port.
pub struct PortPairing {
    tunnels: Vec<Tunnel>,
    visitors: Vec<Visitor>,
    active: Option<Pairing>,
}

impl View for PortPairing {
    type V = PairingView;

    closed spec fn view(&self) -> PairingView {
        PairingView { tunnels: self.tunnels@, visitors: self.visitors@, active: self.active }
    }
}

impl PortPairing {
    /// A port with nobody in line and nothing relayed.
    pub fn new() -> (port: PortPairing)
        ensures
            port@ == PairingView::idle(),
    {
        PortPairing { tunnels: Vec::new(), visitors: Vec::new(), active: None }
    }

    pub fn state(&self) -> (state: PairingState)
        ensures
            state == self@.state(),
    {
        if self.active.is_some() {
            PairingState::Paired
        } else if self.tunnels.len() > 0 {
            PairingState::WaitingForVisitor
        } else {
            PairingState::WaitingForTunnel
        }
    }

    /// The pair being relayed, if any.
    pub fn active(&self) -> (pair: Option<Pairing>)
        ensures
            pair == self@.active,
    {
        self.active
    }

    /// How many tunnels and how many visitors are in line.
    pub fn waiting(&self) -> (counts: (usize, usize))
        ensures
            counts.0 == self@.tunnels.len(),
            counts.1 == self@.visitors.len(),
    {
        (self.tunnels.len(), self.visitors.len())
    }

    /// Pairs the heads of the two lines if no pair is relayed and neither line is empty.
    fn settle(&mut self) -> (pair: Option<Pairing>)
        ensures
            pair == old(self)@.formed(),
            final(self)@ == old(self)@.settle(),
    {
        if self.active.is_none() && self.tunnels.len() > 0 && self.visitors.len() > 0 {
            let tunnel = self.tunnels.remove(0);
            let visitor = self.visitors.remove(0);
            let pair = Pairing { tunnel: tunnel.id, visitor: visitor.id, token: tunnel.token };
            self.active = Some(pair);
            assert(self.tunnels@ =~= old(self).tunnels@.drop_first());
            assert(self.visitors@ =~= old(self).visitors@.drop_first());
            Some(pair)
        } else {
            None
        }
    }

    /// An authenticated tunnel connection of the session of `token` joins
    /// the line. Returns the pair to relay if its arrival completes one.
    pub fn tunnel_arrived(&mut self, id: u64, token: u128) -> (pair: Option<Pairing>)
        ensures
            pair == old(self)@.with_tunnel(Tunnel { id, token }).formed(),
            final(self)@ == old(self)@.with_tunnel(Tunnel { id, token }).settle(),
    {
        self.tunnels.push(Tunnel { id, token });
        self.settle()
    }

    /// A visitor connection joins the line at time `now`, prepared to wait
    /// for `wait`. Returns the pair to relay if its arrival completes one.
    pub fn visitor_arrived(&mut self, id: u64, now: u128, wait: u128) -> (pair: Option<Pairing>)
        ensures
            pair == old(self)@.with_visitor(Visitor { id, deadline: deadline_for(now, wait) }).formed(),
            final(self)@ == old(self)@.with_visitor(
                Visitor { id, deadline: deadline_for(now, wait) },
            ).settle(),
    {
        let deadline = now.saturating_add(wait);
        self.visitors.push(Visitor { id, deadline });
        self.settle()
    }

    /// The relay of the active pair has ended. Returns the next pair to
    /// relay if both lines are occupied.
    pub fn relay_finished(&mut self) -> (pair: Option<Pairing>)
        ensures
            pair == old(self)@.without_active().formed(),
            final(self)@ == old(self)@.without_active().settle(),
    {
        self.active = None;
        self.settle()
    }

    /// Takes out of line the visitors whose deadline lies before `now` and
    /// returns them, in line order, for the caller to close.
    pub fn expire_visitors(&mut self, now: u128) -> (gone: Vec<Visitor>)
        ensures
            gone@ == old(self)@.expired(now),
            final(self)@ == old(self)@.unexpired(now),
    {
        let ghost keep = waits_at(now);
        let ghost drop = lapsed_at(now);
        let mut kept: Vec<Visitor> = Vec::new();
        let mut gone: Vec<Visitor> = Vec::new();
        let mut i: usize = 0;
        assert(self.visitors@.take(0) =~= Seq::<Visitor>::empty());
        while i < self.visitors.len()
            invariant
                i <= self.visitors@.len(),
                self.visitors@ == old(self).visitors@,
                self.tunnels@ == old(self).tunnels@,
                self.active == old(self).active,
                keep == waits_at(now),
                drop == lapsed_at(now),
                kept@ == self.visitors@.take(i as int).filter(keep),
                gone@ == self.visitors@.take(i as int).filter(drop),
            decreases self.visitors@.len() - i,
        {
            let visitor = self.visitors[i];
            proof {
                let head = self.visitors@.take(i as int);
                assert(self.visitors@.take(i + 1) =~= head.push(visitor));
                head.lemma_filter_push(visitor, keep);
                head.lemma_filter_push(visitor, drop);
            }
            if visitor.deadline >= now {
                kept.push(visitor);
            } else {
                gone.push(visitor);
            }
            i += 1;
        }
        assert(self.visitors@.take(i as int) =~= self.visitors@);
        self.visitors = kept;
        gone
    }

    /// The session of `token` is gone: takes its tunnels out of line and
    /// returns them, in line order, for the caller to close.
    pub fn session_gone(&mut self, token: u128) -> (gone: Vec<Tunnel>)
        ensures
            gone@ == old(self)@.session_tunnels(token),
            final(self)@ == old(self)@.without_session(token),
    {
        let ghost keep = of_other_session(token);
        let ghost drop = of_session(token);
        let mut kept: Vec<Tunnel> = Vec::new();
        let mut gone: Vec<Tunnel> = Vec::new();
        let mut i: usize = 0;
        assert(self.tunnels@.take(0) =~= Seq::<Tunnel>::empty());
        while i < self.tunnels.len()
            invariant
                i <= self.tunnels@.len(),
                self.visitors@ == old(self).visitors@,
                self.tunnels@ == old(self).tunnels@,
                self.active == old(self).active,
                keep == of_other_session(token),
                drop == of_session(token),
                kept@ == self.tunnels@.take(i as int).filter(keep),
                gone@ == self.tunnels@.take(i as int).filter(drop),
            decreases self.tunnels@.len() - i,
        {
            let tunnel = self.tunnels[i];
            proof {
                let head = self.tunnels@.take(i as int);
                assert(self.tunnels@.take(i + 1) =~= head.push(tunnel));
                head.lemma_filter_push(tunnel, keep);
                head.lemma_filter_push(tunnel, drop);
            }
            if tunnel.token != token {
                kept.push(tunnel);
            } else {
                gone.push(tunnel);
            }
            i += 1;
        }
        assert(self.tunnels@.take(i as int) =~= self.tunnels@);
        self.tunnels = kept;
        gone
    }
}

} // verus!
