//! The session registry: the single source of truth for which tokens are live.

use std::collections::{HashMap, HashSet};
use vstd::prelude::*;

use crate::error::NotFound;

verus! {

broadcast use vstd::std_specs::hash::group_hash_axioms;

/// One authenticated, live control registration.
#[derive(Debug, Clone, PartialEq, Eq)]
pub struct ConnectionState {
    /// Time of the most recent liveness signal, in milliseconds.
    pub last_heart_beat: u128,
    /// Time of registration, in milliseconds.
    pub register_time: u128,
    /// The authenticated client this session belongs to.
    pub name: String,
    /// The session key, which is also the bearer credential of the data channel.
    pub token: u128,
    /// The port on which this client's tunnel connections are accepted.
    pub forwarding_port: u16,
    /// Whether an authenticated tunnel connection is currently attached.
    pub tunnel_attached: bool,
}

/// The mathematical content of a [`ConnectionState`].
pub struct SessionView {
    pub last_heart_beat: u128,
    pub register_time: u128,
    pub name: Seq<char>,
    pub token: u128,
    pub forwarding_port: u16,
    pub tunnel_attached: bool,
}

impl View for ConnectionState {
    type V = SessionView;

    open spec fn view(&self) -> SessionView {
        SessionView {
            last_heart_beat: self.last_heart_beat,
            register_time: self.register_time,
            name: self.name@,
            token: self.token,
            forwarding_port: self.forwarding_port,
            tunnel_attached: self.tunnel_attached,
        }
    }
}

impl SessionView {
    /// The session as it stands right after registration at time `now`.
    pub open spec fn fresh(token: u128, name: Seq<char>, port: u16, now: u128) -> SessionView {
        SessionView {
            last_heart_beat: now,
            register_time: now,
            name,
            token,
            forwarding_port: port,
            tunnel_attached: false,
        }
    }

    /// The session after a liveness signal at time `now`; the heartbeat never moves back.
    pub open spec fn touched(self, now: u128) -> SessionView {
        SessionView {
            last_heart_beat: if now > self.last_heart_beat { now } else { self.last_heart_beat },
            ..self
        }
    }

    /// Whether the session has been silent for `timeout` or longer at time `now`.
    pub open spec fn expired_at(self, now: u128, timeout: u128) -> bool {
        now - self.last_heart_beat >= timeout
    }

    /// The session with its tunnel slot set to `attached`.
    pub open spec fn with_tunnel(self, attached: bool) -> SessionView {
        SessionView { tunnel_attached: attached, ..self }
    }
}

impl ConnectionState {
    /// Whether the session has been silent for `timeout` or longer at time
    /// `now`, counted from its last liveness signal.
    pub fn is_expired(&self, now: u128, timeout: u128) -> (expired: bool)
        ensures
            expired == self@.expired_at(now, timeout),
    {
        now >= self.last_heart_beat && now - self.last_heart_beat >= timeout
    }
}

/// The mathematical content of a [`SessionRegistry`].
#[verifier::ext_equal]
pub struct RegistryView {
    /// The live sessions, by token.
    pub live: Map<u128, SessionView>,
    /// Every token that was ever handed out, live or not.
    pub issued: Set<u128>,
}

impl RegistryView {
    pub open spec fn empty() -> RegistryView {
        RegistryView { live: Map::empty(), issued: Set::empty() }
    }

    /// Every live session is filed under its own token, and that token counts as issued.
    pub open spec fn wf(self) -> bool {
        &&& self.live.dom().finite()
        &&& self.issued.finite()
        &&& forall|t: u128| #[trigger]
            self.live.contains_key(t) ==> self.issued.contains(t) && self.live[t].token == t
    }

    pub open spec fn is_live(self, token: u128) -> bool {
        self.live.contains_key(token)
    }

    pub open spec fn was_issued(self, token: u128) -> bool {
        self.issued.contains(token)
    }

    pub open spec fn lookup(self, token: u128) -> Option<SessionView> {
        if self.live.contains_key(token) {
            Some(self.live[token])
        } else {
            None
        }
    }

    pub open spec fn insert(self, session: SessionView) -> RegistryView {
        RegistryView {
            live: self.live.insert(session.token, session),
            issued: self.issued.insert(session.token),
        }
    }

    pub open spec fn remove(self, token: u128) -> RegistryView {
        RegistryView { live: self.live.remove(token), issued: self.issued }
    }

    pub open spec fn touch(self, token: u128, now: u128) -> RegistryView {
        if self.live.contains_key(token) {
            RegistryView { live: self.live.insert(token, self.live[token].touched(now)), ..self }
        } else {
            self
        }
    }

    pub open spec fn set_tunnel(self, token: u128, attached: bool) -> RegistryView {
        if self.live.contains_key(token) {
            RegistryView {
                live: self.live.insert(token, self.live[token].with_tunnel(attached)),
                ..self
            }
        } else {
            self
        }
    }
}

/// A map from session token to session state, together with the record of
/// every token ever issued, so that no token is handed out twice.
pub struct SessionRegistry {
    sessions: HashMap<u128, ConnectionState>,
    issued: HashSet<u128>,
}

impl View for SessionRegistry {
    type V = RegistryView;

    closed spec fn view(&self) -> RegistryView {
        RegistryView {
            live: Map::new(
                |t: u128| self.sessions@.contains_key(t),
                |t: u128| self.sessions@[t]@,
            ),
            issued: self.issued@,
        }
    }
}

impl SessionRegistry {
    #[verifier::type_invariant]
    spec fn inv(self) -> bool {
        parts_inv(self.sessions@, self.issued@)
    }

    /// What the type invariant says of the view.
    proof fn lemma_inv_gives_wf(self)
        requires
            self.inv(),
        ensures
            self@.wf(),
            self@.live.dom() == self.sessions@.dom(),
    {
        assert(self@.live.dom() =~= self.sessions@.dom());
    }

    pub fn new() -> (r: SessionRegistry)
        ensures
            r@ == RegistryView::empty(),
            r@.wf(),
    {
        let r = SessionRegistry { sessions: HashMap::new(), issued: HashSet::new() };
        assert(r@.live =~= Map::empty());
        r
    }

    /// The number of live sessions.
    pub fn len(&self) -> (n: usize)
        ensures
            n == self@.live.len(),
            self@.wf(),
    {
        proof {
            use_type_invariant(self);
            self.lemma_inv_gives_wf();
        }
        self.sessions.len()
    }

    /// Whether `token` was ever handed out, whether or not its session is still live.
    pub fn was_issued(&self, token: u128) -> (b: bool)
        ensures
            b == self@.was_issued(token),
    {
        self.issued.contains(&token)
    }

    /// Non-mutating lookup; it does not extend the session's life.
    pub fn get(&self, token: u128) -> (r: Option<&ConnectionState>)
        ensures
            match r {
                Some(s) => self@.lookup(token) == Some(s@),
                None => self@.lookup(token).is_none(),
            },
    {
        self.sessions.get(&token)
    }

    /// Moves both collections out, leaving the registry empty.
    fn take_parts(&mut self) -> (parts: (HashMap<u128, ConnectionState>, HashSet<u128>))
        ensures
            parts.0 == old(self).sessions,
            parts.1 == old(self).issued,
            parts_inv(parts.0@, parts.1@),
    {
        proof {
            use_type_invariant(&*self);
        }
        let mut sessions: HashMap<u128, ConnectionState> = HashMap::new();
        let mut issued: HashSet<u128> = HashSet::new();
        std::mem::swap(&mut sessions, &mut self.sessions);
        std::mem::swap(&mut issued, &mut self.issued);
        (sessions, issued)
    }

    /// Moves both collections back in.
    fn put_parts(&mut self, sessions: HashMap<u128, ConnectionState>, issued: HashSet<u128>)
        requires
            parts_inv(sessions@, issued@),
        ensures
            final(self).sessions == sessions,
            final(self).issued == issued,
            final(self)@.wf(),
    {
        proof {
            use_type_invariant(&*self);
        }
        self.sessions = HashMap::new();
        self.issued = issued;
        self.sessions = sessions;
        proof {
            self.lemma_inv_gives_wf();
        }
    }

    /// Adds a new session under its token and records the token as issued.
    ///
    /// The token must never have been issued before: draw another one on a
    /// collision instead of calling this.
    pub fn insert(&mut self, session: ConnectionState)
        requires
            !old(self)@.was_issued(session.token),
        ensures
            final(self)@ == old(self)@.insert(session@),
            final(self)@.wf(),
    {
        let token = session.token;
        let (mut sessions, mut issued) = self.take_parts();
        issued.insert(token);
        sessions.insert(token, session);
        self.put_parts(sessions, issued);
        assert(self@.live =~= old(self)@.live.insert(token, session@));
    }

    /// Idempotent removal: hands back the session if it was live, `None` if it
    /// was already gone. The token stays issued either way.
    pub fn remove(&mut self, token: u128) -> (r: Option<ConnectionState>)
        ensures
            final(self)@ == old(self)@.remove(token),
            final(self)@.wf(),
            match r {
                Some(s) => old(self)@.lookup(token) == Some(s@),
                None => old(self)@.lookup(token).is_none(),
            },
    {
        let (mut sessions, issued) = self.take_parts();
        let r = sessions.remove(&token);
        self.put_parts(sessions, issued);
        assert(self@.live =~= old(self)@.live.remove(token));
        r
    }

    /// Records a liveness signal at time `now`.
    ///
    /// Fails when the session is gone, which tells the caller to end the
    /// control connection.
    pub fn touch(&mut self, token: u128, now: u128) -> (r: Result<(), NotFound>)
        ensures
            final(self)@ == old(self)@.touch(token, now),
            final(self)@.wf(),
            r.is_ok() == old(self)@.is_live(token),
    {
        let (mut sessions, issued) = self.take_parts();
        let found = sessions.remove(&token);
        let r = match found {
            Some(mut session) => {
                if now > session.last_heart_beat {
                    session.last_heart_beat = now;
                }
                sessions.insert(token, session);
                Ok(())
            },
            None => Err(NotFound),
        };
        self.put_parts(sessions, issued);
        assert(self@.live =~= old(self)@.touch(token, now).live);
        r
    }

    /// Records whether a tunnel connection is attached to the session.
    pub fn set_tunnel(&mut self, token: u128, attached: bool) -> (r: Result<(), NotFound>)
        ensures
            final(self)@ == old(self)@.set_tunnel(token, attached),
            final(self)@.wf(),
            r.is_ok() == old(self)@.is_live(token),
    {
        let (mut sessions, issued) = self.take_parts();
        let found = sessions.remove(&token);
        let r = match found {
            Some(mut session) => {
                session.tunnel_attached = attached;
                sessions.insert(token, session);
                Ok(())
            },
            None => Err(NotFound),
        };
        self.put_parts(sessions, issued);
        assert(self@.live =~= old(self)@.set_tunnel(token, attached).live);
        r
    }
}

/// The invariant, stated of the two collections rather than of the registry.
spec fn parts_inv(sessions: Map<u128, ConnectionState>, issued: Set<u128>) -> bool {
    &&& sessions.dom().finite()
    &&& issued.finite()
    &&& forall|t: u128| #[trigger]
        sessions.contains_key(t) ==> issued.contains(t) && sessions[t].token == t
}

} // verus!
