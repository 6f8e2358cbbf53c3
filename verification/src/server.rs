use vstd::prelude::*;
use std::collections::HashMap;
use tokio::sync::mpsc::UnboundedSender;

use crate::messages::UserRole;

verus! {

broadcast use vstd::std_specs::hash::group_hash_axioms;

/// The sending half of a tokio unbounded channel, carried as an opaque value.
#[verifier::external_type_specification]
#[verifier::external_body]
#[verifier::reject_recursive_types(T)]
pub struct ExUnboundedSender<T>(UnboundedSender<T>);

/// A connected WebSocket session: where its messages go and its role.
#[verifier::reject_recursive_types(M)]
pub struct SessionInfo<M> {
    pub tx: UnboundedSender<M>,
    pub role: UserRole,
}

/// One message handed to the channel of one session.
#[verifier::reject_recursive_types(M)]
pub struct Handoff<M> {
    pub session: usize,
    pub tx: UnboundedSender<M>,
    pub message: M,
}

/// Central registry of all connected sessions, keyed by session id, with the
/// record of every message it has handed to a session channel, in order.
/// Messages reach a channel only through `hand_to`, which records them.
#[verifier::reject_recursive_types(M)]
pub struct WashServer<M> {
    sessions: HashMap<usize, SessionInfo<M>>,
    handed: Ghost<Seq<Handoff<M>>>,
}

/// Hands `msg` to the channel behind `tx` with tokio's
/// `UnboundedSender::send`. Whether it arrives depends on whether the receiving
/// half is still alive, so nothing is stated of the outcome, which is ignored.
#[verifier::external_body]
fn hand_over<M>(tx: &UnboundedSender<M>, msg: M) {
    let _ = tx.send(msg);
}

impl<M> WashServer<M> {
    /// The connected sessions, by session id.
    pub closed spec fn registry(&self) -> Map<usize, SessionInfo<M>> {
        self.sessions@
    }

    /// Every message handed to a session channel so far, in order.
    pub closed spec fn handed(&self) -> Seq<Handoff<M>> {
        self.handed@
    }

    /// The role of every connected session, by session id.
    pub open spec fn roles(&self) -> Map<usize, UserRole> {
        self.registry().map_values(|s: SessionInfo<M>| s.role)
    }

    /// A registry with no session, that has handed over nothing.
    pub fn new() -> (s: Self)
        ensures
            s.registry() == Map::<usize, SessionInfo<M>>::empty(),
            s.handed() == Seq::<Handoff<M>>::empty(),
    {
        WashServer { sessions: HashMap::new(), handed: Ghost(Seq::empty()) }
    }

    /// The table of connected sessions, for reading.
    pub(crate) fn session_table(&self) -> (table: &HashMap<usize, SessionInfo<M>>)
        ensures
            table@ == self.registry(),
    {
        &self.sessions
    }

    /// Registers the session `id` with its channel and role, replacing any
    /// earlier session under the same id.
    pub fn connexion(&mut self, id: usize, tx: UnboundedSender<M>, role: UserRole)
        ensures
            final(self).registry() == old(self).registry().insert(id, SessionInfo { tx, role }),
            final(self).handed() == old(self).handed(),
    {
        let session = SessionInfo { tx, role };
        self.sessions.insert(id, session);
    }

    /// Forgets the session `id`; nothing changes when it is not registered.
    pub fn deconnexion(&mut self, id: usize)
        ensures
            final(self).registry() == old(self).registry().remove(id),
            final(self).handed() == old(self).handed(),
    {
        self.sessions.remove(&id);
    }

    /// Hands `msg` to the channel of session `id` and records the handoff.
    pub(crate) fn hand_to(&mut self, id: usize, msg: M)
        requires
            old(self).registry().contains_key(id),
        ensures
            final(self).registry() == old(self).registry(),
            final(self).handed() == old(self).handed().push(
                Handoff { session: id, tx: old(self).registry()[id].tx, message: msg },
            ),
    {
        let ghost handoff = Handoff { session: id, tx: self.sessions@[id].tx, message: msg };
        match self.sessions.get(&id) {
            Some(session) => hand_over(&session.tx, msg),
            None => {},
        }
        proof {
            self.handed = Ghost(self.handed@.push(handoff));
        }
    }
}

} // verus!
