use vstd::prelude::*;

use crate::messages::UserRole;
use crate::server::{Handoff, SessionInfo, WashServer};
use vstd::std_specs::iter::IteratorSpec;

verus! {

broadcast use vstd::std_specs::hash::group_hash_axioms;

/// The sessions, among those of `roles`, whose role lies in `wanted`.
pub open spec fn members(roles: Map<usize, UserRole>, wanted: Set<UserRole>) -> Set<usize> {
    Set::new(|id: usize| roles.contains_key(id) && wanted.contains(roles[id]))
}

/// `handoffs` are one copy of `msg` for each session of `ids`, in that
/// order, each handed to the channel that `sessions` holds for it.
pub open spec fn copies_sent<M: Clone>(
    handoffs: Seq<Handoff<M>>,
    sessions: Map<usize, SessionInfo<M>>,
    ids: Seq<usize>,
    msg: M,
) -> bool {
    &&& handoffs.len() == ids.len()
    &&& forall|k: int|
        0 <= k < ids.len() ==> {
            &&& (#[trigger] handoffs[k]).session == ids[k]
            &&& sessions.contains_key(ids[k])
            &&& handoffs[k].tx == sessions[ids[k]].tx
            &&& cloned(msg, handoffs[k].message)
        }
}

/// Whether `role` appears in `roles`.
fn listed(roles: &[UserRole], role: UserRole) -> (found: bool)
    ensures
        found == roles@.contains(role),
{
    let mut i: usize = 0;
    while i < roles.len()
        invariant
            i <= roles@.len(),
            forall|j: int| 0 <= j < i ==> roles@[j] != role,
        decreases roles@.len() - i,
    {
        if roles[i] == role {
            return true;
        }
        i = i + 1;
    }
    false
}

impl<M> WashServer<M> {
    /// The ids of the sessions whose role is listed in `roles`, each once, in
    /// the order the registry is walked.
    fn recipients(&self, roles: &[UserRole]) -> (ids: Vec<usize>)
        ensures
            ids@.no_duplicates(),
            ids@.to_set() == members(self.roles(), roles@.to_set()),
    {
        let table = self.session_table();
        let mut ids: Vec<usize> = Vec::new();
        let ghost m = table@;
        for (id, session) in it: table.iter()
            invariant
                m == table@,
                it.seq() == vstd::std_specs::hash::spec_hash_map_iter(table).remaining(),
                it.seq().no_duplicates(),
                ids@.no_duplicates(),
                forall|k: usize|
                    ids@.contains(k) <==> exists|j: int|
                        0 <= j < it.index() && *it.seq()[j].0 == k && roles@.contains(it.seq()[j].1.role),
        {
            let ghost idx = it.index();
            let ghost before = ids@;
            proof {
                assert(m.contains_key(*it.seq()[idx].0));
                assert(*it.seq()[idx].0 == *id && it.seq()[idx].1.role == session.role);
            }
            if listed(roles, session.role) {
                proof {
                    if before.contains(*id) {
                        let j = choose|j: int|
                            0 <= j < idx && *it.seq()[j].0 == *id && roles@.contains(it.seq()[j].1.role);
                        assert(m.contains_key(*it.seq()[j].0));
                        assert(it.seq()[j] == it.seq()[idx]);
                    }
                }
                ids.push(*id);
                assert(ids@ == before.push(*id));
                assert(ids@[ids@.len() - 1] == *id);
                assert forall|k: usize| ids@.contains(k) <==> (before.contains(k) || k == *id) by {
                    if before.contains(k) {
                        let j = choose|j: int| 0 <= j < before.len() && before[j] == k;
                        assert(ids@[j] == k);
                    }
                    if ids@.contains(k) {
                        let j = choose|j: int| 0 <= j < ids@.len() && ids@[j] == k;
                        if j < before.len() {
                            assert(before[j] == k);
                        }
                    }
                }
            }
            proof {
                assert forall|k: usize|
                    ids@.contains(k) <==> exists|j: int|
                        0 <= j < idx + 1 && *it.seq()[j].0 == k && roles@.contains(it.seq()[j].1.role) by {
                    if k == *id && roles@.contains(session.role) {
                        assert(*it.seq()[idx].0 == k && roles@.contains(it.seq()[idx].1.role));
                    }
                    if before.contains(k) {
                        let j = choose|j: int|
                            0 <= j < idx && *it.seq()[j].0 == k && roles@.contains(it.seq()[j].1.role);
                        assert(0 <= j < idx + 1 && *it.seq()[j].0 == k && roles@.contains(it.seq()[j].1.role));
                    }
                    if exists|j: int|
                        0 <= j < idx + 1 && *it.seq()[j].0 == k && roles@.contains(it.seq()[j].1.role) {
                        let j = choose|j: int|
                            0 <= j < idx + 1 && *it.seq()[j].0 == k && roles@.contains(it.seq()[j].1.role);
                        if j < idx {
                            assert(before.contains(k));
                        }
                    }
                }
            }
        }
        proof {
            let v = vstd::std_specs::hash::spec_hash_map_iter(table).remaining();
            assert forall|k: usize|
                ids@.to_set().contains(k) <==> members(self.roles(), roles@.to_set()).contains(k) by {
                if members(self.roles(), roles@.to_set()).contains(k) {
                    assert(v.contains((&k, &m[k])));
                    let j = choose|j: int| 0 <= j < v.len() && v[j] == (&k, &m[k]);
                    assert(*v[j].0 == k);
                }
                if ids@.contains(k) {
                    let j = choose|j: int| 0 <= j < v.len() && *v[j].0 == k && roles@.contains(v[j].1.role);
                    assert(m.contains_key(*v[j].0));
                }
            }
            assert(ids@.to_set() =~= members(self.roles(), roles@.to_set()));
        }
        ids
    }

    /// Hands a copy of `msg` to the channel of every session whose role is
    /// listed in `roles`, and to no other, and returns the ids of those
    /// sessions, each once, in the order the registry was walked.
    pub fn broadcast_to_roles(&mut self, msg: M, roles: &[UserRole]) -> (sent_to: Vec<usize>)
        where M: Clone,
        ensures
            final(self).registry() == old(self).registry(),
            sent_to@.no_duplicates(),
            sent_to@.to_set() == members(old(self).roles(), roles@.to_set()),
            final(self).handed().subrange(0, old(self).handed().len() as int) == old(self).handed(),
            copies_sent(
                final(self).handed().skip(old(self).handed().len() as int),
                old(self).registry(),
                sent_to@,
                msg,
            ),
    {
        let sent_to = self.recipients(roles);
        let ghost registry = self.registry();
        let ghost start = self.handed();
        let mut i: usize = 0;
        proof {
            assert forall|k: int| 0 <= k < sent_to@.len() implies registry.contains_key(sent_to@[k]) by {
                assert(sent_to@.to_set().contains(sent_to@[k]));
            }
            assert(self.handed().skip(start.len() as int) =~= Seq::<Handoff<M>>::empty());
            assert(self.handed().subrange(0, start.len() as int) =~= start);
        }
        while i < sent_to.len()
            invariant
                i <= sent_to@.len(),
                registry == old(self).registry(),
                start == old(self).handed(),
                self.registry() == registry,
                forall|k: int| 0 <= k < sent_to@.len() ==> registry.contains_key(sent_to@[k]),
                self.handed().len() == start.len() + i,
                self.handed().subrange(0, start.len() as int) == start,
                copies_sent(self.handed().skip(start.len() as int), registry, sent_to@.take(i as int), msg),
            decreases sent_to@.len() - i,
        {
            let ghost before = self.handed();
            let copy = msg.clone();
            self.hand_to(sent_to[i], copy);
            proof {
                assert(self.handed().subrange(0, start.len() as int) =~= before.subrange(0, start.len() as int));
                assert(self.handed().skip(start.len() as int) =~= before.skip(start.len() as int).push(
                    self.handed()[self.handed().len() - 1],
                ));
            }
            i = i + 1;
            proof {
                assert(sent_to@.take(i as int) =~= sent_to@.take(i - 1).push(sent_to@[i - 1]));
            }
        }
        proof {
            assert(sent_to@.take(sent_to@.len() as int) =~= sent_to@);
        }
        sent_to
    }

    /// Hands a copy of `msg` to the channel of every session of role `role`,
    /// and to no other, and returns the ids of those sessions, each once, in
    /// the order the registry was walked.
    pub fn broadcast_to_role(&mut self, msg: M, role: UserRole) -> (sent_to: Vec<usize>)
        where M: Clone,
        ensures
            final(self).registry() == old(self).registry(),
            sent_to@.no_duplicates(),
            sent_to@.to_set() == members(old(self).roles(), set![role]),
            final(self).handed().subrange(0, old(self).handed().len() as int) == old(self).handed(),
            copies_sent(
                final(self).handed().skip(old(self).handed().len() as int),
                old(self).registry(),
                sent_to@,
                msg,
            ),
    {
        let wanted: Vec<UserRole> = vec![role];
        let sent_to = self.broadcast_to_roles(msg, wanted.as_slice());
        assert(wanted@.to_set() =~= set![role]) by {
            assert(wanted@[0] == role);
        }
        sent_to
    }
}

} // verus!
