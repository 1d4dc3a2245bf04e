//! One round of sending a telemetry frame to every connected client.
//!
//! Clients are visited by place. One that is closed or cannot be reached is
//! dropped, and the last client takes its place and is visited next.

use vstd::prelude::*;

verus! {

/// How sending to one client went.
#[derive(Clone, Copy, Debug, PartialEq, Eq, Structural)]
pub enum Outcome {
    /// The socket was already closed; nothing was sent.
    Closed,
    SendFailed,
    Sent,
}

/// A round over the connected clients: `clients[..at]` were reached, the rest
/// are still to be visited.
#[derive(Debug)]
pub struct Round {
    pub clients: Vec<u64>,
    pub at: usize,
}

/// The clients that a round has still to visit.
pub open spec fn unvisited(clients: Seq<u64>, at: int) -> vstd::multiset::Multiset<u64> {
    clients.subrange(at, clients.len() as int).to_multiset()
}

impl Round {
    /// The round has not run past its clients.
    pub open spec fn wf(self) -> bool {
        self.at <= self.clients@.len()
    }

    /// Starts a round.
    pub fn new(clients: Vec<u64>) -> (r: Self)
        ensures
            r.wf(),
            r.clients@ == clients@,
            r.at == 0,
    {
        Round { clients, at: 0 }
    }

    /// The client to send to next.
    pub fn current(&self) -> (c: Option<u64>)
        requires
            self.wf(),
        ensures
            c == (if self.at < self.clients@.len() {
                Some(self.clients@[self.at as int])
            } else {
                None::<u64>
            }),
    {
        if self.at < self.clients.len() {
            Some(self.clients[self.at])
        } else {
            None
        }
    }

    /// Takes the outcome for the current client. Says whether it was dropped.
    /// Either way one client fewer is left to visit, and it is the current one.
    pub fn settle(&mut self, outcome: Outcome) -> (dropped: bool)
        requires
            old(self).wf(),
            old(self).at < old(self).clients@.len(),
        ensures
            final(self).wf(),
            dropped == (outcome != Outcome::Sent),
            !dropped ==> final(self).clients@ == old(self).clients@ && final(self).at == old(
                self,
            ).at + 1,
            dropped ==> final(self).at == old(self).at && final(self).clients@ == old(
                self,
            ).clients@.update(old(self).at as int, old(self).clients@.last()).drop_last(),
            final(self).clients@.len() - final(self).at == old(self).clients@.len() - old(self).at
                - 1,
            unvisited(final(self).clients@, final(self).at as int) == unvisited(
                old(self).clients@,
                old(self).at as int,
            ).remove(old(self).clients@[old(self).at as int]),
    {
        let ghost before = self.clients@;
        let ghost i = self.at as int;
        match outcome {
            Outcome::Sent => {
                assert(self.clients@.len() == self.clients.len());
                self.at = self.at + 1;
                proof {
                    visited_one(before, i);
                }
                false
            },
            _ => {
                let at: usize = self.at;
                self.clients.swap_remove(at);
                proof {
                    assert(self.clients@ =~= before.update(i, before.last()).drop_last());
                    replaced_one(before, i);
                }
                true
            },
        }
    }
}

proof fn visited_one(clients: Seq<u64>, at: int)
    requires
        0 <= at < clients.len(),
    ensures
        unvisited(clients, at + 1) == unvisited(clients, at).remove(clients[at]),
{
    broadcast use vstd::seq_lib::group_to_multiset_ensures;

    let left = clients.subrange(at, clients.len() as int);
    assert(clients.subrange(at + 1, clients.len() as int) =~= left.remove(0));
    assert(left[0] == clients[at]);
}

proof fn replaced_one(clients: Seq<u64>, at: int)
    requires
        0 <= at < clients.len(),
    ensures
        unvisited(clients.update(at, clients.last()).drop_last(), at) == unvisited(
            clients,
            at,
        ).remove(clients[at]),
{
    broadcast use vstd::seq_lib::group_to_multiset_ensures;

    let left = clients.subrange(at, clients.len() as int);
    let n = left.len();
    let after = clients.update(at, clients.last()).drop_last().subrange(at, clients.len() - 1);
    if n == 1 {
        assert(after =~= left.remove(0));
    } else {
        let middle = left.subrange(1, n - 1);
        let last = left.last();
        assert(after =~= seq![last] + middle);
        assert(left =~= (seq![clients[at]] + middle).push(last));
        assert((seq![last] + middle).remove(0) =~= middle);
        assert((seq![clients[at]] + middle).remove(0) =~= middle);
        let a = (seq![last] + middle).to_multiset();
        let b = left.to_multiset();
        let m = middle.to_multiset();
        assert(m == a.remove(last));
        assert(m == (seq![clients[at]] + middle).to_multiset().remove(clients[at]));
        assert(a.contains(last)) by {
            assert((seq![last] + middle)[0] == last);
        }
        assert((seq![clients[at]] + middle).to_multiset().contains(clients[at])) by {
            assert((seq![clients[at]] + middle)[0] == clients[at]);
        }
        assert(a =~= m.insert(last));
        assert((seq![clients[at]] + middle).to_multiset() =~= m.insert(clients[at]));
        assert(b == (seq![clients[at]] + middle).to_multiset().insert(last));
        assert(b =~= m.insert(clients[at]).insert(last));
        assert(a =~= b.remove(clients[at]));
    }
    assert(clients.update(at, clients.last()).drop_last().subrange(
        at,
        clients.update(at, clients.last()).drop_last().len() as int,
    ) =~= after);
}

/// The clients left after a round with the given outcomes, visited from `at`.
pub open spec fn survivors(clients: Seq<u64>, at: int, reached: spec_fn(u64) -> bool) -> Seq<u64>
    decreases clients.len() - at,
{
    if at < 0 || at >= clients.len() {
        clients
    } else if reached(clients[at]) {
        survivors(clients, at + 1, reached)
    } else {
        survivors(clients.update(at, clients.last()).drop_last(), at, reached)
    }
}

/// After a round exactly the reached clients are left.
pub proof fn round_keeps_the_reached(
    clients: Seq<u64>,
    at: int,
    reached: spec_fn(u64) -> bool,
    c: u64,
)
    requires
        0 <= at <= clients.len(),
        forall|i: int| 0 <= i < at ==> reached(#[trigger] clients[i]),
    ensures
        survivors(clients, at, reached).contains(c) <==> clients.contains(c) && reached(c),
    decreases clients.len() - at,
{
    if at < clients.len() {
        if reached(clients[at]) {
            round_keeps_the_reached(clients, at + 1, reached, c);
        } else {
            let next = clients.update(at, clients.last()).drop_last();
            round_keeps_the_reached(next, at, reached, c);
            if clients.contains(c) && reached(c) {
                let i = choose|i: int| 0 <= i < clients.len() && clients[i] == c;
                if i == clients.len() - 1 {
                    assert(next[at] == c);
                } else {
                    assert(next[i] == c);
                }
            }
            if next.contains(c) {
                let i = choose|i: int| 0 <= i < next.len() && next[i] == c;
                if i == at {
                    assert(clients[clients.len() - 1] == c);
                } else {
                    assert(clients[i] == c);
                }
            }
        }
    }
}

} // verus!
