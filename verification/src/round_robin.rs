//! Round-robin selection: the pool is scanned cyclically from the current
//! position for the first healthy server.

use vstd::prelude::*;

use crate::lb::{LoadBalancer, LoadBalancerResult, Server, ServerState};

verus! {

/// How many servers of the pool are unhealthy.
pub open spec fn unhealthy_in(s: Seq<Server>) -> int
    decreases s.len(),
{
    if s.len() == 0 {
        0
    } else {
        unhealthy_in(s.drop_last()) + if s.last().state is Unhealthy {
            1int
        } else {
            0int
        }
    }
}

proof fn lemma_unhealthy_in_bounds(s: Seq<Server>)
    ensures
        0 <= unhealthy_in(s) <= s.len(),
    decreases s.len(),
{
    if s.len() > 0 {
        lemma_unhealthy_in_bounds(s.drop_last());
    }
}

proof fn lemma_unhealthy_in_member(s: Seq<Server>, i: int)
    requires
        0 <= i < s.len(),
    ensures
        s[i].state is Unhealthy ==> unhealthy_in(s) >= 1,
        s[i].state is Healthy ==> unhealthy_in(s) <= s.len() - 1,
    decreases s.len(),
{
    lemma_unhealthy_in_bounds(s.drop_last());
    if i < s.len() - 1 {
        lemma_unhealthy_in_member(s.drop_last(), i);
    }
}

proof fn lemma_unhealthy_in_full(s: Seq<Server>)
    requires
        unhealthy_in(s) == s.len(),
    ensures
        forall|i: int| 0 <= i < s.len() ==> (#[trigger] s[i]).state is Unhealthy,
    decreases s.len(),
{
    if s.len() > 0 {
        lemma_unhealthy_in_bounds(s.drop_last());
        lemma_unhealthy_in_full(s.drop_last());
        assert forall|i: int| 0 <= i < s.len() implies (#[trigger] s[i]).state is Unhealthy by {
            if i < s.len() - 1 {
                assert(s.drop_last()[i] == s[i]);
            } else {
                assert(s[i] == s.last());
            }
        }
    }
}

proof fn lemma_unhealthy_in_all(s: Seq<Server>)
    requires
        forall|i: int| 0 <= i < s.len() ==> (#[trigger] s[i]).state is Unhealthy,
    ensures
        unhealthy_in(s) == s.len(),
    decreases s.len(),
{
    if s.len() > 0 {
        assert forall|i: int| 0 <= i < s.drop_last().len() implies (#[trigger] s.drop_last()[
            i
        ]).state is Unhealthy by {
            assert(s.drop_last()[i] == s[i]);
        }
        lemma_unhealthy_in_all(s.drop_last());
    }
}

proof fn lemma_unhealthy_in_update(s: Seq<Server>, i: int, v: Server)
    requires
        0 <= i < s.len(),
    ensures
        unhealthy_in(s.update(i, v)) == unhealthy_in(s) - (if s[i].state is Unhealthy {
            1int
        } else {
            0int
        }) + (if v.state is Unhealthy {
            1int
        } else {
            0int
        }),
    decreases s.len(),
{
    let su = s.update(i, v);
    if i == s.len() - 1 {
        assert(su.drop_last() =~= s.drop_last());
        assert(su.last() == v);
    } else {
        assert(su.drop_last() =~= s.drop_last().update(i, v));
        assert(su.last() == s.last());
        lemma_unhealthy_in_update(s.drop_last(), i, v);
    }
}

/// Round-robin balancer over a fixed pool.  `current_index` is where the
/// cyclic scan for the next healthy server begins; `unhealthy_count` caches
/// how many servers are unhealthy.
pub struct RoundRobin {
    pub servers: Vec<Server>,
    pub current_index: usize,
    pub unhealthy_count: usize,
}

impl RoundRobin {
    /// The position `k` steps after `start`, wrapping around a pool of `n`
    /// servers (for `0 <= start < n` and `0 <= k < n`).
    pub open spec fn cyclic_index(start: int, k: int, n: int) -> int {
        if start + k < n {
            start + k
        } else {
            start + k - n
        }
    }

    /// The first `k` cyclic positions from `start` hold unhealthy servers.
    pub open spec fn all_unhealthy_before(s: Seq<Server>, start: int, k: int) -> bool {
        forall|j: int|
            0 <= j < k ==> (#[trigger] s[Self::cyclic_index(start, j, s.len() as int)].state)
                is Unhealthy
    }

    /// Create a balancer over a non-empty pool, scanning from the first
    /// server.
    pub fn new(servers: Vec<Server>) -> (lb: RoundRobin)
        requires
            servers@.len() > 0,
        ensures
            lb.servers@ == servers@,
            lb.current_index == 0,
            lb.inv(),
    {
        let n = servers.len();
        let mut unhealthy_count: usize = 0;
        let mut i: usize = 0;
        while i < n
            invariant
                n == servers@.len(),
                0 <= i <= n,
                0 <= unhealthy_count <= i,
                unhealthy_count == unhealthy_in(servers@.take(i as int)),
            decreases n - i,
        {
            proof {
                assert(servers@.take(i + 1).drop_last() =~= servers@.take(i as int));
                assert(servers@.take(i + 1).last() == servers@[i as int]);
            }
            match servers[i].state {
                ServerState::Unhealthy => {
                    unhealthy_count = unhealthy_count + 1;
                },
                ServerState::Healthy => {},
            }
            i = i + 1;
        }
        proof {
            assert(servers@.take(n as int) =~= servers@);
        }
        RoundRobin { servers, current_index: 0, unhealthy_count }
    }
}

impl LoadBalancer for RoundRobin {
    open spec fn inv(&self) -> bool {
        &&& self.servers@.len() > 0
        &&& self.current_index < self.servers@.len()
        &&& self.unhealthy_count == unhealthy_in(self.servers@)
    }

    open spec fn spec_servers(&self) -> Seq<Server> {
        self.servers@
    }

    open spec fn select_step(pre: Self, post: Self, res: LoadBalancerResult) -> bool {
        &&& post.servers@ == pre.servers@
        &&& post.unhealthy_count == pre.unhealthy_count
        &&& match res {
            LoadBalancerResult::NoHealthyServers => {
                &&& post.current_index == pre.current_index
                &&& forall|i: int|
                    0 <= i < pre.servers@.len() ==> (#[trigger] pre.servers@[i]).state is Unhealthy
            },
            LoadBalancerResult::Selected { id } => {
                let n = pre.servers@.len() as int;
                &&& 0 <= id < n
                &&& post.current_index == id
                &&& pre.servers@[id as int].state is Healthy
                &&& exists|k: int|
                    0 <= k < n && id == #[trigger] Self::cyclic_index(
                        pre.current_index as int,
                        k,
                        n,
                    ) && Self::all_unhealthy_before(pre.servers@, pre.current_index as int, k)
            },
        }
    }

    open spec fn mark_healthy_step(pre: Self, post: Self, id: int) -> bool {
        &&& post.servers@ == pre.servers@.update(
            id,
            Server { id: pre.servers@[id].id, state: ServerState::Healthy },
        )
        &&& post.current_index == pre.current_index
    }

    open spec fn mark_unhealthy_step(pre: Self, post: Self, id: int) -> bool {
        &&& post.servers@ == pre.servers@.update(
            id,
            Server { id: pre.servers@[id].id, state: ServerState::Unhealthy },
        )
        &&& post.current_index == pre.current_index
    }

    fn select_server(&mut self) -> (res: LoadBalancerResult) {
        let n = self.servers.len();
        proof {
            lemma_unhealthy_in_bounds(self.servers@);
        }
        if self.unhealthy_count == n {
            proof {
                lemma_unhealthy_in_full(self.servers@);
            }
            return LoadBalancerResult::NoHealthyServers;
        }
        let start = self.current_index;
        let mut k: usize = 0;
        while k < n
            invariant
                *self == *old(self),
                self.inv(),
                n == self.servers@.len(),
                start == self.current_index,
                self.unhealthy_count < n,
                0 <= k <= n,
                Self::all_unhealthy_before(self.servers@, start as int, k as int),
            decreases n - k,
        {
            let idx: usize = if k < n - start {
                start + k
            } else {
                k - (n - start)
            };
            proof {
                assert(idx as int == Self::cyclic_index(start as int, k as int, n as int));
            }
            if self.servers[idx].state == ServerState::Healthy {
                self.current_index = idx;
                return LoadBalancerResult::Selected { id: idx };
            }
            proof {
                assert forall|j: int|
                    0 <= j < k + 1 implies (#[trigger] self.servers@[Self::cyclic_index(
                    start as int,
                    j,
                    n as int,
                )].state) is Unhealthy by {
                    if j == k {
                        assert(Self::cyclic_index(start as int, j, n as int) == idx);
                    }
                }
            }
            k = k + 1;
        }
        proof {
            let s = self.servers@;
            assert forall|i: int| 0 <= i < s.len() implies (#[trigger] s[i]).state is Unhealthy by {
                let j: int = if i >= start {
                    i - start
                } else {
                    i + n - start
                };
                assert(Self::cyclic_index(start as int, j, n as int) == i);
                assert(s[Self::cyclic_index(start as int, j, n as int)].state is Unhealthy);
            }
            lemma_unhealthy_in_all(s);
            assert(false);
        }
        LoadBalancerResult::NoHealthyServers
    }

    fn healthy_server(&mut self, server_id: usize) {
        let keep_id = self.servers[server_id].id;
        let fresh = Server { id: keep_id, state: ServerState::Healthy };
        proof {
            lemma_unhealthy_in_update(self.servers@, server_id as int, fresh);
            lemma_unhealthy_in_member(self.servers@, server_id as int);
        }
        match self.servers[server_id].state {
            ServerState::Unhealthy => {
                self.unhealthy_count = self.unhealthy_count - 1;
                self.servers.set(server_id, fresh);
            },
            ServerState::Healthy => {
                proof {
                    assert(self.servers@.update(server_id as int, fresh) =~= self.servers@);
                }
            },
        }
    }

    fn unhealthy_server(&mut self, server_id: usize) {
        let n = self.servers.len();
        let keep_id = self.servers[server_id].id;
        let fresh = Server { id: keep_id, state: ServerState::Unhealthy };
        proof {
            lemma_unhealthy_in_update(self.servers@, server_id as int, fresh);
            lemma_unhealthy_in_member(self.servers@, server_id as int);
            lemma_unhealthy_in_bounds(self.servers@);
        }
        match self.servers[server_id].state {
            ServerState::Healthy => {
                self.unhealthy_count = self.unhealthy_count + 1;
                self.servers.set(server_id, fresh);
            },
            ServerState::Unhealthy => {
                proof {
                    assert(self.servers@.update(server_id as int, fresh) =~= self.servers@);
                }
            },
        }
    }

    fn count(&self) -> usize {
        self.servers.len()
    }
}

} // verus!
