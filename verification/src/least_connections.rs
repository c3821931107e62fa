//! Least-connections selection: among the healthy servers, the one with the
//! fewest open connections (earliest position on a tie) takes the next
//! connection.

use vstd::prelude::*;

use crate::lb::{LoadBalancer, LoadBalancerResult, Server, ServerState};

verus! {

/// Least-connections balancer over a fixed pool.  `connection_counts[i]`
/// tracks the connections handed to server `i`; marking a server unhealthy
/// clears its count.
pub struct LeastConnections {
    pub servers: Vec<Server>,
    pub connection_counts: Vec<usize>,
}

impl LeastConnections {
    /// Create a balancer over a non-empty pool, every connection count at
    /// zero.
    pub fn new(servers: Vec<Server>) -> (lb: LeastConnections)
        requires
            servers@.len() > 0,
        ensures
            lb.servers@ == servers@,
            lb.connection_counts@.len() == servers@.len(),
            forall|i: int|
                0 <= i < servers@.len() ==> #[trigger] lb.connection_counts@[i] == 0,
            lb.inv(),
    {
        let n = servers.len();
        let mut connection_counts: Vec<usize> = Vec::new();
        let mut i: usize = 0;
        while i < n
            invariant
                0 <= i <= n,
                connection_counts@.len() == i,
                forall|j: int| 0 <= j < i ==> #[trigger] connection_counts@[j] == 0,
            decreases n - i,
        {
            connection_counts.push(0);
            i = i + 1;
        }
        LeastConnections { servers, connection_counts }
    }
}

impl LoadBalancer for LeastConnections {
    open spec fn inv(&self) -> bool {
        &&& self.servers@.len() > 0
        &&& self.connection_counts@.len() == self.servers@.len()
    }

    open spec fn spec_servers(&self) -> Seq<Server> {
        self.servers@
    }

    open spec fn select_step(pre: Self, post: Self, res: LoadBalancerResult) -> bool {
        &&& post.servers@ == pre.servers@
        &&& match res {
            LoadBalancerResult::NoHealthyServers => {
                &&& post.connection_counts@ == pre.connection_counts@
                &&& forall|j: int|
                    0 <= j < pre.servers@.len() && (#[trigger] pre.servers@[j]).state is Healthy
                        ==> pre.connection_counts@[j] == usize::MAX
            },
            LoadBalancerResult::Selected { id } => {
                &&& 0 <= id < pre.servers@.len()
                &&& pre.servers@[id as int].state is Healthy
                &&& pre.connection_counts@[id as int] < usize::MAX
                &&& forall|j: int|
                    0 <= j < pre.servers@.len() && (#[trigger] pre.servers@[j]).state is Healthy
                        ==> pre.connection_counts@[id as int] <= pre.connection_counts@[j]
                &&& forall|j: int|
                    0 <= j < id && (#[trigger] pre.servers@[j]).state is Healthy
                        ==> pre.connection_counts@[id as int] < pre.connection_counts@[j]
                &&& post.connection_counts@ == pre.connection_counts@.update(
                    id as int,
                    (pre.connection_counts@[id as int] + 1) as usize,
                )
            },
        }
    }

    open spec fn mark_healthy_step(pre: Self, post: Self, id: int) -> bool {
        &&& post.servers@ == pre.servers@.update(
            id,
            Server { id: pre.servers@[id].id, state: ServerState::Healthy },
        )
        &&& post.connection_counts@ == pre.connection_counts@
    }

    open spec fn mark_unhealthy_step(pre: Self, post: Self, id: int) -> bool {
        &&& post.servers@ == pre.servers@.update(
            id,
            Server { id: pre.servers@[id].id, state: ServerState::Unhealthy },
        )
        &&& post.connection_counts@ == pre.connection_counts@.update(id, 0usize)
    }

    fn select_server(&mut self) -> (res: LoadBalancerResult) {
        let n = self.servers.len();
        let mut best_server: Option<usize> = None;
        let mut min_connections: usize = usize::MAX;
        let mut i: usize = 0;
        while i < n
            invariant
                self.inv(),
                *self == *old(self),
                n == self.servers@.len(),
                0 <= i <= n,
                match best_server {
                    None => min_connections == usize::MAX && forall|j: int|
                        0 <= j < i && (#[trigger] self.servers@[j]).state is Healthy
                            ==> self.connection_counts@[j] == usize::MAX,
                    Some(b) => {
                        &&& 0 <= b < i
                        &&& self.servers@[b as int].state is Healthy
                        &&& self.connection_counts@[b as int] == min_connections
                        &&& min_connections < usize::MAX
                        &&& forall|j: int|
                            0 <= j < i && (#[trigger] self.servers@[j]).state is Healthy
                                ==> min_connections <= self.connection_counts@[j]
                        &&& forall|j: int|
                            0 <= j < b && (#[trigger] self.servers@[j]).state is Healthy
                                ==> min_connections < self.connection_counts@[j]
                    },
                },
            decreases n - i,
        {
            if self.servers[i].state == ServerState::Healthy {
                if self.connection_counts[i] < min_connections {
                    min_connections = self.connection_counts[i];
                    best_server = Some(i);
                }
            }
            i = i + 1;
        }
        match best_server {
            Some(id) => {
                let c = self.connection_counts[id];
                self.connection_counts.set(id, c + 1);
                LoadBalancerResult::Selected { id }
            },
            None => LoadBalancerResult::NoHealthyServers,
        }
    }

    fn healthy_server(&mut self, server_id: usize) {
        let keep_id = self.servers[server_id].id;
        let fresh = Server { id: keep_id, state: ServerState::Healthy };
        self.servers.set(server_id, fresh);
    }

    fn unhealthy_server(&mut self, server_id: usize) {
        let keep_id = self.servers[server_id].id;
        let fresh = Server { id: keep_id, state: ServerState::Unhealthy };
        self.servers.set(server_id, fresh);
        self.connection_counts.set(server_id, 0);
    }

    fn count(&self) -> usize {
        self.servers.len()
    }
}

} // verus!
