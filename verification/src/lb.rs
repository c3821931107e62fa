//! Core load-balancer types and the capability every selection policy
//! offers.

use vstd::prelude::*;

verus! {

/// Server health states.
#[derive(Debug, Clone, Copy, PartialEq, Eq, Structural)]
pub enum ServerState {
    Healthy,
    Unhealthy,
}

/// A server in the pool.
#[derive(Debug, Clone)]
pub struct Server {
    pub id: usize,
    pub state: ServerState,
}

/// What a selection attempt reported.  `Selected` carries the index of the
/// chosen server within the pool.
#[derive(Debug, Clone, PartialEq, Eq)]
pub enum LoadBalancerResult {
    Selected { id: usize },
    NoHealthyServers,
}

/// The capability shared by every selection policy over a fixed pool of
/// servers.  Each implementation supplies a well-formedness predicate and
/// step relations that pin down how each operation may change the pool.
pub trait LoadBalancer: Sized {
    /// Well-formedness of the balancer, preserved by every operation.
    spec fn inv(&self) -> bool;

    /// The server pool.
    spec fn spec_servers(&self) -> Seq<Server>;

    /// How one selection relates the balancer before it to the balancer
    /// after it and the reported result.
    spec fn select_step(pre: Self, post: Self, res: LoadBalancerResult) -> bool;

    /// How marking a server healthy changes the balancer.
    spec fn mark_healthy_step(pre: Self, post: Self, id: int) -> bool;

    /// How marking a server unhealthy changes the balancer.
    spec fn mark_unhealthy_step(pre: Self, post: Self, id: int) -> bool;

    /// Pick a server for the next connection, or report that none is
    /// available.
    fn select_server(&mut self) -> (res: LoadBalancerResult)
        requires
            old(self).inv(),
        ensures
            final(self).inv(),
            Self::select_step(*old(self), *final(self), res),
    ;

    /// Mark the server at `server_id` healthy.
    fn healthy_server(&mut self, server_id: usize)
        requires
            old(self).inv(),
            server_id < old(self).spec_servers().len(),
        ensures
            final(self).inv(),
            Self::mark_healthy_step(*old(self), *final(self), server_id as int),
    ;

    /// Mark the server at `server_id` unhealthy.
    fn unhealthy_server(&mut self, server_id: usize)
        requires
            old(self).inv(),
            server_id < old(self).spec_servers().len(),
        ensures
            final(self).inv(),
            Self::mark_unhealthy_step(*old(self), *final(self), server_id as int),
    ;

    /// The size of the pool; a pure read.
    fn count(&self) -> (n: usize)
        ensures
            n == self.spec_servers().len(),
    ;
}

} // verus!
