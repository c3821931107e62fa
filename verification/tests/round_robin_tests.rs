//! Tests for round-robin server selection.

use breakers::lb::{LoadBalancer, LoadBalancerResult, Server, ServerState};
use breakers::round_robin::RoundRobin;

#[test]
fn round_robin_test_new_one_server() {
    let lb = RoundRobin::new(vec![Server { id: 0, state: ServerState::Healthy }]);
    assert_eq!(lb.count(), 1);
}

#[test]
fn round_robin_test_select_server() {
    let mut lb = RoundRobin::new(vec![Server { id: 0, state: ServerState::Healthy }]);
    assert_eq!(lb.count(), 1);

    assert_eq!(lb.select_server(), LoadBalancerResult::Selected { id: 0 });

    lb.unhealthy_server(0);
    assert_eq!(lb.select_server(), LoadBalancerResult::NoHealthyServers);

    lb.healthy_server(0);
    assert_eq!(lb.select_server(), LoadBalancerResult::Selected { id: 0 });
}

#[test]
fn round_robin_skips_unhealthy_servers() {
    let mut lb = RoundRobin::new(vec![
        Server { id: 0, state: ServerState::Unhealthy },
        Server { id: 1, state: ServerState::Unhealthy },
        Server { id: 2, state: ServerState::Healthy },
    ]);
    assert_eq!(lb.count(), 3);
    assert_eq!(lb.select_server(), LoadBalancerResult::Selected { id: 2 });

    lb.healthy_server(0);
    lb.unhealthy_server(2);
    // The scan starts at the current position and wraps around the pool.
    assert_eq!(lb.select_server(), LoadBalancerResult::Selected { id: 0 });
}

#[test]
fn round_robin_random_sequence_never_panics() {
    let server_count: usize = 5;
    let servers: Vec<Server> = (0..server_count)
        .map(|id| Server { id, state: ServerState::Healthy })
        .collect();
    let mut lb = RoundRobin::new(servers);

    let mut x: u64 = 42;
    for _ in 0..100_000 {
        x = x.wrapping_mul(6364136223846793005).wrapping_add(1442695040888963407);
        let choice = (x >> 33) % 3;
        let target = ((x >> 13) as usize) % server_count;
        match choice {
            0 => {
                lb.select_server();
            }
            1 => {
                lb.healthy_server(target);
            }
            _ => {
                lb.unhealthy_server(target);
            }
        }
        assert_eq!(lb.count(), server_count);
    }
}
