//! Tests for least-connections server selection.

use breakers::lb::{LoadBalancer, LoadBalancerResult, Server, ServerState};
use breakers::least_connections::LeastConnections;

#[test]
fn least_connections_test_new_one_server() {
    let lb = LeastConnections::new(vec![Server { id: 0, state: ServerState::Healthy }]);
    assert_eq!(lb.count(), 1);
}

#[test]
fn least_connections_test_select_server() {
    let mut lb = LeastConnections::new(vec![Server { id: 0, state: ServerState::Healthy }]);
    assert_eq!(lb.count(), 1);

    assert_eq!(lb.select_server(), LoadBalancerResult::Selected { id: 0 });
    assert_eq!(lb.select_server(), LoadBalancerResult::Selected { id: 0 });

    lb.unhealthy_server(0);
    assert_eq!(lb.select_server(), LoadBalancerResult::NoHealthyServers);

    lb.healthy_server(0);
    assert_eq!(lb.select_server(), LoadBalancerResult::Selected { id: 0 });
}

#[test]
fn test_least_connections_behavior() {
    let mut lb = LeastConnections::new(vec![
        Server { id: 0, state: ServerState::Healthy },
        Server { id: 1, state: ServerState::Healthy },
    ]);
    assert_eq!(lb.count(), 2);

    // First selection should pick server 0 (both have 0 connections)
    assert_eq!(lb.select_server(), LoadBalancerResult::Selected { id: 0 });

    // Second selection should pick server 1 (server 0 now has 1 connection)
    assert_eq!(lb.select_server(), LoadBalancerResult::Selected { id: 1 });

    // Third selection should pick server 0 again (both have 1 connection, pick first)
    assert_eq!(lb.select_server(), LoadBalancerResult::Selected { id: 0 });
}

#[test]
fn least_connections_unhealthy_clears_count() {
    // Marking a server unhealthy clears its connection count, so once it is
    // healthy again it looks idle and takes the next connection.
    let mut lb = LeastConnections::new(vec![
        Server { id: 0, state: ServerState::Healthy },
        Server { id: 1, state: ServerState::Healthy },
    ]);
    assert_eq!(lb.select_server(), LoadBalancerResult::Selected { id: 0 });
    assert_eq!(lb.select_server(), LoadBalancerResult::Selected { id: 1 });
    assert_eq!(lb.select_server(), LoadBalancerResult::Selected { id: 0 });

    lb.unhealthy_server(0);
    lb.healthy_server(0);
    assert_eq!(lb.select_server(), LoadBalancerResult::Selected { id: 0 });
    assert_eq!(lb.select_server(), LoadBalancerResult::Selected { id: 0 });
}

#[test]
fn least_connections_random_sequence_never_panics() {
    let server_count: usize = 5;
    let servers: Vec<Server> = (0..server_count)
        .map(|id| Server { id, state: ServerState::Healthy })
        .collect();
    let mut lb = LeastConnections::new(servers);

    let mut x: u64 = 42;
    for _ in 0..100_000 {
        x = x.wrapping_mul(6364136223846793005).wrapping_add(1442695040888963407);
        let choice = (x >> 33) % 3;
        let target = ((x >> 13) as usize) % server_count;
        match choice {
            0 => {
                lb.select_server();
            }
            1 => {
                lb.healthy_server(target);
            }
            _ => {
                lb.unhealthy_server(target);
            }
        }
        assert_eq!(lb.count(), server_count);
    }
}
