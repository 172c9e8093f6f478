use broxy::addr::{Addr, Ip};
use broxy::load_balancer::LoadBalancer;
use broxy::upstream::Upstream;

fn create_test_upstream(port: u16) -> Upstream {
    Upstream { address: Addr { ip: Ip::V4(0x7f000001), port }, use_ssl: false }
}

#[test]
fn test_new_load_balancer() {
    let servers = vec![create_test_upstream(8001), create_test_upstream(8002)];

    let lb = LoadBalancer::new(servers);
    assert_eq!(lb.server_count(), 2);
}

#[test]
fn test_round_robin_selection() {
    let servers = vec![
        create_test_upstream(8001),
        create_test_upstream(8002),
        create_test_upstream(8003),
    ];

    let mut lb = LoadBalancer::new(servers);

    // First selection should return server 0
    let server1 = lb.get_upstream();
    assert_eq!(server1.address.port, 8001);

    // Second selection should return server 1
    let server2 = lb.get_upstream();
    assert_eq!(server2.address.port, 8002);

    // Third selection should return server 2
    let server3 = lb.get_upstream();
    assert_eq!(server3.address.port, 8003);

    // Fourth selection should wrap around to server 0
    let server4 = lb.get_upstream();
    assert_eq!(server4.address.port, 8001);
}

#[test]
fn test_even_distribution_over_full_cycles() {
    let servers = vec![
        create_test_upstream(9001),
        create_test_upstream(9002),
        create_test_upstream(9003),
    ];
    let mut lb = LoadBalancer::new(servers);
    let mut counts = [0usize; 3];
    for _ in 0..6 {
        let u = lb.get_upstream();
        counts[(u.address.port - 9001) as usize] += 1;
    }
    // Six picks over three servers: each picked exactly twice.
    assert_eq!(counts, [2, 2, 2]);
}
