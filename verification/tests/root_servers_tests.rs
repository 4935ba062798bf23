use toy_dns_lib::root_servers::RootServer;

/// Ensure unseeded root-server selection always yields a table entry.
#[test]
fn test_random_root_server_selection_without_seed_does_not_panic() {
    for _ in 0..10_000 {
        let (ip, name) = RootServer::random(None);
        assert!(!ip.is_empty() && !name.0.is_empty());
    }
}

/// Ensure that seeded random root server selection remains consistent
/// run-to-run. Other tests depend on this behavior.
#[test]
fn test_random_root_server_selection_with_seed_is_consistent() {
    for _ in 0..100 {
        assert_eq!(RootServer::random(Some(0)).0, "192.58.128.30");
    }
}

/// Different seeds keep picking entries of the fixed table, pairing each IP
/// with its own hostname.
#[test]
fn test_seeded_root_server_entries_are_paired() {
    for seed in 0..50usize {
        let (ip, name) = RootServer::random(Some(seed));
        let (ip2, name2) = RootServer::random(Some(seed));
        assert_eq!(ip, ip2);
        assert_eq!(name.0, name2.0);
        assert!(name.0.ends_with(".root-servers.net"));
        assert!(ip.contains('.'));
    }
}
