use lambda_gateway::docker::DockerError;
use lambda_gateway::pool::config::{ConfigError, PoolConfig};
use lambda_gateway::pool::error::PoolError;
use lambda_gateway::pool::host_instance::HostInstance;
use lambda_gateway::pool::pool_manager::{
    drain_step, readiness_step, DrainStep, HostPoolManager, LeaseStart, ReadinessStep, ReturnStep,
};
use lambda_gateway::port::{PortError, PortRange};

/// Asks the disk about the binary's directory and full path, then validates.
fn validate_on_disk(config: &PoolConfig) -> Result<(), ConfigError> {
    let binary_path_exists = std::path::Path::new(&config.binary_path).exists();
    let binary_exists = std::path::Path::new(&config.binary_full_path()).exists();
    config.validate(binary_path_exists, binary_exists)
}

#[test]
fn test_default_config() {
    let config = PoolConfig::default();
    assert_eq!(config.max_instances, 10);
    assert_eq!(config.min_instances, 1);
    assert_eq!(config.port_range.start, 8000);
    assert_eq!(config.port_range.end, 9000);
}

#[test]
fn test_config_validation_max_instances() {
    let mut config = PoolConfig::default();
    config.max_instances = 0;

    assert!(validate_on_disk(&config).is_err());
}

#[test]
fn test_config_validation_min_max_instances() {
    let mut config = PoolConfig::default();
    config.min_instances = 5;
    config.max_instances = 3;

    assert!(validate_on_disk(&config).is_err());
}

#[test]
fn test_config_validation_port_range() {
    let mut config = PoolConfig::default();
    config.port_range.start = 9000;
    config.port_range.end = 8000;

    assert!(validate_on_disk(&config).is_err());
}

#[test]
fn test_config_validation_with_valid_binary() {
    // A directory that every Linux machine has stands in for the binary.
    let config = PoolConfig {
        binary_path: "/".to_string(),
        binary_name: "etc".to_string(),
        ..Default::default()
    };

    assert!(validate_on_disk(&config).is_ok());
}

#[test]
fn config_validation_refuses_missing_paths() {
    let mut config = PoolConfig::default();
    config.binary_path = "/nonexistent-lambda-functions".to_string();
    match validate_on_disk(&config) {
        Err(ConfigError::InvalidPath(m)) => {
            assert_eq!(m, "Binary path does not exist: \"/nonexistent-lambda-functions\"")
        }
        other => panic!("unexpected {:?}", other),
    }
    config.binary_path = "/".to_string();
    config.binary_name = "nonexistent-lambda-binary".to_string();
    match validate_on_disk(&config) {
        Err(ConfigError::InvalidPath(m)) => {
            assert_eq!(m, "Binary not found: \"/nonexistent-lambda-binary\"")
        }
        other => panic!("unexpected {:?}", other),
    }
}

#[test]
fn config_validation_decides_from_disk_answers() {
    let config = PoolConfig::default();
    assert!(config.validate_with(true, true, "\"./functions\"", "\"./functions/hello-lambda\"").is_ok());
    match config.validate_with(false, false, "\"./functions\"", "\"./functions/hello-lambda\"") {
        Err(ConfigError::InvalidPath(m)) => assert_eq!(m, "Binary path does not exist: \"./functions\""),
        other => panic!("unexpected {:?}", other),
    }
    match config.validate_with(true, false, "\"./functions\"", "\"./functions/hello-lambda\"") {
        Err(ConfigError::InvalidPath(m)) => assert_eq!(m, "Binary not found: \"./functions/hello-lambda\""),
        other => panic!("unexpected {:?}", other),
    }
}

#[test]
fn config_validation_messages() {
    let mut config = PoolConfig::default();
    config.port_range.end = 8000;
    match validate_on_disk(&config) {
        Err(ConfigError::InvalidValue(m)) => assert_eq!(m, "port_range.start must be < port_range.end"),
        other => panic!("unexpected {:?}", other),
    }
    config.max_instances = 0;
    match validate_on_disk(&config) {
        Err(ConfigError::InvalidValue(m)) => assert_eq!(m, "max_instances must be > 0"),
        other => panic!("unexpected {:?}", other),
    }
    config.max_instances = 1;
    config.min_instances = 2;
    match validate_on_disk(&config) {
        Err(ConfigError::InvalidValue(m)) => assert_eq!(m, "min_instances cannot exceed max_instances"),
        other => panic!("unexpected {:?}", other),
    }
}

fn small_config(max_instances: usize, ports: u16, ttl_ns: u64) -> PoolConfig {
    PoolConfig {
        max_instances,
        min_instances: 1,
        instance_ttl_ns: ttl_ns,
        port_range: PortRange { start: 8000, end: 8000 + ports },
        ..PoolConfig::default()
    }
}

fn spawn(pool: &mut HostPoolManager, name: &str, now_ns: u64) -> HostInstance {
    let port = pool.allocate_host_port().unwrap();
    pool.host_spawned(port, Ok(name.to_string()), now_ns).unwrap()
}

#[test]
fn lease_spawns_reuses_and_refuses() {
    let mut pool = HostPoolManager::new(small_config(1, 5, 1000));
    let port = match pool.begin_lease().unwrap() {
        LeaseStart::Spawn(port) => port,
        other => panic!("unexpected {:?}", other),
    };
    assert_eq!(port.port(), 8000);
    let host = pool.host_spawned(port, Ok("c1".to_string()), 0).unwrap();
    assert!(!host.health_check_tested);
    let grant = pool.grant_new_lease(host);
    assert_eq!(grant.lease.container_id, "c1");
    assert_eq!(grant.lease.port, 8000);
    assert!(!grant.health_check_tested);
    assert!(grant.displaced_container.is_none());
    assert_eq!(pool.leased_count(), 1);

    // At the limit with no warm host, a lease is refused.
    assert!(matches!(pool.begin_lease(), Err(PoolError::MaxInstancesReached)));

    // The host is checked, returned alive, and then reused.
    let id = grant.lease.release_now();
    let (result, stopped) = pool.finish_health_check(id, Ok(true));
    assert!(result.is_ok() && stopped.is_none());
    let host = match pool.take_returned_host(id, 10).unwrap() {
        ReturnStep::CheckAlive(host) => host,
        other => panic!("unexpected {:?}", other),
    };
    assert!(host.health_check_tested);
    assert_eq!(pool.finish_return(host, true), None);
    assert_eq!(pool.available_count(), 1);
    match pool.begin_lease().unwrap() {
        LeaseStart::Reuse(host) => assert_eq!(host.container_id, "c1"),
        other => panic!("unexpected {:?}", other),
    }
}

#[test]
fn failed_container_start_returns_the_port() {
    let mut pool = HostPoolManager::new(small_config(3, 1, 1000));
    let port = match pool.begin_lease().unwrap() {
        LeaseStart::Spawn(port) => port,
        other => panic!("unexpected {:?}", other),
    };
    // The only port is out: another spawn finds none.
    assert!(matches!(pool.begin_lease(), Err(PoolError::PortAllocation(_))));
    let r = pool.host_spawned(port, Err(DockerError::Timeout), 0);
    assert!(matches!(r, Err(PoolError::Docker(DockerError::Timeout))));
    // The port came back and can be handed out again.
    assert!(matches!(pool.begin_lease(), Ok(LeaseStart::Spawn(p)) if p.port() == 8000));
}

#[test]
fn shutdown_refuses_leases() {
    let mut pool = HostPoolManager::new(small_config(3, 3, 1000));
    assert!(!pool.is_shutting_down());
    pool.begin_shutdown();
    assert!(pool.is_shutting_down());
    assert!(matches!(pool.begin_lease(), Err(PoolError::ShuttingDown)));
}

#[test]
fn unknown_lease_is_invalid() {
    let mut pool = HostPoolManager::new(small_config(3, 3, 1000));
    assert!(matches!(pool.take_returned_host(7, 0), Err(PoolError::InvalidLease(7))));
    let (result, stopped) = pool.finish_health_check(7, Ok(true));
    assert!(matches!(result, Err(PoolError::InvalidLease(7))));
    assert!(stopped.is_none());
}

#[test]
fn failed_health_check_retires_the_host() {
    let mut pool = HostPoolManager::new(small_config(3, 1, 1000));
    let host = spawn(&mut pool, "c1", 0);
    let grant = pool.grant_lease(host, 99);
    let (result, stopped) = pool.finish_health_check(grant.lease.lease_id, Ok(false));
    assert!(matches!(result, Err(PoolError::ContainerNotReady)));
    assert_eq!(stopped, Some("c1".to_string()));
    assert_eq!(pool.leased_count(), 0);
    // The port is free again.
    assert!(pool.allocate_host_port().is_ok());
}

#[test]
fn expired_host_is_retired_on_return() {
    let mut pool = HostPoolManager::new(small_config(3, 2, 100));
    let host = spawn(&mut pool, "old", 0);
    pool.grant_lease(host, 1);
    match pool.take_returned_host(1, 101).unwrap() {
        ReturnStep::Expired(id) => assert_eq!(id, "old"),
        other => panic!("unexpected {:?}", other),
    }
    assert_eq!(pool.leased_count(), 0);
    assert_eq!(pool.available_count(), 0);
}

#[test]
fn dead_host_is_retired_on_return() {
    let mut pool = HostPoolManager::new(small_config(3, 2, 100));
    let host = spawn(&mut pool, "gone", 0);
    pool.grant_lease(host, 1);
    let host = match pool.take_returned_host(1, 50).unwrap() {
        ReturnStep::CheckAlive(host) => host,
        other => panic!("unexpected {:?}", other),
    };
    assert_eq!(pool.finish_return(host, false), Some("gone".to_string()));
    assert_eq!(pool.available_count(), 0);
}

#[test]
fn reaping_keeps_fresh_hosts_in_order() {
    let mut pool = HostPoolManager::new(small_config(5, 5, 100));
    for (name, created) in [("a", 0), ("b", 56), ("c", 10), ("d", 60)] {
        let host = spawn(&mut pool, name, created);
        pool.add_available_host(host);
    }
    let reaped = pool.reap_expired_hosts(155);
    assert_eq!(reaped, vec!["a".to_string(), "c".to_string()]);
    assert_eq!(pool.available_count(), 2);
    let hosts = pool.collect_all_hosts();
    let names: Vec<&str> = hosts.iter().map(|h| h.container_id.as_str()).collect();
    assert_eq!(names, vec!["b", "d"]);
}

#[test]
fn scaling_tops_up_to_min_instances() {
    let mut config = small_config(5, 5, 100);
    config.min_instances = 3;
    let mut pool = HostPoolManager::new(config);
    assert_eq!(pool.hosts_needed(), 3);
    let host = spawn(&mut pool, "a", 0);
    pool.add_available_host(host);
    let host = spawn(&mut pool, "b", 0);
    pool.grant_lease(host, 5);
    assert_eq!(pool.hosts_needed(), 1);
}

#[test]
fn collect_takes_every_host() {
    let mut pool = HostPoolManager::new(small_config(5, 5, 100));
    let h = spawn(&mut pool, "w", 0);
    pool.add_available_host(h);
    let h = spawn(&mut pool, "l1", 0);
    pool.grant_lease(h, 1);
    let h = spawn(&mut pool, "l2", 0);
    pool.grant_lease(h, 2);
    let hosts = pool.collect_all_hosts();
    assert_eq!(hosts.len(), 3);
    assert_eq!(hosts[0].container_id, "w");
    let mut rest: Vec<&str> = hosts[1..].iter().map(|h| h.container_id.as_str()).collect();
    rest.sort();
    assert_eq!(rest, vec!["l1", "l2"]);
    assert_eq!(pool.leased_count(), 0);
    assert_eq!(pool.available_count(), 0);
    for h in hosts {
        pool.retire_host(h);
    }
    // Every port is back.
    for _ in 0..5 {
        assert!(pool.allocate_host_port().is_ok());
    }
}

#[test]
fn readiness_steps() {
    assert!(matches!(readiness_step(1, Ok(true)), ReadinessStep::Ready));
    assert!(matches!(readiness_step(1, Ok(false)), ReadinessStep::Retry));
    assert!(matches!(readiness_step(3, Err(DockerError::Timeout)), ReadinessStep::Retry));
    assert!(matches!(readiness_step(10, Ok(false)), ReadinessStep::NotReady));
    assert!(matches!(readiness_step(10, Ok(true)), ReadinessStep::Ready));
    assert!(matches!(
        readiness_step(10, Err(DockerError::Timeout)),
        ReadinessStep::Failed(PoolError::Docker(DockerError::Timeout))
    ));
}

#[test]
fn drain_steps() {
    assert_eq!(drain_step(0, 50_000_000_000), DrainStep::Drained);
    assert_eq!(drain_step(2, 30_000_000_001), DrainStep::TimedOut);
    assert_eq!(drain_step(2, 30_000_000_000), DrainStep::Wait);
}

#[test]
fn host_expiry_saturates_elapsed_time() {
    let mut pool = HostPoolManager::new(small_config(5, 5, 100));
    let host = spawn(&mut pool, "h", 1000);
    assert!(!host.is_expired(500, 100));
    assert!(!host.is_expired(1100, 100));
    assert!(host.is_expired(1101, 100));
    let retired = host.stop_now();
    assert_eq!(retired.container_id, "h");
    assert_eq!(retired.port, 8000);
}

#[test]
fn leases_stay_within_max_instances() {
    let mut pool = HostPoolManager::new(small_config(2, 5, 1000));
    for name in ["c1", "c2"] {
        let port = match pool.begin_lease().unwrap() {
            LeaseStart::Spawn(port) => port,
            other => panic!("unexpected {:?}", other),
        };
        let host = pool.host_spawned(port, Ok(name.to_string()), 0).unwrap();
        pool.grant_new_lease(host);
        assert!(pool.available_count() + pool.leased_count() <= 2);
    }
    assert!(matches!(pool.begin_lease(), Err(PoolError::MaxInstancesReached)));
    assert_eq!(pool.available_count() + pool.leased_count(), 2);
}

#[test]
fn granting_a_taken_identifier_retires_the_old_host() {
    let mut pool = HostPoolManager::new(small_config(3, 5, 1000));
    let first = spawn(&mut pool, "c1", 0);
    let second = spawn(&mut pool, "c2", 0);
    pool.grant_lease(first, 9);
    let grant = pool.grant_lease(second, 9);
    assert_eq!(grant.displaced_container, Some("c1".to_string()));
    assert_eq!(pool.leased_count(), 1);
    // The displaced host's port is free again, behind the untouched ones.
    let mut ports = Vec::new();
    while let Ok(port) = pool.allocate_host_port() {
        ports.push(port.port());
    }
    assert_eq!(ports, vec![8002, 8003, 8004, 8000]);
}

#[test]
fn abandoned_start_gives_its_port_back() {
    let mut pool = HostPoolManager::new(small_config(3, 1, 1000));
    let port = match pool.begin_lease().unwrap() {
        LeaseStart::Spawn(port) => port.port(),
        other => panic!("unexpected {:?}", other),
    };
    assert!(matches!(pool.begin_lease(), Err(PoolError::PortAllocation(_))));
    pool.return_port(port);
    // A second return of the same port changes nothing.
    pool.return_port(port);
    assert!(matches!(pool.begin_lease(), Ok(LeaseStart::Spawn(p)) if p.port() == 8000));
    assert!(matches!(pool.begin_lease(), Err(PoolError::PortAllocation(_))));
}

#[test]
fn binary_full_path_joins_as_path_join() {
    let mut config = PoolConfig::default();
    assert_eq!(config.binary_full_path(), "./functions/hello-lambda");
    config.binary_path = "/opt/fns/".to_string();
    assert_eq!(config.binary_full_path(), "/opt/fns/hello-lambda");
    config.binary_name = "/abs/bin".to_string();
    assert_eq!(config.binary_full_path(), "/abs/bin");
    config.binary_path = String::new();
    config.binary_name = "x".to_string();
    assert_eq!(config.binary_full_path(), "x");
}

#[test]
fn validate_asks_about_the_directory_first() {
    let config = PoolConfig::default();
    match config.validate(false, true) {
        Err(ConfigError::InvalidPath(m)) => assert_eq!(m, "Binary path does not exist: \"./functions\""),
        other => panic!("unexpected {:?}", other),
    }
    match config.validate(true, false) {
        Err(ConfigError::InvalidPath(m)) => assert_eq!(m, "Binary not found: \"./functions/hello-lambda\""),
        other => panic!("unexpected {:?}", other),
    }
    assert!(config.validate(true, true).is_ok());
}

#[test]
fn error_texts() {
    assert_eq!(
        PoolError::InvalidLease(0x123e4567_e89b_12d3_a456_426614174000).to_string(),
        "Invalid lease: 123e4567-e89b-12d3-a456-426614174000"
    );
    assert_eq!(PoolError::ContainerNotReady.to_string(), "Container not ready");
    assert_eq!(PoolError::Docker(DockerError::Timeout).to_string(), "Docker error: Timeout error");
    assert_eq!(
        PoolError::Docker(DockerError::ContainerNotFound("c1".to_string())).to_string(),
        "Docker error: Container not found: c1"
    );
    assert_eq!(PoolError::NoAvailablePorts.to_string(), "No available ports");
    assert_eq!(
        PoolError::PortAllocation(PortError::NoAvailablePorts).to_string(),
        "Port allocation error: No available ports in range"
    );
    assert_eq!(PoolError::MaxInstancesReached.to_string(), "Max instances reached");
    assert_eq!(PoolError::ShuttingDown.to_string(), "Gateway is shutting down");
    assert_eq!(DockerError::Api("boom".to_string()).to_string(), "Docker API error: boom");
    assert_eq!(DockerError::Http("refused".to_string()).to_string(), "HTTP request error: refused");
    assert_eq!(DockerError::BinaryNotFound("/x/y".to_string()).to_string(), "Binary not found: /x/y");
    assert_eq!(
        ConfigError::InvalidValue("max_instances must be > 0".to_string()).to_string(),
        "Invalid configuration value: max_instances must be > 0"
    );
    assert_eq!(ConfigError::InvalidPath("p".to_string()).to_string(), "Invalid path: p");
}

#[test]
fn ports_in_flight_follow_their_hosts() {
    let mut pool = HostPoolManager::new(small_config(3, 5, 1000));
    // A free port is not out; an allocated one is.
    assert!(!pool.port_in_flight(8000));
    assert!(!pool.port_in_flight(9999));
    let host = spawn(&mut pool, "c1", 0);
    assert!(pool.port_in_flight(8000));
    // Once pooled, the host holds its port.
    pool.add_available_host(host);
    assert!(!pool.port_in_flight(8000));
    let host = match pool.begin_lease().unwrap() {
        LeaseStart::Reuse(host) => host,
        other => panic!("unexpected {:?}", other),
    };
    assert!(pool.port_in_flight(8000));
    let grant = pool.grant_lease(host, 4);
    assert_eq!(grant.lease.port, 8000);
    assert!(!pool.port_in_flight(8000));
    let host = match pool.take_returned_host(4, 10).unwrap() {
        ReturnStep::CheckAlive(host) => host,
        other => panic!("unexpected {:?}", other),
    };
    assert!(pool.port_in_flight(8000));
    assert_eq!(pool.retire_host(host), "c1");
    assert!(!pool.port_in_flight(8000));
}
