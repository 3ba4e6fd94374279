use collie_waker::config::{AppConfig, Environment};

fn minimal() -> Environment {
    let mut env = Environment::new();
    env.set("PUBLIC_HOST", "collie.example.com");
    env.set("WOL_MAC_ADDRESS", "00:11:22:33:44:55");
    env.set("SSH_HOST", "192.0.2.10");
    env.set("SSH_USER", "collie");
    env
}

fn error_of(env: &Environment) -> String {
    match AppConfig::from_env(env) {
        Ok(_) => panic!("expected a configuration error"),
        Err(e) => e.message(),
    }
}

#[test]
fn defaults_fill_everything_that_is_optional() {
    let config = AppConfig::from_env(&minimal()).unwrap();
    assert_eq!(config.listen_port, 8080);
    assert_eq!(config.waker.public_host, "collie.example.com");
    assert_eq!(config.waker.poll_url, "http://127.0.0.1:8787/api/snapshot");
    assert_eq!(config.waker.timeout.as_secs(), 45);
    assert_eq!(config.waker.health_interval.as_secs(), 5);
    assert_eq!(config.waker.poll_interval.as_millis(), 1000);
    assert_eq!(config.wol.mac, [0x00, 0x11, 0x22, 0x33, 0x44, 0x55]);
    assert_eq!(config.wol.broadcast, "255.255.255.255");
    assert_eq!(config.wol.port, 9);
    assert_eq!(config.wol.rate_limit.as_secs(), 10);
    assert_eq!(config.ssh.host, "192.0.2.10");
    assert_eq!(config.ssh.user, "collie");
    assert_eq!(config.ssh.port, 22);
    assert_eq!(config.ssh.key_path, "/home/collie/.ssh/ssh-privatekey");
    assert_eq!(config.ssh.known_hosts_path, "/home/collie/.ssh/known_hosts");
    assert_eq!(config.ssh.strict_host_key_checking, "accept-new");
    assert_eq!(config.ssh.tunnel_bind_addr, "0.0.0.0");
    assert_eq!(config.ssh.tunnel_local_port, 8787);
    assert_eq!(config.ssh.collie_server_port, 8787);
}

#[test]
fn set_values_override_defaults_and_are_trimmed() {
    let mut env = minimal();
    env.set("PORT", " 9090 ");
    env.set("TIMEOUT_SECONDS", "+60");
    env.set("POLL_INTERVAL_MS", "250");
    env.set("SSH_MOUNT_PATH", "/keys");
    env.set("SSH_PORT", "2222");
    env.set("WOL_BROADCAST_ADDR", "\t192.0.2.255\n");
    let config = AppConfig::from_env(&env).unwrap();
    assert_eq!(config.listen_port, 9090);
    assert_eq!(config.waker.timeout.as_secs(), 60);
    assert_eq!(config.waker.poll_interval.as_millis(), 250);
    assert_eq!(config.ssh.key_path, "/keys/ssh-privatekey");
    assert_eq!(config.ssh.known_hosts_path, "/keys/known_hosts");
    assert_eq!(config.ssh.port, 2222);
    assert_eq!(config.wol.broadcast, "192.0.2.255");
}

#[test]
fn a_blank_value_counts_as_unset() {
    let mut env = minimal();
    env.set("PORT", "   ");
    env.set("POLL_URL", "");
    let config = AppConfig::from_env(&env).unwrap();
    assert_eq!(config.listen_port, 8080);
    assert_eq!(config.waker.poll_url, "http://127.0.0.1:8787/api/snapshot");

    let mut env = minimal();
    env.set("PUBLIC_HOST", " \u{3000} ");
    assert_eq!(error_of(&env), "PUBLIC_HOST is required");
}

#[test]
fn the_last_setting_of_a_name_wins() {
    let mut env = minimal();
    env.set("SSH_USER", "someone");
    assert_eq!(env.get("SSH_USER"), Some("someone".to_string()));
    assert_eq!(env.get("NOT_SET"), None);
    assert_eq!(AppConfig::from_env(&env).unwrap().ssh.user, "someone");
}

#[test]
fn missing_required_values_are_errors() {
    let env = Environment::new();
    assert_eq!(error_of(&env), "PUBLIC_HOST is required");

    let mut env = Environment::new();
    env.set("PUBLIC_HOST", "h");
    assert_eq!(error_of(&env), "WOL_MAC_ADDRESS is required");

    let mut env = Environment::new();
    env.set("PUBLIC_HOST", "h");
    env.set("WOL_MAC_ADDRESS", "00:11:22:33:44:55");
    assert_eq!(error_of(&env), "SSH_HOST is required");

    let mut env = Environment::new();
    env.set("PUBLIC_HOST", "h");
    env.set("WOL_MAC_ADDRESS", "00:11:22:33:44:55");
    env.set("SSH_HOST", "x");
    assert_eq!(error_of(&env), "SSH_USER is required");
}

#[test]
fn malformed_numbers_are_errors() {
    let mut env = minimal();
    env.set("PORT", "eighty");
    assert_eq!(error_of(&env), "PORT is not a valid value: eighty");

    let mut env = minimal();
    env.set("WOL_PORT", "70000");
    assert_eq!(error_of(&env), "WOL_PORT is not a valid value: 70000");

    let mut env = minimal();
    env.set("TIMEOUT_SECONDS", "-1");
    assert_eq!(error_of(&env), "TIMEOUT_SECONDS is not a valid value: -1");

    let mut env = minimal();
    env.set("POLL_INTERVAL_MS", "18446744073709551616");
    assert_eq!(
        error_of(&env),
        "POLL_INTERVAL_MS is not a valid value: 18446744073709551616"
    );

    let mut env = minimal();
    env.set("COLLIE_SERVER_PORT", "+");
    assert_eq!(error_of(&env), "COLLIE_SERVER_PORT is not a valid value: +");
}

#[test]
fn largest_numbers_are_accepted() {
    let mut env = minimal();
    env.set("TUNNEL_LOCAL_PORT", "65535");
    env.set("HEALTH_INTERVAL_SECONDS", "18446744073709551615");
    let config = AppConfig::from_env(&env).unwrap();
    assert_eq!(config.ssh.tunnel_local_port, 65535);
    assert_eq!(config.waker.health_interval.as_secs(), u64::MAX);
}

#[test]
fn malformed_mac_is_an_error() {
    let mut env = minimal();
    env.set("WOL_MAC_ADDRESS", " zz:zz:zz:zz:zz:zz ");
    assert_eq!(error_of(&env), "invalid MAC address: zz:zz:zz:zz:zz:zz");
}

#[test]
fn the_first_problem_in_reading_order_is_reported() {
    let mut env = Environment::new();
    env.set("SSH_PORT", "x");
    env.set("PORT", "y");
    assert_eq!(error_of(&env), "PORT is not a valid value: y");

    let mut env = minimal();
    env.set("SSH_PORT", "x");
    env.set("WOL_RATE_LIMIT_SECONDS", "y");
    assert_eq!(error_of(&env), "WOL_RATE_LIMIT_SECONDS is not a valid value: y");
}

#[test]
fn timings_come_from_the_waker_config() {
    let mut env = minimal();
    env.set("TIMEOUT_SECONDS", "30");
    let config = AppConfig::from_env(&env).unwrap();
    let timings = config.waker.timings();
    assert_eq!(timings.timeout.as_secs(), 30);
    assert_eq!(timings.health_interval.as_secs(), 5);
    assert_eq!(timings.poll_interval.as_millis(), 1000);
}
