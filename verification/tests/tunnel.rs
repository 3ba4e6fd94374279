use collie_waker::config::SshConfig;
use collie_waker::time::TimeSpan;
use collie_waker::tunnel::{initial_backoff, next_backoff, tunnel_args, TUNNEL_PROGRAM};

fn config() -> SshConfig {
    SshConfig {
        host: "192.0.2.10".to_string(),
        user: "collie".to_string(),
        port: 22,
        key_path: "/home/collie/.ssh/ssh-privatekey".to_string(),
        known_hosts_path: "/home/collie/.ssh/known_hosts".to_string(),
        strict_host_key_checking: "accept-new".to_string(),
        tunnel_bind_addr: "0.0.0.0".to_string(),
        tunnel_local_port: 8787,
        collie_server_port: 8787,
    }
}

fn rendered_args(config: &SshConfig) -> Vec<String> {
    tunnel_args(config)
}

#[test]
fn forwards_the_bind_address_to_collie_loopback() {
    let args = rendered_args(&config());

    assert!(args.contains(&"0.0.0.0:8787:127.0.0.1:8787".to_string()));
    assert!(args.contains(&"collie@192.0.2.10".to_string()));
}

#[test]
fn enables_gateway_ports_for_non_loopback_binds() {
    assert!(rendered_args(&config()).contains(&"GatewayPorts=yes".to_string()));
}

#[test]
fn uses_the_mounted_key_and_known_hosts() {
    let args = rendered_args(&config());

    assert!(args.contains(&"/home/collie/.ssh/ssh-privatekey".to_string()));
    assert!(args.contains(&"UserKnownHostsFile=/home/collie/.ssh/known_hosts".to_string()));
    assert!(args.contains(&"StrictHostKeyChecking=accept-new".to_string()));
}

#[test]
fn honours_a_non_default_ssh_port() {
    let mut config = config();
    config.port = 2222;

    let args = rendered_args(&config);
    let port_flag = args.iter().position(|arg| arg == "-p").unwrap();
    assert_eq!(args[port_flag + 1], "2222");
}

#[test]
fn tunnel_args_in_full() {
    let mut config = config();
    config.tunnel_local_port = 9000;
    config.collie_server_port = 8787;
    assert_eq!(TUNNEL_PROGRAM, "ssh");
    assert_eq!(
        tunnel_args(&config),
        vec![
            "-N",
            "-o",
            "ConnectTimeout=10",
            "-o",
            "BatchMode=yes",
            "-o",
            "ExitOnForwardFailure=yes",
            "-o",
            "GatewayPorts=yes",
            "-o",
            "ServerAliveInterval=15",
            "-o",
            "ServerAliveCountMax=3",
            "-o",
            "StrictHostKeyChecking=accept-new",
            "-o",
            "UserKnownHostsFile=/home/collie/.ssh/known_hosts",
            "-i",
            "/home/collie/.ssh/ssh-privatekey",
            "-p",
            "22",
            "-L",
            "0.0.0.0:9000:127.0.0.1:8787",
            "collie@192.0.2.10",
        ]
    );
}

#[test]
fn backoff_doubles_from_one_second_up_to_thirty() {
    let mut backoff = initial_backoff();
    let mut seen = Vec::new();
    for _ in 0..8 {
        seen.push(backoff.as_secs());
        backoff = next_backoff(backoff);
    }
    assert_eq!(seen, vec![1, 2, 4, 8, 16, 30, 30, 30]);
    assert_eq!(next_backoff(TimeSpan::from_millis(14_999)).as_millis(), 29_998);
}
