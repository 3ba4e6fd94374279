//! The SSH tunnel to Collie: the arguments of the `ssh -N -L` invocation,
//! and the backoff between reconnects.
use vstd::prelude::*;
use vstd::string::*;

use crate::config::SshConfig;
use crate::text::{decimal, lemma_parse_reads_decimal, parse_unsigned, u64_to_decimal};
use crate::time::{max_span_nanos, TimeSpan};

verus! {

/// The program the tunnel runs.
pub const TUNNEL_PROGRAM: &'static str = "ssh";

/// The arguments of the tunnel's `ssh` invocation.
///
/// The forward binds `ssh.tunnel_bind_addr` (not the pod loopback) so Traefik's
/// primary upstream and its health check can reach Collie through the Service.
/// Binding anything other than loopback requires `GatewayPorts=yes`.
pub open spec fn spec_tunnel_args(c: SshConfig) -> Seq<Seq<char>> {
    seq![
        "-N"@,
        "-o"@, "ConnectTimeout=10"@,
        "-o"@, "BatchMode=yes"@,
        "-o"@, "ExitOnForwardFailure=yes"@,
        "-o"@, "GatewayPorts=yes"@,
        "-o"@, "ServerAliveInterval=15"@,
        "-o"@, "ServerAliveCountMax=3"@,
        "-o"@, "StrictHostKeyChecking="@ + c.strict_host_key_checking@,
        "-o"@, "UserKnownHostsFile="@ + c.known_hosts_path@,
        "-i"@, c.key_path@,
        "-p"@, decimal(c.port as nat),
        "-L"@, c.tunnel_bind_addr@ + ":"@ + decimal(c.tunnel_local_port as nat) + ":127.0.0.1:"@
            + decimal(c.collie_server_port as nat),
        c.user@ + "@"@ + c.host@,
    ]
}

fn joined(first: &str, second: &str) -> (s: String)
    ensures
        s@ == first@ + second@,
{
    let mut s = String::from_str(first);
    s.append(second);
    s
}

/// Builds the arguments of the `ssh -N -L …` command for the tunnel to Collie.
pub fn tunnel_args(config: &SshConfig) -> (args: Vec<String>)
    ensures
        args@.map_values(|a: String| a@) == spec_tunnel_args(*config),
        args@.len() == 24,
        args@[17]@ == "-i"@ && args@[18]@ == config.key_path@,
        args@[19]@ == "-p"@ && args@[20]@ == decimal(config.port as nat),
        args@[21]@ == "-L"@,
        args@[22]@ == config.tunnel_bind_addr@ + ":"@ + decimal(config.tunnel_local_port as nat)
            + ":127.0.0.1:"@ + decimal(config.collie_server_port as nat),
        args@[23]@ == config.user@ + "@"@ + config.host@,
{
    let mut args: Vec<String> = Vec::new();
    args.push(String::from_str("-N"));
    args.push(String::from_str("-o"));
    args.push(String::from_str("ConnectTimeout=10"));
    args.push(String::from_str("-o"));
    args.push(String::from_str("BatchMode=yes"));
    args.push(String::from_str("-o"));
    args.push(String::from_str("ExitOnForwardFailure=yes"));
    args.push(String::from_str("-o"));
    args.push(String::from_str("GatewayPorts=yes"));
    args.push(String::from_str("-o"));
    args.push(String::from_str("ServerAliveInterval=15"));
    args.push(String::from_str("-o"));
    args.push(String::from_str("ServerAliveCountMax=3"));
    args.push(String::from_str("-o"));
    args.push(joined("StrictHostKeyChecking=", config.strict_host_key_checking.as_str()));
    args.push(String::from_str("-o"));
    args.push(joined("UserKnownHostsFile=", config.known_hosts_path.as_str()));
    args.push(String::from_str("-i"));
    args.push(config.key_path.clone());
    args.push(String::from_str("-p"));
    args.push(u64_to_decimal(config.port as u64));
    args.push(String::from_str("-L"));
    let mut forward = joined(config.tunnel_bind_addr.as_str(), ":");
    forward.append(u64_to_decimal(config.tunnel_local_port as u64).as_str());
    forward.append(":127.0.0.1:");
    forward.append(u64_to_decimal(config.collie_server_port as u64).as_str());
    args.push(forward);
    let mut destination = joined(config.user.as_str(), "@");
    destination.append(config.host.as_str());
    args.push(destination);
    assert(args@.map_values(|a: String| a@) =~= spec_tunnel_args(*config));
    args
}

/// The forward that `-L` asks for binds the configured address on the
/// configured local port and reaches Collie's configured port on the dev
/// box's loopback: the argument is the bind address, `:`, the local port,
/// `:127.0.0.1:` and Collie's port, and each port reads back as the number
/// configured. `-p` carries the configured SSH port, `-i` the configured
/// key, and the last argument is `user@host`. Changing only the bind
/// address changes no other argument.
pub proof fn lemma_tunnel_forwards_configured_ports(c: SshConfig, other_bind: String)
    ensures
        ({
            let args = spec_tunnel_args(c);
            let fwd = args[22];
            let bind = c.tunnel_bind_addr@;
            &&& args.len() == 24
            &&& args[21] == "-L"@
            &&& fwd.take(bind.len() as int) == bind
            &&& fwd[bind.len() as int] == ':'
            &&& fwd.skip(bind.len() as int + 1) == decimal(c.tunnel_local_port as nat) + ":127.0.0.1:"@
                + decimal(c.collie_server_port as nat)
            &&& parse_unsigned(decimal(c.tunnel_local_port as nat), u16::MAX as nat) == Some(
                c.tunnel_local_port as nat,
            )
            &&& parse_unsigned(decimal(c.collie_server_port as nat), u16::MAX as nat) == Some(
                c.collie_server_port as nat,
            )
            &&& args[19] == "-p"@
            &&& parse_unsigned(args[20], u16::MAX as nat) == Some(c.port as nat)
            &&& args[17] == "-i"@
            &&& args[18] == c.key_path@
            &&& args[23] == c.user@ + "@"@ + c.host@
        }),
        ({
            let moved = SshConfig { tunnel_bind_addr: other_bind, ..c };
            forall|i: int|
                0 <= i < 24 && i != 22 ==> #[trigger] spec_tunnel_args(moved)[i]
                    == spec_tunnel_args(c)[i]
        }),
{
    reveal_strlit(":");
    let args = spec_tunnel_args(c);
    let fwd = args[22];
    let bind = c.tunnel_bind_addr@;
    let rest = decimal(c.tunnel_local_port as nat) + ":127.0.0.1:"@ + decimal(
        c.collie_server_port as nat,
    );
    assert(fwd =~= bind + (":"@ + rest));
    assert(fwd.take(bind.len() as int) =~= bind);
    assert(fwd.skip(bind.len() as int + 1) =~= rest);
    lemma_parse_reads_decimal(c.tunnel_local_port as nat, u16::MAX as nat);
    lemma_parse_reads_decimal(c.collie_server_port as nat, u16::MAX as nat);
    lemma_parse_reads_decimal(c.port as nat, u16::MAX as nat);
}

/// The first wait before reconnecting, in nanoseconds: one second.
pub open spec fn initial_backoff_nanos() -> nat {
    1_000_000_000
}

/// The longest wait before reconnecting, in nanoseconds: thirty seconds.
pub open spec fn max_backoff_nanos() -> nat {
    30_000_000_000
}

/// The wait after one that lasted `current`: twice as long, at most the cap.
pub open spec fn spec_next_backoff(current: nat) -> nat {
    if 2 * current <= max_backoff_nanos() {
        2 * current
    } else {
        max_backoff_nanos()
    }
}

/// The first wait before reconnecting.
pub fn initial_backoff() -> (t: TimeSpan)
    ensures
        t@ == initial_backoff_nanos(),
{
    TimeSpan::from_secs(1)
}

/// The wait after one of `current`: doubled, at most thirty seconds.
pub fn next_backoff(current: TimeSpan) -> (t: TimeSpan)
    requires
        2 * current@ <= max_span_nanos(),
    ensures
        t@ == spec_next_backoff(current@),
{
    current.doubled().min(TimeSpan::from_secs(30))
}

/// The wait before the reconnect that follows `failures` failed attempts.
pub open spec fn backoff_after(failures: nat) -> nat
    decreases failures,
{
    if failures == 0 {
        initial_backoff_nanos()
    } else {
        spec_next_backoff(backoff_after((failures - 1) as nat))
    }
}

/// The waits between reconnects start at one second, double after each
/// failure and stop growing at thirty seconds: after `k` failures the wait
/// is `min(2^k, 30)` seconds.
pub proof fn lemma_backoff_doubles_up_to_cap(k: nat)
    ensures
        backoff_after(k) == if vstd::arithmetic::power2::pow2(k) * initial_backoff_nanos()
            <= max_backoff_nanos() {
            vstd::arithmetic::power2::pow2(k) * initial_backoff_nanos()
        } else {
            max_backoff_nanos()
        },
        initial_backoff_nanos() <= backoff_after(k) <= max_backoff_nanos(),
    decreases k,
{
    vstd::arithmetic::power2::lemma_pow2_pos(k);
    if k == 0 {
        vstd::arithmetic::power2::lemma2_to64();
    } else {
        lemma_backoff_doubles_up_to_cap((k - 1) as nat);
        vstd::arithmetic::power2::lemma_pow2_unfold(k);
        let p = vstd::arithmetic::power2::pow2((k - 1) as nat);
        assert(2 * p * 1_000_000_000 == 2 * (p * 1_000_000_000)) by (nonlinear_arith);
        vstd::arithmetic::power2::lemma_pow2_pos((k - 1) as nat);
        assert(p * 1_000_000_000 >= 1_000_000_000) by (nonlinear_arith) requires p >= 1;
    }
}

} // verus!
