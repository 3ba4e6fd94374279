//! Configuration, read from the process environment. The values arrive as an
//! `Environment` (what the process found set); everything after that, the
//! trimming, the defaults, the number parsing and the errors, happens here.
use vstd::prelude::*;
use vstd::string::*;

use crate::text::{decimal, lemma_parse_reads_decimal, parse_unsigned, parse_unsigned_decimal, trim, trimmed};
use crate::time::TimeSpan;
use crate::wake::WakeTimings;
use crate::wol::{parse_mac, spec_parse_mac};

verus! {

/// The environment variables a process was started with, in the order they
/// were set; a later setting of a name hides an earlier one.
#[derive(Clone, Debug)]
pub struct Environment {
    vars: Vec<(String, String)>,
}

/// The value set last for `name`.
pub open spec fn lookup(vars: Seq<(Seq<char>, Seq<char>)>, name: Seq<char>) -> Option<Seq<char>>
    decreases vars.len(),
{
    if vars.len() == 0 {
        None
    } else if vars.last().0 == name {
        Some(vars.last().1)
    } else {
        lookup(vars.drop_last(), name)
    }
}

impl View for Environment {
    type V = Seq<(Seq<char>, Seq<char>)>;

    closed spec fn view(&self) -> Seq<(Seq<char>, Seq<char>)> {
        self.vars@.map_values(|p: (String, String)| (p.0@, p.1@))
    }
}

impl Environment {
    /// An environment with nothing set.
    pub fn new() -> (e: Environment)
        ensures
            e@ == Seq::<(Seq<char>, Seq<char>)>::empty(),
    {
        let e = Environment { vars: Vec::new() };
        assert(e@ =~= Seq::<(Seq<char>, Seq<char>)>::empty());
        e
    }

    /// Sets `name` to `value`.
    pub fn set(&mut self, name: &str, value: &str)
        ensures
            final(self)@ == old(self)@.push((name@, value@)),
    {
        self.vars.push((name.to_owned(), value.to_owned()));
        assert(self@ =~= old(self)@.push((name@, value@)));
    }

    /// The value of `name`, if it is set.
    pub fn get(&self, name: &str) -> (v: Option<String>)
        ensures
            match v {
                Some(s) => lookup(self@, name@) == Some(s@),
                None => lookup(self@, name@) is None,
            },
    {
        let key = name.to_owned();
        let mut i: usize = self.vars.len();
        assert(self@.take(i as int) =~= self@);
        while i > 0
            invariant
                i <= self.vars@.len(),
                key@ == name@,
                lookup(self@, name@) == lookup(self@.take(i as int), name@),
            decreases i,
        {
            let ghost prefix = self@.take(i as int);
            assert(prefix.drop_last() =~= self@.take(i - 1));
            assert(prefix.last() == (self.vars@[i - 1].0@, self.vars@[i - 1].1@));
            if self.vars[i - 1].0 == key {
                return Some(self.vars[i - 1].1.clone());
            }
            i = i - 1;
        }
        None
    }
}

/// A configuration value that is missing or malformed; it holds the message.
#[derive(Debug)]
pub struct ConfigError(String);

impl View for ConfigError {
    type V = Seq<char>;

    closed spec fn view(&self) -> Seq<char> {
        self.0@
    }
}

impl ConfigError {
    /// The message, as the error displays.
    pub fn message(&self) -> (m: String)
        ensures
            m@ == self@,
    {
        self.0.clone()
    }
}

#[derive(Clone, Debug)]
pub struct AppConfig {
    pub listen_port: u16,
    pub waker: WakerConfig,
    pub wol: WolConfig,
    pub ssh: SshConfig,
}

#[derive(Clone, Debug)]
pub struct WakerConfig {
    /// Host Collie validates against; also the target of the 307.
    pub public_host: String,
    /// Where Collie is polled, through the SSH tunnel.
    pub poll_url: String,
    pub timeout: TimeSpan,
    /// One Traefik health-check interval.
    pub health_interval: TimeSpan,
    pub poll_interval: TimeSpan,
}

impl WakerConfig {
    pub fn timings(&self) -> (t: WakeTimings)
        ensures
            t.timeout == self.timeout,
            t.health_interval == self.health_interval,
            t.poll_interval == self.poll_interval,
    {
        WakeTimings {
            timeout: self.timeout,
            health_interval: self.health_interval,
            poll_interval: self.poll_interval,
        }
    }
}

#[derive(Clone, Debug)]
pub struct WolConfig {
    pub mac: [u8; 6],
    pub broadcast: String,
    pub port: u16,
    pub rate_limit: TimeSpan,
}

#[derive(Clone, Debug)]
pub struct SshConfig {
    pub host: String,
    pub user: String,
    pub port: u16,
    pub key_path: String,
    pub known_hosts_path: String,
    pub strict_host_key_checking: String,
    pub tunnel_bind_addr: String,
    pub tunnel_local_port: u16,
    pub collie_server_port: u16,
}

/// The value of a variable as the configuration reads it: set, trimmed, and
/// not empty once trimmed.
pub open spec fn var_value(env: Seq<(Seq<char>, Seq<char>)>, name: Seq<char>) -> Option<Seq<char>> {
    match lookup(env, name) {
        Some(v) => if trim(v).len() > 0 {
            Some(trim(v))
        } else {
            None
        },
        None => None,
    }
}

/// The value of a text variable, or `default` where it is not set.
pub open spec fn text_or(env: Seq<(Seq<char>, Seq<char>)>, name: Seq<char>, default: Seq<char>) -> Seq<char> {
    match var_value(env, name) {
        Some(v) => v,
        None => default,
    }
}

pub open spec fn required_message(name: Seq<char>) -> Seq<char> {
    name + " is required"@
}

pub open spec fn invalid_message(name: Seq<char>, value: Seq<char>) -> Seq<char> {
    name + " is not a valid value: "@ + value
}

/// The error a required variable gives: only where it is not set.
pub open spec fn required_error(env: Seq<(Seq<char>, Seq<char>)>, name: Seq<char>) -> Option<Seq<char>> {
    if var_value(env, name) is None {
        Some(required_message(name))
    } else {
        None
    }
}

/// The error a number variable gives: only where it is set and not a
/// number from 0 to `max`.
pub open spec fn number_error(env: Seq<(Seq<char>, Seq<char>)>, name: Seq<char>, max: nat) -> Option<Seq<char>> {
    match var_value(env, name) {
        Some(v) => if parse_unsigned(v, max) is None {
            Some(invalid_message(name, v))
        } else {
            None
        },
        None => None,
    }
}

/// The value of a number variable, or `default` where it is not set.
pub open spec fn number_or(env: Seq<(Seq<char>, Seq<char>)>, name: Seq<char>, max: nat, default: nat) -> nat {
    match var_value(env, name) {
        Some(v) => parse_unsigned(v, max)->0,
        None => default,
    }
}

/// The error the MAC address gives, where it is set and malformed.
pub open spec fn mac_error(env: Seq<(Seq<char>, Seq<char>)>) -> Option<Seq<char>> {
    match var_value(env, "WOL_MAC_ADDRESS"@) {
        Some(v) => if spec_parse_mac(v) is None {
            Some("invalid MAC address: "@ + v)
        } else {
            None
        },
        None => Some(required_message("WOL_MAC_ADDRESS"@)),
    }
}

/// The first of two errors.
pub open spec fn either(first: Option<Seq<char>>, then: Option<Seq<char>>) -> Option<Seq<char>> {
    if first is Some {
        first
    } else {
        then
    }
}

pub open spec fn u16_max() -> nat {
    u16::MAX as nat
}

pub open spec fn u64_max() -> nat {
    u64::MAX as nat
}

/// The first problem with the environment, in the order the variables are
/// read, or `None` where the configuration can be read.
pub open spec fn config_error(env: Seq<(Seq<char>, Seq<char>)>) -> Option<Seq<char>> {
    either(number_error(env, "PORT"@, u16_max()),
    either(required_error(env, "PUBLIC_HOST"@),
    either(number_error(env, "TIMEOUT_SECONDS"@, u64_max()),
    either(number_error(env, "HEALTH_INTERVAL_SECONDS"@, u64_max()),
    either(number_error(env, "POLL_INTERVAL_MS"@, u64_max()),
    either(mac_error(env),
    either(number_error(env, "WOL_PORT"@, u16_max()),
    either(number_error(env, "WOL_RATE_LIMIT_SECONDS"@, u64_max()),
    either(required_error(env, "SSH_HOST"@),
    either(required_error(env, "SSH_USER"@),
    either(number_error(env, "SSH_PORT"@, u16_max()),
    either(number_error(env, "TUNNEL_LOCAL_PORT"@, u16_max()),
    number_error(env, "COLLIE_SERVER_PORT"@, u16_max())))))))))))))
}

/// Where the SSH key Secret is mounted.
pub open spec fn mount_path(env: Seq<(Seq<char>, Seq<char>)>) -> Seq<char> {
    text_or(env, "SSH_MOUNT_PATH"@, "/home/collie/.ssh"@)
}

/// The waker's part of the configuration that `env` describes.
pub open spec fn waker_config_of(env: Seq<(Seq<char>, Seq<char>)>, c: WakerConfig) -> bool {
    &&& c.public_host@ == var_value(env, "PUBLIC_HOST"@)->0
    &&& c.poll_url@ == text_or(env, "POLL_URL"@, "http://127.0.0.1:8787/api/snapshot"@)
    &&& c.timeout@ == number_or(env, "TIMEOUT_SECONDS"@, u64_max(), 45) * 1_000_000_000
    &&& c.health_interval@ == number_or(env, "HEALTH_INTERVAL_SECONDS"@, u64_max(), 5)
        * 1_000_000_000
    &&& c.poll_interval@ == number_or(env, "POLL_INTERVAL_MS"@, u64_max(), 1000) * 1_000_000
}

/// The Wake-on-LAN part of the configuration that `env` describes.
pub open spec fn wol_config_of(env: Seq<(Seq<char>, Seq<char>)>, c: WolConfig) -> bool {
    &&& Some(c.mac@) == spec_parse_mac(var_value(env, "WOL_MAC_ADDRESS"@)->0)
    &&& c.broadcast@ == text_or(env, "WOL_BROADCAST_ADDR"@, "255.255.255.255"@)
    &&& c.port == number_or(env, "WOL_PORT"@, u16_max(), 9)
    &&& c.rate_limit@ == number_or(env, "WOL_RATE_LIMIT_SECONDS"@, u64_max(), 10) * 1_000_000_000
}

/// The SSH part of the configuration that `env` describes.
pub open spec fn ssh_config_of(env: Seq<(Seq<char>, Seq<char>)>, c: SshConfig) -> bool {
    &&& c.host@ == var_value(env, "SSH_HOST"@)->0
    &&& c.user@ == var_value(env, "SSH_USER"@)->0
    &&& c.port == number_or(env, "SSH_PORT"@, u16_max(), 22)
    &&& c.key_path@ == text_or(env, "SSH_KEY_PATH"@, mount_path(env) + "/ssh-privatekey"@)
    &&& c.known_hosts_path@ == text_or(env, "SSH_KNOWN_HOSTS_PATH"@, mount_path(env) + "/known_hosts"@)
    &&& c.strict_host_key_checking@ == text_or(env, "SSH_STRICT_HOST_KEY_CHECKING"@, "accept-new"@)
    &&& c.tunnel_bind_addr@ == text_or(env, "TUNNEL_BIND_ADDR"@, "0.0.0.0"@)
    &&& c.tunnel_local_port == number_or(env, "TUNNEL_LOCAL_PORT"@, u16_max(), 8787)
    &&& c.collie_server_port == number_or(env, "COLLIE_SERVER_PORT"@, u16_max(), 8787)
}

/// The configuration that `env` describes.
pub open spec fn config_of(env: Seq<(Seq<char>, Seq<char>)>, c: AppConfig) -> bool {
    &&& c.listen_port == number_or(env, "PORT"@, u16_max(), 8080)
    &&& waker_config_of(env, c.waker)
    &&& wol_config_of(env, c.wol)
    &&& ssh_config_of(env, c.ssh)
}

fn read_var(env: &Environment, name: &str) -> (v: Option<String>)
    ensures
        match v {
            Some(s) => var_value(env@, name@) == Some(s@),
            None => var_value(env@, name@) is None,
        },
{
    match env.get(name) {
        Some(raw) => {
            let value = trimmed(raw.as_str());
            if value.unicode_len() == 0 {
                None
            } else {
                Some(value)
            }
        },
        None => None,
    }
}

fn read_var_or(env: &Environment, name: &str, default: String) -> (v: String)
    ensures
        v@ == text_or(env@, name@, default@),
{
    match read_var(env, name) {
        Some(v) => v,
        None => default,
    }
}

fn require_var(env: &Environment, name: &str) -> (r: Result<String, ConfigError>)
    ensures
        match r {
            Ok(s) => var_value(env@, name@) == Some(s@),
            Err(e) => var_value(env@, name@) is None && e@ == required_message(name@),
        },
{
    match read_var(env, name) {
        Some(v) => Ok(v),
        None => {
            let mut message = String::from_str(name);
            message.append(" is required");
            Err(ConfigError(message))
        },
    }
}

/// Reads a number from 0 to `max`.
fn parse_var(env: &Environment, name: &str, max: u64) -> (r: Result<Option<u64>, ConfigError>)
    ensures
        match r {
            Ok(n) => number_error(env@, name@, max as nat) is None && match n {
                Some(n) => var_value(env@, name@) is Some && n == number_or(env@, name@, max as nat, 0),
                None => var_value(env@, name@) is None,
            },
            Err(e) => number_error(env@, name@, max as nat) == Some(e@),
        },
{
    match read_var(env, name) {
        None => Ok(None),
        Some(value) => match parse_unsigned_decimal(value.as_str(), max) {
            Some(n) => Ok(Some(n)),
            None => {
                let mut message = String::from_str(name);
                message.append(" is not a valid value: ");
                message.append(value.as_str());
                Err(ConfigError(message))
            },
        },
    }
}

fn number_var_or(env: &Environment, name: &str, max: u64, default: u64) -> (r: Result<u64, ConfigError>)
    requires
        default <= max,
    ensures
        match r {
            Ok(n) => number_error(env@, name@, max as nat) is None && n == number_or(
                env@,
                name@,
                max as nat,
                default as nat,
            ),
            Err(e) => number_error(env@, name@, max as nat) == Some(e@),
        },
        r matches Ok(n) ==> n <= max,
{
    match parse_var(env, name, max) {
        Ok(Some(n)) => Ok(n),
        Ok(None) => Ok(default),
        Err(e) => Err(e),
    }
}

fn port_var(env: &Environment, name: &str, default: u16) -> (r: Result<u16, ConfigError>)
    ensures
        match r {
            Ok(n) => number_error(env@, name@, u16_max()) is None && n == number_or(
                env@,
                name@,
                u16_max(),
                default as nat,
            ),
            Err(e) => number_error(env@, name@, u16_max()) == Some(e@),
        },
{
    match number_var_or(env, name, 65535, default as u64) {
        Ok(n) => Ok(n as u16),
        Err(e) => Err(e),
    }
}

fn seconds(env: &Environment, name: &str, default: u64) -> (r: Result<TimeSpan, ConfigError>)
    ensures
        match r {
            Ok(t) => number_error(env@, name@, u64_max()) is None && t@ == number_or(
                env@,
                name@,
                u64_max(),
                default as nat,
            ) * 1_000_000_000,
            Err(e) => number_error(env@, name@, u64_max()) == Some(e@),
        },
{
    match number_var_or(env, name, u64::MAX, default) {
        Ok(n) => Ok(TimeSpan::from_secs(n)),
        Err(e) => Err(e),
    }
}

fn millis(env: &Environment, name: &str, default: u64) -> (r: Result<TimeSpan, ConfigError>)
    ensures
        match r {
            Ok(t) => number_error(env@, name@, u64_max()) is None && t@ == number_or(
                env@,
                name@,
                u64_max(),
                default as nat,
            ) * 1_000_000,
            Err(e) => number_error(env@, name@, u64_max()) == Some(e@),
        },
{
    match number_var_or(env, name, u64::MAX, default) {
        Ok(n) => Ok(TimeSpan::from_millis(n)),
        Err(e) => Err(e),
    }
}

fn mac_var(env: &Environment) -> (r: Result<[u8; 6], ConfigError>)
    ensures
        match r {
            Ok(mac) => mac_error(env@) is None && Some(mac@) == spec_parse_mac(
                var_value(env@, "WOL_MAC_ADDRESS"@)->0,
            ),
            Err(e) => mac_error(env@) == Some(e@),
        },
{
    let value = require_var(env, "WOL_MAC_ADDRESS")?;
    match parse_mac(value.as_str()) {
        Ok(mac) => Ok(mac),
        Err(e) => Err(ConfigError(e.message())),
    }
}

impl AppConfig {
    /// Reads configuration from the environment. The Helm chart renders every
    /// one of these from the `waker`, `wol`, and `ssh` value blocks.
    ///
    /// Each variable is trimmed, and one that is empty once trimmed counts as
    /// not set. The first problem, in the order the variables are read, is
    /// the error.
    #[verifier::rlimit(40)]
    pub fn from_env(env: &Environment) -> (r: Result<AppConfig, ConfigError>)
        ensures
            match r {
                Ok(c) => config_error(env@) is None && config_of(env@, c),
                Err(e) => config_error(env@) == Some(e@),
            },
    {
        let mount_path = read_var_or(env, "SSH_MOUNT_PATH", String::from_str("/home/collie/.ssh"));
        let listen_port = port_var(env, "PORT", 8080)?;
        let public_host = require_var(env, "PUBLIC_HOST")?;
        let poll_url = read_var_or(
            env,
            "POLL_URL",
            String::from_str("http://127.0.0.1:8787/api/snapshot"),
        );
        let timeout = seconds(env, "TIMEOUT_SECONDS", 45)?;
        let health_interval = seconds(env, "HEALTH_INTERVAL_SECONDS", 5)?;
        let poll_interval = millis(env, "POLL_INTERVAL_MS", 1000)?;
        let mac = mac_var(env)?;
        let broadcast = read_var_or(env, "WOL_BROADCAST_ADDR", String::from_str("255.255.255.255"));
        let wol_port = port_var(env, "WOL_PORT", 9)?;
        let rate_limit = seconds(env, "WOL_RATE_LIMIT_SECONDS", 10)?;
        let host = require_var(env, "SSH_HOST")?;
        let user = require_var(env, "SSH_USER")?;
        let ssh_port = port_var(env, "SSH_PORT", 22)?;
        let mut default_key = mount_path.clone();
        default_key.append("/ssh-privatekey");
        let key_path = read_var_or(env, "SSH_KEY_PATH", default_key);
        let mut default_known_hosts = mount_path.clone();
        default_known_hosts.append("/known_hosts");
        let known_hosts_path = read_var_or(env, "SSH_KNOWN_HOSTS_PATH", default_known_hosts);
        let strict_host_key_checking = read_var_or(
            env,
            "SSH_STRICT_HOST_KEY_CHECKING",
            String::from_str("accept-new"),
        );
        let tunnel_bind_addr = read_var_or(env, "TUNNEL_BIND_ADDR", String::from_str("0.0.0.0"));
        let tunnel_local_port = port_var(env, "TUNNEL_LOCAL_PORT", 8787)?;
        let collie_server_port = port_var(env, "COLLIE_SERVER_PORT", 8787)?;
        Ok(AppConfig {
            listen_port,
            waker: WakerConfig { public_host, poll_url, timeout, health_interval, poll_interval },
            wol: WolConfig { mac, broadcast, port: wol_port, rate_limit },
            ssh: SshConfig {
                host,
                user,
                port: ssh_port,
                key_path,
                known_hosts_path,
                strict_host_key_checking,
                tunnel_bind_addr,
                tunnel_local_port,
                collie_server_port,
            },
        })
    }
}

proof fn lemma_lookup_after_set(env: Seq<(Seq<char>, Seq<char>)>, name: Seq<char>, value: Seq<char>, x: Seq<char>)
    ensures
        lookup(env.push((name, value)), x) == if name == x {
            Some(value)
        } else {
            lookup(env, x)
        },
{
    assert(env.push((name, value)).drop_last() =~= env);
}

/// Each configuration field is read from its own variable alone: setting a
/// variable leaves every field that is not read from it as it was (the key
/// and known-hosts paths are read from their own variables and from
/// `SSH_MOUNT_PATH`).
pub proof fn lemma_fields_read_only_their_own_variables(
    env: Seq<(Seq<char>, Seq<char>)>,
    name: Seq<char>,
    value: Seq<char>,
    before: AppConfig,
    after: AppConfig,
)
    requires
        config_error(env) is None,
        config_of(env, before),
        config_error(env.push((name, value))) is None,
        config_of(env.push((name, value)), after),
    ensures
        name != "PORT"@ ==> after.listen_port == before.listen_port,
        name != "PUBLIC_HOST"@ ==> after.waker.public_host@ == before.waker.public_host@,
        name != "POLL_URL"@ ==> after.waker.poll_url@ == before.waker.poll_url@,
        name != "TIMEOUT_SECONDS"@ ==> after.waker.timeout@ == before.waker.timeout@,
        name != "HEALTH_INTERVAL_SECONDS"@ ==> after.waker.health_interval@
            == before.waker.health_interval@,
        name != "POLL_INTERVAL_MS"@ ==> after.waker.poll_interval@ == before.waker.poll_interval@,
        name != "WOL_MAC_ADDRESS"@ ==> after.wol.mac@ == before.wol.mac@,
        name != "WOL_BROADCAST_ADDR"@ ==> after.wol.broadcast@ == before.wol.broadcast@,
        name != "WOL_PORT"@ ==> after.wol.port == before.wol.port,
        name != "WOL_RATE_LIMIT_SECONDS"@ ==> after.wol.rate_limit@ == before.wol.rate_limit@,
        name != "SSH_HOST"@ ==> after.ssh.host@ == before.ssh.host@,
        name != "SSH_USER"@ ==> after.ssh.user@ == before.ssh.user@,
        name != "SSH_PORT"@ ==> after.ssh.port == before.ssh.port,
        name != "SSH_KEY_PATH"@ && name != "SSH_MOUNT_PATH"@ ==> after.ssh.key_path@
            == before.ssh.key_path@,
        name != "SSH_KNOWN_HOSTS_PATH"@ && name != "SSH_MOUNT_PATH"@ ==> after.ssh.known_hosts_path@
            == before.ssh.known_hosts_path@,
        name != "SSH_STRICT_HOST_KEY_CHECKING"@ ==> after.ssh.strict_host_key_checking@
            == before.ssh.strict_host_key_checking@,
        name != "TUNNEL_BIND_ADDR"@ ==> after.ssh.tunnel_bind_addr@ == before.ssh.tunnel_bind_addr@,
        name != "TUNNEL_LOCAL_PORT"@ ==> after.ssh.tunnel_local_port == before.ssh.tunnel_local_port,
        name != "COLLIE_SERVER_PORT"@ ==> after.ssh.collie_server_port
            == before.ssh.collie_server_port,
{
    let e2 = env.push((name, value));
    lemma_lookup_after_set(env, name, value, "PORT"@);
    lemma_lookup_after_set(env, name, value, "PUBLIC_HOST"@);
    lemma_lookup_after_set(env, name, value, "POLL_URL"@);
    lemma_lookup_after_set(env, name, value, "TIMEOUT_SECONDS"@);
    lemma_lookup_after_set(env, name, value, "HEALTH_INTERVAL_SECONDS"@);
    lemma_lookup_after_set(env, name, value, "POLL_INTERVAL_MS"@);
    lemma_lookup_after_set(env, name, value, "WOL_MAC_ADDRESS"@);
    lemma_lookup_after_set(env, name, value, "WOL_BROADCAST_ADDR"@);
    lemma_lookup_after_set(env, name, value, "WOL_PORT"@);
    lemma_lookup_after_set(env, name, value, "WOL_RATE_LIMIT_SECONDS"@);
    lemma_lookup_after_set(env, name, value, "SSH_HOST"@);
    lemma_lookup_after_set(env, name, value, "SSH_USER"@);
    lemma_lookup_after_set(env, name, value, "SSH_PORT"@);
    lemma_lookup_after_set(env, name, value, "SSH_KEY_PATH"@);
    lemma_lookup_after_set(env, name, value, "SSH_MOUNT_PATH"@);
    lemma_lookup_after_set(env, name, value, "SSH_KNOWN_HOSTS_PATH"@);
    lemma_lookup_after_set(env, name, value, "SSH_STRICT_HOST_KEY_CHECKING"@);
    lemma_lookup_after_set(env, name, value, "TUNNEL_BIND_ADDR"@);
    lemma_lookup_after_set(env, name, value, "TUNNEL_LOCAL_PORT"@);
    lemma_lookup_after_set(env, name, value, "COLLIE_SERVER_PORT"@);
    assert(name != "SSH_MOUNT_PATH"@ ==> mount_path(e2) == mount_path(env));
}

/// The port Collie listens on at the dev box is `COLLIE_SERVER_PORT` where
/// that is set and 8787 where it is not, and a port written there in
/// decimal is the port configured, whatever `TUNNEL_LOCAL_PORT` holds; the
/// same holds of the tunnel's local port and `TUNNEL_LOCAL_PORT`.
pub proof fn lemma_tunnel_ports_read_their_variables(
    env: Seq<(Seq<char>, Seq<char>)>,
    c: AppConfig,
    server: u16,
    local: u16,
    set_server: AppConfig,
    set_local: AppConfig,
)
    requires
        config_error(env) is None,
        config_of(env, c),
        config_of(env.push(("COLLIE_SERVER_PORT"@, decimal(server as nat))), set_server),
        config_of(env.push(("TUNNEL_LOCAL_PORT"@, decimal(local as nat))), set_local),
    ensures
        lookup(env, "COLLIE_SERVER_PORT"@) is None ==> c.ssh.collie_server_port == 8787,
        var_value(env, "COLLIE_SERVER_PORT"@) matches Some(v) ==> parse_unsigned(v, u16::MAX as nat)
            == Some(c.ssh.collie_server_port as nat),
        set_server.ssh.collie_server_port == server,
        lookup(env, "TUNNEL_LOCAL_PORT"@) is None ==> c.ssh.tunnel_local_port == 8787,
        var_value(env, "TUNNEL_LOCAL_PORT"@) matches Some(v) ==> parse_unsigned(v, u16::MAX as nat)
            == Some(c.ssh.tunnel_local_port as nat),
        set_local.ssh.tunnel_local_port == local,
{
    lemma_parse_reads_decimal(server as nat, u16::MAX as nat);
    lemma_parse_reads_decimal(local as nat, u16::MAX as nat);
    lemma_lookup_after_set(env, "COLLIE_SERVER_PORT"@, decimal(server as nat), "COLLIE_SERVER_PORT"@);
    lemma_lookup_after_set(env, "TUNNEL_LOCAL_PORT"@, decimal(local as nat), "TUNNEL_LOCAL_PORT"@);
    if let Some(v) = var_value(env, "COLLIE_SERVER_PORT"@) {
        assert(number_error(env, "COLLIE_SERVER_PORT"@, u16_max()) is None);
    }
    if let Some(v) = var_value(env, "TUNNEL_LOCAL_PORT"@) {
        assert(number_error(env, "TUNNEL_LOCAL_PORT"@, u16_max()) is None);
    }
}

} // verus!
