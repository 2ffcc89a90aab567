//! The configuration of the proxy as plain values, with the defaults of the
//! settings that may be left out. Spans of time are whole nanoseconds.

use vstd::prelude::*;

verus! {

/// The access-log line of a server that was given no format.
pub fn access_log_format() -> (format: String)
    ensures
        format@
            == "{remote_addr}:{remote_port} to {upstream_addr}:{upstream_port} in {response_time} sec"@,
{
    "{remote_addr}:{remote_port} to {upstream_addr}:{upstream_port} in {response_time} sec".to_owned()
}

/// A host is reached over IPv4 unless it says otherwise.
pub fn default_host_ipv6() -> (ipv6: bool)
    ensures
        !ipv6,
{
    false
}

/// A host is allowed one failure within its window.
pub fn default_max_fails() -> (max_fails: u8)
    ensures
        max_fails == 1,
{
    1
}

/// A host may hold as many connections as a `u16` counts.
pub fn default_max_conns() -> (max_conns: u16)
    ensures
        max_conns == u16::MAX,
{
    u16::MAX
}

/// A server queues up to 1024 connections.
pub fn default_max_queue_size() -> (size: u16)
    ensures
        size == 1024,
{
    1024
}

/// A queued connection waits up to thirty seconds.
pub fn default_max_queue_timeout() -> (timeout: u128)
    ensures
        timeout == 30_000_000_000,
{
    30_000_000_000
}

/// A name server listens on port 53.
pub fn default_dns_port() -> (port: u16)
    ensures
        port == 53,
{
    53
}

/// Resolved addresses are kept without expiry.
pub fn default_dns_expiration() -> (expiration: Option<u128>)
    ensures
        expiration is None,
{
    None
}

/// Access logs carry milliseconds.
pub fn timestamp_precision() -> (precision: TimestampPrecision)
    ensures
        precision == TimestampPrecision::Millis,
{
    TimestampPrecision::Millis
}

/// The protocol a server listens on.
#[derive(Debug, Clone, Copy, PartialEq, Eq, Structural)]
pub enum Proto {
    TCP,
    UDP,
    UNIX,
}

impl Proto {
    /// The protocol's name as the configuration writes it.
    pub fn name(&self) -> (name: String)
        ensures
            name@ == match *self {
                Proto::TCP => "tcp"@,
                Proto::UDP => "udp"@,
                Proto::UNIX => "unix"@,
            },
    {
        match self {
            Proto::TCP => "tcp".to_owned(),
            Proto::UDP => "udp".to_owned(),
            Proto::UNIX => "unix".to_owned(),
        }
    }
}

/// The queue of connections that wait for a backend.
#[derive(Debug, Clone, Copy, PartialEq, Eq, Structural)]
pub struct Queue {
    pub size: u16,
    pub timeout: u128,
}

impl Default for Queue {
    /// A queue of a server that names none: it holds nothing and waits for nothing.
    fn default() -> (queue: Queue)
        ensures
            queue == (Queue { size: 0, timeout: 0 }),
    {
        Queue { size: 0, timeout: 0 }
    }
}

/// How finely access logs tell the time.
#[derive(Debug, Clone, Copy, PartialEq, Eq, Structural)]
pub enum TimestampPrecision {
    Seconds,
    Millis,
    Micros,
    Nanos,
}

/// Where and how accesses are logged.
#[derive(Debug)]
pub struct AccessLog {
    pub format: String,
    pub timestamp_precision: TimestampPrecision,
    /// The path of the log file, where there is one.
    pub file: Option<String>,
}

/// One backend host as the configuration describes it.
#[derive(Debug)]
pub struct Host {
    pub host: String,
    pub port: u16,
    pub ipv6: bool,
    /// The host's weight, where the configuration states one.
    pub weight: Option<u8>,
    pub max_fails: u8,
    pub max_conns: u16,
    pub fail_timeout: u128,
}

/// What a sticky session is keyed by.
#[derive(Debug, Clone, Copy, PartialEq, Eq, Structural)]
pub enum StickyKind {
    IP,
}

/// Sticky sessions.
#[derive(Debug, Clone, Copy, PartialEq, Eq, Structural)]
pub struct Sticky {
    pub kind: StickyKind,
}

/// A named group of backend hosts and the resolver that serves it.
#[derive(Debug)]
pub struct Upstream {
    pub name: String,
    pub hosts: Vec<Host>,
    pub resolver: String,
}

} // verus!
