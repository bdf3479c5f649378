//! The serving decisions a connection handler needs: the verbosity level a
//! count of flags selects, which `Host` values a server accepts, and what a
//! request's method and path ask for. The handler performs the chosen
//! action; everything decided here is pure.

use vstd::prelude::*;

use crate::method::Method;
use crate::slices::{slice_contains, slices_equal, spec_contains_slice};

verus! {

/// A logging verbosity level, from silence to full tracing.
#[derive(Clone, Copy, PartialEq, Eq, Structural, Debug)]
pub enum LogLevel {
    Off,
    Error,
    Warn,
    Info,
    Debug,
    Trace,
}

/// The level a verbosity count selects, clamped to the known levels.
pub open spec fn log_filter_spec(verbosity: i32) -> LogLevel {
    if verbosity <= 0 {
        LogLevel::Off
    } else if verbosity == 1 {
        LogLevel::Error
    } else if verbosity == 2 {
        LogLevel::Warn
    } else if verbosity == 3 {
        LogLevel::Info
    } else if verbosity == 4 {
        LogLevel::Debug
    } else {
        LogLevel::Trace
    }
}

pub fn log_filter_from_int(verbosity: i32) -> (r: LogLevel)
    ensures
        r == log_filter_spec(verbosity),
{
    if verbosity <= 0 {
        LogLevel::Off
    } else if verbosity == 1 {
        LogLevel::Error
    } else if verbosity == 2 {
        LogLevel::Warn
    } else if verbosity == 3 {
        LogLevel::Info
    } else if verbosity == 4 {
        LogLevel::Debug
    } else {
        LogLevel::Trace
    }
}

/// The `Host` values a server answers to: its address-and-port form, its
/// name-and-port form (empty when it has no name), and each without the
/// port when the port is the protocol default.
pub struct HostPolicy {
    host_ip: Vec<u8>,
    host_ip_without_port: usize,
    host_ns: Vec<u8>,
    host_ns_without_port: usize,
}

impl HostPolicy {
    pub closed spec fn ip(&self) -> Seq<u8> {
        self.host_ip@
    }

    pub closed spec fn ns(&self) -> Seq<u8> {
        self.host_ns@
    }

    pub closed spec fn ip_without_port(&self) -> int {
        self.host_ip_without_port as int
    }

    pub closed spec fn ns_without_port(&self) -> int {
        self.host_ns_without_port as int
    }

    pub open spec fn wf(&self) -> bool {
        0 <= self.ip_without_port() <= self.ip().len() && 0 <= self.ns_without_port()
            <= self.ns().len()
    }

    /// Build the policy from the two host forms; when the port is the
    /// protocol default, a `Host` without the trailing `:` and port (three
    /// bytes) is accepted too.
    pub fn new(host_ip: Vec<u8>, host_ns: Vec<u8>, port_is_default: bool) -> (r: Self)
        ensures
            r.wf(),
            r.ip() == host_ip@,
            r.ns() == host_ns@,
            r.ip_without_port() == if port_is_default && host_ip@.len() >= 3 {
                host_ip@.len() - 3
            } else {
                0int
            },
            r.ns_without_port() == if port_is_default && host_ns@.len() >= 3 {
                host_ns@.len() - 3
            } else {
                0int
            },
    {
        let mut host_ip_without_port: usize = 0;
        let mut host_ns_without_port: usize = 0;
        if port_is_default {
            if host_ip.len() >= 3 {
                host_ip_without_port = host_ip.len() - 3;
            }
            if host_ns.len() >= 3 {
                host_ns_without_port = host_ns.len() - 3;
            }
        }
        HostPolicy { host_ip, host_ip_without_port, host_ns, host_ns_without_port }
    }

    /// Whether a `Host` header value names this server: either full form,
    /// or either portless form where one is in effect.
    pub open spec fn accepts(&self, host: Seq<u8>) -> bool {
        ||| (self.ns_without_port() > 0 && host == self.ns().take(self.ns_without_port()))
        ||| (self.ip_without_port() > 0 && host == self.ip().take(self.ip_without_port()))
        ||| (self.ns().len() > 0 && host == self.ns())
        ||| host == self.ip()
    }

    pub fn validate_host(&self, host: &[u8]) -> (r: bool)
        requires
            self.wf(),
        ensures
            r == self.accepts(host@),
    {
        let ns_cut: &[u8] = &self.host_ns.as_slice()[0..self.host_ns_without_port];
        let ip_cut: &[u8] = &self.host_ip.as_slice()[0..self.host_ip_without_port];
        let r = (self.host_ns_without_port != 0 && slices_equal(host, ns_cut)) || (
        self.host_ip_without_port != 0 && slices_equal(host, ip_cut)) || (self.host_ns.len() > 0
            && slices_equal(host, self.host_ns.as_slice())) || slices_equal(
            host,
            self.host_ip.as_slice(),
        );
        proof {
            assert(ns_cut@ =~= self.ns().take(self.ns_without_port()));
            assert(ip_cut@ =~= self.ip().take(self.ip_without_port()));
        }
        r
    }
}

/// What a request asks the file server to do.
#[derive(Clone, Copy, PartialEq, Eq, Structural, Debug)]
pub enum RouteDecision {
    /// The `Host` header is missing, repeated, or names another server.
    Misdirected,
    /// Only `GET` and `HEAD` are served.
    MethodNotAllowed,
    /// The path does not start with a slash: nothing to serve.
    NotFound,
    /// The path tries to climb out of the served tree.
    BadRequest,
    /// The path ends in a slash: render the directory listing.
    ListDirectory,
    /// Serve the file at the path.
    ServeFile,
}

/// The two-byte parent-directory marker `..`.
pub open spec fn dot_dot() -> Seq<u8> {
    seq![46u8, 46u8]
}

/// The routing rule: a valid `Host` first, then only `GET` and `HEAD`, then
/// a path that starts with `/` and never climbs with `..`; a trailing slash
/// asks for a directory listing, anything else for the file itself.
pub open spec fn route_decision_spec(
    policy: HostPolicy,
    host: Option<Seq<u8>>,
    method: Method,
    path: Seq<u8>,
) -> RouteDecision {
    if !(host is Some && policy.accepts(host->Some_0)) {
        RouteDecision::Misdirected
    } else if method != Method::Get && method != Method::Head {
        RouteDecision::MethodNotAllowed
    } else if path.len() == 0 || path[0] != 47 {
        RouteDecision::NotFound
    } else if spec_contains_slice(path, dot_dot()) {
        RouteDecision::BadRequest
    } else if path.last() == 47 {
        RouteDecision::ListDirectory
    } else {
        RouteDecision::ServeFile
    }
}

/// Decide what a request asks for, from its `Host` header (as
/// `get_single` returns it), its method and its path.
pub fn route_decision(
    policy: &HostPolicy,
    host: Option<&[u8]>,
    method: Method,
    path: &[u8],
) -> (r: RouteDecision)
    requires
        policy.wf(),
    ensures
        r == route_decision_spec(
            *policy,
            match host {
                Some(h) => Some(h@),
                None => None,
            },
            method,
            path@,
        ),
{
    let host_ok = match host {
        Some(h) => policy.validate_host(h),
        None => false,
    };
    if !host_ok {
        return RouteDecision::Misdirected;
    }
    if !(matches!(method, Method::Get | Method::Head)) {
        return RouteDecision::MethodNotAllowed;
    }
    if path.len() == 0 || path[0] != 47 {
        return RouteDecision::NotFound;
    }
    if slice_contains(path, &[46u8, 46u8]) {
        return RouteDecision::BadRequest;
    }
    if path[path.len() - 1] == 47 {
        RouteDecision::ListDirectory
    } else {
        RouteDecision::ServeFile
    }
}

} // verus!
