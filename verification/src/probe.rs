//! What one connection attempt says about a port.

use vstd::prelude::*;
use crate::config::{Address, Protocol, Timeout};

verus! {

/// Why a connection attempt did not end in a connection.
#[derive(Clone, Copy, Debug, PartialEq, Eq)]
pub enum ConnectError {
    /// The host answered and refused the connection.
    Refused,
    /// Nothing answered before the timeout ran out.
    TimedOut,
    /// No route leads to the host or to its network.
    Unreachable,
    /// The arguments of the attempt were not accepted.
    InvalidInput,
    /// The address cannot be connected to from this machine.
    AddrNotAvailable,
    /// The system did not permit the attempt.
    PermissionDenied,
    /// The system ran out of sockets, memory or another resource.
    Exhausted,
    /// The task that ran the attempt ended before it reported.
    Aborted,
    /// Any other failure of the transport.
    Other,
}

impl ConnectError {
    /// Whether this failure only says that nothing listens on the port:
    /// the connection was refused, timed out, or found no route.
    pub open spec fn says_closed(self) -> bool {
        self is Refused || self is TimedOut || self is Unreachable
    }

    /// Whether this failure only says that nothing listens on the port.
    pub fn is_closed_signal(&self) -> (closed: bool)
        ensures
            closed == self.says_closed(),
    {
        match self {
            ConnectError::Refused | ConnectError::TimedOut | ConnectError::Unreachable => true,
            _ => false,
        }
    }
}

/// What one probe connects to, and how: the host, the port, the transport
/// and the time the connection may take. It is made once for each port of a
/// scan and never changed.
#[derive(Clone, Copy, Debug, PartialEq, Eq)]
pub struct ScanTarget {
    pub address: Address,
    pub port: u16,
    pub protocol: Protocol,
    pub timeout: Timeout,
}

/// The result of probing one port.
#[derive(Clone, Copy, Debug, PartialEq, Eq)]
pub enum ProbeOutcome {
    /// The port accepted a connection within the timeout.
    Open(u16),
    /// The port refused the connection or did not answer in time.
    Closed(u16),
    /// The attempt failed for a reason that says nothing about the port.
    Error(u16, ConnectError),
}

impl ProbeOutcome {
    /// The port that was probed.
    pub open spec fn spec_port(self) -> u16 {
        match self {
            ProbeOutcome::Open(port) => port,
            ProbeOutcome::Closed(port) => port,
            ProbeOutcome::Error(port, _) => port,
        }
    }

    /// The port that was probed.
    pub fn port(&self) -> (port: u16)
        ensures
            port == self.spec_port(),
    {
        match self {
            ProbeOutcome::Open(port) => *port,
            ProbeOutcome::Closed(port) => *port,
            ProbeOutcome::Error(port, _) => *port,
        }
    }

    /// Whether the port was found open.
    pub fn is_open(&self) -> (open: bool)
        ensures
            open == (self is Open),
    {
        match self {
            ProbeOutcome::Open(_) => true,
            _ => false,
        }
    }
}

/// What an attempt on `port` under `timeout` means, given how it ended.
///
/// A connection makes the port open. A refusal, a timeout and a missing
/// route make it closed, and so does an attempt that was turned down because
/// the timeout left it no time at all. Every other failure is an error of
/// the probe, which carries the failure.
pub open spec fn outcome_of(port: u16, timeout: Timeout, attempt: Result<(), ConnectError>) -> ProbeOutcome {
    match attempt {
        Ok(_) => ProbeOutcome::Open(port),
        Err(e) => if e.says_closed() || (timeout.total_nanos() == 0 && e is InvalidInput) {
            ProbeOutcome::Closed(port)
        } else {
            ProbeOutcome::Error(port, e)
        },
    }
}

/// Classifies the end of one connection attempt on `target`.
pub fn classify(target: &ScanTarget, attempt: Result<(), ConnectError>) -> (outcome: ProbeOutcome)
    ensures
        outcome == outcome_of(target.port, target.timeout, attempt),
        outcome.spec_port() == target.port,
        outcome is Open <==> attempt is Ok,
{
    let port = target.port;
    match attempt {
        Ok(_) => ProbeOutcome::Open(port),
        Err(e) => {
            if e.is_closed_signal() {
                ProbeOutcome::Closed(port)
            } else if target.timeout.is_zero() && matches!(e, ConnectError::InvalidInput) {
                ProbeOutcome::Closed(port)
            } else {
                ProbeOutcome::Error(port, e)
            }
        },
    }
}

} // verus!
