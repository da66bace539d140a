//! Run parameters and their validation.

use vstd::prelude::*;
use vstd::string::*;

verus! {

/// The highest port number there is.
pub const MAX: u16 = 65535;

/// The first port scanned when none is given.
pub const DEFAULT_START_PORT: u16 = 1;

/// The number of probes that may run at once when none is given.
pub const DEFAULT_THREADS: usize = 10;

/// The seconds a probe may wait for its connection when none are given.
pub const DEFAULT_TIMEOUT_SECS: u64 = 1;

/// One more than the largest sub-second part of a timeout.
pub const NANOS_PER_SEC: u32 = 1_000_000_000;

/// Whether `input` can be the first port of a scan: any port but 0.
pub fn start_port_guard(input: &u16) -> (ok: bool)
    ensures
        ok == (*input > 0),
{
    *input > 0
}

/// Whether `input` can be the last port of a scan: any port up to [`MAX`].
pub fn end_port_guard(input: &u16) -> (ok: bool)
    ensures
        ok == (*input <= MAX),
{
    *input <= MAX
}

/// The host to scan, as the bytes of its IPv4 or IPv6 address in network
/// order.
#[derive(Clone, Copy, Debug, PartialEq, Eq)]
pub enum Address {
    V4([u8; 4]),
    V6([u8; 16]),
}

impl Address {
    /// Whether this is the IPv4 address 127.0.0.1.
    pub open spec fn is_localhost(self) -> bool {
        self matches Address::V4(bytes) && bytes@ == seq![127u8, 0u8, 0u8, 1u8]
    }

    /// The address scanned when none is given: 127.0.0.1.
    pub fn localhost() -> (addr: Address)
        ensures
            addr.is_localhost(),
    {
        Address::V4([127, 0, 0, 1])
    }
}

/// How long one probe may wait for its connection: whole seconds and a
/// sub-second part in nanoseconds, which is always below one second.
#[derive(Clone, Copy, Debug, PartialEq, Eq)]
pub struct Timeout {
    secs: u64,
    nanos: u32,
}

impl Timeout {
    #[verifier::type_invariant]
    closed spec fn well_formed(self) -> bool {
        self.nanos < NANOS_PER_SEC
    }

    /// The whole seconds of the timeout.
    pub closed spec fn spec_secs(self) -> nat {
        self.secs as nat
    }

    /// The part of the timeout below one second, in nanoseconds.
    pub closed spec fn spec_subsec_nanos(self) -> nat {
        self.nanos as nat
    }

    /// The whole timeout in nanoseconds.
    pub open spec fn total_nanos(self) -> nat {
        self.spec_secs() * 1_000_000_000 + self.spec_subsec_nanos()
    }

    /// A timeout of `secs` seconds and `nanos` nanoseconds, if `nanos` is
    /// less than a second.
    pub fn new(secs: u64, nanos: u32) -> (t: Option<Timeout>)
        ensures
            t is Some <==> nanos < NANOS_PER_SEC,
            t matches Some(t) ==> t.spec_secs() == secs && t.spec_subsec_nanos() == nanos,
    {
        if nanos < NANOS_PER_SEC {
            Some(Timeout { secs, nanos })
        } else {
            None
        }
    }

    /// A timeout of `secs` whole seconds.
    pub fn from_secs(secs: u64) -> (t: Timeout)
        ensures
            t.spec_secs() == secs,
            t.spec_subsec_nanos() == 0,
    {
        Timeout { secs, nanos: 0 }
    }

    /// The whole seconds of the timeout.
    pub fn secs(&self) -> (s: u64)
        ensures
            s == self.spec_secs(),
    {
        self.secs
    }

    /// The part of the timeout below one second, in nanoseconds.
    pub fn subsec_nanos(&self) -> (n: u32)
        ensures
            n == self.spec_subsec_nanos(),
            n < NANOS_PER_SEC,
    {
        proof {
            use_type_invariant(self);
        }
        self.nanos
    }

    /// Whether a probe under this timeout may not wait at all.
    pub fn is_zero(&self) -> (zero: bool)
        ensures
            zero == (self.total_nanos() == 0),
    {
        self.secs == 0 && self.nanos == 0
    }
}

/// The transport a probe connects over.
#[derive(Clone, Copy, Debug, PartialEq, Eq)]
pub enum Protocol {
    Tcp,
    Udp,
}

impl Protocol {
    /// The protocol that `name` selects: `tcp` or `udp`, in lower case.
    pub open spec fn named(name: Seq<char>) -> Option<Protocol> {
        if name == "tcp"@ {
            Some(Protocol::Tcp)
        } else if name == "udp"@ {
            Some(Protocol::Udp)
        } else {
            None
        }
    }

    /// Reads a protocol selector; any text but `tcp` and `udp` selects
    /// nothing.
    pub fn parse(name: &String) -> (protocol: Option<Protocol>)
        ensures
            protocol == Protocol::named(name@),
    {
        if *name == String::from_str("tcp") {
            Some(Protocol::Tcp)
        } else if *name == String::from_str("udp") {
            Some(Protocol::Udp)
        } else {
            None
        }
    }

    /// The selector of this protocol.
    pub fn name(&self) -> (name: String)
        ensures
            Protocol::named(name@) == Some(*self),
    {
        proof {
            reveal_strlit("tcp");
            reveal_strlit("udp");
            assert("tcp"@[0] != "udp"@[0]);
        }
        match self {
            Protocol::Tcp => String::from_str("tcp"),
            Protocol::Udp => String::from_str("udp"),
        }
    }
}

/// Why a set of run parameters cannot be scanned with.
#[derive(Clone, Copy, Debug, PartialEq, Eq)]
pub enum ConfigError {
    /// The first port is 0.
    StartPortZero,
    /// The first port lies after the last.
    StartAfterEnd,
    /// No probe would be allowed to run.
    NoThreads,
    /// The protocol selector is neither `tcp` nor `udp`.
    UnknownProtocol,
}

/// The ports from `first` to `last`, both included, in ascending order.
pub open spec fn ports_between(first: int, last: int) -> Seq<u16> {
    Seq::new((last - first + 1) as nat, |i: int| (first + i) as u16)
}

/// The ports of one scan: every port from `start` to `end`, both included,
/// with `1 <= start <= end`.
#[derive(Clone, Copy, Debug, PartialEq, Eq)]
pub struct PortRange {
    start: u16,
    end: u16,
}

impl PortRange {
    #[verifier::type_invariant]
    closed spec fn well_formed(self) -> bool {
        1 <= self.start <= self.end
    }

    /// The first port of the range.
    pub closed spec fn spec_start(self) -> int {
        self.start as int
    }

    /// The last port of the range.
    pub closed spec fn spec_end(self) -> int {
        self.end as int
    }

    /// Whether the bounds are those of a range: `1 <= start <= end <= MAX`.
    /// Every range that executable code holds is valid.
    pub open spec fn valid(self) -> bool {
        1 <= self.spec_start() <= self.spec_end() <= MAX
    }

    /// Whether `port` is one of the ports of the range.
    pub open spec fn has(self, port: int) -> bool {
        self.spec_start() <= port <= self.spec_end()
    }

    /// How many ports the range holds.
    pub open spec fn count(self) -> int {
        self.spec_end() - self.spec_start() + 1
    }

    /// The ports of the range in ascending order.
    pub open spec fn ports(self) -> Seq<u16> {
        ports_between(self.spec_start(), self.spec_end())
    }

    /// The error that the bounds `start` and `end` are refused with, if any.
    pub open spec fn refusal(start: u16, end: u16) -> Option<ConfigError> {
        if start == 0 {
            Some(ConfigError::StartPortZero)
        } else if start > end {
            Some(ConfigError::StartAfterEnd)
        } else {
            None
        }
    }

    /// The range from `start` to `end`, unless `start` is 0 or lies after
    /// `end`.
    pub fn new(start: u16, end: u16) -> (range: Result<PortRange, ConfigError>)
        ensures
            match range {
                Ok(r) => PortRange::refusal(start, end) is None && r.spec_start() == start
                    && r.spec_end() == end && r.valid(),
                Err(e) => PortRange::refusal(start, end) == Some(e),
            },
    {
        if !start_port_guard(&start) {
            Err(ConfigError::StartPortZero)
        } else if start > end {
            Err(ConfigError::StartAfterEnd)
        } else {
            Ok(PortRange { start, end })
        }
    }

    /// The first port of the range.
    pub fn start(&self) -> (port: u16)
        ensures
            port == self.spec_start(),
            self.valid(),
    {
        proof {
            use_type_invariant(self);
        }
        self.start
    }

    /// The last port of the range.
    pub fn end(&self) -> (port: u16)
        ensures
            port == self.spec_end(),
            self.valid(),
    {
        proof {
            use_type_invariant(self);
        }
        self.end
    }

    /// The number of ports in the range.
    pub fn len(&self) -> (n: u32)
        ensures
            n == self.count(),
            1 <= n <= MAX,
    {
        proof {
            use_type_invariant(self);
        }
        let first: u32 = self.start as u32;
        let last: u32 = self.end as u32;
        last - first + 1
    }

    /// Whether `port` is one of the ports of the range.
    pub fn contains(&self, port: u16) -> (inside: bool)
        ensures
            inside == self.has(port as int),
    {
        self.start <= port && port <= self.end
    }
}

/// Every valid range holds exactly `end - start + 1` ports, each of its
/// ports once, in ascending order.
pub proof fn lemma_range_ports(range: PortRange)
    requires
        range.valid(),
    ensures
        range.ports().len() == range.spec_end() - range.spec_start() + 1,
        range.ports().no_duplicates(),
        forall|i: int| 0 <= i < range.ports().len() ==> #[trigger] range.ports()[i] == range.spec_start() + i,
        forall|port: u16| range.has(port as int) <==> range.ports().contains(port),
{
    let ports = range.ports();
    assert forall|port: u16| range.has(port as int) implies ports.contains(port) by {
        assert(ports[port - range.spec_start()] == port);
    }
}

/// The run parameters as they are given, before anything is checked.
#[derive(Clone, Debug, PartialEq, Eq)]
pub struct Arguments {
    /// The host to scan.
    pub address: Address,
    /// The first port to scan; must be greater than 0.
    pub start_port: u16,
    /// The last port to scan.
    pub end_port: u16,
    /// The timeout of each connection attempt.
    pub timeout: Timeout,
    /// The number of probes that may run at once; must be greater than 0.
    pub threads: usize,
    /// Whether every probe is reported as it ends.
    pub verbose: bool,
    /// The file that the result is saved to, if any.
    pub output: Option<String>,
    /// The protocol selector, `tcp` or `udp`.
    pub protocol: String,
}

impl Arguments {
    /// The parameters of a run for which nothing was given: every port of
    /// the local host over TCP, ten probes at a time with a second each.
    pub fn fallback() -> (args: Arguments)
        ensures
            args.address.is_localhost(),
            args.start_port == DEFAULT_START_PORT,
            args.end_port == MAX,
            args.timeout.spec_secs() == DEFAULT_TIMEOUT_SECS,
            args.timeout.spec_subsec_nanos() == 0,
            args.threads == DEFAULT_THREADS,
            !args.verbose,
            args.output is None,
            args.protocol@ == "tcp"@,
    {
        Arguments {
            address: Address::localhost(),
            start_port: DEFAULT_START_PORT,
            end_port: MAX,
            timeout: Timeout::from_secs(DEFAULT_TIMEOUT_SECS),
            threads: DEFAULT_THREADS,
            verbose: false,
            output: None,
            protocol: String::from_str("tcp"),
        }
    }

    /// The error that these parameters are refused with, if any. The port
    /// bounds are looked at first, then the thread count, then the protocol.
    pub open spec fn refusal(self) -> Option<ConfigError> {
        if PortRange::refusal(self.start_port, self.end_port) is Some {
            PortRange::refusal(self.start_port, self.end_port)
        } else if self.threads == 0 {
            Some(ConfigError::NoThreads)
        } else if Protocol::named(self.protocol@) is None {
            Some(ConfigError::UnknownProtocol)
        } else {
            None
        }
    }
}

/// The parameters of one run, checked: the port range is well formed and at
/// least one probe may run at a time. A scan reads them and never changes
/// them.
#[derive(Debug, PartialEq, Eq)]
pub struct ScanConfig {
    address: Address,
    range: PortRange,
    timeout: Timeout,
    threads: usize,
    verbose: bool,
    protocol: Protocol,
    output: Option<String>,
}

impl ScanConfig {
    #[verifier::type_invariant]
    closed spec fn well_formed(self) -> bool {
        self.threads >= 1 && self.range.valid()
    }

    /// The host to scan.
    pub closed spec fn spec_address(self) -> Address {
        self.address
    }

    /// The ports to scan.
    pub closed spec fn spec_range(self) -> PortRange {
        self.range
    }

    /// The timeout of each connection attempt.
    pub closed spec fn spec_timeout(self) -> Timeout {
        self.timeout
    }

    /// The number of probes that may run at once.
    pub closed spec fn spec_threads(self) -> nat {
        self.threads as nat
    }

    /// Whether every probe is reported as it ends.
    pub closed spec fn spec_verbose(self) -> bool {
        self.verbose
    }

    /// The transport of every probe.
    pub closed spec fn spec_protocol(self) -> Protocol {
        self.protocol
    }

    /// The file that the result is saved to, if any.
    pub closed spec fn spec_output(self) -> Option<String> {
        self.output
    }

    /// Whether this is what checking `args` gives: the same values, the
    /// bounds as a range and the selector as a protocol.
    pub open spec fn built_from(self, args: Arguments) -> bool {
        &&& self.spec_address() == args.address
        &&& self.spec_range().spec_start() == args.start_port
        &&& self.spec_range().spec_end() == args.end_port
        &&& self.spec_range().valid()
        &&& self.spec_timeout() == args.timeout
        &&& self.spec_threads() == args.threads
        &&& self.spec_threads() >= 1
        &&& self.spec_verbose() == args.verbose
        &&& Some(self.spec_protocol()) == Protocol::named(args.protocol@)
        &&& self.spec_output() == args.output
    }

    /// Checks the parameters of a run. They are accepted unless the first
    /// port is 0 or lies after the last, no probe may run, or the protocol
    /// is unknown; the first of these that holds is the error.
    pub fn from_arguments(args: Arguments) -> (config: Result<ScanConfig, ConfigError>)
        ensures
            match config {
                Ok(c) => args.refusal() is None && c.built_from(args),
                Err(e) => args.refusal() == Some(e),
            },
    {
        let range = match PortRange::new(args.start_port, args.end_port) {
            Ok(range) => range,
            Err(e) => {
                return Err(e);
            },
        };
        if args.threads == 0 {
            return Err(ConfigError::NoThreads);
        }
        let protocol = match Protocol::parse(&args.protocol) {
            Some(protocol) => protocol,
            None => {
                return Err(ConfigError::UnknownProtocol);
            },
        };
        Ok(
            ScanConfig {
                address: args.address,
                range,
                timeout: args.timeout,
                threads: args.threads,
                verbose: args.verbose,
                protocol,
                output: args.output,
            },
        )
    }

    /// The host to scan.
    pub fn address(&self) -> (address: Address)
        ensures
            address == self.spec_address(),
    {
        self.address
    }

    /// The ports to scan.
    pub fn range(&self) -> (range: PortRange)
        ensures
            range == self.spec_range(),
            range.valid(),
    {
        proof {
            use_type_invariant(self);
        }
        self.range
    }

    /// The timeout of each connection attempt.
    pub fn timeout(&self) -> (timeout: Timeout)
        ensures
            timeout == self.spec_timeout(),
    {
        self.timeout
    }

    /// The number of probes that may run at once: at least one.
    pub fn threads(&self) -> (threads: usize)
        ensures
            threads == self.spec_threads(),
            threads >= 1,
    {
        proof {
            use_type_invariant(self);
        }
        self.threads
    }

    /// Whether every probe is reported as it ends.
    pub fn verbose(&self) -> (verbose: bool)
        ensures
            verbose == self.spec_verbose(),
    {
        self.verbose
    }

    /// The transport of every probe.
    pub fn protocol(&self) -> (protocol: Protocol)
        ensures
            protocol == self.spec_protocol(),
    {
        self.protocol
    }

    /// The file that the result is saved to, if any.
    pub fn output(&self) -> (output: &Option<String>)
        ensures
            *output == self.spec_output(),
    {
        &self.output
    }
}

} // verus!
