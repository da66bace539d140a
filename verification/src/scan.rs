//! The bookkeeping of one scan: which port is probed next, how many probes
//! run at once, and what has come back.
//!
//! A [`Scan`] runs no probe itself. It hands out one [`Step`] at a time; the
//! caller starts the probe that a step names, wherever and however it likes,
//! and reports each outcome back as it arrives. The scan keeps count, so that
//! every port of the range is probed exactly once, never more probes run at
//! once than the configuration allows, and the result is read only after the
//! last probe has reported.

use vstd::prelude::*;
use vstd::set_lib::{lemma_int_range, lemma_subset_equality, set_int_range};
use crate::collector::{
    ascending, lemma_ascending, lemma_open_ports, open_ports, strictly_ascending, Collector,
};
use crate::config::{ports_between, Address, Protocol, ScanConfig, Timeout, MAX};
use crate::probe::{ProbeOutcome, ScanTarget};

verus! {

/// What the caller of a scan has to do next.
#[derive(Clone, Copy, Debug, PartialEq, Eq)]
pub enum Step {
    /// Start a probe of this target, then ask again.
    Probe(ScanTarget),
    /// Start nothing; wait for a running probe to report.
    Wait,
    /// Every port was probed and has reported.
    Done,
}

/// The state of a scan as its contracts see it.
pub struct ScanView {
    /// The host that is scanned.
    pub address: Address,
    /// The transport of every probe.
    pub protocol: Protocol,
    /// The time each probe may wait for its connection.
    pub timeout: Timeout,
    /// The first port of the range.
    pub start: int,
    /// The last port of the range.
    pub end: int,
    /// The number of probes that may run at once.
    pub threads: nat,
    /// The port that is handed out next; every port of the range below it
    /// was handed out.
    pub next: int,
    /// The ports whose probes were started and have not reported.
    pub in_flight: Set<u16>,
    /// The outcomes taken in, in the order of their arrival.
    pub log: Seq<ProbeOutcome>,
}

impl ScanView {
    /// What holds of every scan, whatever has happened to it.
    pub open spec fn inv(self) -> bool {
        &&& 1 <= self.start <= self.end <= MAX
        &&& self.threads >= 1
        &&& self.start <= self.next <= self.end + 1
        &&& self.in_flight.finite()
        &&& self.in_flight.len() <= self.threads
        &&& forall|port: u16| self.in_flight.contains(port) ==> self.start <= port < self.next
        &&& forall|i: int|
            0 <= i < self.log.len() ==> {
                &&& self.start <= (#[trigger] self.log[i]).spec_port() < self.next
                &&& !self.in_flight.contains(self.log[i].spec_port())
            }
        &&& forall|i: int, j: int|
            0 <= i < j < self.log.len() ==> self.log[i].spec_port() != self.log[j].spec_port()
        &&& self.log.len() + self.in_flight.len() == self.next - self.start
    }

    /// The scan that `config` asks for, before its first step.
    pub open spec fn initial(config: ScanConfig) -> ScanView {
        ScanView {
            address: config.spec_address(),
            protocol: config.spec_protocol(),
            timeout: config.spec_timeout(),
            start: config.spec_range().spec_start(),
            end: config.spec_range().spec_end(),
            threads: config.spec_threads(),
            next: config.spec_range().spec_start(),
            in_flight: Set::empty(),
            log: Seq::empty(),
        }
    }

    /// The ports handed out so far, in the order in which they were.
    pub open spec fn submitted(self) -> Seq<u16> {
        ports_between(self.start, self.next - 1)
    }

    /// What a probe of `port` in this scan connects to.
    pub open spec fn target(self, port: u16) -> ScanTarget {
        ScanTarget { address: self.address, port, protocol: self.protocol, timeout: self.timeout }
    }

    /// Whether a probe may be started: a port is left and fewer probes run
    /// than may.
    pub open spec fn may_start(self) -> bool {
        self.next <= self.end && self.in_flight.len() < self.threads
    }

    /// Whether every port of the range was handed out and has reported.
    pub open spec fn drained(self) -> bool {
        self.next > self.end && self.in_flight.len() == 0
    }

    /// The state after the next port was handed out.
    pub open spec fn started(self) -> ScanView {
        ScanView { next: self.next + 1, in_flight: self.in_flight.insert(self.next as u16), ..self }
    }

    /// The state after `outcome` was taken in.
    pub open spec fn settled(self, outcome: ProbeOutcome) -> ScanView {
        ScanView {
            in_flight: self.in_flight.remove(outcome.spec_port()),
            log: self.log.push(outcome),
            ..self
        }
    }

    /// The step that this state asks for.
    pub open spec fn step(self) -> Step {
        if self.may_start() {
            Step::Probe(self.target(self.next as u16))
        } else if self.in_flight.len() > 0 {
            Step::Wait
        } else {
            Step::Done
        }
    }

    /// The number of steps that are left before the scan is drained: two for
    /// each port not handed out yet, to start its probe and to take in its
    /// outcome, and one for each probe that is running.
    pub open spec fn remaining(self) -> int {
        2 * (self.end + 1 - self.next) + self.in_flight.len()
    }

    /// Whether an outcome for `port` was taken in.
    pub open spec fn reported(self, port: u16) -> bool {
        exists|i: int| 0 <= i < self.log.len() && (#[trigger] self.log[i]).spec_port() == port
    }

    /// The ports reported open so far, in the order of their arrival.
    pub open spec fn open(self) -> Seq<u16> {
        open_ports(self.log)
    }

    /// The result of the scan: the ports reported open, in ascending order.
    pub open spec fn result(self) -> Seq<u16> {
        ascending(self.open().to_set())
    }
}

/// One scan of a range of ports.
pub struct Scan {
    address: Address,
    protocol: Protocol,
    timeout: Timeout,
    start: u16,
    end: u16,
    threads: usize,
    next: u32,
    in_flight: Vec<u16>,
    collector: Collector,
    log: Ghost<Seq<ProbeOutcome>>,
}

impl View for Scan {
    type V = ScanView;

    closed spec fn view(&self) -> ScanView {
        ScanView {
            address: self.address,
            protocol: self.protocol,
            timeout: self.timeout,
            start: self.start as int,
            end: self.end as int,
            threads: self.threads as nat,
            next: self.next as int,
            in_flight: self.in_flight@.to_set(),
            log: self.log@,
        }
    }
}

impl Scan {
    #[verifier::type_invariant]
    closed spec fn well_formed(self) -> bool {
        &&& self@.inv()
        &&& self.in_flight@.no_duplicates()
        &&& self.collector@ == open_ports(self.log@)
    }

    /// A scan of the range of `config`, with as many probes at a time as
    /// `config` allows. Nothing was handed out yet.
    pub fn new(config: &ScanConfig) -> (scan: Scan)
        ensures
            scan@ == ScanView::initial(*config),
            scan@.inv(),
    {
        let range = config.range();
        let threads = config.threads();
        let start = range.start();
        let in_flight: Vec<u16> = Vec::new();
        proof {
            assert(in_flight@.to_set() =~= Set::<u16>::empty());
        }
        Scan {
            address: config.address(),
            protocol: config.protocol(),
            timeout: config.timeout(),
            start,
            end: range.end(),
            threads,
            next: start as u32,
            in_flight,
            collector: Collector::new(),
            log: Ghost(Seq::empty()),
        }
    }

    /// Says what to do next, and counts a port that it hands out as being
    /// probed from then on.
    ///
    /// While a port is left and fewer probes run than may, the step is to
    /// probe the next port of the range. Otherwise, while a probe is still
    /// running, it is to wait; and when none is, the scan is done.
    pub fn advance(self) -> (next: (Scan, Step))
        ensures
            next.1 == self@.step(),
            next.0@ == if self@.may_start() {
                self@.started()
            } else {
                self@
            },
            next.0@.inv(),
            next.0@.in_flight.len() <= next.0@.threads,
    {
        proof {
            use_type_invariant(&self);
            self.in_flight@.unique_seq_to_set();
        }
        if self.next <= self.end as u32 && self.in_flight.len() < self.threads {
            let Scan {
                address,
                protocol,
                timeout,
                start,
                end,
                threads,
                next,
                mut in_flight,
                collector,
                log,
            } = self;
            let port = next as u16;
            proof {
                lemma_push_fresh(in_flight@, port);
            }
            in_flight.push(port);
            let scan = Scan {
                address,
                protocol,
                timeout,
                start,
                end,
                threads,
                next: next + 1,
                in_flight,
                collector,
                log,
            };
            (scan, Step::Probe(ScanTarget { address, port, protocol, timeout }))
        } else if self.in_flight.len() > 0 {
            (self, Step::Wait)
        } else {
            (self, Step::Done)
        }
    }

    /// Takes in the outcome of a probe.
    ///
    /// An outcome is accepted if its port is being probed: the port then
    /// counts as probed, and joins the open ports if that is what the
    /// outcome says. An outcome for any other port, one that was never
    /// handed out or has reported before, is refused and changes nothing.
    pub fn complete(self, outcome: ProbeOutcome) -> (next: (Scan, bool))
        ensures
            next.1 == self@.in_flight.contains(outcome.spec_port()),
            next.0@ == if next.1 {
                self@.settled(outcome)
            } else {
                self@
            },
            next.0@.inv(),
    {
        proof {
            use_type_invariant(&self);
            self.in_flight@.unique_seq_to_set();
        }
        let port = outcome.port();
        let mut i: usize = 0;
        while i < self.in_flight.len()
            invariant
                i <= self.in_flight.len(),
                forall|k: int| 0 <= k < i ==> self.in_flight@[k] != port,
            ensures
                i <= self.in_flight.len(),
                i < self.in_flight.len() ==> self.in_flight@[i as int] == port,
                forall|k: int| 0 <= k < i ==> self.in_flight@[k] != port,
            decreases self.in_flight.len() - i,
        {
            if self.in_flight[i] == port {
                break;
            }
            i += 1;
        }
        if i == self.in_flight.len() {
            return (self, false);
        }
        let Scan {
            address,
            protocol,
            timeout,
            start,
            end,
            threads,
            next,
            mut in_flight,
            mut collector,
            log,
        } = self;
        proof {
            lemma_remove_unique(in_flight@, i as int);
            assert(log@.push(outcome).drop_last() =~= log@);
        }
        in_flight.remove(i);
        collector.submit(&outcome);
        let scan = Scan {
            address,
            protocol,
            timeout,
            start,
            end,
            threads,
            next,
            in_flight,
            collector,
            log: Ghost(log@.push(outcome)),
        };
        (scan, true)
    }

    /// The number of probes that were started and have not reported.
    pub fn in_flight(&self) -> (n: usize)
        ensures
            n == self@.in_flight.len(),
            n <= self@.threads,
    {
        proof {
            use_type_invariant(self);
            self.in_flight@.unique_seq_to_set();
        }
        self.in_flight.len()
    }

    /// The number of ports handed out so far.
    pub fn submitted(&self) -> (n: u32)
        ensures
            n == self@.submitted().len(),
            n == self@.next - self@.start,
    {
        proof {
            use_type_invariant(self);
        }
        self.next - self.start as u32
    }

    /// Whether every port of the range was probed and has reported.
    pub fn is_drained(&self) -> (drained: bool)
        ensures
            drained == self@.drained(),
            drained == (self@.step() is Done),
    {
        proof {
            use_type_invariant(self);
            self.in_flight@.unique_seq_to_set();
        }
        self.next > self.end as u32 && self.in_flight.len() == 0
    }

    /// Ends the scan and hands out its result: the ports that were reported
    /// open, in ascending order. There is a result only once every port was
    /// probed and has reported; before that, nothing is handed out.
    pub fn finish(self) -> (ports: Option<Vec<u16>>)
        ensures
            ports is Some <==> self@.drained(),
            ports matches Some(ports) ==> {
                &&& ports@ == self@.result()
                &&& strictly_ascending(ports@)
                &&& forall|port: u16| ports@.contains(port) <==> self@.open().contains(port)
            },
    {
        proof {
            use_type_invariant(&self);
        }
        if !self.is_drained() {
            return None;
        }
        Some(self.collector.finalize())
    }
}

/// Adding a port to a list that does not hold it keeps the list free of
/// repetitions and adds the port to the set of its members.
proof fn lemma_push_fresh(list: Seq<u16>, port: u16)
    requires
        list.no_duplicates(),
        !list.to_set().contains(port),
    ensures
        list.push(port).no_duplicates(),
        list.push(port).to_set() == list.to_set().insert(port),
{
    let more = list.push(port);
    assert forall|i: int, j: int| 0 <= i < more.len() && 0 <= j < more.len() && i != j implies more[i]
        != more[j] by {
        if i < list.len() {
            assert(list.contains(list[i]));
        }
        if j < list.len() {
            assert(list.contains(list[j]));
        }
    }
    list.lemma_push_to_set_commute(port);
}

/// Taking one entry out of a list without repetitions keeps it so and takes
/// that port out of the set of its members.
proof fn lemma_remove_unique(list: Seq<u16>, at: int)
    requires
        list.no_duplicates(),
        0 <= at < list.len(),
    ensures
        list.remove(at).no_duplicates(),
        list.remove(at).to_set() == list.to_set().remove(list[at]),
{
    let rest = list.remove(at);
    list.remove_ensures(at);
    assert forall|port: u16| rest.to_set().contains(port) <==> list.to_set().remove(list[at]).contains(
        port,
    ) by {
        if rest.contains(port) {
            let k = choose|k: int| 0 <= k < rest.len() && rest[k] == port;
            if k < at {
                assert(list[k] == port);
            } else {
                assert(list[k + 1] == port);
            }
            assert(list.contains(port));
        }
        if list.contains(port) && port != list[at] {
            let k = choose|k: int| 0 <= k < list.len() && list[k] == port;
            if k < at {
                assert(rest[k] == port);
            } else {
                assert(rest[k - 1] == port);
            }
        }
    }
    assert(rest.to_set() =~= list.to_set().remove(list[at]));
}

/// What holds of every scan holds at its start and after each of its steps.
/// In particular, at no point do more probes run than the scan allows.
pub proof fn lemma_invariant_kept(scan: ScanView, outcome: ProbeOutcome)
    requires
        scan.inv(),
    ensures
        scan.in_flight.len() <= scan.threads,
        scan.may_start() ==> scan.started().inv(),
        scan.in_flight.contains(outcome.spec_port()) ==> scan.settled(outcome).inv(),
{
    if scan.may_start() {
        let after = scan.started();
        assert(!scan.in_flight.contains(scan.next as u16));
        assert(after.inv());
    }
    if scan.in_flight.contains(outcome.spec_port()) {
        let after = scan.settled(outcome);
        assert forall|i: int, j: int| 0 <= i < j < after.log.len() implies after.log[i].spec_port()
            != after.log[j].spec_port() by {
            if j == scan.log.len() {
                assert(after.log[i] == scan.log[i]);
            }
        }
        assert(after.inv());
    }
}

/// Every scan starts in a state of which the invariant holds, with nothing
/// handed out and two steps to go for each port of its range.
pub proof fn lemma_initial(config: ScanConfig)
    requires
        config.spec_range().valid(),
        config.spec_threads() >= 1,
    ensures
        ScanView::initial(config).inv(),
        ScanView::initial(config).submitted().len() == 0,
        ScanView::initial(config).remaining() == 2 * config.spec_range().count(),
{
}

/// A scan always comes to its end: each probe handed out and each outcome
/// taken in leaves one step less to go, a scan with steps to go either may
/// start a probe or has one running, and a scan with none to go is drained.
pub proof fn lemma_progress(scan: ScanView, outcome: ProbeOutcome)
    requires
        scan.inv(),
    ensures
        scan.remaining() >= 0,
        scan.remaining() == 0 <==> scan.drained(),
        scan.drained() <==> scan.step() is Done,
        scan.step() is Wait ==> scan.in_flight.len() > 0,
        scan.may_start() ==> scan.started().remaining() == scan.remaining() - 1,
        scan.in_flight.contains(outcome.spec_port()) ==> scan.settled(outcome).remaining()
            == scan.remaining() - 1,
{
    if scan.may_start() {
        assert(!scan.in_flight.contains(scan.next as u16));
    }
}

/// When a scan is drained, one probe was handed out for each port of its
/// range, `end - start + 1` in all and in ascending order, and each of
/// these ports has reported exactly once.
pub proof fn lemma_drained_probed_each_once(scan: ScanView)
    requires
        scan.inv(),
        scan.drained(),
    ensures
        scan.submitted() == ports_between(scan.start, scan.end),
        scan.submitted().len() == scan.end - scan.start + 1,
        forall|i: int| 0 <= i < scan.submitted().len() ==> #[trigger] scan.submitted()[i] == scan.start + i,
        scan.log.len() == scan.end - scan.start + 1,
        forall|port: u16| scan.start <= port <= scan.end ==> #[trigger] scan.reported(port),
        forall|i: int, j: int|
            0 <= i < j < scan.log.len() ==> scan.log[i].spec_port() != scan.log[j].spec_port(),
{
    let ports = scan.log.map_values(|outcome: ProbeOutcome| outcome.spec_port() as int);
    let range = set_int_range(scan.start, scan.end + 1);
    lemma_int_range(scan.start, scan.end + 1);
    assert(ports.no_duplicates());
    ports.unique_seq_to_set();
    assert(ports.to_set().subset_of(range)) by {
        assert forall|port: int| ports.to_set().contains(port) implies range.contains(port) by {
            let i = choose|i: int| 0 <= i < ports.len() && ports[i] == port;
            assert(scan.log[i].spec_port() == port);
        }
    }
    lemma_subset_equality(ports.to_set(), range);
    assert forall|port: u16| scan.start <= port <= scan.end implies #[trigger] scan.reported(port) by {
        assert(range.contains(port as int));
        assert(ports.contains(port as int));
        let i = choose|i: int| 0 <= i < ports.len() && ports[i] == port as int;
        assert(scan.log[i].spec_port() == port);
    }
}

/// The result of a scan is strictly ascending, and so holds no port twice.
pub proof fn lemma_result_ascending(scan: ScanView)
    ensures
        strictly_ascending(scan.result()),
        scan.result().no_duplicates(),
{
    lemma_ascending(scan.open().to_set());
}

/// A port is in the result of a scan exactly if the outcome taken in for it
/// was open. A port that reported closed, or whose probe failed, is not in
/// the result.
pub proof fn lemma_result_exact(scan: ScanView)
    requires
        scan.inv(),
    ensures
        forall|port: u16|
            scan.result().contains(port) <==> scan.log.contains(ProbeOutcome::Open(port)),
        forall|i: int|
            0 <= i < scan.log.len() && !((#[trigger] scan.log[i]) is Open) ==> !scan.result().contains(
                scan.log[i].spec_port(),
            ),
{
    lemma_ascending(scan.open().to_set());
    lemma_open_ports(scan.log);
    assert forall|port: u16|
        scan.result().contains(port) <==> scan.log.contains(ProbeOutcome::Open(port)) by {
        assert(scan.open().to_set().contains(port) <==> scan.open().contains(port));
    }
    assert forall|i: int| 0 <= i < scan.log.len() && !((#[trigger] scan.log[i]) is Open) implies
        !scan.result().contains(scan.log[i].spec_port()) by {
        let port = scan.log[i].spec_port();
        if scan.log.contains(ProbeOutcome::Open(port)) {
            let j = choose|j: int| 0 <= j < scan.log.len() && scan.log[j] == ProbeOutcome::Open(port);
            assert(scan.log[j].spec_port() == port);
            assert(i != j);
        }
    }
}

/// Two scans in which the same ports reported open have the same result,
/// in whatever order and between whatever other outcomes the reports came.
pub proof fn lemma_result_ignores_arrival(a: ScanView, b: ScanView)
    requires
        forall|port: u16|
            a.log.contains(ProbeOutcome::Open(port)) <==> b.log.contains(ProbeOutcome::Open(port)),
    ensures
        a.result() == b.result(),
{
    lemma_open_ports(a.log);
    lemma_open_ports(b.log);
    assert forall|port: u16| a.open().to_set().contains(port) <==> b.open().to_set().contains(port) by {
        assert(a.open().contains(port) <==> a.log.contains(ProbeOutcome::Open(port)));
        assert(b.open().contains(port) <==> b.log.contains(ProbeOutcome::Open(port)));
    }
    assert(a.open().to_set() =~= b.open().to_set());
}

} // verus!
