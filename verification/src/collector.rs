//! The sink that gathers open ports and puts them in order.

use vstd::prelude::*;
use crate::probe::ProbeOutcome;

verus! {

/// The number of port numbers there are, 0 included.
pub const PORT_SPACE: usize = 65536;

/// Whether each port of `ports` is greater than the one before it. Such a
/// sequence is in ascending order and holds no port twice.
pub open spec fn strictly_ascending(ports: Seq<u16>) -> bool {
    forall|i: int, j: int| 0 <= i < j < ports.len() ==> ports[i] < ports[j]
}

/// The ports of `set` that are below `bound`, in ascending order.
pub open spec fn members_below(set: Set<u16>, bound: int) -> Seq<u16>
    decreases bound,
{
    if bound <= 0 {
        Seq::empty()
    } else if set.contains((bound - 1) as u16) {
        members_below(set, bound - 1).push((bound - 1) as u16)
    } else {
        members_below(set, bound - 1)
    }
}

/// The ports of `set` in ascending order.
pub open spec fn ascending(set: Set<u16>) -> Seq<u16> {
    members_below(set, PORT_SPACE as int)
}

/// The ports that the outcomes `log` report as open, in the order of the
/// log.
pub open spec fn open_ports(log: Seq<ProbeOutcome>) -> Seq<u16>
    decreases log.len(),
{
    if log.len() == 0 {
        Seq::empty()
    } else if log.last() is Open {
        open_ports(log.drop_last()).push(log.last().spec_port())
    } else {
        open_ports(log.drop_last())
    }
}

/// `members_below` lists exactly the members of the set under the bound,
/// each once and in ascending order.
pub proof fn lemma_members_below(set: Set<u16>, bound: int)
    requires
        0 <= bound <= PORT_SPACE,
    ensures
        strictly_ascending(members_below(set, bound)),
        forall|port: u16| #[trigger]
            members_below(set, bound).contains(port) <==> set.contains(port) && port < bound,
    decreases bound,
{
    if bound > 0 {
        lemma_members_below(set, bound - 1);
        let rest = members_below(set, bound - 1);
        let top = (bound - 1) as u16;
        let all = members_below(set, bound);
        if set.contains(top) {
            assert(all == rest.push(top));
            assert forall|i: int, j: int| 0 <= i < j < all.len() implies all[i] < all[j] by {
                if j == rest.len() {
                    assert(rest.contains(rest[i]));
                }
            }
            assert forall|port: u16| #[trigger]
                all.contains(port) <==> set.contains(port) && port < bound by {
                if all.contains(port) {
                    let k = choose|k: int| 0 <= k < all.len() && all[k] == port;
                    if k < rest.len() {
                        assert(rest.contains(rest[k]));
                    }
                }
                if set.contains(port) && port < bound {
                    if port == top {
                        assert(all[rest.len() as int] == port);
                    } else {
                        assert(rest.contains(port));
                        let k = choose|k: int| 0 <= k < rest.len() && rest[k] == port;
                        assert(all[k] == port);
                    }
                }
            }
        } else {
            assert forall|port: u16| #[trigger]
                all.contains(port) <==> set.contains(port) && port < bound by {
                if set.contains(port) && port < bound {
                    assert(port != top);
                    assert(rest.contains(port));
                }
            }
        }
    } else {
        assert forall|port: u16| !(#[trigger] members_below(set, bound).contains(port)) by {}
    }
}

/// The ascending listing of a set holds exactly the ports of the set, each
/// once and in ascending order.
pub proof fn lemma_ascending(set: Set<u16>)
    ensures
        strictly_ascending(ascending(set)),
        ascending(set).no_duplicates(),
        forall|port: u16| #[trigger] ascending(set).contains(port) <==> set.contains(port),
{
    lemma_members_below(set, PORT_SPACE as int);
}

/// Two strictly ascending sequences that hold the same ports are the same
/// sequence: the order in which ports were gathered leaves no trace in the
/// result.
pub proof fn lemma_ascending_unique(a: Seq<u16>, b: Seq<u16>)
    requires
        strictly_ascending(a),
        strictly_ascending(b),
        forall|port: u16| a.contains(port) <==> b.contains(port),
    ensures
        a == b,
    decreases a.len(),
{
    if a.len() == 0 {
        if b.len() > 0 {
            assert(b.contains(b[0]));
        }
        assert(a =~= b);
    } else {
        // The last port of each sequence is its greatest, so the two agree.
        let last_a = a.last();
        assert(a.contains(a[a.len() - 1]));
        assert(b.contains(last_a));
        let last_b = b.last();
        assert(b.contains(b[b.len() - 1]));
        assert(a.contains(last_b));
        let ia = choose|i: int| 0 <= i < a.len() && a[i] == last_b;
        let ib = choose|i: int| 0 <= i < b.len() && b[i] == last_a;
        assert(last_b <= last_a);
        assert(last_a <= last_b);
        let a0 = a.drop_last();
        let b0 = b.drop_last();
        assert forall|port: u16| a0.contains(port) <==> b0.contains(port) by {
            if a0.contains(port) {
                let i = choose|i: int| 0 <= i < a0.len() && a0[i] == port;
                assert(a[i] == port);
                assert(a.contains(port));
                assert(port < last_a);
                let j = choose|j: int| 0 <= j < b.len() && b[j] == port;
                assert(j < b.len() - 1);
                assert(b0[j] == port);
            }
            if b0.contains(port) {
                let i = choose|i: int| 0 <= i < b0.len() && b0[i] == port;
                assert(b[i] == port);
                assert(b.contains(port));
                assert(port < last_b);
                let j = choose|j: int| 0 <= j < a.len() && a[j] == port;
                assert(j < a.len() - 1);
                assert(a0[j] == port);
            }
        }
        lemma_ascending_unique(a0, b0);
        assert(a =~= a0.push(last_a));
        assert(b =~= b0.push(last_b));
    }
}

/// A port is among the open ports of a log exactly if the log holds an open
/// outcome for it: no open outcome is lost, and no other outcome adds a
/// port.
pub proof fn lemma_open_ports(log: Seq<ProbeOutcome>)
    ensures
        forall|port: u16| #[trigger]
            open_ports(log).contains(port) <==> log.contains(ProbeOutcome::Open(port)),
    decreases log.len(),
{
    if log.len() > 0 {
        let rest = log.drop_last();
        let last = log.last();
        lemma_open_ports(rest);
        assert forall|port: u16| #[trigger]
            open_ports(log).contains(port) <==> log.contains(ProbeOutcome::Open(port)) by {
            let open = open_ports(log);
            let before = open_ports(rest);
            if open.contains(port) {
                let k = choose|k: int| 0 <= k < open.len() && open[k] == port;
                if last is Open && k == before.len() {
                    assert(log[log.len() - 1] == ProbeOutcome::Open(port));
                } else {
                    assert(before[k] == port);
                    assert(before.contains(port));
                    let i = choose|i: int| 0 <= i < rest.len() && rest[i] == ProbeOutcome::Open(port);
                    assert(log[i] == ProbeOutcome::Open(port));
                }
            }
            if log.contains(ProbeOutcome::Open(port)) {
                let i = choose|i: int| 0 <= i < log.len() && log[i] == ProbeOutcome::Open(port);
                if i == log.len() - 1 {
                    assert(open[before.len() as int] == port);
                } else {
                    assert(rest[i] == ProbeOutcome::Open(port));
                    assert(rest.contains(ProbeOutcome::Open(port)));
                    assert(before.contains(port));
                    let k = choose|k: int| 0 <= k < before.len() && before[k] == port;
                    assert(open[k] == port);
                }
            }
        }
    } else {
        assert forall|port: u16| !(#[trigger] open_ports(log).contains(port)) by {}
    }
}

/// Gathers the outcomes of probes, in whatever order they arrive, and keeps
/// the ports that were found open.
#[derive(Debug)]
pub struct Collector {
    open: Vec<u16>,
}

impl View for Collector {
    type V = Seq<u16>;

    /// The ports gathered so far, in the order of their arrival.
    closed spec fn view(&self) -> Seq<u16> {
        self.open@
    }
}

impl Collector {
    /// A collector that holds no port yet.
    pub fn new() -> (collector: Collector)
        ensures
            collector@ == Seq::<u16>::empty(),
    {
        Collector { open: Vec::new() }
    }

    /// Takes one outcome in. An open port joins the ports gathered; any
    /// other outcome leaves them as they were.
    pub fn submit(&mut self, outcome: &ProbeOutcome)
        ensures
            final(self)@ == if *outcome is Open {
                old(self)@.push(outcome.spec_port())
            } else {
                old(self)@
            },
    {
        match outcome {
            ProbeOutcome::Open(port) => {
                self.open.push(*port);
            },
            _ => {},
        }
    }

    /// The number of open outcomes taken in so far.
    pub fn len(&self) -> (n: usize)
        ensures
            n == self@.len(),
    {
        self.open.len()
    }

    /// Ends the gathering and hands out the result: each port that was
    /// reported open, once, in ascending order. The ports are put in order
    /// here and nowhere else.
    pub fn finalize(self) -> (ports: Vec<u16>)
        ensures
            ports@ == ascending(self@.to_set()),
            strictly_ascending(ports@),
            forall|port: u16| ports@.contains(port) <==> self@.contains(port),
    {
        let ghost set = self@.to_set();
        let mut seen: Vec<bool> = Vec::new();
        let mut n: usize = 0;
        while n < PORT_SPACE
            invariant
                n <= PORT_SPACE,
                seen.len() == n,
                forall|k: int| 0 <= k < n ==> !seen@[k],
            decreases PORT_SPACE - n,
        {
            seen.push(false);
            n += 1;
        }
        let mut i: usize = 0;
        while i < self.open.len()
            invariant
                i <= self.open.len(),
                seen.len() == PORT_SPACE,
                forall|port: u16| #[trigger]
                    seen@[port as int] <==> self.open@.subrange(0, i as int).contains(port),
            decreases self.open.len() - i,
        {
            let port = self.open[i];
            let ghost before = self.open@.subrange(0, i as int);
            let ghost after = self.open@.subrange(0, i + 1);
            seen.set(port as usize, true);
            proof {
                assert(after == before.push(port));
                assert forall|q: u16| #[trigger] seen@[q as int] <==> after.contains(q) by {
                    if q == port {
                        assert(after[i as int] == port);
                    } else {
                        if before.contains(q) {
                            let k = choose|k: int| 0 <= k < before.len() && before[k] == q;
                            assert(after[k] == q);
                        }
                        if after.contains(q) {
                            let k = choose|k: int| 0 <= k < after.len() && after[k] == q;
                            assert(before[k] == q);
                        }
                    }
                }
            }
            i += 1;
        }
        proof {
            assert(self.open@.subrange(0, i as int) == self.open@);
        }
        let mut ports: Vec<u16> = Vec::new();
        let mut next: usize = 0;
        while next < PORT_SPACE
            invariant
                next <= PORT_SPACE,
                seen.len() == PORT_SPACE,
                set == self.open@.to_set(),
                forall|port: u16| #[trigger] seen@[port as int] <==> self.open@.contains(port),
                ports@ == members_below(set, next as int),
            decreases PORT_SPACE - next,
        {
            if seen[next] {
                ports.push(next as u16);
            }
            proof {
                let port = next as u16;
                assert(seen@[port as int] <==> set.contains(port));
            }
            next += 1;
        }
        proof {
            lemma_ascending(set);
        }
        ports
    }
}

} // verus!
