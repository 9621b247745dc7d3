//! Connect-scan over an inclusive port range.
//!
//! Probing a port is I/O and happens outside this module: the caller tries
//! a TCP connect to each port that `ScanRequest::ports` lists and hands back
//! one outcome per port. This module decides which ports are reported open.
use vstd::prelude::*;

verus! {

/// The ports `start ..= start + accepted.len() - 1` whose probe accepted a
/// connection, in ascending order.
pub open spec fn open_among(start: int, accepted: Seq<bool>) -> Seq<int>
    decreases accepted.len(),
{
    if accepted.len() == 0 {
        seq![]
    } else {
        let earlier = open_among(start, accepted.drop_last());
        if accepted.last() {
            earlier.push(start + accepted.len() - 1)
        } else {
            earlier
        }
    }
}

/// The ports of a result, as integers.
pub open spec fn as_ints(ports: Seq<u16>) -> Seq<int> {
    ports.map_values(|p: u16| p as int)
}

/// Each element is greater than the one before it (so none repeats).
pub open spec fn strictly_ascending(s: Seq<int>) -> bool {
    forall|i: int, j: int| 0 <= i < j < s.len() ==> s[i] < s[j]
}

/// Every element lies in `[lo, hi]`.
pub open spec fn within(s: Seq<int>, lo: int, hi: int) -> bool {
    forall|i: int| 0 <= i < s.len() ==> lo <= #[trigger] s[i] <= hi
}

/// The report lists a port of the range exactly when its probe accepted.
pub open spec fn lists_accepted(s: Seq<int>, start: int, accepted: Seq<bool>) -> bool {
    forall|p: int|
        start <= p < start + accepted.len() ==> (s.contains(p) <==> accepted[p - start])
}

proof fn lemma_open_among_shape(start: int, accepted: Seq<bool>)
    ensures
        strictly_ascending(open_among(start, accepted)),
        within(open_among(start, accepted), start, start + accepted.len() - 1),
        lists_accepted(open_among(start, accepted), start, accepted),
        open_among(start, accepted).len() <= accepted.len(),
    decreases accepted.len(),
{
    if accepted.len() > 0 {
        let rest = accepted.drop_last();
        lemma_open_among_shape(start, rest);
        let earlier = open_among(start, rest);
        let r = open_among(start, accepted);
        let last = start + accepted.len() - 1;
        assert forall|p: int| start <= p < start + accepted.len() implies (r.contains(p)
            <==> accepted[p - start]) by {
            if p < last {
                assert(rest[p - start] == accepted[p - start]);
                if accepted.last() {
                    if earlier.contains(p) {
                        let k = choose|k: int| 0 <= k < earlier.len() && earlier[k] == p;
                        assert(r[k] == p);
                    }
                    if r.contains(p) {
                        let k = choose|k: int| 0 <= k < r.len() && r[k] == p;
                        assert(k < earlier.len());
                        assert(earlier[k] == p);
                    }
                }
            } else {
                if accepted.last() {
                    assert(r[r.len() - 1] == p);
                } else {
                    if r.contains(p) {
                        let k = choose|k: int| 0 <= k < r.len() && r[k] == p;
                        assert(within(earlier, start, last - 1));
                        assert(earlier[k] <= last - 1);
                    }
                }
            }
        }
    }
}

/// A scan where no probe was accepted reports no port, and is no failure.
pub proof fn lemma_no_listener_no_port(start: int, accepted: Seq<bool>)
    requires
        forall|i: int| 0 <= i < accepted.len() ==> !accepted[i],
    ensures
        open_among(start, accepted) == Seq::<int>::empty(),
    decreases accepted.len(),
{
    if accepted.len() > 0 {
        lemma_no_listener_no_port(start, accepted.drop_last());
    }
}

/// A scan where exactly the probe of `start + k` was accepted reports that
/// one port.
pub proof fn lemma_one_listener_one_port(start: int, accepted: Seq<bool>, k: int)
    requires
        0 <= k < accepted.len(),
        forall|i: int| 0 <= i < accepted.len() ==> (accepted[i] <==> i == k),
    ensures
        open_among(start, accepted) == seq![start + k],
    decreases accepted.len(),
{
    let rest = accepted.drop_last();
    if k == accepted.len() - 1 {
        lemma_no_listener_no_port(start, rest);
        assert(Seq::<int>::empty().push(start + k) =~= seq![start + k]);
    } else {
        lemma_one_listener_one_port(start, rest, k);
    }
}

/// A scan of the inclusive range `[start_port, end_port]` on one host.
pub struct ScanRequest {
    pub host: String,
    pub start_port: u16,
    pub end_port: u16,
}

impl ScanRequest {
    /// The range holds at least one port.
    pub open spec fn wf(&self) -> bool {
        self.start_port <= self.end_port
    }

    /// Number of ports in the range.
    pub open spec fn width(&self) -> int {
        self.end_port - self.start_port + 1
    }

    /// A request for `host` over `[start_port, end_port]`; `None` when the
    /// range is empty (`start_port > end_port`).
    pub fn new(host: String, start_port: u16, end_port: u16) -> (r: Option<ScanRequest>)
        ensures
            r is Some <==> start_port <= end_port,
            r is Some ==> (r->0.host == host && r->0.start_port == start_port
                && r->0.end_port == end_port && r->0.wf()),
    {
        if start_port <= end_port {
            Some(ScanRequest { host, start_port, end_port })
        } else {
            None
        }
    }

    /// The ports to probe, in scan order: `start_port`, ..., `end_port`.
    pub fn ports(&self) -> (r: Vec<u16>)
        requires
            self.wf(),
        ensures
            r@.len() == self.width(),
            forall|i: int| 0 <= i < r@.len() ==> r@[i] == self.start_port + i,
    {
        let mut r: Vec<u16> = Vec::new();
        let mut p: u16 = self.start_port;
        loop
            invariant_except_break
                r@.len() == p - self.start_port,
            invariant
                self.start_port <= p <= self.end_port,
                forall|i: int| 0 <= i < r@.len() ==> r@[i] == self.start_port + i,
            ensures
                r@.len() == self.width(),
            decreases self.end_port - p,
        {
            r.push(p);
            if p == self.end_port {
                break;
            }
            p = p + 1;
        }
        r
    }

    /// The open ports, given `accepted[i]`: whether the connect attempt to
    /// the `i`-th port of `ports()` succeeded. A failed attempt of any kind
    /// means only that the port is not listed; the scan itself never fails.
    pub fn open_ports(&self, accepted: &Vec<bool>) -> (r: Vec<u16>)
        requires
            self.wf(),
            accepted@.len() == self.width(),
        ensures
            as_ints(r@) == open_among(self.start_port as int, accepted@),
            strictly_ascending(as_ints(r@)),
            within(as_ints(r@), self.start_port as int, self.end_port as int),
            lists_accepted(as_ints(r@), self.start_port as int, accepted@),
    {
        let mut r: Vec<u16> = Vec::new();
        let mut i: usize = 0;
        while i < accepted.len()
            invariant
                self.wf(),
                accepted@.len() == self.width(),
                0 <= i <= accepted@.len(),
                as_ints(r@) == open_among(self.start_port as int, accepted@.subrange(0, i as int)),
            decreases accepted@.len() - i,
        {
            proof {
                let next = accepted@.subrange(0, i as int + 1);
                assert(next.drop_last() =~= accepted@.subrange(0, i as int));
            }
            if accepted[i] {
                let port: u16 = self.start_port + i as u16;
                let ghost before = r@;
                r.push(port);
                assert(as_ints(r@) =~= as_ints(before).push(port as int));
            }
            i = i + 1;
        }
        assert(accepted@.subrange(0, accepted@.len() as int) =~= accepted@);
        proof {
            lemma_open_among_shape(self.start_port as int, accepted@);
        }
        r
    }
}

} // verus!
