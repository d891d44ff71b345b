use vstd::prelude::*;

use crate::addr::IpAddr;
use crate::parser::{ip_payload, ip_payload_defined, ip_version, Icmp, Ip, Udp};

verus! {

/// One answer seen for a hop: who answered, and after how long.
#[derive(Clone, Copy, Debug, PartialEq, Eq, Structural)]
pub struct Hop {
    /// The address the answer came from.
    pub addr: IpAddr,
    /// The round-trip time; not measured yet, always 0.
    pub time: usize,
}

/// What to trace, and how thoroughly.
#[derive(Clone, Copy, Debug, PartialEq, Eq, Structural)]
pub struct TraceRequest {
    /// The number of packets we want to send to each host along the way.
    pub tries: usize,
    /// How far away we're going to look.
    pub hop_limit: usize,
    /// The host whose route is traced.
    pub destination: IpAddr,
}

/// One UDP probe: the TTL to send it with, the destination port, and its eight bytes.
#[derive(Clone, Copy, Debug, PartialEq, Eq)]
pub struct Probe {
    pub ttl: usize,
    pub port: u16,
    pub payload: [u8; 8],
}

/// The destination port of the probe sent with `ttl`: the TTL as a 16-bit
/// number plus 50000, wrapping around at 65536.
pub open spec fn probe_port(ttl: int) -> int {
    (ttl % 65536 + 50000) % 65536
}

/// The bytes of the probe sent with `ttl`: its low byte, then 2 to 8.
pub open spec fn probe_payload(ttl: int) -> Seq<u8> {
    seq![(ttl % 256) as u8, 2u8, 3u8, 4u8, 5u8, 6u8, 7u8, 8u8]
}

/// `p` is the probe for `ttl`.
pub open spec fn is_probe_for(p: Probe, ttl: usize) -> bool {
    &&& p.ttl == ttl
    &&& p.port == probe_port(ttl as int)
    &&& p.payload@ == probe_payload(ttl as int)
}

/// The TTLs of one round of probes: 1 up to, not including, the hop limit.
pub open spec fn probe_round(hop_limit: usize) -> Seq<usize> {
    Seq::new(
        if hop_limit >= 1 {
            (hop_limit - 1) as nat
        } else {
            0
        },
        |i: int| (i + 1) as usize,
    )
}

/// The TTLs of `rounds` rounds of probes, in the order they are sent.
pub open spec fn probe_ttls(rounds: nat, hop_limit: usize) -> Seq<usize>
    decreases rounds,
{
    if rounds == 0 {
        seq![]
    } else {
        probe_ttls((rounds - 1) as nat, hop_limit) + probe_round(hop_limit)
    }
}

/// The probe sent with `ttl`.
pub fn probe_for(ttl: usize) -> (p: Probe)
    ensures
        is_probe_for(p, ttl),
        p.ttl == ttl,
        p.port == (ttl + 50000) % 65536,
        p.payload@ == seq![(ttl % 256) as u8, 2u8, 3u8, 4u8, 5u8, 6u8, 7u8, 8u8],
{
    proof {
        lemma_probe_fields(ttl);
    }
    let t16 = (ttl % 65536) as u16;
    let port = if t16 < 15536 {
        t16 + 50000
    } else {
        t16 - 15536
    };
    let payload = [(ttl % 256) as u8, 2, 3, 4, 5, 6, 7, 8];
    assert(payload@ =~= probe_payload(ttl as int));
    Probe { ttl, port, payload }
}

/// The probe for `ttl` goes to port `(ttl + 50000) mod 65536`, and its first
/// byte is the TTL's low byte, followed by 2 to 8.
pub proof fn lemma_probe_fields(ttl: usize)
    ensures
        probe_port(ttl as int) == (ttl + 50000) % 65536,
        0 <= probe_port(ttl as int) < 65536,
        probe_payload(ttl as int).len() == 8,
        probe_payload(ttl as int)[0] == ttl % 256,
        forall|i: int| 1 <= i < 8 ==> #[trigger] probe_payload(ttl as int)[i] == i + 1,
{
    vstd::arithmetic::div_mod::lemma_add_mod_noop(ttl as int, 50000, 65536);
}

impl TraceRequest {
    /// Every probe the trace sends, in order: `tries` rounds, each with the
    /// TTLs from 1 up to, not including, `hop_limit`.
    pub fn probe_plan(&self) -> (plan: Vec<Probe>)
        ensures
            plan@.len() == probe_ttls(self.tries as nat, self.hop_limit).len(),
            forall|k: int|
                0 <= k < plan@.len() ==> is_probe_for(
                    #[trigger] plan@[k],
                    probe_ttls(self.tries as nat, self.hop_limit)[k],
                ),
            plan@.len() == self.tries * round_len(self.hop_limit),
            forall|k: int|
                0 <= k < plan@.len() ==> {
                    &&& (#[trigger] plan@[k]).ttl == 1 + k % round_len(self.hop_limit)
                    &&& plan@[k].port == (plan@[k].ttl + 50000) % 65536
                },
    {
        let mut plan: Vec<Probe> = Vec::new();
        let hop_limit = self.hop_limit;
        for round in 0..self.tries
            invariant
                hop_limit == self.hop_limit,
                plan@.len() == probe_ttls(round as nat, hop_limit).len(),
                forall|k: int|
                    0 <= k < plan@.len() ==> is_probe_for(
                        #[trigger] plan@[k],
                        probe_ttls(round as nat, hop_limit)[k],
                    ),
        {
            let ghost before = probe_ttls(round as nat, hop_limit);
            let ghost start = plan@.len();
            if hop_limit >= 1 {
                for ttl in 1..hop_limit
                    invariant
                        hop_limit == self.hop_limit,
                        hop_limit >= 1,
                        before == probe_ttls(round as nat, hop_limit),
                        start == before.len(),
                        plan@.len() == start + ttl - 1,
                        forall|k: int|
                            0 <= k < plan@.len() ==> is_probe_for(
                                #[trigger] plan@[k],
                                (before + probe_round(hop_limit))[k],
                            ),
                {
                    let p = probe_for(ttl);
                    plan.push(p);
                    assert(is_probe_for(plan@[plan@.len() - 1], (before + probe_round(hop_limit))[plan@.len() - 1]));
                }
            }
            assert(probe_ttls((round + 1) as nat, hop_limit) == before + probe_round(hop_limit));
        }
        proof {
            lemma_probe_ttls(self.tries as nat, hop_limit);
            assert forall|k: int| 0 <= k < plan@.len() implies {
                &&& (#[trigger] plan@[k]).ttl == 1 + k % round_len(hop_limit)
                &&& plan@[k].port == (plan@[k].ttl + 50000) % 65536
            } by {
                assert(probe_ttls(self.tries as nat, hop_limit)[k] == 1 + k % round_len(hop_limit));
                lemma_probe_fields(plan@[k].ttl);
            }
        }
        plan
    }
}

/// The number of TTLs in one round of probes.
pub open spec fn round_len(hop_limit: usize) -> int {
    if hop_limit >= 1 {
        hop_limit - 1
    } else {
        0
    }
}

/// A trace sends `tries` probes for each TTL from 1 up to, not including,
/// `hop_limit`: `tries * (hop_limit - 1)` in all, and the probe at position
/// `k` carries the TTL `1 + k % (hop_limit - 1)`.
pub proof fn lemma_probe_ttls(rounds: nat, hop_limit: usize)
    ensures
        probe_ttls(rounds, hop_limit).len() == rounds * round_len(hop_limit),
        forall|k: int|
            0 <= k < probe_ttls(rounds, hop_limit).len() ==> #[trigger] probe_ttls(
                rounds,
                hop_limit,
            )[k] == 1 + k % round_len(hop_limit),
    decreases rounds,
{
    if rounds > 0 {
        let r = (rounds - 1) as nat;
        let h = round_len(hop_limit);
        lemma_probe_ttls(r, hop_limit);
        assert(rounds * h == r * h + h) by (nonlinear_arith)
            requires
                rounds == r + 1,
        ;
        let prev = probe_ttls(r, hop_limit);
        assert forall|k: int|
            0 <= k < probe_ttls(rounds, hop_limit).len() implies #[trigger] probe_ttls(
                rounds,
                hop_limit,
            )[k] == 1 + k % h by {
            if k < prev.len() {
                assert(probe_ttls(rounds, hop_limit)[k] == prev[k]);
            } else {
                let j = k - r * h;
                assert(0 <= j < h);
                assert(probe_ttls(rounds, hop_limit)[k] == probe_round(hop_limit)[j]);
                assert(k % h == j) by {
                    vstd::arithmetic::div_mod::lemma_fundamental_div_mod_converse(k, h, r as int, j);
                }
            }
        }
    }
}

// ------------------------------------------------------- responses to probes

/// The response can be looked at without running off the buffer: the outer
/// header is there, and for an IPv4 packet carrying ICMP, the ICMP type is.
pub open spec fn response_defined(s: Seq<u8>) -> bool {
    &&& s.len() >= 10
    &&& (ip_version(s) == 4 && s[9] == 1) ==> ip_payload_defined(s) && ip_payload(s).len() >= 1
}

/// A response can be looked at exactly when the buffer holds the first ten
/// header bytes and, for version 4 with protocol 1, the header (of
/// `4 * (s[0] % 16)` bytes) ends before the total length (bytes 2 and 3) and
/// before the end of the buffer.
pub proof fn lemma_response_defined(s: Seq<u8>)
    ensures
        response_defined(s) <==> {
            &&& s.len() >= 10
            &&& (s[0] / 16 == 4 && s[9] == 1) ==> {
                &&& 4 * (s[0] % 16) < s[2] * 256 + s[3]
                &&& 4 * (s[0] % 16) < s.len()
            }
        },
{
}

/// An ICMP error answering one of our probes, as its four layers.
pub struct TraceResponsePkt<'a> {
    pub ip: Ip<'a>,
    pub icmp: Icmp<'a>,
    pub inner_ip: Ip<'a>,
    pub udp: Udp<'a>,
}

impl<'a> TraceResponsePkt<'a> {
    /// Whether `new` can look at `buf` without running off its end.
    pub fn parse_is_defined(buf: &[u8]) -> (b: bool)
        ensures
            b == response_defined(buf@),
    {
        if buf.len() < 10 {
            return false;
        }
        let ip = Ip::new(buf);
        if ip.version() == 4 && ip.protocol() == 1 {
            let total = ip.total_len() as usize;
            let start = ip.hdr_bytes() as usize;
            let end = if total > buf.len() {
                buf.len()
            } else {
                total
            };
            start < end
        } else {
            true
        }
    }

    /// Reads `buf` as an IPv4 packet carrying an ICMP error about one of our
    /// UDP probes. The check on the ICMP type, `t != 11 || t != 3`, holds for
    /// every type, so every buffer is turned down there: the result is `None`.
    pub fn new(buf: &'a [u8]) -> (res: Option<TraceResponsePkt<'a>>)
        requires
            response_defined(buf@),
        ensures
            res is None,
    {
        let ip = Ip::new(buf);
        let version = ip.version();
        let protocol = ip.protocol();
        if version != 4 || protocol != 1 {
            return None;
        }
        let icmp = Icmp::new(ip.payload());
        if icmp.icmp_type() != 11 || icmp.icmp_type() != 3 {
            return None;
        }
        let inner_ip = Ip::new(icmp.payload());
        if ip.version() != 4 || ip.protocol() != 17 {
            return None;
        }
        let udp = Udp::new(inner_ip.payload());
        Some(TraceResponsePkt { ip, icmp, inner_ip, udp })
    }

    /// The router that answered: the outer packet's source.
    pub fn from(&self) -> (a: IpAddr)
        requires
            self.ip@.len() >= 16,
        ensures
            a == IpAddr::Ipv4Addr(self.ip@[12], self.ip@[13], self.ip@[14], self.ip@[15]),
    {
        self.ip.source()
    }

    /// How far away the router is: the TTL of the probe it quotes.
    pub fn dist(&self) -> (d: usize)
        requires
            self.inner_ip@.len() >= 9,
        ensures
            d == self.inner_ip@[8],
    {
        self.inner_ip.ttl() as usize
    }

    /// The round-trip time; not measured yet.
    pub fn time(&self) -> (t: usize)
        ensures
            t == 0,
    {
        0
    }
}

// ------------------------------------------------------------ running a trace

/// What the receiving loop does next.
#[derive(Clone, Copy, Debug, PartialEq, Eq, Structural)]
pub enum Step {
    /// Wait for the next packet.
    Continue,
    /// The trace is over.
    Stop,
}

/// The number of hops recorded over all distances.
pub open spec fn total_hops(rs: Seq<Seq<Hop>>) -> nat
    decreases rs.len(),
{
    if rs.len() == 0 {
        0
    } else {
        total_hops(rs.drop_last()) + rs.last().len()
    }
}

/// The abstract state of a running trace.
pub struct TraceRunView {
    pub tries: usize,
    pub hop_limit: usize,
    /// The hops seen at each distance.
    pub results: Seq<Seq<Hop>>,
    /// The responses recorded so far.
    pub recv_count: nat,
    /// The receives that timed out so far.
    pub failcount: nat,
    /// The loop has been told to stop.
    pub done: bool,
}

/// The receiving side of a trace: what it has recorded, and when it stops.
pub struct TraceRun {
    tries: usize,
    hop_limit: usize,
    results: Vec<Vec<Hop>>,
    recv_count: usize,
    failcount: usize,
    done: bool,
}

impl View for TraceRun {
    type V = TraceRunView;

    closed spec fn view(&self) -> TraceRunView {
        TraceRunView {
            tries: self.tries,
            hop_limit: self.hop_limit,
            results: self.results@.map_values(|r: Vec<Hop>| r@),
            recv_count: self.recv_count as nat,
            failcount: self.failcount as nat,
            done: self.done,
        }
    }
}

impl TraceRunView {
    /// One list of hops per distance; as many hops as responses recorded;
    /// a running trace has seen at most five timeouts, a stopped one at most six.
    pub open spec fn wf(self) -> bool {
        &&& self.results.len() == self.hop_limit
        &&& total_hops(self.results) == self.recv_count
        &&& self.failcount <= 6
        &&& !self.done ==> self.failcount <= 5
    }
}

impl TraceRun {
    /// A trace that has recorded nothing yet.
    pub fn new(req: &TraceRequest) -> (run: TraceRun)
        ensures
            run@.wf(),
            run@.tries == req.tries,
            run@.hop_limit == req.hop_limit,
            run@.results == Seq::new(req.hop_limit as nat, |i: int| Seq::<Hop>::empty()),
            run@.recv_count == 0,
            run@.failcount == 0,
            !run@.done,
    {
        let mut results: Vec<Vec<Hop>> = Vec::new();
        for i in 0..req.hop_limit
            invariant
                results@.len() == i,
                forall|k: int| 0 <= k < i ==> (#[trigger] results@[k])@ == Seq::<Hop>::empty(),
        {
            results.push(Vec::new());
        }
        let run = TraceRun {
            tries: req.tries,
            hop_limit: req.hop_limit,
            results,
            recv_count: 0,
            failcount: 0,
            done: false,
        };
        assert(run@.results =~= Seq::new(req.hop_limit as nat, |i: int| Seq::<Hop>::empty()));
        proof {
            lemma_total_hops_empty(run@.results);
        }
        run
    }

    /// A receive timed out. The trace stops at the sixth timeout.
    pub fn on_timeout(&mut self) -> (step: Step)
        requires
            old(self)@.wf(),
            !old(self)@.done,
        ensures
            final(self)@.wf(),
            final(self)@.failcount == old(self)@.failcount + 1,
            step == Step::Stop <==> final(self)@.failcount > 5,
            final(self)@.done == (step == Step::Stop),
            final(self)@.results == old(self)@.results,
            final(self)@.recv_count == old(self)@.recv_count,
            final(self)@.tries == old(self)@.tries,
            final(self)@.hop_limit == old(self)@.hop_limit,
    {
        let failcount = self.failcount + 1;
        self.failcount = failcount;
        if failcount > 5 {
            self.done = true;
            Step::Stop
        } else {
            Step::Continue
        }
    }

    /// A packet arrived. If it is a response to one of our probes, the hop is
    /// recorded under its distance, and the trace stops once it has counted
    /// `hop_limit * tries` responses. Since no buffer is taken for a response
    /// (see `TraceResponsePkt::new`), nothing is recorded and the trace goes on.
    /// Beside the step, the recorded distance and hop are handed back.
    pub fn on_packet(&mut self, pkt: &[u8]) -> (r: (Step, Option<(usize, Hop)>))
        requires
            old(self)@.wf(),
            !old(self)@.done,
            response_defined(pkt@),
        ensures
            final(self)@ == old(self)@,
            r == (Step::Continue, None::<(usize, Hop)>),
    {
        match TraceResponsePkt::new(pkt) {
            None => (Step::Continue, None),
            Some(resp) => {
                self.recv_count = self.recv_count + 1;
                let hop = Hop { time: resp.time(), addr: resp.from() };
                let dist = resp.dist();
                self.results[dist].push(hop);
                if self.recv_count >= self.hop_limit * self.tries {
                    self.done = true;
                    (Step::Stop, Some((dist, hop)))
                } else {
                    (Step::Continue, Some((dist, hop)))
                }
            },
        }
    }

    /// The hops seen at each distance.
    pub fn into_results(self) -> (rs: Vec<Vec<Hop>>)
        ensures
            rs@.map_values(|r: Vec<Hop>| r@) == self@.results,
    {
        self.results
    }
}

/// A list of empty hop lists holds no hop.
proof fn lemma_total_hops_empty(rs: Seq<Seq<Hop>>)
    requires
        forall|i: int| 0 <= i < rs.len() ==> (#[trigger] rs[i]).len() == 0,
    ensures
        total_hops(rs) == 0,
    decreases rs.len(),
{
    if rs.len() > 0 {
        lemma_total_hops_empty(rs.drop_last());
    }
}

} // verus!
