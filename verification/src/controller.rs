//! The hosts a client has discovered over mDNS.
//!
//! A host address is an IPv4 address, held as the `u32` whose big-endian
//! bytes are its octets, and a port. Addresses are ordered as
//! `std::net::SocketAddrV4` orders them: by address, then by port.
use vstd::prelude::*;

verus! {

/// The hostname of the devices we are searching for.
pub const SERVICE_NAME: &'static str = "karl._tcp._tcp.local";

/// `a` comes before `b`: a smaller address, or the same address and a smaller port.
pub open spec fn addr_lt(a: (u32, u16), b: (u32, u16)) -> bool {
    a.0 < b.0 || (a.0 == b.0 && a.1 < b.1)
}

/// Every address comes before the ones after it.
pub open spec fn strictly_sorted(s: Seq<(u32, u16)>) -> bool {
    forall|a: int, b: int| 0 <= a < b < s.len() ==> addr_lt(#[trigger] s[a], #[trigger] s[b])
}

/// The first IPv4 address among the records of a response, if any.
pub open spec fn first_ipv4(records: Seq<Option<u32>>) -> Option<u32>
    decreases records.len(),
{
    if records.len() == 0 {
        None
    } else if records[0] is Some {
        records[0]
    } else {
        first_ipv4(records.drop_first())
    }
}

/// The host a response announces: its first IPv4 address and its port,
/// if it has both.
pub open spec fn announced(port: Option<u16>, records: Seq<Option<u32>>) -> Option<(u32, u16)> {
    match (first_ipv4(records), port) {
        (Some(ip), Some(p)) => Some((ip, p)),
        _ => None,
    }
}

/// The hosts known after a response: the host it announces is added.
pub open spec fn after_discover(known: Set<(u32, u16)>, port: Option<u16>, records: Seq<Option<u32>>) -> Set<(u32, u16)> {
    match announced(port, records) {
        Some(h) => known.insert(h),
        None => known,
    }
}

/// The hosts known after a controller that knew none heard `responses`
/// (each a port and the records of one mDNS response), in order.
pub open spec fn discovered_from(responses: Seq<(Option<u16>, Seq<Option<u32>>)>) -> Set<(u32, u16)>
    decreases responses.len(),
{
    if responses.len() == 0 {
        Set::empty()
    } else {
        after_discover(
            discovered_from(responses.drop_last()),
            responses.last().0,
            responses.last().1,
        )
    }
}

/// Every host announced by some response among `responses`.
pub open spec fn announced_hosts(responses: Seq<(Option<u16>, Seq<Option<u32>>)>) -> Set<(u32, u16)> {
    Set::new(
        |h: (u32, u16)|
            exists|i: int|
                0 <= i < responses.len() && #[trigger] announced(responses[i].0, responses[i].1)
                    == Some(h),
    )
}

/// The hosts a controller knows are exactly the hosts announced so far:
/// starting from none, hearing `responses` yields every host one of them
/// announced, and no other.
pub proof fn lemma_discovered_are_announced(responses: Seq<(Option<u16>, Seq<Option<u32>>)>)
    ensures
        discovered_from(responses) == announced_hosts(responses),
    decreases responses.len(),
{
    if responses.len() > 0 {
        let prev = responses.drop_last();
        lemma_discovered_are_announced(prev);
        let n = responses.len() - 1;
        assert forall|h: (u32, u16)| #[trigger] discovered_from(responses).contains(h)
            <==> announced_hosts(responses).contains(h) by {
            if announced_hosts(prev).contains(h) {
                let i = choose|i: int|
                    0 <= i < prev.len() && #[trigger] announced(prev[i].0, prev[i].1) == Some(h);
                assert(responses[i] == prev[i]);
                assert(announced(responses[i].0, responses[i].1) == Some(h));
            }
            if announced_hosts(responses).contains(h) {
                let i = choose|i: int|
                    0 <= i < responses.len() && #[trigger] announced(responses[i].0, responses[i].1)
                        == Some(h);
                if i < n {
                    assert(prev[i] == responses[i]);
                    assert(announced(prev[i].0, prev[i].1) == Some(h));
                }
            }
        }
        assert(discovered_from(responses) =~= announced_hosts(responses));
    } else {
        assert(announced_hosts(responses) =~= Set::empty());
    }
}

/// A discovered host is never forgotten: a response only adds hosts.
pub proof fn lemma_discover_keeps_hosts(known: Set<(u32, u16)>, port: Option<u16>, records: Seq<Option<u32>>)
    ensures
        known.subset_of(after_discover(known, port, records)),
{
}

/// The address a response announces is its first IPv4 record, wherever it
/// stands: if record `k` holds an address and no earlier record does, that
/// address is the one taken.
pub proof fn lemma_first_ipv4_found(records: Seq<Option<u32>>, k: int)
    requires
        0 <= k < records.len(),
        records[k] is Some,
        forall|j: int| 0 <= j < k ==> #[trigger] records[j] is None,
    ensures
        first_ipv4(records) == records[k],
    decreases k,
{
    if k > 0 {
        let rest = records.drop_first();
        assert forall|j: int| 0 <= j < k - 1 implies #[trigger] rest[j] is None by {
            assert(rest[j] == records[j + 1]);
        }
        assert(rest[k - 1] == records[k]);
        lemma_first_ipv4_found(rest, k - 1);
    }
}

/// A response none of whose records holds an IPv4 address announces no address.
pub proof fn lemma_first_ipv4_none(records: Seq<Option<u32>>)
    requires
        forall|j: int| 0 <= j < records.len() ==> #[trigger] records[j] is None,
    ensures
        first_ipv4(records) is None,
    decreases records.len(),
{
    if records.len() > 0 {
        let rest = records.drop_first();
        assert forall|j: int| 0 <= j < rest.len() implies #[trigger] rest[j] is None by {
            assert(rest[j] == records[j + 1]);
        }
        lemma_first_ipv4_none(rest);
    }
}

/// A response with port `p` whose first IPv4 record, at any position `k`,
/// holds `ip` makes the host `(ip, p)` known, and nothing else.
pub proof fn lemma_discover_adds_first_address(
    known: Set<(u32, u16)>,
    p: u16,
    records: Seq<Option<u32>>,
    k: int,
)
    requires
        0 <= k < records.len(),
        records[k] is Some,
        forall|j: int| 0 <= j < k ==> #[trigger] records[j] is None,
    ensures
        after_discover(known, Some(p), records) == known.insert((records[k]->0, p)),
{
    lemma_first_ipv4_found(records, k);
}

/// In a sorted listing the addresses never decrease, and hosts with the
/// same address come in increasing port order: the order of
/// `SocketAddrV4`, by address and then by port.
pub proof fn lemma_sorted_by_address_then_port(s: Seq<(u32, u16)>)
    requires
        strictly_sorted(s),
    ensures
        forall|a: int, b: int|
            0 <= a < b < s.len() ==> (#[trigger] s[a]).0 <= (#[trigger] s[b]).0 && (s[a].0 == s[b].0
                ==> s[a].1 < s[b].1),
        forall|a: int, b: int|
            0 <= a < b < s.len() ==> (#[trigger] s[a]).0 as int * 65536 + s[a].1 < (
            #[trigger] s[b]).0 as int * 65536 + s[b].1,
{
    assert forall|a: int, b: int| 0 <= a < b < s.len() implies (#[trigger] s[a]).0 as int * 65536
        + s[a].1 < (#[trigger] s[b]).0 as int * 65536 + s[b].1 by {
        assert(addr_lt(s[a], s[b]));
        let (x0, x1) = (s[a].0 as int, s[a].1 as int);
        let (y0, y1) = (s[b].0 as int, s[b].1 as int);
        if x0 < y0 {
            assert(x0 * 65536 + x1 < y0 * 65536 + y1) by (nonlinear_arith)
                requires
                    x0 < y0,
                    0 <= x1 < 65536,
                    0 <= y1,
            ;
        }
    }
}

/// Hearing the same announcement twice records the host once: the set after
/// a repeated response is the set after the first.
pub proof fn lemma_discover_idempotent(known: Set<(u32, u16)>, port: Option<u16>, records: Seq<Option<u32>>)
    ensures
        ({
            let once = match announced(port, records) {
                Some(h) => known.insert(h),
                None => known,
            };
            let twice = match announced(port, records) {
                Some(h) => once.insert(h),
                None => once,
            };
            twice == once
        }),
{
    if let Some(h) = announced(port, records) {
        assert(known.insert(h).insert(h) =~= known.insert(h));
    }
}

/// Whether `a` comes before `b`.
pub fn addr_less(a: (u32, u16), b: (u32, u16)) -> (res: bool)
    ensures
        res == addr_lt(a, b),
{
    a.0 < b.0 || (a.0 == b.0 && a.1 < b.1)
}

/// The set of hosts discovered so far.
pub struct Controller {
    hosts: Vec<(u32, u16)>,
}

impl View for Controller {
    type V = Set<(u32, u16)>;

    closed spec fn view(&self) -> Set<(u32, u16)> {
        self.hosts@.to_set()
    }
}

impl Controller {
    #[verifier::type_invariant]
    spec fn hosts_distinct(self) -> bool {
        self.hosts@.no_duplicates()
    }

    /// A controller that has discovered no host yet.
    pub fn new() -> (c: Self)
        ensures
            c@ == Set::<(u32, u16)>::empty(),
    {
        let c = Controller { hosts: Vec::new() };
        assert(c.hosts@.to_set() =~= Set::<(u32, u16)>::empty());
        c
    }

    /// Record the host that an mDNS response announces: the response's port
    /// together with the first IPv4 address among its records (each record
    /// given as its IPv4 address, or `None` for a record of another kind).
    /// A response without a port or without an IPv4 address adds nothing.
    pub fn discover(&mut self, port: Option<u16>, records: &Vec<Option<u32>>)
        ensures
            final(self)@ == after_discover(old(self)@, port, records@),
    {
        proof {
            use_type_invariant(&*self);
        }
        let port = match port {
            Some(p) => p,
            None => {
                return;
            },
        };
        let mut i: usize = 0;
        let mut ip: Option<u32> = None;
        assert(records@.subrange(0, records.len() as int) =~= records@);
        while i < records.len() && ip.is_none()
            invariant
                i <= records.len(),
                ip is None ==> first_ipv4(records@.subrange(i as int, records.len() as int))
                    == first_ipv4(records@),
                ip is Some ==> ip == first_ipv4(records@),
            decreases records.len() - i,
        {
            let ghost rest = records@.subrange(i as int, records.len() as int);
            assert(rest.drop_first() =~= records@.subrange(i + 1, records.len() as int));
            assert(rest[0] == records@[i as int]);
            ip = records[i];
            i = i + 1;
        }
        assert(ip is None ==> records@.subrange(i as int, records.len() as int).len() == 0);
        let ip = match ip {
            Some(ip) => ip,
            None => {
                return;
            },
        };
        self.insert((ip, port));
    }

    /// Add a host, unless it is known already.
    fn insert(&mut self, h: (u32, u16))
        ensures
            final(self)@ == old(self)@.insert(h),
    {
        proof {
            use_type_invariant(&*self);
        }
        let mut i: usize = 0;
        while i < self.hosts.len()
            invariant
                i <= self.hosts.len(),
                forall|j: int| 0 <= j < i ==> self.hosts@[j] != h,
            decreases self.hosts.len() - i,
        {
            if self.hosts[i].0 == h.0 && self.hosts[i].1 == h.1 {
                assert(self.hosts@.to_set().insert(h) =~= self.hosts@.to_set());
                return;
            }
            i = i + 1;
        }
        let ghost old_hosts = self.hosts@;
        assert(!old_hosts.contains(h));
        let mut hosts: Vec<(u32, u16)> = Vec::new();
        std::mem::swap(&mut hosts, &mut self.hosts);
        hosts.push(h);
        assert(hosts@ =~= old_hosts.push(h));
        assert(hosts@.no_duplicates());
        self.hosts = hosts;
        assert(self.hosts@.to_set() =~= old_hosts.to_set().insert(h)) by {
            assert forall|x: (u32, u16)| #[trigger] self.hosts@.to_set().contains(x)
                <==> old_hosts.to_set().insert(h).contains(x) by {
                if x == h {
                    assert(self.hosts@[old_hosts.len() as int] == x);
                } else if old_hosts.contains(x) {
                    let k = choose|k: int| 0 <= k < old_hosts.len() && old_hosts[k] == x;
                    assert(self.hosts@[k] == x);
                }
            }
        }
    }

    /// Find all hosts that broadcast the service over mDNS, in order.
    pub fn find_hosts(&self) -> (res: Vec<(u32, u16)>)
        ensures
            res@.to_set() == self@,
            strictly_sorted(res@),
            res@.no_duplicates(),
    {
        proof {
            use_type_invariant(self);
        }
        let mut out: Vec<(u32, u16)> = Vec::new();
        let mut i: usize = 0;
        while i < self.hosts.len()
            invariant
                i <= self.hosts.len(),
                self.hosts@.no_duplicates(),
                out@.to_set() == self.hosts@.take(i as int).to_set(),
                strictly_sorted(out@),
            decreases self.hosts.len() - i,
        {
            let x = self.hosts[i];
            assert(!out@.contains(x)) by {
                if out@.contains(x) {
                    assert(out@.to_set().contains(x));
                    let k = choose|k: int| 0 <= k < i && self.hosts@.take(i as int)[k] == x;
                    assert(self.hosts@[k] == self.hosts@[i as int]);
                }
            }
            let mut j: usize = 0;
            while j < out.len() && addr_less(out[j], x)
                invariant
                    j <= out.len(),
                    forall|k: int| 0 <= k < j ==> addr_lt(#[trigger] out@[k], x),
                decreases out.len() - j,
            {
                j = j + 1;
            }
            let ghost old_out = out@;
            assert(j < old_out.len() ==> addr_lt(x, old_out[j as int])) by {
                if j < old_out.len() {
                    assert(old_out[j as int] != x);
                }
            }
            out.insert(j, x);
            assert(out@ =~= old_out.insert(j as int, x));
            assert(strictly_sorted(out@)) by {
                assert forall|a: int, b: int| 0 <= a < b < out@.len() implies addr_lt(
                    #[trigger] out@[a],
                    #[trigger] out@[b],
                ) by {
                    if b < j {
                    } else if b == j {
                    } else if a < j {
                        assert(out@[b] == old_out[b - 1]);
                        if j < old_out.len() {
                            assert(addr_lt(x, old_out[j as int]));
                            assert(addr_lt(old_out[a], x));
                            if b - 1 > j {
                                assert(addr_lt(old_out[j as int], old_out[b - 1]));
                            }
                        }
                    } else if a == j {
                        assert(out@[b] == old_out[b - 1]);
                        if b - 1 > j {
                            assert(addr_lt(old_out[j as int], old_out[b - 1]));
                        }
                    } else {
                        assert(out@[a] == old_out[a - 1]);
                        assert(out@[b] == old_out[b - 1]);
                    }
                }
            }
            assert(out@.to_set() =~= self.hosts@.take(i + 1).to_set()) by {
                let prev = self.hosts@.take(i as int);
                let next = self.hosts@.take(i + 1);
                assert(next =~= prev.push(x));
                assert forall|y: (u32, u16)| #[trigger] out@.to_set().contains(y)
                    <==> next.to_set().contains(y) by {
                    if y == x {
                        assert(out@[j as int] == x);
                        assert(next[i as int] == x);
                    } else {
                        if out@.contains(y) {
                            let k = choose|k: int| 0 <= k < out@.len() && out@[k] == y;
                            if k < j {
                                assert(old_out[k] == y);
                            } else {
                                assert(old_out[k - 1] == y);
                            }
                            assert(old_out.to_set().contains(y));
                            let m = choose|m: int| 0 <= m < prev.len() && prev[m] == y;
                            assert(next[m] == y);
                        }
                        if next.contains(y) {
                            let m = choose|m: int| 0 <= m < next.len() && next[m] == y;
                            assert(prev[m] == y);
                            assert(prev.to_set().contains(y));
                            let k = choose|k: int| 0 <= k < old_out.len() && old_out[k] == y;
                            if k < j {
                                assert(out@[k] == y);
                            } else {
                                assert(out@[k + 1] == y);
                            }
                        }
                    }
                }
            }
            i = i + 1;
        }
        assert(self.hosts@.take(self.hosts.len() as int) =~= self.hosts@);
        proof {
            assert forall|a: int, b: int| 0 <= a < out@.len() && 0 <= b < out@.len() && a != b implies out@[a]
                != out@[b] by {
                if a < b {
                    assert(addr_lt(out@[a], out@[b]));
                } else {
                    assert(addr_lt(out@[b], out@[a]));
                }
            }
        }
        out
    }
}

} // verus!
