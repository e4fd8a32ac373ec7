use crate::queue_set::{capacity_fits, lemma_queued_elements_are_distinct, lemma_u16_obeys_item_model, QueueSet};
use crate::text::{decimal, decimal_string};
use vstd::prelude::*;
use vstd::string::StringExecFns;

verus! {

/// The half-open range `start..end` of host ports that the gateway hands out.
#[derive(Debug, Clone, Copy, PartialEq, Eq, Structural)]
pub struct PortRange {
    pub start: u16,
    pub end: u16,
}

impl PortRange {
    /// The ports of the range, in increasing order.
    pub open spec fn ports(self) -> Seq<u16> {
        Seq::new((self.end - self.start) as nat, |i: int| (self.start + i) as u16)
    }

    pub open spec fn contains(self, port: u16) -> bool {
        self.start <= port < self.end
    }
}

/// Why a port could not be allocated.
#[derive(Debug, Clone, Copy, PartialEq, Eq, Structural)]
pub enum PortError {
    /// No available ports in range
    NoAvailablePorts,
}

impl PortError {
    /// The error's text.
    pub open spec fn text(&self) -> Seq<char> {
        match self {
            PortError::NoAvailablePorts => "No available ports in range"@,
        }
    }

    /// The error's text, as `Display` would show it.
    pub fn to_string(&self) -> (s: String)
        ensures
            s@ == self.text(),
    {
        match self {
            PortError::NoAvailablePorts => String::from_str("No available ports in range"),
        }
    }
}

/// A port handed out by a [`PortManager`]; the holder gives the number back
/// with [`AllocatedPort::release_now`] when done with it.
#[derive(Debug)]
pub struct AllocatedPort {
    port: u16,
}

impl View for AllocatedPort {
    type V = u16;

    closed spec fn view(&self) -> u16 {
        self.port
    }
}

impl AllocatedPort {
    pub(crate) fn new(port: u16) -> (r: Self)
        ensures
            r@ == port,
    {
        Self { port }
    }

    /// Get the port number
    pub fn port(&self) -> (p: u16)
        ensures
            p == self@,
    {
        self.port
    }

    /// The port number in decimal, as `Display` shows it.
    pub fn to_string(&self) -> (s: String)
        ensures
            s@ == decimal(self@ as nat),
    {
        decimal_string(self.port as u64)
    }

    /// Release the port immediately: gives back the number that must be
    /// returned to the pool with [`PortManager::process_port_return`].
    pub fn release_now(self) -> (p: u16)
        ensures
            p == self@,
    {
        self.port
    }
}

/// The pool of available host ports.
///
/// Single source of truth: if a port is in the queue, it is available.
/// Ports are popped from the front for allocation and pushed to the back on
/// release, so a returned port is handed out again only after every other
/// available port.
pub struct PortManager {
    available_ports: QueueSet<u16>,
    port_range: PortRange,
    /// The ports handed out and not yet returned.
    leased: Ghost<Set<u16>>,
}

impl View for PortManager {
    type V = Seq<u16>;

    /// The available ports, next to be allocated first.
    closed spec fn view(&self) -> Seq<u16> {
        self.available_ports@
    }
}

impl PortManager {
    /// The ports handed out by [`PortManager::allocate_port`] and not yet returned.
    pub closed spec fn leased(&self) -> Set<u16> {
        self.leased@
    }

    /// The range this manager was created for.
    pub closed spec fn range(&self) -> PortRange {
        self.port_range
    }

    pub closed spec fn wf(&self) -> bool {
        &&& self.available_ports.wf()
        &&& self.leased@.finite()
        &&& forall|p: u16| #[trigger] self.leased@.contains(p) ==> !self.available_ports@.contains(p)
    }

    /// Every available port lies in the manager's range.
    pub open spec fn within_range(&self) -> bool {
        forall|i: int| 0 <= i < self@.len() ==> self.range().contains(#[trigger] self@[i])
    }

    /// Every port of the range is either available or leased, and nothing
    /// else is available.
    pub open spec fn conserves_range(&self) -> bool {
        forall|p: u16| #[trigger] self.range().contains(p) <==> (self@.contains(p) || self.leased().contains(p))
    }

    /// Creates a manager whose available queue holds every port of the range,
    /// in increasing order.
    pub fn new(port_range: PortRange) -> (r: Self)
        requires
            port_range.start <= port_range.end,
        ensures
            r.wf(),
            r@ == port_range.ports(),
            r.range() == port_range,
            r.leased() == Set::<u16>::empty(),
            r.within_range(),
            r.conserves_range(),
    {
        proof {
            lemma_u16_obeys_item_model();
        }
        let port_count = (port_range.end - port_range.start) as usize;
        assert(capacity_fits::<u16>(port_count as int)) by {
            broadcast use vstd::layout::layout_of_primitives;

            assert(vstd::layout::size_of::<u16>() == 2);
            assert(port_count <= 0xffff);
            assert(8 * (port_count + 16) * (2 + 1) <= 0x7fff_ffff) by (nonlinear_arith)
                requires
                    port_count <= 0xffff,
            ;
        }
        let mut available_ports = QueueSet::with_capacity(port_count);
        let mut port = port_range.start;
        while port < port_range.end
            invariant
                port_range.start <= port <= port_range.end,
                available_ports.wf(),
                available_ports@ == Seq::new(
                    (port - port_range.start) as nat,
                    |i: int| (port_range.start + i) as u16,
                ),
            decreases port_range.end - port,
        {
            let ghost before = available_ports@;
            proof {
                assert(!before.contains(port)) by {
                    if before.contains(port) {
                        let k = choose|k: int| 0 <= k < before.len() && before[k] == port;
                        assert(before[k] == port_range.start + k);
                    }
                }
            }
            available_ports.push_back(port);
            port = port + 1;
            assert(available_ports@ =~= Seq::new(
                (port - port_range.start) as nat,
                |i: int| (port_range.start + i) as u16,
            ));
        }
        let r = Self { available_ports, port_range, leased: Ghost(Set::empty()) };
        proof {
            assert forall|p: u16| #[trigger] r.range().contains(p) implies r@.contains(p) by {
                assert(r@[p - port_range.start] == p);
            }
        }
        r
    }

    /// Hands out the port at the front of the available queue.
    pub fn allocate_port(&mut self) -> (r: Result<AllocatedPort, PortError>)
        requires
            old(self).wf(),
        ensures
            final(self).wf(),
            final(self).range() == old(self).range(),
            old(self)@.len() == 0 ==> r == Err::<AllocatedPort, PortError>(PortError::NoAvailablePorts)
                && final(self)@ == old(self)@ && final(self).leased() == old(self).leased(),
            old(self)@.len() > 0 ==> r is Ok && r->Ok_0@ == old(self)@[0]
                && final(self)@ == old(self)@.drop_first()
                && final(self).leased() == old(self).leased().insert(old(self)@[0]),
            r is Ok ==> !old(self).leased().contains(r->Ok_0@) && !final(self)@.contains(r->Ok_0@),
            old(self).within_range() ==> final(self).within_range(),
            old(self).conserves_range() ==> final(self).conserves_range(),
    {
        proof {
            lemma_u16_obeys_item_model();
        }
        let port_option = self.available_ports.pop_front();
        match port_option {
            Some(port) => {
                proof {
                    let q = old(self)@;
                    lemma_queued_elements_are_distinct(old(self).available_ports);
                    assert(!self@.contains(port)) by {
                        if self@.contains(port) {
                            let k = choose|k: int| 0 <= k < self@.len() && self@[k] == port;
                            assert(q[k + 1] == port);
                        }
                    }
                    assert(q.contains(port));
                    self.leased@ = self.leased@.insert(port);
                    assert forall|p: u16| #[trigger] self.leased@.contains(p) implies !self@.contains(p) by {
                        if p != port && self@.contains(p) {
                            let k = choose|k: int| 0 <= k < self@.len() && self@[k] == p;
                            assert(q[k + 1] == p);
                        }
                    }
                    if old(self).within_range() {
                        assert forall|i: int| 0 <= i < self@.len() implies self.range().contains(#[trigger] self@[i]) by {
                            assert(self@[i] == q[i + 1]);
                        }
                    }
                    if old(self).conserves_range() {
                        assert forall|p: u16| #[trigger] self.range().contains(p) <==> (self@.contains(p) || self.leased().contains(p)) by {
                            if q.contains(p) && p != port {
                                let k = choose|k: int| 0 <= k < q.len() && q[k] == p;
                                assert(self@[k - 1] == p);
                            }
                            if self@.contains(p) {
                                let k = choose|k: int| 0 <= k < self@.len() && self@[k] == p;
                                assert(q[k + 1] == p);
                            }
                        }
                    }
                }
                Ok(AllocatedPort::new(port))
            }
            None => Err(PortError::NoAvailablePorts),
        }
    }

    /// Puts a returned port at the back of the available queue. A port that is
    /// already available is ignored; the result says whether it was added.
    pub fn process_port_return(&mut self, port: u16) -> (added: bool)
        requires
            old(self).wf(),
        ensures
            final(self).wf(),
            final(self).range() == old(self).range(),
            added == !old(self)@.contains(port),
            added ==> final(self)@ == old(self)@.push(port),
            !added ==> final(self)@ == old(self)@,
            final(self).leased() == old(self).leased().remove(port),
            old(self).within_range() && old(self).range().contains(port) ==> final(self).within_range(),
            final(self)@.no_duplicates(),
            old(self).within_range() && old(self).range().contains(port) ==> final(self)@.len()
                <= old(self).range().end - old(self).range().start,
            old(self).conserves_range() && (old(self).leased().contains(port) || old(self)@.contains(port))
                ==> final(self).conserves_range(),
    {
        proof {
            lemma_u16_obeys_item_model();
        }
        let added = self.available_ports.push_back(port);
        proof {
            self.leased@ = self.leased@.remove(port);
            assert forall|p: u16| #[trigger] self.leased@.contains(p) implies !self@.contains(p) by {
                if added {
                    assert(self@ == old(self)@.push(port));
                    if self@.contains(p) {
                        let k = choose|k: int| 0 <= k < self@.len() && self@[k] == p;
                        if k < old(self)@.len() {
                            assert(old(self)@[k] == p);
                        }
                    }
                }
            }
            if old(self).conserves_range() && (old(self).leased().contains(port) || old(self)@.contains(port)) {
                assert forall|p: u16| #[trigger] self.range().contains(p) <==> (self@.contains(p) || self.leased().contains(p)) by {
                    assert(old(self).range().contains(p) <==> (old(self)@.contains(p) || old(self).leased().contains(p)));
                    assert(old(self).range().contains(port));
                    if !added {
                        assert(self@ == old(self)@);
                        assert(!old(self).leased().contains(port));
                        assert(self.leased() =~= old(self).leased());
                    }
                    if added {
                        if old(self)@.contains(p) {
                            let k = choose|k: int| 0 <= k < old(self)@.len() && old(self)@[k] == p;
                            assert(self@[k] == p);
                        }
                        if self@.contains(p) && p != port {
                            let k = choose|k: int| 0 <= k < self@.len() && self@[k] == p;
                            assert(old(self)@[k] == p);
                        }
                        assert(self@[old(self)@.len() as int] == port);
                    }
                }
            }
            lemma_queued_elements_are_distinct(self.available_ports);
            if old(self).within_range() && old(self).range().contains(port) && added {
                assert forall|i: int| 0 <= i < self@.len() implies self.range().contains(#[trigger] self@[i]) by {
                    if i < old(self)@.len() {
                        assert(self@[i] == old(self)@[i]);
                    }
                }
            }
            if old(self).within_range() && old(self).range().contains(port) {
                lemma_distinct_ports_fit(self.range(), self@);
            }
        }
        added
    }

    /// Whether the port is available for allocation.
    pub fn is_available(&self, port: u16) -> (r: bool)
        requires
            self.wf(),
        ensures
            r == self@.contains(port),
    {
        proof {
            lemma_u16_obeys_item_model();
        }
        self.available_ports.contains(&port)
    }

    /// The range this manager was created for.
    pub fn port_range(&self) -> (r: PortRange)
        ensures
            r == self.range(),
    {
        self.port_range
    }

    /// The number of ports available for allocation.
    pub fn available_count(&self) -> (n: usize)
        ensures
            n == self@.len(),
    {
        self.available_ports.len()
    }

    /// Whether any port is available for allocation.
    pub fn has_available_ports(&self) -> (r: bool)
        ensures
            r == (self@.len() > 0),
    {
        !self.available_ports.is_empty()
    }
}

/// The ports of a range, as a set.
pub open spec fn range_set(r: PortRange) -> Set<u16> {
    Set::new(|p: u16| r.contains(p))
}

proof fn lemma_range_set_len(r: PortRange)
    requires
        r.start <= r.end,
    ensures
        range_set(r).finite(),
        range_set(r).len() == r.end - r.start,
{
    let s = r.ports();
    assert(s.no_duplicates());
    assert(s.to_set() =~= range_set(r)) by {
        assert forall|p: u16| range_set(r).contains(p) implies s.to_set().contains(p) by {
            assert(s[p - r.start] == p);
        }
    }
    s.unique_seq_to_set();
}

/// A queue of distinct ports, all in the range, is no longer than the range.
proof fn lemma_distinct_ports_fit(r: PortRange, q: Seq<u16>)
    requires
        r.start <= r.end,
        q.no_duplicates(),
        forall|i: int| 0 <= i < q.len() ==> r.contains(#[trigger] q[i]),
    ensures
        q.len() <= r.end - r.start,
        q.len() == r.end - r.start <==> q.to_set() == range_set(r),
{
    lemma_range_set_len(r);
    q.unique_seq_to_set();
    assert(q.to_set().subset_of(range_set(r)));
    vstd::set_lib::lemma_len_subset(q.to_set(), range_set(r));
    if q.len() == r.end - r.start {
        vstd::set_lib::lemma_subset_equality(q.to_set(), range_set(r));
    }
}

/// The pool never offers more ports than its range holds, as long as only
/// ports of the range come back to it.
pub proof fn lemma_available_count_bounded(m: PortManager)
    requires
        m.wf(),
        m.within_range(),
        m.range().start <= m.range().end,
    ensures
        m@.len() <= m.range().end - m.range().start,
{
    lemma_queued_elements_are_distinct(m.available_ports);
    lemma_u16_obeys_item_model();
    lemma_distinct_ports_fit(m.range(), m@);
}

/// The available pool never holds a port twice, however often a port is
/// returned: a return of an available port leaves the pool as it was.
pub proof fn lemma_available_ports_distinct(m: PortManager)
    requires
        m.wf(),
    ensures
        m@.no_duplicates(),
{
    lemma_u16_obeys_item_model();
    lemma_queued_elements_are_distinct(m.available_ports);
}

/// A leased port is never available: the two sets are disjoint.
pub proof fn lemma_port_pool_disjoint(m: PortManager)
    requires
        m.wf(),
    ensures
        forall|p: u16| #[trigger] m.leased().contains(p) ==> !m@.contains(p),
{
}

/// A leased port is never available at the same time, so no port is handed
/// out twice while held.
pub proof fn lemma_leased_port_not_available(m: PortManager, p: u16)
    requires
        m.wf(),
        m.leased().contains(p),
    ensures
        !m@.contains(p),
{
}

/// Once every leased port has come back, the whole range is available again.
pub proof fn lemma_all_returned_means_all_available(m: PortManager)
    requires
        m.wf(),
        m.conserves_range(),
        m.leased().is_empty(),
        m.range().start <= m.range().end,
    ensures
        m@.len() == m.range().end - m.range().start,
        m@.to_set() == range_set(m.range()),
{
    lemma_queued_elements_are_distinct(m.available_ports);
    lemma_u16_obeys_item_model();
    assert(m.within_range()) by {
        assert forall|i: int| 0 <= i < m@.len() implies m.range().contains(#[trigger] m@[i]) by {
            assert(m@.contains(m@[i]));
        }
    }
    lemma_range_set_len(m.range());
    m@.unique_seq_to_set();
    assert(m@.to_set() =~= range_set(m.range())) by {
        assert forall|p: u16| range_set(m.range()).contains(p) implies m@.to_set().contains(p) by {
            assert(m@.contains(p));
        }
    }
}

} // verus!
