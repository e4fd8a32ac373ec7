use crate::docker::DockerError;
use crate::pool::config::PoolConfig;
use crate::pool::error::PoolError;
use crate::pool::host_instance::{expired, HostInstance};
use crate::pool::host_lease::HostLease;
use crate::port::{
    lemma_available_count_bounded, lemma_available_ports_distinct, lemma_port_pool_disjoint, AllocatedPort, PortError,
    PortManager,
};
use std::collections::{HashMap, VecDeque};
use vstd::std_specs::hash::{into_iter_keys, into_iter_values};
use vstd::std_specs::iter::IteratorSpec;
use vstd::prelude::*;

verus! {

broadcast use vstd::std_specs::hash::group_hash_axioms;

/// The available queue after the port `p` comes back: a port already queued
/// is ignored, any other goes to the back.
pub open spec fn port_returned(q: Seq<u16>, p: u16) -> Seq<u16> {
    if q.contains(p) {
        q
    } else {
        q.push(p)
    }
}

/// The available queue after the ports `ps` come back, in order.
pub open spec fn ports_returned(q: Seq<u16>, ps: Seq<u16>) -> Seq<u16>
    decreases ps.len(),
{
    if ps.len() == 0 {
        q
    } else {
        port_returned(ports_returned(q, ps.drop_last()), ps.last())
    }
}

/// Whether a host outlived `ttl_ns` at `now_ns`.
pub open spec fn expired_at(now_ns: u64, ttl_ns: u64) -> spec_fn(HostInstance) -> bool {
    |h: HostInstance| expired(h.created_at_ns, now_ns, ttl_ns)
}

/// Whether a host has not outlived `ttl_ns` at `now_ns`.
pub open spec fn fresh_at(now_ns: u64, ttl_ns: u64) -> spec_fn(HostInstance) -> bool {
    |h: HostInstance| !expired(h.created_at_ns, now_ns, ttl_ns)
}

/// The hosts among `hosts` that outlived `ttl_ns` at `now_ns`, in order.
pub open spec fn expired_hosts(hosts: Seq<HostInstance>, now_ns: u64, ttl_ns: u64) -> Seq<HostInstance> {
    hosts.filter(expired_at(now_ns, ttl_ns))
}

/// The hosts among `hosts` that have not outlived `ttl_ns` at `now_ns`, in order.
pub open spec fn fresh_hosts(hosts: Seq<HostInstance>, now_ns: u64, ttl_ns: u64) -> Seq<HostInstance> {
    hosts.filter(fresh_at(now_ns, ttl_ns))
}

/// The ports of `hosts`, in order.
pub open spec fn host_ports(hosts: Seq<HostInstance>) -> Seq<u16> {
    hosts.map_values(|h: HostInstance| h.allocated_port@)
}

/// The container identifiers of `hosts`, in order.
pub open spec fn container_ids(hosts: Seq<HostInstance>) -> Seq<String> {
    hosts.map_values(|h: HostInstance| h.container_id)
}

/// A port that comes back twice is queued once: a second return of the same
/// port changes nothing.
pub proof fn lemma_port_return_idempotent(q: Seq<u16>, p: u16)
    ensures
        port_returned(port_returned(q, p), p) == port_returned(q, p),
        port_returned(q, p).contains(p),
{
    assert(q.push(p)[q.len() as int] == p);
}

/// Returns keep the available queue free of duplicates.
pub proof fn lemma_port_returns_stay_distinct(q: Seq<u16>, ps: Seq<u16>)
    requires
        q.no_duplicates(),
    ensures
        ports_returned(q, ps).no_duplicates(),
    decreases ps.len(),
{
    if ps.len() > 0 {
        lemma_port_returns_stay_distinct(q, ps.drop_last());
        let r = ports_returned(q, ps.drop_last());
        let p = ps.last();
        if !r.contains(p) {
            assert forall|i: int, j: int| 0 <= i < j < r.push(p).len() implies r.push(p)[i] != r.push(p)[j] by {
                if j == r.len() {
                    assert(r.contains(r[i]));
                }
            }
        }
    }
}

/// How a lease begins: with a warm host taken from the available queue, or
/// with a freshly allocated port on which the caller is to start a container.
#[derive(Debug)]
pub enum LeaseStart {
    Reuse(HostInstance),
    Spawn(AllocatedPort),
}

/// A host entered under a new lease.
#[derive(Debug)]
pub struct LeaseGrant {
    pub lease: HostLease,
    /// Whether the host already passed a health check; if not, the caller is
    /// to check it and report with [`HostPoolManager::finish_health_check`].
    pub health_check_tested: bool,
    /// A host that was registered under the same identifier and was retired
    /// to make room: its container is to be stopped.
    pub displaced_container: Option<String>,
}

/// How a returned host is handled.
#[derive(Debug)]
pub enum ReturnStep {
    /// The host outlived its TTL and was retired: its container is to be stopped.
    Expired(String),
    /// The caller is to check that the host's container is still up and
    /// report with [`HostPoolManager::finish_return`].
    CheckAlive(HostInstance),
}

/// What to do after one attempt of the readiness check of a new container.
#[derive(Debug)]
pub enum ReadinessStep {
    /// The container answered its health check.
    Ready,
    /// Wait [`READINESS_CHECK_INTERVAL_MS`] and try again.
    Retry,
    /// All attempts failed without an error: the container is not ready.
    NotReady,
    /// The last attempt failed with this error.
    Failed(PoolError),
}

/// What to do while waiting for leased hosts to come back during shutdown.
#[derive(Debug, Clone, Copy, PartialEq, Eq, Structural)]
pub enum DrainStep {
    /// No host is leased any more.
    Drained,
    /// The shutdown timeout passed with hosts still leased.
    TimedOut,
    /// Wait [`DRAIN_CHECK_INTERVAL_MS`] and look again.
    Wait,
}

/// How many times a new container's health endpoint is tried.
pub const MAX_READINESS_ATTEMPTS: u32 = 10;

/// Pause between two readiness attempts.
pub const READINESS_CHECK_INTERVAL_MS: u64 = 50;

/// Pause between two looks at the leased hosts during shutdown.
pub const DRAIN_CHECK_INTERVAL_MS: u64 = 100;

/// How long shutdown waits for leased hosts to come back.
pub const SHUTDOWN_TIMEOUT_NS: u64 = 30_000_000_000;

/// The pool of function hosts: warm hosts waiting in a FIFO queue, and hosts
/// leased out under an identifier. Every host that leaves the pool is
/// retired: its port goes back to the port pool and its container is handed
/// to the caller to be stopped.
pub struct HostPoolManager {
    available_hosts: VecDeque<HostInstance>,
    leased_hosts: HashMap<u128, HostInstance>,
    config: PoolConfig,
    port_manager: PortManager,
    shutdown_flag: bool,
}

/// What [`HostPoolManager::begin_lease`] does, from the pool `s` to the
/// pool `t`, answering `r`: during shutdown it refuses and changes nothing;
/// it hands out the first warm host if there is one; with none, it refuses
/// at `max_instances` leased hosts, and below that it takes the first free
/// port for a new host, or refuses when no port is free.
pub open spec fn lease_begun(s: HostPoolManager, t: HostPoolManager, r: Result<LeaseStart, PoolError>) -> bool {
    &&& t.wf()
    &&& t.leased() == s.leased()
    &&& t.pool_config() == s.pool_config()
    &&& t.shutting_down() == s.shutting_down()
    &&& s.shutting_down() ==> (r matches Err(PoolError::ShuttingDown)) && t == s
    &&& r matches Ok(LeaseStart::Reuse(h)) ==> t.in_flight(h.allocated_port@)
    &&& r matches Ok(LeaseStart::Spawn(p)) ==> t.in_flight(p@)
    &&& !s.shutting_down() && s.available().len() > 0 ==> (r matches Ok(LeaseStart::Reuse(h)))
        && r->Ok_0->Reuse_0 == s.available()[0]
        && t.available() == s.available().drop_first()
        && t.free_ports() == s.free_ports()
        && t.leased_ports() == s.leased_ports()
    &&& !s.shutting_down() && s.available().len() == 0 && s.leased().len() >= s.pool_config().max_instances
        ==> (r matches Err(PoolError::MaxInstancesReached)) && t == s
    &&& !s.shutting_down() && s.available().len() == 0 && s.leased().len() < s.pool_config().max_instances ==> {
        &&& t.available() == s.available()
        &&& s.free_ports().len() == 0 ==> (r matches Err(PoolError::PortAllocation(PortError::NoAvailablePorts)))
            && t.free_ports() == s.free_ports()
            && t.leased_ports() == s.leased_ports()
        &&& s.free_ports().len() > 0 ==> (r matches Ok(LeaseStart::Spawn(p)))
            && r->Ok_0->Spawn_0@ == s.free_ports()[0]
            && t.free_ports() == s.free_ports().drop_first()
            && t.leased_ports() == s.leased_ports().insert(s.free_ports()[0])
    }
}

/// What [`HostPoolManager::host_spawned`] does, from `s` to `t`, once the
/// container on `port` was created (or not) at `now_ns`: on success a host
/// that is not yet health-checked, with the pool unchanged; on failure the
/// Docker error, with the port returned.
pub open spec fn host_started(
    s: HostPoolManager,
    t: HostPoolManager,
    port: AllocatedPort,
    created: Result<String, DockerError>,
    now_ns: u64,
    r: Result<HostInstance, PoolError>,
) -> bool {
    &&& t.wf()
    &&& t.available() == s.available()
    &&& t.leased() == s.leased()
    &&& t.pool_config() == s.pool_config()
    &&& t.shutting_down() == s.shutting_down()
    &&& created is Ok ==> r is Ok && r->Ok_0.container_id == created->Ok_0
        && r->Ok_0.allocated_port == port
        && r->Ok_0.created_at_ns == now_ns
        && !r->Ok_0.health_check_tested
        && t.free_ports() == s.free_ports()
        && t.leased_ports() == s.leased_ports()
    &&& created is Err ==> r == Err::<HostInstance, PoolError>(PoolError::Docker(created->Err_0))
        && t.free_ports() == port_returned(s.free_ports(), port@)
        && t.leased_ports() == s.leased_ports().remove(port@)
}

/// What [`HostPoolManager::grant_lease`] does, from `s` to `t`: `host`
/// enters the leased map under `lease_id`, and a host already registered
/// under that identifier is retired, its port returned and its container
/// handed back in `r` to be stopped.
pub open spec fn lease_granted(
    s: HostPoolManager,
    t: HostPoolManager,
    host: HostInstance,
    lease_id: u128,
    r: LeaseGrant,
) -> bool {
    &&& t.wf()
    &&& t.available() == s.available()
    &&& t.leased() == s.leased().insert(lease_id, host)
    &&& t.pool_config() == s.pool_config()
    &&& t.shutting_down() == s.shutting_down()
    &&& r.lease.container_id == host.container_id
    &&& r.lease.port == host.allocated_port@
    &&& r.lease.lease_id == lease_id
    &&& r.health_check_tested == host.health_check_tested
    &&& !s.leased().contains_key(lease_id) ==> r.displaced_container is None
        && t.free_ports() == s.free_ports()
        && t.leased_ports() == s.leased_ports()
    &&& s.leased().contains_key(lease_id) ==> r.displaced_container == Some(s.leased()[lease_id].container_id)
        && t.free_ports() == port_returned(s.free_ports(), s.leased()[lease_id].allocated_port@)
        && t.leased_ports() == s.leased_ports().remove(s.leased()[lease_id].allocated_port@)
}

/// Every pooled host holds its own port: the ports of the warm hosts
/// `avail` and of the leased hosts `leased` all lie in `ports` (those the
/// port pool has handed out), and no two hosts hold the same port.
pub open spec fn owns_ports(avail: Seq<HostInstance>, leased: Map<u128, HostInstance>, ports: Set<u16>) -> bool {
    &&& forall|i: int| 0 <= i < avail.len() ==> ports.contains(#[trigger] avail[i].allocated_port@)
    &&& forall|id: u128| #[trigger] leased.contains_key(id) ==> ports.contains(leased[id].allocated_port@)
    &&& forall|i: int, j: int|
        #![trigger avail[i], avail[j]]
        0 <= i < j < avail.len() ==> avail[i].allocated_port@ != avail[j].allocated_port@
    &&& forall|i: int, id: u128|
        #![trigger avail[i], leased.contains_key(id)]
        0 <= i < avail.len() && leased.contains_key(id) ==> avail[i].allocated_port@ != leased[id].allocated_port@
    &&& forall|a: u128, b: u128|
        #![trigger leased.contains_key(a), leased.contains_key(b)]
        leased.contains_key(a) && leased.contains_key(b) && a != b ==> leased[a].allocated_port@
            != leased[b].allocated_port@
}

/// Whether one of the warm hosts `avail` or the leased hosts `leased` holds
/// the port `p`.
pub open spec fn held_by(avail: Seq<HostInstance>, leased: Map<u128, HostInstance>, p: u16) -> bool {
    ||| exists|i: int| 0 <= i < avail.len() && #[trigger] avail[i].allocated_port@ == p
    ||| exists|id: u128| #[trigger] leased.contains_key(id) && leased[id].allocated_port@ == p
}

proof fn lemma_owns_remove_available(a: Seq<HostInstance>, k: int, l: Map<u128, HostInstance>, s: Set<u16>)
    requires
        owns_ports(a, l, s),
        0 <= k < a.len(),
    ensures
        owns_ports(a.remove(k), l, s),
        s.contains(a[k].allocated_port@),
        !held_by(a.remove(k), l, a[k].allocated_port@),
{
    let b = a.remove(k);
    assert forall|i: int| 0 <= i < b.len() implies b[i] == a[if i < k { i } else { i + 1 }] by {}
    assert forall|i: int, j: int| 0 <= i < j < b.len() implies b[i].allocated_port@ != b[j].allocated_port@ by {
        let x = if i < k { i } else { i + 1 };
        let y = if j < k { j } else { j + 1 };
        assert(a[x] == b[i] && a[y] == b[j]);
    }
    assert forall|i: int, id: u128| 0 <= i < b.len() && l.contains_key(id) implies b[i].allocated_port@
        != l[id].allocated_port@ by {
        let x = if i < k { i } else { i + 1 };
        assert(a[x] == b[i]);
    }
    assert forall|i: int| 0 <= i < b.len() implies s.contains(#[trigger] b[i].allocated_port@) by {
        let x = if i < k { i } else { i + 1 };
        assert(a[x] == b[i]);
    }
    if held_by(b, l, a[k].allocated_port@) {
        if exists|i: int| 0 <= i < b.len() && #[trigger] b[i].allocated_port@ == a[k].allocated_port@ {
            let i = choose|i: int| 0 <= i < b.len() && #[trigger] b[i].allocated_port@ == a[k].allocated_port@;
            let x = if i < k { i } else { i + 1 };
            assert(a[x] == b[i]);
            if x < k {
                assert(a[x].allocated_port@ != a[k].allocated_port@);
            } else {
                assert(a[k].allocated_port@ != a[x].allocated_port@);
            }
        } else {
            let id = choose|id: u128| #[trigger] l.contains_key(id) && l[id].allocated_port@ == a[k].allocated_port@;
            assert(a[k].allocated_port@ != l[id].allocated_port@);
        }
    }
}

proof fn lemma_owns_remove_leased(a: Seq<HostInstance>, l: Map<u128, HostInstance>, id: u128, s: Set<u16>)
    requires
        owns_ports(a, l, s),
        l.contains_key(id),
    ensures
        owns_ports(a, l.remove(id), s),
        s.contains(l[id].allocated_port@),
        !held_by(a, l.remove(id), l[id].allocated_port@),
{
    let m = l.remove(id);
    assert forall|x: u128, y: u128| m.contains_key(x) && m.contains_key(y) && x != y implies m[x].allocated_port@
        != m[y].allocated_port@ by {
        assert(l.contains_key(x) && l.contains_key(y));
    }
    assert forall|i: int, x: u128| 0 <= i < a.len() && m.contains_key(x) implies a[i].allocated_port@
        != m[x].allocated_port@ by {
        assert(l.contains_key(x));
    }
    if held_by(a, m, l[id].allocated_port@) {
        if exists|i: int| 0 <= i < a.len() && #[trigger] a[i].allocated_port@ == l[id].allocated_port@ {
            let i = choose|i: int| 0 <= i < a.len() && #[trigger] a[i].allocated_port@ == l[id].allocated_port@;
            assert(a[i].allocated_port@ != l[id].allocated_port@);
        } else {
            let x = choose|x: u128| #[trigger] m.contains_key(x) && m[x].allocated_port@ == l[id].allocated_port@;
            assert(l.contains_key(x) && x != id);
        }
    }
}

proof fn lemma_owns_release(a: Seq<HostInstance>, l: Map<u128, HostInstance>, s: Set<u16>, p: u16)
    requires
        owns_ports(a, l, s),
        !held_by(a, l, p),
    ensures
        owns_ports(a, l, s.remove(p)),
{
    assert forall|i: int| 0 <= i < a.len() implies s.remove(p).contains(#[trigger] a[i].allocated_port@) by {
        if a[i].allocated_port@ == p {
            assert(held_by(a, l, p));
        }
    }
    assert forall|id: u128| #[trigger] l.contains_key(id) implies s.remove(p).contains(l[id].allocated_port@) by {
        if l[id].allocated_port@ == p {
            assert(held_by(a, l, p));
        }
    }
}

proof fn lemma_owns_push_available(a: Seq<HostInstance>, l: Map<u128, HostInstance>, s: Set<u16>, h: HostInstance)
    requires
        owns_ports(a, l, s),
        s.contains(h.allocated_port@),
        !held_by(a, l, h.allocated_port@),
    ensures
        owns_ports(a.push(h), l, s),
{
    let b = a.push(h);
    assert forall|i: int| 0 <= i < a.len() implies b[i] == a[i] by {}
    assert forall|i: int, j: int| 0 <= i < j < b.len() implies b[i].allocated_port@ != b[j].allocated_port@ by {
        if j == a.len() {
            if b[i].allocated_port@ == h.allocated_port@ {
                assert(a[i].allocated_port@ == h.allocated_port@);
                assert(held_by(a, l, h.allocated_port@));
            }
        }
    }
    assert forall|i: int, id: u128| 0 <= i < b.len() && l.contains_key(id) implies b[i].allocated_port@
        != l[id].allocated_port@ by {
        if i == a.len() && l[id].allocated_port@ == h.allocated_port@ {
            assert(held_by(a, l, h.allocated_port@));
        }
    }
}

proof fn lemma_owns_insert_leased(
    a: Seq<HostInstance>,
    l: Map<u128, HostInstance>,
    s: Set<u16>,
    id: u128,
    h: HostInstance,
)
    requires
        owns_ports(a, l, s),
        !l.contains_key(id),
        s.contains(h.allocated_port@),
        !held_by(a, l, h.allocated_port@),
    ensures
        owns_ports(a, l.insert(id, h), s),
{
    let m = l.insert(id, h);
    assert forall|x: u128, y: u128| m.contains_key(x) && m.contains_key(y) && x != y implies m[x].allocated_port@
        != m[y].allocated_port@ by {
        if x == id && l[y].allocated_port@ == h.allocated_port@ {
            assert(held_by(a, l, h.allocated_port@));
        }
        if y == id && l[x].allocated_port@ == h.allocated_port@ {
            assert(held_by(a, l, h.allocated_port@));
        }
    }
    assert forall|i: int, x: u128| 0 <= i < a.len() && m.contains_key(x) implies a[i].allocated_port@
        != m[x].allocated_port@ by {
        if x == id && a[i].allocated_port@ == h.allocated_port@ {
            assert(held_by(a, l, h.allocated_port@));
        }
    }
}

/// The free ports never repeat, lie in the configured range and never
/// outnumber it, however often ports come back.
pub proof fn lemma_free_ports_bounded(s: HostPoolManager)
    requires
        s.wf(),
    ensures
        s.free_ports().no_duplicates(),
        forall|i: int| 0 <= i < s.free_ports().len() ==> s.pool_config().port_range.contains(#[trigger] s.free_ports()[i]),
        s.free_ports().len() <= s.pool_config().port_range.end - s.pool_config().port_range.start,
{
    let m = s.port_manager;
    lemma_available_ports_distinct(m);
    assert(m.within_range()) by {
        assert forall|i: int| 0 <= i < m@.len() implies m.range().contains(#[trigger] m@[i]) by {
            assert(m@.contains(m@[i]));
        }
    }
    lemma_available_count_bounded(m);
}

/// Every pooled host holds its own port: the ports of the warm and the
/// leased hosts are all handed out by the port pool (never free), and no
/// two hosts share one.
pub proof fn lemma_pool_owns_its_ports(s: HostPoolManager)
    requires
        s.wf(),
    ensures
        owns_ports(s.available(), s.leased(), s.leased_ports()),
        forall|i: int| 0 <= i < s.available().len() ==> !s.free_ports().contains(#[trigger] s.available()[i].allocated_port@),
        forall|id: u128| #[trigger] s.leased().contains_key(id) ==> !s.free_ports().contains(s.leased()[id].allocated_port@),
{
    lemma_port_pool_disjoint(s.port_manager);
}

/// What [`HostPoolManager::begin_shutdown`] does, from `s` to `t`: it sets
/// the shutdown flag and changes nothing else.
pub open spec fn shutdown_begun(s: HostPoolManager, t: HostPoolManager) -> bool {
    &&& t.wf()
    &&& t.shutting_down()
    &&& t.available() == s.available()
    &&& t.leased() == s.leased()
    &&& t.pool_config() == s.pool_config()
    &&& t.free_ports() == s.free_ports()
    &&& t.leased_ports() == s.leased_ports()
}

/// What [`HostPoolManager::collect_all_hosts`] does, from `s` to `t`,
/// handing out `r`: the pool is emptied; `r` holds the warm hosts in queue
/// order, then the leased hosts in the order in which the map happens to
/// walk them; the ports stay as they were, to be returned as each host is
/// retired.
pub open spec fn hosts_collected(s: HostPoolManager, t: HostPoolManager, r: Seq<HostInstance>) -> bool {
    &&& t.wf()
    &&& t.available() == Seq::<HostInstance>::empty()
    &&& t.leased() == Map::<u128, HostInstance>::empty()
    &&& t.pool_config() == s.pool_config()
    &&& t.shutting_down() == s.shutting_down()
    &&& t.free_ports() == s.free_ports()
    &&& t.leased_ports() == s.leased_ports()
    &&& r.len() == s.available().len() + s.leased().len()
    &&& r.take(s.available().len() as int) == s.available()
    &&& exists|ks: Seq<u128>|
        {
            &&& ks.no_duplicates()
            &&& ks.to_set() == s.leased().dom()
            &&& #[trigger] r.skip(s.available().len() as int) == ks.map_values(|k: u128| s.leased()[k])
        }
}

impl HostPoolManager {
    /// The warm hosts, next to be leased first.
    pub closed spec fn available(&self) -> Seq<HostInstance> {
        self.available_hosts@
    }

    /// The leased hosts, by lease identifier.
    pub closed spec fn leased(&self) -> Map<u128, HostInstance> {
        self.leased_hosts@
    }

    pub closed spec fn pool_config(&self) -> PoolConfig {
        self.config
    }

    /// The port pool's available queue.
    pub closed spec fn free_ports(&self) -> Seq<u16> {
        self.port_manager@
    }

    /// The ports handed out and not yet returned.
    pub closed spec fn leased_ports(&self) -> Set<u16> {
        self.port_manager.leased()
    }

    pub closed spec fn shutting_down(&self) -> bool {
        self.shutdown_flag
    }

    pub closed spec fn wf(&self) -> bool {
        &&& self.port_manager.wf()
        &&& self.port_manager.conserves_range()
        &&& self.port_manager.range() == self.config.port_range
        &&& self.config.port_range.start <= self.config.port_range.end
        &&& self.leased_hosts@.dom().finite()
        &&& owns_ports(self.available_hosts@, self.leased_hosts@, self.port_manager.leased())
    }

    /// Whether a warm or leased host holds the port `p`.
    pub open spec fn holds_port(&self, p: u16) -> bool {
        held_by(self.available(), self.leased(), p)
    }

    /// Whether the port `p` is out with the caller: handed out by the port
    /// pool and held by no pooled host. A host or port given back to the
    /// pool must be out in this way.
    pub open spec fn in_flight(&self, p: u16) -> bool {
        self.leased_ports().contains(p) && !self.holds_port(p)
    }

    /// Warm and leased hosts together stay within `max_instances`.
    pub open spec fn within_max_instances(&self) -> bool {
        self.available().len() + self.leased().len() <= self.pool_config().max_instances
    }

    /// Creates an empty pool whose port pool covers the configured range.
    pub fn new(config: PoolConfig) -> (r: Self)
        requires
            config.port_range.start <= config.port_range.end,
        ensures
            r.wf(),
            r.available() == Seq::<HostInstance>::empty(),
            r.leased() == Map::<u128, HostInstance>::empty(),
            r.pool_config() == config,
            r.free_ports() == config.port_range.ports(),
            r.leased_ports() == Set::<u16>::empty(),
            !r.shutting_down(),
    {
        let port_manager = PortManager::new(config.port_range);
        Self {
            available_hosts: VecDeque::new(),
            leased_hosts: HashMap::new(),
            config,
            port_manager,
            shutdown_flag: false,
        }
    }

    /// Check if shutdown has been initiated
    pub fn is_shutting_down(&self) -> (r: bool)
        ensures
            r == self.shutting_down(),
    {
        self.shutdown_flag
    }

    /// The number of leased hosts.
    pub fn leased_count(&self) -> (n: usize)
        ensures
            n == self.leased().len(),
    {
        self.leased_hosts.len()
    }

    /// The number of warm hosts.
    pub fn available_count(&self) -> (n: usize)
        ensures
            n == self.available().len(),
    {
        self.available_hosts.len()
    }

    /// Retires a host that leaves the pool: its port goes back to the port
    /// pool, and its container, returned, is to be stopped.
    pub fn retire_host(&mut self, host: HostInstance) -> (container_id: String)
        requires
            old(self).wf(),
            old(self).in_flight(host.allocated_port@),
        ensures
            final(self).wf(),
            container_id == host.container_id,
            final(self).available() == old(self).available(),
            final(self).leased() == old(self).leased(),
            final(self).pool_config() == old(self).pool_config(),
            final(self).shutting_down() == old(self).shutting_down(),
            final(self).free_ports() == port_returned(old(self).free_ports(), host.allocated_port@),
            final(self).leased_ports() == old(self).leased_ports().remove(host.allocated_port@),
    {
        let retired = host.stop_now();
        self.port_manager.process_port_return(retired.port);
        proof {
            lemma_owns_release(
                old(self).available_hosts@,
                old(self).leased_hosts@,
                old(self).port_manager.leased(),
                retired.port,
            );
        }
        retired.container_id
    }

    /// Gives back a port handed out for a host that never started.
    pub fn return_port(&mut self, port: u16)
        requires
            old(self).wf(),
            old(self).in_flight(port),
        ensures
            final(self).wf(),
            final(self).available() == old(self).available(),
            final(self).leased() == old(self).leased(),
            final(self).pool_config() == old(self).pool_config(),
            final(self).shutting_down() == old(self).shutting_down(),
            final(self).free_ports() == port_returned(old(self).free_ports(), port),
            final(self).leased_ports() == old(self).leased_ports().remove(port),
    {
        self.port_manager.process_port_return(port);
        proof {
            lemma_owns_release(old(self).available_hosts@, old(self).leased_hosts@, old(self).port_manager.leased(), port);
        }
    }

    /// Whether the port `port` is out with the caller, so that a host on it
    /// or the port itself may be given back to the pool.
    pub fn port_in_flight(&self, port: u16) -> (r: bool)
        requires
            self.wf(),
        ensures
            r == self.in_flight(port),
    {
        proof {
            lemma_port_pool_disjoint(self.port_manager);
        }
        let range = self.port_manager.port_range();
        assert(self.port_manager.conserves_range());
        if port < range.start || port >= range.end {
            assert(!self.port_manager.range().contains(port));
            return false;
        }
        if self.port_manager.is_available(port) {
            return false;
        }
        assert(self.port_manager.range().contains(port));
        assert(self.leased_ports().contains(port));
        let n = self.available_hosts.len();
        let mut i: usize = 0;
        while i < n
            invariant
                n == self.available_hosts@.len(),
                i <= n,
                forall|k: int| 0 <= k < i ==> #[trigger] self.available_hosts@[k].allocated_port@ != port,
            decreases n - i,
        {
            if self.available_hosts[i].allocated_port.port() == port {
                return false;
            }
            i = i + 1;
        }
        let mut values = self.leased_hosts.values();
        let ghost all = into_iter_values(values);
        proof {
            assert(all.to_set() == self.leased_hosts@.values());
        }
        let ghost mut seen: int = 0;
        loop
            invariant_except_break
                values.obeys_prophetic_iter_laws(),
                values.remaining().unref() == all.skip(seen),
                all.to_set() == self.leased_hosts@.values(),
                0 <= seen <= all.len(),
                forall|k: int| 0 <= k < seen ==> #[trigger] all[k].allocated_port@ != port,
            ensures
                forall|k: int| 0 <= k < all.len() ==> #[trigger] all[k].allocated_port@ != port,
            decreases all.len() - seen,
        {
            let ghost before = values.remaining();
            match advance(&mut values) {
                Some(h) => {
                    proof {
                        assert(before.unref() == all.skip(seen));
                        assert(all.skip(seen).len() > 0);
                        assert(before.unref()[0] == *before[0]);
                        assert(*h == all[seen]);
                    }
                    if h.allocated_port.port() == port {
                        proof {
                            assert(all.to_set().contains(all[seen]));
                            let id = choose|id: u128| #[trigger] self.leased_hosts@.contains_key(id)
                                && self.leased_hosts@[id] == all[seen];
                            assert(self.leased_hosts@.contains_key(id) && self.leased_hosts@[id].allocated_port@ == port);
                        }
                        return false;
                    }
                    proof {
                        assert(before.drop_first().unref() =~= before.unref().drop_first());
                        assert(all.skip(seen).drop_first() =~= all.skip(seen + 1));
                        seen = seen + 1;
                    }
                },
                None => {
                    proof {
                        assert(before.unref() == all.skip(seen));
                        assert(before.len() == 0);
                        assert(before.unref().len() == 0);
                        assert(seen == all.len());
                    }
                    break;
                },
            }
        }
        proof {
            assert forall|id: u128| #[trigger] self.leased_hosts@.contains_key(id) implies self.leased_hosts@[id].allocated_port@
                != port by {
                assert(self.leased_hosts@.values().contains(self.leased_hosts@[id]));
                assert(all.to_set().contains(self.leased_hosts@[id]));
                let k = choose|k: int| 0 <= k < all.len() && all[k] == self.leased_hosts@[id];
                assert(all[k].allocated_port@ != port);
            }
            assert forall|k: int| 0 <= k < n implies #[trigger] self.available_hosts@[k].allocated_port@ != port by {}
        }
        true
    }

    /// Begins a lease: refuses during shutdown, takes the first warm host if
    /// there is one, and otherwise, below `max_instances` leased hosts,
    /// allocates a port for a new host.
    pub fn begin_lease(&mut self) -> (r: Result<LeaseStart, PoolError>)
        requires
            old(self).wf(),
        ensures
            lease_begun(*old(self), *final(self), r),
    {
        if self.shutdown_flag {
            return Err(PoolError::ShuttingDown);
        }
        let ghost a = self.available_hosts@;
        let ghost l = self.leased_hosts@;
        let ghost ps = self.port_manager.leased();
        if self.available_hosts.len() > 0 {
            proof {
                lemma_owns_remove_available(a, 0, l, ps);
                assert(a.remove(0) =~= a.drop_first());
            }
            Ok(LeaseStart::Reuse(self.available_hosts.pop_front().unwrap()))
        } else {
            // Only `leased_hosts` counts here: with a warm host available,
            // the branch above would have taken it.
            if self.leased_hosts.len() >= self.config.max_instances {
                return Err(PoolError::MaxInstancesReached);
            }
            proof {
                lemma_port_pool_disjoint(self.port_manager);
            }
            match self.allocate_host_port() {
                Ok(port) => {
                    proof {
                        let p = port@;
                        assert(old(self).free_ports().contains(p)) by {
                            assert(old(self).free_ports()[0] == p);
                        }
                        assert(!held_by(a, l, p)) by {
                            if exists|i: int| 0 <= i < a.len() && #[trigger] a[i].allocated_port@ == p {
                                let i = choose|i: int| 0 <= i < a.len() && #[trigger] a[i].allocated_port@ == p;
                                assert(ps.contains(a[i].allocated_port@));
                            }
                            if exists|id: u128| #[trigger] l.contains_key(id) && l[id].allocated_port@ == p {
                                let id = choose|id: u128| #[trigger] l.contains_key(id) && l[id].allocated_port@ == p;
                                assert(ps.contains(l[id].allocated_port@));
                            }
                        }
                    }
                    Ok(LeaseStart::Spawn(port))
                },
                Err(e) => Err(e),
            }
        }
    }

    /// Completes the start of a new host once the caller has tried to create
    /// its container on `port`: on success the host is built (created at
    /// `now_ns`, not yet health-checked); on failure the port goes back to
    /// the port pool.
    pub fn host_spawned(
        &mut self,
        port: AllocatedPort,
        created: Result<String, DockerError>,
        now_ns: u64,
    ) -> (r: Result<HostInstance, PoolError>)
        requires
            old(self).wf(),
            old(self).in_flight(port@),
        ensures
            host_started(*old(self), *final(self), port, created, now_ns, r),
    {
        match created {
            Ok(container_id) => Ok(HostInstance::new(container_id, port, now_ns)),
            Err(e) => {
                let p = port.release_now();
                self.port_manager.process_port_return(p);
                proof {
                    lemma_owns_release(old(self).available_hosts@, old(self).leased_hosts@, old(self).port_manager.leased(), p);
                }
                Err(PoolError::Docker(e))
            }
        }
    }

    /// Enters `host` as leased under `lease_id`. A host already registered
    /// under that identifier is retired to make room.
    pub fn grant_lease(&mut self, host: HostInstance, lease_id: u128) -> (r: LeaseGrant)
        requires
            old(self).wf(),
            old(self).in_flight(host.allocated_port@),
        ensures
            lease_granted(*old(self), *final(self), host, lease_id, r),
    {
        let container_id = host.container_id.clone();
        let port = host.allocated_port.port();
        let tested = host.health_check_tested;
        let ghost a = old(self).available_hosts@;
        let ghost l = old(self).leased_hosts@;
        let ghost ps = old(self).port_manager.leased();
        let ghost hp = host.allocated_port@;
        let displaced = self.leased_hosts.insert(lease_id, host);
        proof {
            if l.contains_key(lease_id) {
                lemma_owns_remove_leased(a, l, lease_id, ps);
                assert(!held_by(a, l.remove(lease_id), hp)) by {
                    if exists|i: int| 0 <= i < a.len() && #[trigger] a[i].allocated_port@ == hp {
                        assert(held_by(a, l, hp));
                    }
                    if exists|x: u128| #[trigger] l.remove(lease_id).contains_key(x) && l.remove(lease_id)[x].allocated_port@ == hp {
                        let x = choose|x: u128| #[trigger] l.remove(lease_id).contains_key(x) && l.remove(lease_id)[x].allocated_port@ == hp;
                        assert(l.contains_key(x));
                        assert(held_by(a, l, hp));
                    }
                }
                lemma_owns_insert_leased(a, l.remove(lease_id), ps, lease_id, host);
                assert(l.remove(lease_id).insert(lease_id, host) =~= l.insert(lease_id, host));
                let dp = l[lease_id].allocated_port@;
                assert(l.contains_key(lease_id));
                assert(dp != hp) by {
                    assert(held_by(a, l, dp));
                }
                assert(!held_by(a, l.insert(lease_id, host), dp)) by {
                    if exists|x: u128| #[trigger] l.insert(lease_id, host).contains_key(x) && l.insert(lease_id, host)[x].allocated_port@ == dp {
                        let x = choose|x: u128| #[trigger] l.insert(lease_id, host).contains_key(x) && l.insert(lease_id, host)[x].allocated_port@ == dp;
                        if x != lease_id {
                            assert(l.remove(lease_id).contains_key(x));
                        }
                    }
                }
            } else {
                lemma_owns_insert_leased(a, l, ps, lease_id, host);
            }
        }
        let displaced_container = match displaced {
            Some(old_host) => Some(self.retire_host(old_host)),
            None => None,
        };
        LeaseGrant {
            lease: HostLease::new(container_id, port, lease_id),
            health_check_tested: tested,
            displaced_container,
        }
    }

    /// Enters `host` as leased under a fresh random identifier.
    pub fn grant_new_lease(&mut self, host: HostInstance) -> (r: LeaseGrant)
        requires
            old(self).wf(),
            old(self).in_flight(host.allocated_port@),
        ensures
            lease_granted(*old(self), *final(self), host, r.lease.lease_id, r),
    {
        let lease_id = new_lease_id();
        self.grant_lease(host, lease_id)
    }

    /// Records the outcome of the readiness check of the host leased under
    /// `lease_id`. A ready host is marked health-checked; otherwise the host
    /// is retired and the returned container is to be stopped.
    pub fn finish_health_check(&mut self, lease_id: u128, outcome: Result<bool, PoolError>) -> (r: (
        Result<(), PoolError>,
        Option<String>,
    ))
        requires
            old(self).wf(),
        ensures
            final(self).wf(),
            final(self).available() == old(self).available(),
            final(self).pool_config() == old(self).pool_config(),
            final(self).shutting_down() == old(self).shutting_down(),
            outcome == Ok::<bool, PoolError>(true) ==> r.1 is None
                && final(self).free_ports() == old(self).free_ports()
                && final(self).leased_ports() == old(self).leased_ports()
                && if old(self).leased().contains_key(lease_id) {
                    &&& r.0 is Ok
                    &&& final(self).leased() == old(self).leased().insert(
                        lease_id,
                        (HostInstance { health_check_tested: true, ..old(self).leased()[lease_id] }),
                    )
                } else {
                    &&& (r.0 matches Err(PoolError::InvalidLease(id)) && id == lease_id)
                    &&& final(self).leased() == old(self).leased()
                },
            outcome != Ok::<bool, PoolError>(true) ==> {
                &&& outcome == Ok::<bool, PoolError>(false) ==> (r.0 matches Err(PoolError::ContainerNotReady))
                &&& outcome is Err ==> r.0 == Err::<(), PoolError>(outcome->Err_0)
                &&& final(self).leased() == old(self).leased().remove(lease_id)
                &&& old(self).leased().contains_key(lease_id) ==> {
                    let h = old(self).leased()[lease_id];
                    &&& r.1 == Some(h.container_id)
                    &&& final(self).free_ports() == port_returned(old(self).free_ports(), h.allocated_port@)
                    &&& final(self).leased_ports() == old(self).leased_ports().remove(h.allocated_port@)
                }
                &&& !old(self).leased().contains_key(lease_id) ==> r.1 is None
                    && final(self).free_ports() == old(self).free_ports()
                    && final(self).leased_ports() == old(self).leased_ports()
            },
    {
        match outcome {
            Ok(true) => {
                match self.leased_hosts.remove(&lease_id) {
                    Some(host) => {
                        let tested = HostInstance { health_check_tested: true, ..host };
                        self.leased_hosts.insert(lease_id, tested);
                        proof {
                            assert(self.leased_hosts@ =~= old(self).leased_hosts@.insert(
                                lease_id,
                                (HostInstance { health_check_tested: true, ..old(self).leased_hosts@[lease_id] }),
                            ));
                        }
                        (Ok(()), None)
                    }
                    None => (Err(PoolError::InvalidLease(lease_id)), None),
                }
            }
            Ok(false) => {
                let stopped = self.remove_and_retire(lease_id);
                (Err(PoolError::ContainerNotReady), stopped)
            }
            Err(e) => {
                let stopped = self.remove_and_retire(lease_id);
                (Err(e), stopped)
            }
        }
    }

    fn remove_and_retire(&mut self, lease_id: u128) -> (r: Option<String>)
        requires
            old(self).wf(),
        ensures
            final(self).wf(),
            final(self).available() == old(self).available(),
            final(self).pool_config() == old(self).pool_config(),
            final(self).shutting_down() == old(self).shutting_down(),
            final(self).leased() == old(self).leased().remove(lease_id),
            old(self).leased().contains_key(lease_id) ==> {
                let h = old(self).leased()[lease_id];
                &&& r == Some(h.container_id)
                &&& final(self).free_ports() == port_returned(old(self).free_ports(), h.allocated_port@)
                &&& final(self).leased_ports() == old(self).leased_ports().remove(h.allocated_port@)
            },
            !old(self).leased().contains_key(lease_id) ==> r is None
                && final(self).free_ports() == old(self).free_ports()
                && final(self).leased_ports() == old(self).leased_ports(),
    {
        let ghost a = old(self).available_hosts@;
        let ghost l = old(self).leased_hosts@;
        let ghost ps = old(self).port_manager.leased();
        match self.leased_hosts.remove(&lease_id) {
            Some(host) => {
                proof {
                    lemma_owns_remove_leased(a, l, lease_id, ps);
                }
                Some(self.retire_host(host))
            },
            None => None,
        }
    }

    /// Takes back the host leased under `lease_id` at `now_ns`. A host that
    /// outlived the configured TTL is retired; any other is handed to the
    /// caller to check that its container is still up.
    pub fn take_returned_host(&mut self, lease_id: u128, now_ns: u64) -> (r: Result<ReturnStep, PoolError>)
        requires
            old(self).wf(),
        ensures
            final(self).wf(),
            final(self).available() == old(self).available(),
            final(self).leased() == old(self).leased().remove(lease_id),
            final(self).pool_config() == old(self).pool_config(),
            final(self).shutting_down() == old(self).shutting_down(),
            !old(self).leased().contains_key(lease_id) ==> (r matches Err(PoolError::InvalidLease(id)) && id == lease_id)
                && final(self).free_ports() == old(self).free_ports()
                && final(self).leased_ports() == old(self).leased_ports(),
            old(self).leased().contains_key(lease_id) ==> {
                let h = old(self).leased()[lease_id];
                if expired(h.created_at_ns, now_ns, old(self).pool_config().instance_ttl_ns) {
                    &&& (r matches Ok(ReturnStep::Expired(id)) && id == h.container_id)
                    &&& final(self).free_ports() == port_returned(old(self).free_ports(), h.allocated_port@)
                    &&& final(self).leased_ports() == old(self).leased_ports().remove(h.allocated_port@)
                } else {
                    &&& (r matches Ok(ReturnStep::CheckAlive(x)) && x == h)
                    &&& final(self).in_flight(h.allocated_port@)
                    &&& final(self).free_ports() == old(self).free_ports()
                    &&& final(self).leased_ports() == old(self).leased_ports()
                }
            },
    {
        let ghost a = old(self).available_hosts@;
        let ghost l = old(self).leased_hosts@;
        let ghost ps = old(self).port_manager.leased();
        match self.leased_hosts.remove(&lease_id) {
            Some(host) => {
                proof {
                    lemma_owns_remove_leased(a, l, lease_id, ps);
                }
                if host.is_expired(now_ns, self.config.instance_ttl_ns) {
                    Ok(ReturnStep::Expired(self.retire_host(host)))
                } else {
                    Ok(ReturnStep::CheckAlive(host))
                }
            }
            None => Err(PoolError::InvalidLease(lease_id)),
        }
    }

    /// Completes the return of `host`: a host whose container is still up
    /// goes to the back of the available queue; any other is retired and the
    /// returned container is to be stopped.
    pub fn finish_return(&mut self, host: HostInstance, alive: bool) -> (r: Option<String>)
        requires
            old(self).wf(),
            old(self).in_flight(host.allocated_port@),
        ensures
            final(self).wf(),
            final(self).leased() == old(self).leased(),
            final(self).pool_config() == old(self).pool_config(),
            final(self).shutting_down() == old(self).shutting_down(),
            alive ==> r is None && final(self).available() == old(self).available().push(host)
                && final(self).free_ports() == old(self).free_ports()
                && final(self).leased_ports() == old(self).leased_ports(),
            !alive ==> r == Some(host.container_id) && final(self).available() == old(self).available()
                && final(self).free_ports() == port_returned(old(self).free_ports(), host.allocated_port@)
                && final(self).leased_ports() == old(self).leased_ports().remove(host.allocated_port@),
    {
        if alive {
            proof {
                lemma_owns_push_available(
                    old(self).available_hosts@,
                    old(self).leased_hosts@,
                    old(self).port_manager.leased(),
                    host,
                );
            }
            self.available_hosts.push_back(host);
            None
        } else {
            Some(self.retire_host(host))
        }
    }

    /// Puts a new warm host at the back of the available queue.
    pub fn add_available_host(&mut self, host: HostInstance)
        requires
            old(self).wf(),
            old(self).in_flight(host.allocated_port@),
        ensures
            final(self).wf(),
            final(self).available() == old(self).available().push(host),
            final(self).leased() == old(self).leased(),
            final(self).pool_config() == old(self).pool_config(),
            final(self).shutting_down() == old(self).shutting_down(),
            final(self).free_ports() == old(self).free_ports(),
            final(self).leased_ports() == old(self).leased_ports(),
    {
        proof {
            lemma_owns_push_available(
                old(self).available_hosts@,
                old(self).leased_hosts@,
                old(self).port_manager.leased(),
                host,
            );
        }
        self.available_hosts.push_back(host);
    }

    /// How many hosts the scaling policy is to start so that leased and warm
    /// hosts together reach `min_instances`.
    pub fn hosts_needed(&self) -> (n: usize)
        requires
            self.leased().len() + self.available().len() <= usize::MAX,
        ensures
            self.leased().len() + self.available().len() < self.pool_config().min_instances ==> n
                == self.pool_config().min_instances - (self.leased().len() + self.available().len()),
            self.leased().len() + self.available().len() >= self.pool_config().min_instances ==> n == 0,
    {
        let total_host_count = self.leased_hosts.len() + self.available_hosts.len();
        if total_host_count < self.config.min_instances {
            self.config.min_instances - total_host_count
        } else {
            0
        }
    }

    /// Sets the shutdown flag: from now on every lease is refused.
    pub fn begin_shutdown(&mut self)
        requires
            old(self).wf(),
        ensures
            shutdown_begun(*old(self), *final(self)),
    {
        self.shutdown_flag = true;
    }

    /// Retires every warm host that outlived the configured TTL at `now_ns`;
    /// the others keep their order. Returns the containers to stop, in queue
    /// order.
    pub fn reap_expired_hosts(&mut self, now_ns: u64) -> (r: Vec<String>)
        requires
            old(self).wf(),
        ensures
            final(self).wf(),
            final(self).leased() == old(self).leased(),
            final(self).pool_config() == old(self).pool_config(),
            final(self).shutting_down() == old(self).shutting_down(),
            final(self).available() == fresh_hosts(
                old(self).available(),
                now_ns,
                old(self).pool_config().instance_ttl_ns,
            ),
            r@ == container_ids(
                expired_hosts(old(self).available(), now_ns, old(self).pool_config().instance_ttl_ns),
            ),
            final(self).free_ports() == ports_returned(
                old(self).free_ports(),
                host_ports(expired_hosts(old(self).available(), now_ns, old(self).pool_config().instance_ttl_ns)),
            ),
            final(self).leased_ports() == old(self).leased_ports().difference(
                host_ports(expired_hosts(old(self).available(), now_ns, old(self).pool_config().instance_ttl_ns)).to_set(),
            ),
    {
        let ttl = self.config.instance_ttl_ns;
        let ghost hosts = self.available_hosts@;
        let n = self.available_hosts.len();
        let mut still_valid: VecDeque<HostInstance> = VecDeque::new();
        let mut reaped: Vec<String> = Vec::new();
        let mut i: usize = 0;
        while i < n
            invariant
                n == hosts.len(),
                i <= n,
                ttl == self.config.instance_ttl_ns,
                self.wf(),
                owns_ports(still_valid@ + self.available_hosts@, self.leased_hosts@, self.port_manager.leased()),
                self.available_hosts@ == hosts.subrange(i as int, n as int),
                self.leased() == old(self).leased(),
                self.pool_config() == old(self).pool_config(),
                self.shutting_down() == old(self).shutting_down(),
                still_valid@ == fresh_hosts(hosts.take(i as int), now_ns, ttl),
                reaped@ == container_ids(expired_hosts(hosts.take(i as int), now_ns, ttl)),
                self.free_ports() == ports_returned(
                    old(self).free_ports(),
                    host_ports(expired_hosts(hosts.take(i as int), now_ns, ttl)),
                ),
                self.leased_ports() == old(self).leased_ports().difference(
                    host_ports(expired_hosts(hosts.take(i as int), now_ns, ttl)).to_set(),
                ),
            decreases n - i,
        {
            let ghost combined = still_valid@ + self.available_hosts@;
            let ghost k = still_valid@.len() as int;
            let host = self.available_hosts.pop_front().unwrap();
            proof {
                assert(combined[k] == host);
                assert(combined.remove(k) =~= still_valid@ + self.available_hosts@);
                lemma_owns_remove_available(combined, k, self.leased_hosts@, self.port_manager.leased());
            }
            let ghost prefix = hosts.take(i as int);
            let ghost ex = expired_hosts(prefix, now_ns, ttl);
            proof {
                assert(host == hosts[i as int]);
                assert(hosts.take(i + 1) =~= prefix.push(host));
                prefix.lemma_filter_push(host, expired_at(now_ns, ttl));
                prefix.lemma_filter_push(host, fresh_at(now_ns, ttl));
                assert(self.available_hosts@ =~= hosts.subrange(i + 1, n as int));
            }
            if host.is_expired(now_ns, ttl) {
                let ghost p = host.allocated_port@;
                let ghost before_ports = self.port_manager.leased();
                let id = self.retire_host(host);
                proof {
                    lemma_owns_release(still_valid@ + self.available_hosts@, self.leased_hosts@, before_ports, p);
                }
                reaped.push(id);
                proof {
                    assert(expired_hosts(hosts.take(i + 1), now_ns, ttl) =~= ex.push(host));
                    assert(fresh_hosts(hosts.take(i + 1), now_ns, ttl) =~= fresh_hosts(prefix, now_ns, ttl));
                    assert(container_ids(ex.push(host)) =~= container_ids(ex).push(host.container_id));
                    assert(host_ports(ex.push(host)) =~= host_ports(ex).push(p));
                    assert(host_ports(ex).push(p).drop_last() =~= host_ports(ex));
                    host_ports(ex).lemma_push_to_set_commute(p);
                    assert(old(self).leased_ports().difference(host_ports(ex).push(p).to_set())
                        =~= old(self).leased_ports().difference(host_ports(ex).to_set()).remove(p));
                }
            } else {
                still_valid.push_back(host);
                proof {
                    assert(still_valid@ + self.available_hosts@ =~= combined);
                    assert(expired_hosts(hosts.take(i + 1), now_ns, ttl) =~= ex);
                    assert(fresh_hosts(hosts.take(i + 1), now_ns, ttl) =~= fresh_hosts(prefix, now_ns, ttl).push(host));
                }
            }
            i = i + 1;
        }
        proof {
            assert(hosts.take(n as int) =~= hosts);
            assert(still_valid@ + self.available_hosts@ =~= still_valid@);
        }
        self.available_hosts = still_valid;
        reaped
    }

    /// Empties the pool: the warm hosts in queue order, then the leased hosts
    /// in the order in which the map happens to walk them.
    pub fn collect_all_hosts(&mut self) -> (r: Vec<HostInstance>)
        requires
            old(self).wf(),
        ensures
            hosts_collected(*old(self), *final(self), r@),
    {
        let ghost avail = self.available_hosts@;
        let ghost leased = self.leased_hosts@;
        let n = self.available_hosts.len();
        let total_capacity = n.saturating_add(self.leased_hosts.len());
        let mut all_hosts: Vec<HostInstance> = Vec::with_capacity(total_capacity);
        let mut i: usize = 0;
        while i < n
            invariant
                n == avail.len(),
                i <= n,
                self.available_hosts@ == avail.subrange(i as int, n as int),
                all_hosts@ == avail.take(i as int),
                self.leased_hosts@ == leased,
                self.port_manager == old(self).port_manager,
                self.config == old(self).config,
                self.shutdown_flag == old(self).shutdown_flag,
            decreases n - i,
        {
            let host = self.available_hosts.pop_front().unwrap();
            all_hosts.push(host);
            proof {
                assert(avail.take(i + 1) =~= avail.take(i as int).push(host));
                assert(self.available_hosts@ =~= avail.subrange(i + 1, n as int));
            }
            i = i + 1;
        }
        proof {
            assert(avail.take(n as int) =~= avail);
            assert(self.available_hosts@ =~= Seq::<HostInstance>::empty());
        }
        let mut keys: Vec<u128> = Vec::new();
        let mut key_iter = self.leased_hosts.keys();
        let ghost all = into_iter_keys(key_iter);
        proof {
            assert(all.no_duplicates());
            assert(all.to_set() == leased.dom());
        }
        loop
            invariant_except_break
                key_iter.obeys_prophetic_iter_laws(),
                key_iter.remaining().unref() == all.skip(keys@.len() as int),
                keys@ == all.take(keys@.len() as int),
                keys@.len() <= all.len(),
            ensures
                keys@ == all,
            decreases all.len() - keys@.len(),
        {
            let ghost before = key_iter.remaining();
            let ghost klen = keys@.len() as int;
            match advance(&mut key_iter) {
                Some(k) => {
                    proof {
                        assert(before.unref() == all.skip(keys@.len() as int));
                        assert(all.skip(keys@.len() as int).len() > 0);
                        assert(before.unref()[0] == *before[0]);
                        assert(*k == all[keys@.len() as int]);
                        assert(key_iter.remaining() == before.drop_first());
                    }
                    keys.push(*k);
                    proof {
                        assert(keys@ =~= all.take(keys@.len() as int));
                        assert(before.drop_first().unref() =~= before.unref().drop_first());
                        assert(all.skip(klen).drop_first() =~= all.skip(klen + 1));
                        assert(key_iter.remaining().unref() =~= all.skip(keys@.len() as int));
                    }
                }
                None => {
                    proof {
                        assert(before.unref() == all.skip(keys@.len() as int));
                        assert(all.skip(keys@.len() as int).len() == 0);
                        assert(keys@ =~= all);
                    }
                    break;
                }
            }
        }
        let ghost ks = keys@;
        let m = keys.len();
        let mut j: usize = 0;
        while j < m
            invariant
                m == ks.len(),
                j <= m,
                ks == keys@,
                ks.no_duplicates(),
                ks.to_set() == leased.dom(),
                n == avail.len(),
                self.leased_hosts@ == leased.remove_keys(ks.take(j as int).to_set()),
                all_hosts@ == avail + ks.take(j as int).map_values(|k: u128| leased[k]),
                self.available_hosts@ == Seq::<HostInstance>::empty(),
                self.port_manager == old(self).port_manager,
                self.config == old(self).config,
                self.shutdown_flag == old(self).shutdown_flag,
            decreases m - j,
        {
            let k = keys[j];
            proof {
                assert(leased.dom().contains(k)) by {
                    assert(ks.to_set().contains(ks[j as int]));
                }
                assert(!ks.take(j as int).to_set().contains(k)) by {
                    if ks.take(j as int).contains(k) {
                        let x = choose|x: int| 0 <= x < j && ks.take(j as int)[x] == k;
                        assert(ks[x] == ks[j as int]);
                    }
                }
            }
            let host = self.leased_hosts.remove(&k).unwrap();
            all_hosts.push(host);
            proof {
                assert(ks.take(j + 1) =~= ks.take(j as int).push(k));
                ks.take(j as int).lemma_push_to_set_commute(k);
                assert(ks.take(j + 1).to_set() =~= ks.take(j as int).to_set().insert(k));
                assert(self.leased_hosts@ =~= leased.remove_keys(ks.take(j + 1).to_set()));
                assert(ks.take(j + 1).map_values(|k: u128| leased[k])
                    =~= ks.take(j as int).map_values(|k: u128| leased[k]).push(leased[k]));
                assert(all_hosts@ =~= avail + ks.take(j + 1).map_values(|k: u128| leased[k]));
            }
            j = j + 1;
        }
        proof {
            assert(ks.take(m as int) =~= ks);
            assert(self.leased_hosts@ =~= Map::<u128, HostInstance>::empty());
            assert(all_hosts@.skip(n as int) =~= ks.map_values(|k: u128| leased[k]));
            assert(all_hosts@.take(n as int) =~= avail);
            ks.unique_seq_to_set();
        }
        all_hosts
    }

    /// Takes a port for a new host.
    pub fn allocate_host_port(&mut self) -> (r: Result<AllocatedPort, PoolError>)
        requires
            old(self).wf(),
        ensures
            final(self).wf(),
            final(self).available() == old(self).available(),
            final(self).leased() == old(self).leased(),
            final(self).pool_config() == old(self).pool_config(),
            final(self).shutting_down() == old(self).shutting_down(),
            old(self).free_ports().len() == 0 ==> (r matches Err(PoolError::PortAllocation(PortError::NoAvailablePorts)))
                && final(self).free_ports() == old(self).free_ports()
                && final(self).leased_ports() == old(self).leased_ports(),
            old(self).free_ports().len() > 0 ==> r is Ok && r->Ok_0@ == old(self).free_ports()[0]
                && final(self).free_ports() == old(self).free_ports().drop_first()
                && final(self).leased_ports() == old(self).leased_ports().insert(old(self).free_ports()[0]),
    {
        match self.port_manager.allocate_port() {
            Ok(port) => Ok(port),
            Err(e) => Err(PoolError::PortAllocation(e)),
        }
    }
}

/// The leased map of a pool is finite, so its length counts its leases.
pub proof fn lemma_leased_is_finite(s: HostPoolManager)
    requires
        s.wf(),
    ensures
        s.leased().dom().finite(),
{
}

/// A lease that begins leaves room for the host it hands out: after
/// `begin_lease` answers `Ok`, warm and leased hosts number at most
/// `max_instances - 1`; after it refuses, the count is what it was.
pub proof fn lemma_begun_lease_leaves_room(s: HostPoolManager, t: HostPoolManager, r: Result<LeaseStart, PoolError>)
    requires
        s.wf(),
        s.within_max_instances(),
        lease_begun(s, t, r),
    ensures
        r is Ok ==> t.available().len() + t.leased().len() + 1 <= t.pool_config().max_instances,
        r is Err ==> t.within_max_instances(),
{
}

/// Entering a host under a lease takes at most the one place that
/// `begin_lease` left: the pool stays within `max_instances`, also when the
/// identifier was already taken.
pub proof fn lemma_grant_fills_room(
    s: HostPoolManager,
    t: HostPoolManager,
    host: HostInstance,
    lease_id: u128,
    r: LeaseGrant,
)
    requires
        s.wf(),
        s.available().len() + s.leased().len() + 1 <= s.pool_config().max_instances,
        lease_granted(s, t, host, lease_id, r),
    ensures
        t.within_max_instances(),
{
    if s.leased().contains_key(lease_id) {
        assert(s.leased().insert(lease_id, host).dom() =~= s.leased().dom());
    }
}

/// A whole lease keeps the pool within `max_instances`: begin the lease,
/// start a container for a new host if one is needed, and enter the host
/// under a lease identifier. A host is started only when no warm host is
/// waiting and fewer than `max_instances` hosts are leased.
pub proof fn lemma_lease_respects_max_instances(
    s: HostPoolManager,
    t: HostPoolManager,
    start: Result<LeaseStart, PoolError>,
    created: Result<String, DockerError>,
    now_ns: u64,
    u: HostPoolManager,
    host: HostInstance,
    lease_id: u128,
    v: HostPoolManager,
    grant: LeaseGrant,
)
    requires
        s.wf(),
        s.within_max_instances(),
        lease_begun(s, t, start),
        start matches Ok(LeaseStart::Reuse(h)) ==> u == t && host == h,
        start matches Ok(LeaseStart::Spawn(p)) ==> host_started(t, u, p, created, now_ns, Ok(host)),
        start is Ok,
        lease_granted(u, v, host, lease_id, grant),
    ensures
        v.within_max_instances(),
{
    lemma_begun_lease_leaves_room(s, t, start);
    lemma_grant_fills_room(u, v, host, lease_id, grant);
}

/// Once shutdown has begun every lease is refused with `ShuttingDown` and
/// leaves the pool as it was, so the pool is still shutting down for the
/// next request.
pub proof fn lemma_shutdown_refuses_leases(s: HostPoolManager, t: HostPoolManager, r: Result<LeaseStart, PoolError>)
    requires
        s.shutting_down(),
        lease_begun(s, t, r),
    ensures
        r matches Err(PoolError::ShuttingDown),
        t == s,
        t.shutting_down(),
{
}

/// Shutdown as a whole: once it has begun, a lease is refused with
/// `ShuttingDown` and changes nothing; the pool stays shutting down through
/// every later step; collecting the hosts then empties the pool and hands
/// out every host it held, the warm ones first.
pub proof fn lemma_shutdown_sequence(
    s0: HostPoolManager,
    s1: HostPoolManager,
    t: HostPoolManager,
    r: Result<LeaseStart, PoolError>,
    u: HostPoolManager,
    s2: HostPoolManager,
    hosts: Seq<HostInstance>,
)
    requires
        shutdown_begun(s0, s1),
        lease_begun(s1, t, r),
        u.shutting_down(),
        hosts_collected(u, s2, hosts),
    ensures
        r matches Err(PoolError::ShuttingDown),
        t == s1,
        s2.shutting_down(),
        s2.available() == Seq::<HostInstance>::empty(),
        s2.leased() == Map::<u128, HostInstance>::empty(),
        hosts.len() == u.available().len() + u.leased().len(),
        hosts.take(u.available().len() as int) == u.available(),
{
    lemma_shutdown_refuses_leases(s1, t, r);
}

/// What to do after attempt number `attempt` (counting from 1) of a new
/// container's readiness check: stop on success, and on a failure try again
/// until [`MAX_READINESS_ATTEMPTS`] attempts were made. An error counts only
/// on the last attempt.
pub fn readiness_step(attempt: u32, outcome: Result<bool, DockerError>) -> (r: ReadinessStep)
    requires
        1 <= attempt <= MAX_READINESS_ATTEMPTS,
    ensures
        outcome == Ok::<bool, DockerError>(true) ==> r is Ready,
        attempt < MAX_READINESS_ATTEMPTS && outcome != Ok::<bool, DockerError>(true) ==> r is Retry,
        attempt == MAX_READINESS_ATTEMPTS && outcome == Ok::<bool, DockerError>(false) ==> r is NotReady,
        attempt == MAX_READINESS_ATTEMPTS && outcome is Err ==> (r matches ReadinessStep::Failed(PoolError::Docker(e))
            && e == outcome->Err_0),
{
    match outcome {
        Ok(true) => ReadinessStep::Ready,
        Ok(false) => {
            if attempt < MAX_READINESS_ATTEMPTS {
                ReadinessStep::Retry
            } else {
                ReadinessStep::NotReady
            }
        }
        Err(e) => {
            if attempt == MAX_READINESS_ATTEMPTS {
                ReadinessStep::Failed(PoolError::Docker(e))
            } else {
                ReadinessStep::Retry
            }
        }
    }
}

/// What to do while shutdown waits for leased hosts, with `leased_count`
/// hosts still leased `elapsed_ns` after the wait began.
pub fn drain_step(leased_count: usize, elapsed_ns: u64) -> (r: DrainStep)
    ensures
        leased_count == 0 ==> r == DrainStep::Drained,
        leased_count > 0 && elapsed_ns > SHUTDOWN_TIMEOUT_NS ==> r == DrainStep::TimedOut,
        leased_count > 0 && elapsed_ns <= SHUTDOWN_TIMEOUT_NS ==> r == DrainStep::Wait,
{
    if leased_count == 0 {
        DrainStep::Drained
    } else if elapsed_ns > SHUTDOWN_TIMEOUT_NS {
        DrainStep::TimedOut
    } else {
        DrainStep::Wait
    }
}

/// One step of an iterator that obeys vstd's iterator laws.
fn advance<I: Iterator>(it: &mut I) -> (r: Option<I::Item>)
    requires
        (*old(it)).obeys_prophetic_iter_laws(),
    ensures
        (*final(it)).obeys_prophetic_iter_laws(),
        (*old(it)).remaining().len() > 0 ==> r == Some((*old(it)).remaining()[0])
            && (*final(it)).remaining() == (*old(it)).remaining().drop_first(),
        (*old(it)).remaining().len() == 0 ==> r is None,
{
    it.next()
}

/// A fresh lease identifier: `uuid::Uuid::new_v4`, a random version-4 UUID,
/// as its 128-bit value. Nothing is promised of the value.
#[verifier::external_body]
fn new_lease_id() -> u128 {
    uuid::Uuid::new_v4().as_u128()
}

} // verus!
