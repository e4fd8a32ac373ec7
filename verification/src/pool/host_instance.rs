use crate::port::AllocatedPort;
use vstd::prelude::*;

verus! {

/// A running function container together with the host port it is bound to.
/// Times are nanoseconds on the caller's monotonic clock.
#[derive(Debug)]
pub struct HostInstance {
    pub container_id: String,
    pub allocated_port: AllocatedPort,
    pub created_at_ns: u64,
    pub health_check_tested: bool,
}

/// What retiring a host sets in motion: its container is to be stopped and
/// its port goes back to the port pool.
#[derive(Debug)]
pub struct RetiredHost {
    pub container_id: String,
    pub port: u16,
}

/// Whether a host created at `created_at_ns` has outlived `ttl_ns` at `now_ns`
/// (the elapsed time saturates at zero).
pub open spec fn expired(created_at_ns: u64, now_ns: u64, ttl_ns: u64) -> bool {
    now_ns > created_at_ns && now_ns - created_at_ns > ttl_ns
}

impl HostInstance {
    pub fn new(container_id: String, allocated_port: AllocatedPort, created_at_ns: u64) -> (r: Self)
        ensures
            r.container_id == container_id,
            r.allocated_port == allocated_port,
            r.created_at_ns == created_at_ns,
            !r.health_check_tested,
    {
        Self { container_id, allocated_port, created_at_ns, health_check_tested: false }
    }

    /// Check if this host has exceeded TTL
    pub fn is_expired(&self, now_ns: u64, ttl_ns: u64) -> (r: bool)
        ensures
            r == expired(self.created_at_ns, now_ns, ttl_ns),
    {
        now_ns > self.created_at_ns && now_ns - self.created_at_ns > ttl_ns
    }

    /// Stop the host: its container is to be stopped and its port released.
    pub fn stop_now(self) -> (r: RetiredHost)
        ensures
            r.container_id == self.container_id,
            r.port == self.allocated_port@,
    {
        let port = self.allocated_port.release_now();
        RetiredHost { container_id: self.container_id, port }
    }
}

/// A host has expired exactly when the whole time since its creation, as a
/// mathematical difference, is longer than the TTL (a clock reading before
/// the creation counts as no time at all). Hence expiry is monotone: an
/// expired host stays expired later and under any shorter TTL, and a host
/// never expires within its TTL.
pub proof fn lemma_expiry_is_elapsed_over_ttl(created_at_ns: u64, now_ns: u64, ttl_ns: u64)
    ensures
        expired(created_at_ns, now_ns, ttl_ns) <==> now_ns as int - created_at_ns as int > ttl_ns as int,
        now_ns as int - created_at_ns as int <= ttl_ns as int ==> !expired(created_at_ns, now_ns, ttl_ns),
        forall|later: u64, shorter: u64|
            expired(created_at_ns, now_ns, ttl_ns) && now_ns <= later && shorter <= ttl_ns ==> #[trigger] expired(
                created_at_ns,
                later,
                shorter,
            ),
{
}

} // verus!
