use vstd::prelude::*;

verus! {

/// A host leased to one caller, who hands it back with
/// [`HostLease::release_now`].
#[derive(Debug)]
pub struct HostLease {
    pub container_id: String,
    pub port: u16,
    pub lease_id: u128,
}

impl HostLease {
    pub fn new(container_id: String, port: u16, lease_id: u128) -> (r: Self)
        ensures
            r.container_id == container_id,
            r.port == port,
            r.lease_id == lease_id,
    {
        Self { container_id, port, lease_id }
    }

    /// The lease's identifier.
    pub fn lease_id(&self) -> (id: u128)
        ensures
            id == self.lease_id,
    {
        self.lease_id
    }

    /// Release the host lease immediately: gives back the identifier under
    /// which the pool takes the host back.
    pub fn release_now(self) -> (id: u128)
        ensures
            id == self.lease_id,
    {
        self.lease_id
    }
}

} // verus!
