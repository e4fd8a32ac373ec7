use crate::docker::DockerError;
use crate::port::PortError;
use crate::runtime::handler::{uuid_hyphenated, uuid_text};
use vstd::prelude::*;
use vstd::string::StringExecFns;

verus! {

/// Why a host could not be leased or returned.
#[derive(Debug, Clone)]
pub enum PoolError {
    /// Invalid lease: the lease id
    InvalidLease(u128),
    /// Container not ready
    ContainerNotReady,
    /// Docker error
    Docker(DockerError),
    /// No available ports
    NoAvailablePorts,
    /// Port allocation error
    PortAllocation(PortError),
    /// Max instances reached
    MaxInstancesReached,
    /// Gateway is shutting down
    ShuttingDown,
}

impl PoolError {
    /// The error's text: what went wrong, with the lease id, the Docker
    /// error or the port error where there is one.
    pub open spec fn text(&self) -> Seq<char> {
        match self {
            PoolError::InvalidLease(id) => "Invalid lease: "@ + uuid_hyphenated(*id),
            PoolError::ContainerNotReady => "Container not ready"@,
            PoolError::Docker(e) => "Docker error: "@ + e.text(),
            PoolError::NoAvailablePorts => "No available ports"@,
            PoolError::PortAllocation(e) => "Port allocation error: "@ + e.text(),
            PoolError::MaxInstancesReached => "Max instances reached"@,
            PoolError::ShuttingDown => "Gateway is shutting down"@,
        }
    }

    /// The error's text, as `Display` would show it.
    pub fn to_string(&self) -> (s: String)
        ensures
            s@ == self.text(),
    {
        match self {
            PoolError::InvalidLease(id) => {
                let mut s = String::from_str("Invalid lease: ");
                let t = uuid_text(*id);
                s.append(t.as_str());
                s
            },
            PoolError::ContainerNotReady => String::from_str("Container not ready"),
            PoolError::Docker(e) => {
                let mut s = String::from_str("Docker error: ");
                let t = e.to_string();
                s.append(t.as_str());
                s
            },
            PoolError::NoAvailablePorts => String::from_str("No available ports"),
            PoolError::PortAllocation(e) => {
                let mut s = String::from_str("Port allocation error: ");
                let t = e.to_string();
                s.append(t.as_str());
                s
            },
            PoolError::MaxInstancesReached => String::from_str("Max instances reached"),
            PoolError::ShuttingDown => String::from_str("Gateway is shutting down"),
        }
    }
}

impl From<DockerError> for PoolError {
    fn from(e: DockerError) -> (r: Self)
        ensures
            r == PoolError::Docker(e),
    {
        PoolError::Docker(e)
    }
}

impl vstd::std_specs::convert::FromSpecImpl<DockerError> for PoolError {
    open spec fn obeys_from_spec() -> bool {
        true
    }

    open spec fn from_spec(e: DockerError) -> PoolError {
        PoolError::Docker(e)
    }
}

impl From<PortError> for PoolError {
    fn from(e: PortError) -> (r: Self)
        ensures
            r == PoolError::PortAllocation(e),
    {
        PoolError::PortAllocation(e)
    }
}

impl vstd::std_specs::convert::FromSpecImpl<PortError> for PoolError {
    open spec fn obeys_from_spec() -> bool {
        true
    }

    open spec fn from_spec(e: PortError) -> PoolError {
        PoolError::PortAllocation(e)
    }
}

} // verus!
