use crate::port::PortRange;
use vstd::prelude::*;
use vstd::string::StringExecFns;

verus! {

/// Settings of the host pool. The host TTL is in nanoseconds, as exact as
/// the monotonic clock that measures a host's age; the other durations are
/// in milliseconds.
#[derive(Debug, Clone)]
pub struct PoolConfig {
    /// Maximum number of container instances to maintain
    pub max_instances: usize,
    /// Minimum number of container instances to keep warm
    pub min_instances: usize,
    /// How long to keep idle containers alive before terminating them
    pub instance_ttl_ns: u64,
    /// How often to perform reap on containers
    pub reap_check_interval_ms: u64,
    /// How often to perform host scaling check on containers
    pub host_scaling_check_interval_ms: u64,
    /// Timeout for container startup
    pub lambda_startup_timeout_ms: u64,
    /// Path to the Lambda function binary
    pub binary_path: String,
    /// Name of the Lambda function binary
    pub binary_name: String,
    /// Port range for container allocation
    pub port_range: PortRange,
    /// Container resource limits
    pub container_limits: ContainerLimits,
}

/// Resource limits of one container.
#[derive(Debug, Clone, Copy)]
pub struct ContainerLimits {
    /// Memory limit in MB
    pub memory_mb: u64,
    /// CPU limit in thousandths of a core (1000 = 1 CPU core)
    pub cpu_millicores: u64,
}

/// Why a configuration was refused.
#[derive(Debug, Clone)]
pub enum ConfigError {
    /// Invalid configuration value: the message says which
    InvalidValue(String),
    /// Invalid path: the message says which
    InvalidPath(String),
}

impl ConfigError {
    /// The error's text: the kind, then the message.
    pub open spec fn text(&self) -> Seq<char> {
        match self {
            ConfigError::InvalidValue(m) => "Invalid configuration value: "@ + m@,
            ConfigError::InvalidPath(m) => "Invalid path: "@ + m@,
        }
    }

    /// The error's text, as `Display` would show it.
    pub fn to_string(&self) -> (s: String)
        ensures
            s@ == self.text(),
    {
        let (prefix, m) = match self {
            ConfigError::InvalidValue(m) => ("Invalid configuration value: ", m),
            ConfigError::InvalidPath(m) => ("Invalid path: ", m),
        };
        let mut s = String::from_str(prefix);
        s.append(m.as_str());
        s
    }
}

/// Which value check, if any, refuses a configuration: the first of
/// `max_instances > 0`, `min_instances <= max_instances` and
/// `port_range.start < port_range.end` that fails.
pub enum ConfigCheck {
    Valid,
    NoInstances,
    MinAboveMax,
    EmptyPortRange,
}

impl PoolConfig {
    pub open spec fn value_check(&self) -> ConfigCheck {
        if self.max_instances == 0 {
            ConfigCheck::NoInstances
        } else if self.min_instances > self.max_instances {
            ConfigCheck::MinAboveMax
        } else if self.port_range.start >= self.port_range.end {
            ConfigCheck::EmptyPortRange
        } else {
            ConfigCheck::Valid
        }
    }

    /// The binary's full path: `binary_name` joined onto `binary_path`.
    pub fn binary_full_path(&self) -> (r: String)
        ensures
            r@ == joined_path(self.binary_path@, self.binary_name@),
    {
        join_path(self.binary_path.as_str(), self.binary_name.as_str())
    }

    /// Validate the configuration: its values, then whether the binary's
    /// directory exists (`binary_path_exists`, the disk's answer for
    /// `binary_path`), then whether the binary exists (`binary_exists`, the
    /// disk's answer for [`PoolConfig::binary_full_path`]). The messages show
    /// the paths in their `Debug` form.
    pub fn validate(&self, binary_path_exists: bool, binary_exists: bool) -> (r: Result<(), ConfigError>)
        ensures
            self.value_check() is NoInstances ==> (r matches Err(ConfigError::InvalidValue(m))
                && m@ == "max_instances must be > 0"@),
            self.value_check() is MinAboveMax ==> (r matches Err(ConfigError::InvalidValue(m))
                && m@ == "min_instances cannot exceed max_instances"@),
            self.value_check() is EmptyPortRange ==> (r matches Err(ConfigError::InvalidValue(m))
                && m@ == "port_range.start must be < port_range.end"@),
            self.value_check() is Valid && !binary_path_exists ==> (r matches Err(ConfigError::InvalidPath(m))
                && m@ == "Binary path does not exist: "@ + path_debug(self.binary_path@)),
            self.value_check() is Valid && binary_path_exists && !binary_exists ==> (r matches Err(
                ConfigError::InvalidPath(m),
            ) && m@ == "Binary not found: "@ + path_debug(joined_path(self.binary_path@, self.binary_name@))),
            self.value_check() is Valid && binary_path_exists && binary_exists ==> r is Ok,
    {
        let binary_full_path = self.binary_full_path();
        let binary_path_text = path_debug_text(self.binary_path.as_str());
        let binary_full_path_text = path_debug_text(binary_full_path.as_str());
        self.validate_with(
            binary_path_exists,
            binary_exists,
            binary_path_text.as_str(),
            binary_full_path_text.as_str(),
        )
    }

    fn validate_values(&self) -> (r: Result<(), ConfigError>)
        ensures
            r is Ok <==> self.value_check() is Valid,
            self.value_check() is NoInstances ==> (r matches Err(ConfigError::InvalidValue(m))
                && m@ == "max_instances must be > 0"@),
            self.value_check() is MinAboveMax ==> (r matches Err(ConfigError::InvalidValue(m))
                && m@ == "min_instances cannot exceed max_instances"@),
            self.value_check() is EmptyPortRange ==> (r matches Err(ConfigError::InvalidValue(m))
                && m@ == "port_range.start must be < port_range.end"@),
    {
        if self.max_instances == 0 {
            return Err(ConfigError::InvalidValue(String::from_str("max_instances must be > 0")));
        }
        if self.min_instances > self.max_instances {
            return Err(
                ConfigError::InvalidValue(String::from_str("min_instances cannot exceed max_instances")),
            );
        }
        if self.port_range.start >= self.port_range.end {
            return Err(
                ConfigError::InvalidValue(String::from_str("port_range.start must be < port_range.end")),
            );
        }
        Ok(())
    }

    /// Decides validation once the disk was asked: the value checks first,
    /// then whether the binary's directory exists, then whether the binary
    /// exists. The path texts are the `Debug` forms of the directory and of
    /// the binary's full path, as the messages show them.
    pub fn validate_with(
        &self,
        binary_path_exists: bool,
        binary_exists: bool,
        binary_path_text: &str,
        binary_full_path_text: &str,
    ) -> (r: Result<(), ConfigError>)
        ensures
            self.value_check() is NoInstances ==> (r matches Err(ConfigError::InvalidValue(m))
                && m@ == "max_instances must be > 0"@),
            self.value_check() is MinAboveMax ==> (r matches Err(ConfigError::InvalidValue(m))
                && m@ == "min_instances cannot exceed max_instances"@),
            self.value_check() is EmptyPortRange ==> (r matches Err(ConfigError::InvalidValue(m))
                && m@ == "port_range.start must be < port_range.end"@),
            self.value_check() is Valid && !binary_path_exists ==> (r matches Err(ConfigError::InvalidPath(m))
                && m@ == "Binary path does not exist: "@ + binary_path_text@),
            self.value_check() is Valid && binary_path_exists && !binary_exists ==> (r matches Err(
                ConfigError::InvalidPath(m),
            ) && m@ == "Binary not found: "@ + binary_full_path_text@),
            self.value_check() is Valid && binary_path_exists && binary_exists ==> r is Ok,
    {
        if let Err(e) = self.validate_values() {
            return Err(e);
        }
        if !binary_path_exists {
            let mut m = String::from_str("Binary path does not exist: ");
            m.append(binary_path_text);
            return Err(ConfigError::InvalidPath(m));
        }
        if !binary_exists {
            let mut m = String::from_str("Binary not found: ");
            m.append(binary_full_path_text);
            return Err(ConfigError::InvalidPath(m));
        }
        Ok(())
    }
}

/// The path `name` joined onto `dir` as `Path::join` does on Unix: an
/// absolute `name` (one that starts with `/`) replaces `dir`; otherwise a
/// `/` separates the two unless `dir` is empty or already ends with one.
pub open spec fn joined_path(dir: Seq<char>, name: Seq<char>) -> Seq<char> {
    if name.len() > 0 && name[0] == '/' {
        name
    } else if dir.len() == 0 || dir.last() == '/' {
        dir + name
    } else {
        dir + seq!['/'] + name
    }
}

/// The `Debug` text of a path, as `format!("{:?}", path)` writes it.
pub uninterp spec fn path_debug(p: Seq<char>) -> Seq<char>;

/// `std::path::Path::join`, on Unix: `PathBuf::push` replaces the path by
/// an absolute one and otherwise adds a separator when the path does not
/// end with one. Both parts are UTF-8, so the joined path converts back to
/// text unchanged.
#[verifier::external_body]
fn join_path(dir: &str, name: &str) -> (r: String)
    ensures
        r@ == joined_path(dir@, name@),
{
    std::path::Path::new(dir).join(name).to_string_lossy().to_string()
}

/// The `Debug` form of a path, as `format!("{:?}", path)` writes it: the
/// path quoted, with the characters escaped as `str`'s `Debug` escapes them.
#[verifier::external_body]
fn path_debug_text(path: &str) -> (r: String)
    ensures
        r@ == path_debug(path@),
{
    format!("{:?}", std::path::Path::new(path))
}

impl Default for PoolConfig {
    fn default() -> (r: Self)
        ensures
            r.max_instances == 10,
            r.min_instances == 1,
            r.instance_ttl_ns == 300_000_000_000,
            r.reap_check_interval_ms == 30_000,
            r.host_scaling_check_interval_ms == 60_000,
            r.lambda_startup_timeout_ms == 30_000,
            r.binary_path@ == "./functions"@,
            r.binary_name@ == "hello-lambda"@,
            r.port_range == (PortRange { start: 8000, end: 9000 }),
            r.container_limits.memory_mb == 128,
            r.container_limits.cpu_millicores == 500,
    {
        Self {
            max_instances: 10,
            min_instances: 1,
            instance_ttl_ns: 300_000_000_000,  // 5 minutes
            reap_check_interval_ms: 30_000,
            host_scaling_check_interval_ms: 60_000,
            lambda_startup_timeout_ms: 30_000,
            binary_path: String::from_str("./functions"),
            binary_name: String::from_str("hello-lambda"),
            port_range: PortRange { start: 8000, end: 9000 },
            container_limits: ContainerLimits { memory_mb: 128, cpu_millicores: 500 },
        }
    }
}

/// The value checks in terms of the values: a configuration passes them
/// exactly when it allows at least one instance, its minimum does not exceed
/// its maximum (equal is fine: a fixed-size pool) and its port range is not
/// empty; each refusal names a check that really fails.
pub proof fn lemma_value_checks_pass_exactly_valid_values(c: PoolConfig)
    ensures
        c.value_check() is Valid <==> (c.max_instances > 0 && c.min_instances <= c.max_instances
            && c.port_range.start < c.port_range.end),
        c.value_check() is NoInstances <==> c.max_instances == 0,
        c.value_check() is MinAboveMax ==> c.min_instances > c.max_instances,
        c.value_check() is EmptyPortRange ==> c.port_range.start >= c.port_range.end,
{
}

} // verus!
