//! What the gateway asks of the container engine, as plain values.

use crate::text::{append_decimal, decimal, push_char};
use vstd::prelude::*;
use vstd::string::StringExecFns;

verus! {

/// Why a call to the container engine failed. The engine's and the HTTP
/// client's own errors are carried as their messages.
#[derive(Debug, Clone)]
pub enum DockerError {
    /// Docker API error
    Api(String),
    /// HTTP request error
    Http(String),
    /// Timeout error
    Timeout,
    /// Container not found
    ContainerNotFound(String),
    /// Binary not found: the path
    BinaryNotFound(String),
}

impl DockerError {
    /// The error's text: what failed, with the engine's, the HTTP client's
    /// or the container's words where there are some.
    pub open spec fn text(&self) -> Seq<char> {
        match self {
            DockerError::Api(m) => "Docker API error: "@ + m@,
            DockerError::Http(m) => "HTTP request error: "@ + m@,
            DockerError::Timeout => "Timeout error"@,
            DockerError::ContainerNotFound(m) => "Container not found: "@ + m@,
            DockerError::BinaryNotFound(p) => "Binary not found: "@ + p@,
        }
    }

    /// The error's text, as `Display` would show it.
    pub fn to_string(&self) -> (s: String)
        ensures
            s@ == self.text(),
    {
        let (prefix, detail) = match self {
            DockerError::Api(m) => ("Docker API error: ", m.as_str()),
            DockerError::Http(m) => ("HTTP request error: ", m.as_str()),
            DockerError::Timeout => ("Timeout error", ""),
            DockerError::ContainerNotFound(m) => ("Container not found: ", m.as_str()),
            DockerError::BinaryNotFound(p) => ("Binary not found: ", p.as_str()),
        };
        let mut s = String::from_str(prefix);
        s.append(detail);
        proof {
            reveal_strlit("");
        }
        s
    }
}

/// How many random characters end a container's name.
pub const CONTAINER_RANDOM_ID_LENGTH: usize = 12;

/// Seconds a health check may take.
pub const HEALTH_CHECK_TIMEOUT_SECS: u64 = 5;

/// The container to create for a function host, as plain values.
#[derive(Debug, Clone)]
pub struct ContainerSpec {
    /// `lambda-<binary name>-<port>-<random id>`
    pub name: String,
    /// Base image to run the container from
    pub image: String,
    /// Command to run inside the container: the binary's absolute path
    pub cmd: Vec<String>,
    /// Environment: the port to bind to and the log level
    pub env: Vec<String>,
    /// `<port>/tcp`: the container port that is exposed and bound
    pub exposed_port: String,
    /// Working directory inside the container
    pub working_dir: String,
    /// Entrypoint: the mounted binary
    pub entrypoint: Vec<String>,
    /// Labels identifying the container's manager, function and port
    pub labels: Vec<(String, String)>,
    /// Host address the container port is bound to
    pub host_ip: String,
    /// Host port the container port is bound to
    pub host_port: String,
    /// Memory limit in bytes
    pub memory_bytes: i64,
    /// Remove the container when it stops
    pub auto_remove: bool,
    /// Restart the container when it fails (the gateway never does: a failed
    /// host is retired and replaced)
    pub restart_on_failure: bool,
    /// The binary, mounted read-only
    pub binds: Vec<String>,
}

pub open spec fn is_ascii_alphanumeric(c: char) -> bool {
    ('a' <= c && c <= 'z') || ('A' <= c && c <= 'Z') || ('0' <= c && c <= '9')
}

/// `fastrand::alphanumeric` draws a random character in a-z, A-Z and 0-9.
#[verifier::external_body]
fn random_alphanumeric() -> (c: char)
    ensures
        is_ascii_alphanumeric(c),
{
    fastrand::alphanumeric()
}

/// A random suffix for a container's name: twelve ASCII letters and digits.
pub fn random_container_suffix() -> (s: String)
    ensures
        s@.len() == CONTAINER_RANDOM_ID_LENGTH,
        forall|i: int| 0 <= i < s@.len() ==> is_ascii_alphanumeric(#[trigger] s@[i]),
{
    let mut s = String::new();
    let mut i: usize = 0;
    while i < CONTAINER_RANDOM_ID_LENGTH
        invariant
            i <= CONTAINER_RANDOM_ID_LENGTH,
            s@.len() == i,
            forall|j: int| 0 <= j < s@.len() ==> is_ascii_alphanumeric(#[trigger] s@[j]),
        decreases CONTAINER_RANDOM_ID_LENGTH - i,
    {
        let c = random_alphanumeric();
        push_char(&mut s, c);
        i = i + 1;
    }
    s
}

/// The name of the container for `binary_name` on `port`.
pub open spec fn container_name(binary_name: Seq<char>, port: u16, random_id: Seq<char>) -> Seq<char> {
    "lambda-"@ + binary_name + "-"@ + decimal(port as nat) + "-"@ + random_id
}

/// The string views of a list.
pub open spec fn strings_view(v: Seq<String>) -> Seq<Seq<char>> {
    v.map_values(|s: String| s@)
}

/// The container for function `binary_name` whose binary lies at
/// `absolute_binary_path`, bound to `port` on the loopback address, with
/// `memory_limit_mb` of memory, named with `random_id`.
pub fn container_spec(
    binary_name: &str,
    memory_limit_mb: u64,
    port: u16,
    random_id: &str,
    absolute_binary_path: &str,
) -> (r: ContainerSpec)
    requires
        memory_limit_mb * 1024 * 1024 <= u64::MAX,
    ensures
        r.name@ == container_name(binary_name@, port, random_id@),
        r.image@ == "alpine:latest"@,
        strings_view(r.cmd@) == seq![absolute_binary_path@],
        strings_view(r.env@) == seq!["LAMBDA_PORT="@ + decimal(port as nat), "RUST_LOG=info"@],
        r.exposed_port@ == decimal(port as nat) + "/tcp"@,
        r.working_dir@ == "/app"@,
        strings_view(r.entrypoint@) == seq!["/app/lambda"@],
        crate::runtime::models::pairs_view(r.labels@) == seq![
            ("managed-by"@, "lambda-gateway"@),
            ("function-name"@, binary_name@),
            ("port"@, decimal(port as nat)),
        ],
        r.host_ip@ == "127.0.0.1"@,
        r.host_port@ == decimal(port as nat),
        r.memory_bytes == (memory_limit_mb * 1024 * 1024) as i64,
        r.auto_remove,
        !r.restart_on_failure,
        strings_view(r.binds@) == seq![absolute_binary_path@ + ":/app/lambda:ro"@],
{
    let mut name = String::from_str("lambda-");
    name.append(binary_name);
    name.append("-");
    append_decimal(&mut name, port as u64);
    name.append("-");
    name.append(random_id);

    let mut cmd: Vec<String> = Vec::new();
    cmd.push(String::from_str(absolute_binary_path));

    let mut port_env = String::from_str("LAMBDA_PORT=");
    append_decimal(&mut port_env, port as u64);
    let mut env: Vec<String> = Vec::new();
    env.push(port_env);
    env.push(String::from_str("RUST_LOG=info"));

    let mut exposed_port = String::new();
    append_decimal(&mut exposed_port, port as u64);
    exposed_port.append("/tcp");

    let mut entrypoint: Vec<String> = Vec::new();
    entrypoint.push(String::from_str("/app/lambda"));

    let mut port_label = String::new();
    append_decimal(&mut port_label, port as u64);
    let mut labels: Vec<(String, String)> = Vec::new();
    labels.push((String::from_str("managed-by"), String::from_str("lambda-gateway")));
    labels.push((String::from_str("function-name"), String::from_str(binary_name)));
    labels.push((String::from_str("port"), port_label));

    let mut host_port = String::new();
    append_decimal(&mut host_port, port as u64);

    let mut bind = String::from_str(absolute_binary_path);
    bind.append(":/app/lambda:ro");
    let mut binds: Vec<String> = Vec::new();
    binds.push(bind);

    let memory_bytes = (memory_limit_mb * 1024 * 1024) as i64;

    proof {
        assert(strings_view(cmd@) =~= seq![absolute_binary_path@]);
        assert(strings_view(env@) =~= seq!["LAMBDA_PORT="@ + decimal(port as nat), "RUST_LOG=info"@]);
        assert(strings_view(entrypoint@) =~= seq!["/app/lambda"@]);
        assert(crate::runtime::models::pairs_view(labels@) =~= seq![
            ("managed-by"@, "lambda-gateway"@),
            ("function-name"@, binary_name@),
            ("port"@, decimal(port as nat)),
        ]);
        assert(strings_view(binds@) =~= seq![absolute_binary_path@ + ":/app/lambda:ro"@]);
        assert(name@ =~= container_name(binary_name@, port, random_id@));
    }
    ContainerSpec {
        name,
        image: String::from_str("alpine:latest"),
        cmd,
        env,
        exposed_port,
        working_dir: String::from_str("/app"),
        entrypoint,
        labels,
        host_ip: String::from_str("127.0.0.1"),
        host_port,
        memory_bytes,
        auto_remove: true,
        restart_on_failure: false,
        binds,
    }
}

/// The URL of the health endpoint of the function listening on `port`.
pub fn health_check_url(port: u16) -> (url: String)
    ensures
        url@ == "http://127.0.0.1:"@ + decimal(port as nat) + "/health"@,
{
    let mut url = String::from_str("http://127.0.0.1:");
    append_decimal(&mut url, port as u64);
    url.append("/health");
    url
}

} // verus!
