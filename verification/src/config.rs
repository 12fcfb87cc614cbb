//! What the embedder asks for, checked before anything is bound or spawned.

use vstd::prelude::*;
use crate::http_glue::BENCHMARK_MODE_NONE;
use crate::http_glue::BENCHMARK_MODE_STATIC_OK;
use crate::http_glue::BENCHMARK_MODE_STATIC_OK_DIRECT_SHAPE;

verus! {

/// The backend kind of a runtime that listens on a TCP port.
pub const BRIDGE_BACKEND_KIND_TCP: u8 = 0;

/// The backend kind of a runtime that listens on a Unix domain socket.
pub const BRIDGE_BACKEND_KIND_UNIX: u8 = 1;

/// The version of the transport interface that the embedder binds to.
pub const TRANSPORT_VERSION: i32 = 1;

/// The backlog of a listener whose embedder asked for none.
pub const DEFAULT_LISTEN_BACKLOG: i32 = 1024;

/// The least and the most worker threads that the scheduler runs.
pub const MIN_WORKER_THREADS: usize = 2;

pub const MAX_WORKER_THREADS: usize = 16;

/// The settings of a proxy as the embedder hands them over. A text that the
/// embedder left out or that is no valid text is `None`.
#[derive(Clone, Debug)]
pub struct ProxySettings {
    pub host: Option<String>,
    pub port: u16,
    pub backend_kind: u8,
    pub backend_host: Option<String>,
    pub backend_port: u16,
    pub backend_path: Option<String>,
    pub backlog: u32,
    pub v6_only: bool,
    pub shared: bool,
    pub request_client_certificate: bool,
    pub http2: bool,
    pub http3: bool,
    pub tls_cert_path: Option<String>,
    pub tls_key_path: Option<String>,
    pub tls_cert_password: Option<String>,
    pub benchmark_mode: u8,
    pub direct_callback: bool,
}

/// Where the runtime is reached.
#[derive(Clone, Debug)]
pub enum BridgeEndpoint {
    /// A host and a port.
    Tcp { host: String, port: u16 },
    /// The path of a Unix domain socket.
    Unix { path: String },
}

/// Certificate and key of a TLS listener.
#[derive(Clone, Debug)]
pub struct ProxyTlsConfig {
    pub cert_path: String,
    pub key_path: String,
    pub cert_password: Option<String>,
}

/// Settings that were found valid.
#[derive(Clone, Debug)]
pub struct ProxyPlan {
    pub host: String,
    pub port: u16,
    pub endpoint: BridgeEndpoint,
    pub backlog: u32,
    pub v6_only: bool,
    pub shared: bool,
    pub request_client_certificate: bool,
    pub http2: bool,
    pub http3: bool,
    pub tls: Option<ProxyTlsConfig>,
    pub benchmark_mode: u8,
    pub direct_callback: bool,
}

/// Why settings were refused.
#[derive(Clone, Copy, Debug, PartialEq, Eq, Structural)]
pub enum ConfigError {
    InvalidHost,
    InvalidBackendHost,
    InvalidBackendPath,
    InvalidBackendKind(u8),
    InvalidBenchmarkMode(u8),
    /// Only one of certificate and key was given.
    IncompleteTls,
}

/// Whether a text was given and is not empty.
pub open spec fn spec_given(text: Option<String>) -> bool {
    text matches Some(value) && value@.len() > 0
}

/// What is wrong with settings, if anything is: the first of a missing host,
/// a backend that cannot be named, an unknown benchmark mode, and a
/// certificate without key or a key without certificate.
pub open spec fn spec_config_error(settings: ProxySettings) -> Option<ConfigError> {
    if !spec_given(settings.host) {
        Some(ConfigError::InvalidHost)
    } else if settings.backend_kind == BRIDGE_BACKEND_KIND_TCP && !spec_given(
        settings.backend_host,
    ) {
        Some(ConfigError::InvalidBackendHost)
    } else if settings.backend_kind == BRIDGE_BACKEND_KIND_UNIX && !spec_given(
        settings.backend_path,
    ) {
        Some(ConfigError::InvalidBackendPath)
    } else if settings.backend_kind != BRIDGE_BACKEND_KIND_TCP && settings.backend_kind
        != BRIDGE_BACKEND_KIND_UNIX {
        Some(ConfigError::InvalidBackendKind(settings.backend_kind))
    } else if settings.benchmark_mode != BENCHMARK_MODE_NONE && settings.benchmark_mode
        != BENCHMARK_MODE_STATIC_OK && settings.benchmark_mode
        != BENCHMARK_MODE_STATIC_OK_DIRECT_SHAPE {
        Some(ConfigError::InvalidBenchmarkMode(settings.benchmark_mode))
    } else if spec_given(settings.tls_cert_path) != spec_given(settings.tls_key_path) {
        Some(ConfigError::IncompleteTls)
    } else {
        None
    }
}

/// Whether `plan` is what valid `settings` ask for.
pub open spec fn spec_plan_matches(settings: ProxySettings, plan: ProxyPlan) -> bool {
    &&& settings.host == Some(plan.host)
    &&& plan.port == settings.port
    &&& match plan.endpoint {
        BridgeEndpoint::Tcp { host, port } => {
            &&& settings.backend_kind == BRIDGE_BACKEND_KIND_TCP
            &&& settings.backend_host == Some(host)
            &&& port == settings.backend_port
        },
        BridgeEndpoint::Unix { path } => {
            &&& settings.backend_kind == BRIDGE_BACKEND_KIND_UNIX
            &&& settings.backend_path == Some(path)
        },
    }
    &&& plan.backlog == settings.backlog
    &&& plan.v6_only == settings.v6_only
    &&& plan.shared == settings.shared
    &&& plan.request_client_certificate == settings.request_client_certificate
    &&& plan.http2 == settings.http2
    &&& plan.http3 == settings.http3
    &&& plan.benchmark_mode == settings.benchmark_mode
    &&& plan.direct_callback == settings.direct_callback
    &&& match plan.tls {
        Some(tls) => {
            &&& settings.tls_cert_path == Some(tls.cert_path)
            &&& settings.tls_key_path == Some(tls.key_path)
            &&& tls.cert_password == if spec_given(settings.tls_cert_password) {
                settings.tls_cert_password
            } else {
                None
            }
        },
        None => !spec_given(settings.tls_cert_path),
    }
}

/// Takes a text if it was given and is not empty.
fn take_given(text: Option<String>) -> (taken: Option<String>)
    ensures
        spec_given(text) ==> taken == text,
        !spec_given(text) ==> taken is None,
{
    match text {
        Some(value) => if value.as_str().is_empty() {
            None
        } else {
            Some(value)
        },
        None => None,
    }
}

/// Checks the settings of a proxy and turns them into a plan.
pub fn validate_proxy_settings(settings: ProxySettings) -> (result: Result<ProxyPlan, ConfigError>)
    ensures
        match result {
            Ok(plan) => spec_config_error(settings) is None && spec_plan_matches(settings, plan),
            Err(error) => spec_config_error(settings) == Some(error),
        },
{
    let ProxySettings {
        host,
        port,
        backend_kind,
        backend_host,
        backend_port,
        backend_path,
        backlog,
        v6_only,
        shared,
        request_client_certificate,
        http2,
        http3,
        tls_cert_path,
        tls_key_path,
        tls_cert_password,
        benchmark_mode,
        direct_callback,
    } = settings;
    let host = match take_given(host) {
        Some(host) => host,
        None => {
            return Err(ConfigError::InvalidHost);
        },
    };
    let endpoint = if backend_kind == BRIDGE_BACKEND_KIND_TCP {
        match take_given(backend_host) {
            Some(host) => BridgeEndpoint::Tcp { host, port: backend_port },
            None => {
                return Err(ConfigError::InvalidBackendHost);
            },
        }
    } else if backend_kind == BRIDGE_BACKEND_KIND_UNIX {
        match take_given(backend_path) {
            Some(path) => BridgeEndpoint::Unix { path },
            None => {
                return Err(ConfigError::InvalidBackendPath);
            },
        }
    } else {
        return Err(ConfigError::InvalidBackendKind(backend_kind));
    };
    if benchmark_mode != BENCHMARK_MODE_NONE && benchmark_mode != BENCHMARK_MODE_STATIC_OK
        && benchmark_mode != BENCHMARK_MODE_STATIC_OK_DIRECT_SHAPE {
        return Err(ConfigError::InvalidBenchmarkMode(benchmark_mode));
    }
    let cert_password = take_given(tls_cert_password);
    let tls = match (take_given(tls_cert_path), take_given(tls_key_path)) {
        (None, None) => None,
        (Some(cert_path), Some(key_path)) => Some(
            ProxyTlsConfig { cert_path, key_path, cert_password },
        ),
        _ => {
            return Err(ConfigError::IncompleteTls);
        },
    };
    Ok(
        ProxyPlan {
            host,
            port,
            endpoint,
            backlog,
            v6_only,
            shared,
            request_client_certificate,
            http2,
            http3,
            tls,
            benchmark_mode,
            direct_callback,
        },
    )
}

/// Number of worker threads for a machine that can run `parallelism`
/// threads at once: that number, but at least 2 and at most 16, and 2 where
/// the machine does not say.
pub fn worker_thread_count(parallelism: Option<usize>) -> (threads: usize)
    ensures
        threads == match parallelism {
            Some(count) => if count < MIN_WORKER_THREADS {
                MIN_WORKER_THREADS
            } else if count > MAX_WORKER_THREADS {
                MAX_WORKER_THREADS
            } else {
                count
            },
            None => MIN_WORKER_THREADS,
        },
{
    match parallelism {
        Some(count) => if count < MIN_WORKER_THREADS {
            MIN_WORKER_THREADS
        } else if count > MAX_WORKER_THREADS {
            MAX_WORKER_THREADS
        } else {
            count
        },
        None => MIN_WORKER_THREADS,
    }
}

/// The backlog that a listener is opened with: 1024 where none was asked
/// for, and else what was asked for, as far as the system call can take it.
pub fn listen_backlog(backlog: u32) -> (effective: i32)
    ensures
        effective == if backlog == 0 {
            DEFAULT_LISTEN_BACKLOG as int
        } else if backlog > i32::MAX {
            i32::MAX as int
        } else {
            backlog as int
        },
{
    if backlog == 0 {
        DEFAULT_LISTEN_BACKLOG
    } else if backlog > 2147483647 {
        2147483647
    } else {
        backlog as i32
    }
}

/// The protocols that a TLS listener offers, in order of preference: `h2`
/// in front of `http/1.1` where HTTP/2 is on, and `http/1.1` alone where it
/// is off.
pub fn tls_alpn_protocols(http2: bool) -> (protocols: Vec<&'static str>)
    ensures
        http2 ==> protocols@.len() == 2 && protocols@[0]@ == "h2"@ && protocols@[1]@
            == "http/1.1"@,
        !http2 ==> protocols@.len() == 1 && protocols@[0]@ == "http/1.1"@,
{
    let mut protocols: Vec<&'static str> = Vec::new();
    if http2 {
        protocols.push("h2");
    }
    protocols.push("http/1.1");
    protocols
}

/// Whether HTTP/3 is served: only where it was asked for and TLS is set up.
pub fn http3_enabled(http3: bool, tls_configured: bool) -> (enabled: bool)
    ensures
        enabled == (http3 && tls_configured),
{
    http3 && tls_configured
}

} // verus!
