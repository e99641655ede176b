//! The decoded form of the proxy's startup configuration.
use vstd::prelude::*;

verus! {

/// The whole startup document.
pub struct Config {
    pub proxy: ProxyConfig,
    pub load_balancing: LoadBalancingConfig,
    pub backend_servers: Vec<BackendServer>,
    pub metrics: Metrics,
}

/// Where the proxy listens for clients.
pub struct ProxyConfig {
    pub listen_address: String,
    pub listen_port: u16,
}

/// Which selection policy to use, as written in the configuration.
pub struct LoadBalancingConfig {
    pub method: String,
}

/// One upstream endpoint, as a `host:port` string.
#[derive(Clone)]
pub struct BackendServer {
    pub address: String,
}

/// Settings of the metrics endpoint.
#[derive(Clone)]
pub struct Metrics {
    pub listen_port: u16,
    pub route: String,
    pub allowed_ips: Vec<String>,
}

/// The port the metrics endpoint listens on when none is configured.
pub const DEFAULT_METRICS_PORT: u16 = 8080;

impl Default for Metrics {
    fn default() -> (r: Metrics)
        ensures
            r.listen_port == DEFAULT_METRICS_PORT,
            r.route@ == "/metrics"@,
            r.allowed_ips@.len() == 1,
            r.allowed_ips@[0]@ == "127.0.0.1"@,
    {
        Metrics {
            listen_port: DEFAULT_METRICS_PORT,
            route: "/metrics".to_owned(),
            allowed_ips: vec!["127.0.0.1".to_owned()],
        }
    }
}

impl Default for LoadBalancingConfig {
    fn default() -> (r: LoadBalancingConfig)
        ensures
            r.method@ == "round_robin"@,
    {
        LoadBalancingConfig { method: "round_robin".to_owned() }
    }
}

} // verus!
