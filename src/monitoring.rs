use vstd::prelude::*;

verus! {

/// An IP address.
#[derive(Clone, Copy, Debug, PartialEq, Eq, Structural)]
pub enum IpAddress {
    V4(u8, u8, u8, u8),
    V6(u16, u16, u16, u16, u16, u16, u16, u16),
}

/// Where the monitoring endpoint listens.
#[derive(Clone, Copy, Debug, PartialEq, Eq, Structural)]
pub struct MonitoringEndpointConfig {
    pub ip: IpAddress,
    pub port: u16,
}

/// An HTTP endpoint that tells whether the node is alive and ready, and which version it runs.
#[derive(Clone, Copy, Debug, PartialEq, Eq)]
pub struct MonitoringEndpoint {
    config: MonitoringEndpointConfig,
    version: &'static str,
}

impl MonitoringEndpoint {
    pub closed spec fn config_spec(&self) -> MonitoringEndpointConfig {
        self.config
    }

    pub closed spec fn version_spec(&self) -> Seq<char> {
        self.version@
    }

    /// An endpoint at `config` reporting `version`.
    pub fn new(config: MonitoringEndpointConfig, version: &'static str) -> (r: MonitoringEndpoint)
        ensures
            r.config_spec() == config,
            r.version_spec() == version@,
    {
        MonitoringEndpoint { config, version }
    }

    /// Where the endpoint listens.
    pub fn config(&self) -> (r: MonitoringEndpointConfig)
        ensures
            r == self.config_spec(),
    {
        self.config
    }

    /// The version the endpoint reports.
    pub fn version(&self) -> (r: &'static str)
        ensures
            r@ == self.version_spec(),
    {
        self.version
    }

    /// The path that answers whether the node is alive.
    pub fn alive_path(&self) -> (r: &'static str)
        ensures
            r@ == "/monitoring/alive"@,
    {
        "/monitoring/alive"
    }

    /// The path that answers whether the node is ready.
    pub fn ready_path(&self) -> (r: &'static str)
        ensures
            r@ == "/monitoring/ready"@,
    {
        "/monitoring/ready"
    }

    /// The path that answers with the node's version.
    pub fn version_path(&self) -> (r: &'static str)
        ensures
            r@ == "/monitoring/nodeVersion"@,
    {
        "/monitoring/nodeVersion"
    }
}

/// An endpoint at `config` reporting `version`.
pub fn create_monitoring_endpoint(config: MonitoringEndpointConfig, version: &'static str) -> (r:
    MonitoringEndpoint)
    ensures
        r.config_spec() == config,
        r.version_spec() == version@,
{
    MonitoringEndpoint::new(config, version)
}

} // verus!
