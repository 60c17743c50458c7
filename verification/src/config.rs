use vstd::prelude::*;

verus! {

/// Configuration for the agent client: where the telemetry agent listens and
/// how long the transport may wait while connecting and while sending.
///
/// `ClientConfig::new()` (or `Default::default()`) yields the default
/// configuration; each setter replaces one field and leaves the rest as they
/// were, so setters can be chained.
pub struct ClientConfig {
    pub datadog_agent_host: String,
    pub datadog_agent_port: u32,
    pub connect_timeout_ms: u64,
    pub request_timeout_ms: u64,
}

impl ClientConfig {
    pub fn new() -> (r: Self)
        ensures
            r.datadog_agent_host@ == "localhost"@,
            r.datadog_agent_port == 8126,
            r.connect_timeout_ms == 100,
            r.request_timeout_ms == 100,
    {
        Self::default()
    }

    pub fn datadog_agent_host(self, host: String) -> (r: Self)
        ensures
            r.datadog_agent_host == host,
            r.datadog_agent_port == self.datadog_agent_port,
            r.connect_timeout_ms == self.connect_timeout_ms,
            r.request_timeout_ms == self.request_timeout_ms,
    {
        Self { datadog_agent_host: host, ..self }
    }

    pub fn datadog_agent_port(self, port: u32) -> (r: Self)
        ensures
            r.datadog_agent_host == self.datadog_agent_host,
            r.datadog_agent_port == port,
            r.connect_timeout_ms == self.connect_timeout_ms,
            r.request_timeout_ms == self.request_timeout_ms,
    {
        Self { datadog_agent_port: port, ..self }
    }

    pub fn connect_timeout_ms(self, ms: u64) -> (r: Self)
        ensures
            r.datadog_agent_host == self.datadog_agent_host,
            r.datadog_agent_port == self.datadog_agent_port,
            r.connect_timeout_ms == ms,
            r.request_timeout_ms == self.request_timeout_ms,
    {
        Self { connect_timeout_ms: ms, ..self }
    }

    pub fn request_timeout_ms(self, ms: u64) -> (r: Self)
        ensures
            r.datadog_agent_host == self.datadog_agent_host,
            r.datadog_agent_port == self.datadog_agent_port,
            r.connect_timeout_ms == self.connect_timeout_ms,
            r.request_timeout_ms == ms,
    {
        Self { request_timeout_ms: ms, ..self }
    }
}

impl Default for ClientConfig {
    fn default() -> (r: Self)
        ensures
            r.datadog_agent_host@ == "localhost"@,
            r.datadog_agent_port == 8126,
            r.connect_timeout_ms == 100,
            r.request_timeout_ms == 100,
    {
        Self {
            datadog_agent_host: "localhost".to_string(),
            datadog_agent_port: 8126,
            connect_timeout_ms: 100,
            request_timeout_ms: 100,
        }
    }
}

} // verus!
