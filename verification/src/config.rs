//! Where the server listens: the two settings that it cannot start without.

use vstd::prelude::*;

verus! {

/// Which of the settings is missing.
#[derive(Clone, Copy, Debug, PartialEq, Eq, Structural)]
pub enum ConfigError {
    /// No host was given.
    HostNotSet,
    /// A host was given, but no port.
    PortNotSet,
}

impl ConfigError {
    /// The sentence that names what is missing.
    pub open spec fn description(self) -> Seq<char> {
        match self {
            ConfigError::HostNotSet => "Host not set."@,
            ConfigError::PortNotSet => "Port not set."@,
        }
    }

    /// The sentence that names what is missing.
    pub fn message(&self) -> (text: &'static str)
        ensures
            text@ == self.description(),
    {
        match self {
            ConfigError::HostNotSet => "Host not set.",
            ConfigError::PortNotSet => "Port not set.",
        }
    }
}

/// The address to listen on. Once made, it does not change.
pub struct ServerConfig {
    host: String,
    port: String,
}

/// The address to listen on, as a value.
pub struct ServerConfigView {
    pub host: Seq<char>,
    pub port: Seq<char>,
}

impl View for ServerConfig {
    type V = ServerConfigView;

    closed spec fn view(&self) -> ServerConfigView {
        ServerConfigView { host: self.host@, port: self.port@ }
    }
}

impl ServerConfig {
    /// Takes the two settings as they were found, each of which may be
    /// missing: gives the address where both are there, and otherwise the
    /// first of them that is missing, the host before the port.
    pub fn new(host: Option<String>, port: Option<String>) -> (made: Result<
        ServerConfig,
        ConfigError,
    >)
        ensures
            host is None ==> made matches Err(ConfigError::HostNotSet),
            host is Some && port is None ==> made matches Err(ConfigError::PortNotSet),
            host matches Some(h) ==> (port matches Some(p) ==> made matches Ok(config)
                && config@.host == h@ && config@.port == p@),
    {
        match host {
            None => Err(ConfigError::HostNotSet),
            Some(host) => match port {
                None => Err(ConfigError::PortNotSet),
                Some(port) => Ok(ServerConfig { host, port }),
            },
        }
    }

    /// The host, as it was given.
    pub fn host(&self) -> (host: &str)
        ensures
            host@ == self@.host,
    {
        self.host.as_str()
    }

    /// The port, as it was given.
    pub fn port(&self) -> (port: &str)
        ensures
            port@ == self@.port,
    {
        self.port.as_str()
    }

    /// The address to bind: the host, a colon, and the port.
    pub fn bind_address(&self) -> (address: String)
        ensures
            address@ == self@.host + ":"@ + self@.port,
    {
        let mut address = String::new();
        address.append(self.host.as_str());
        address.append(":");
        address.append(self.port.as_str());
        address
    }
}

} // verus!
