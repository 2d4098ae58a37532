use request_counter::config::{ConfigError, ServerConfig};

fn some(text: &str) -> Option<String> {
    Some(String::from(text))
}

#[test]
fn both_settings_give_the_address() {
    let config = ServerConfig::new(some("127.0.0.1"), some("8080")).unwrap();
    assert_eq!(config.host(), "127.0.0.1");
    assert_eq!(config.port(), "8080");
    assert_eq!(config.bind_address(), "127.0.0.1:8080");
}

#[test]
fn settings_are_taken_as_they_are() {
    let config = ServerConfig::new(some("localhost"), some("")).unwrap();
    assert_eq!(config.bind_address(), "localhost:");
    let config = ServerConfig::new(some(""), some("80")).unwrap();
    assert_eq!(config.bind_address(), ":80");
    let config = ServerConfig::new(some("::1"), some("http")).unwrap();
    assert_eq!(config.bind_address(), "::1:http");
}

#[test]
fn a_missing_host_is_reported() {
    assert_eq!(ServerConfig::new(None, some("8080")).err(), Some(ConfigError::HostNotSet));
}

#[test]
fn a_missing_port_is_reported() {
    assert_eq!(ServerConfig::new(some("127.0.0.1"), None).err(), Some(ConfigError::PortNotSet));
}

#[test]
fn the_host_is_looked_at_before_the_port() {
    assert_eq!(ServerConfig::new(None, None).err(), Some(ConfigError::HostNotSet));
}

#[test]
fn each_missing_setting_has_its_sentence() {
    assert_eq!(ConfigError::HostNotSet.message(), "Host not set.");
    assert_eq!(ConfigError::PortNotSet.message(), "Port not set.");
}
