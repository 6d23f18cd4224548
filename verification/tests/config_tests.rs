use bootcore::config::{load_config, parse_port, ConfigError};

fn s(text: &str) -> String {
    text.to_string()
}

#[test]
fn load_rejects_missing_db_url() {
    let r = load_config(None, Some(s("127.0.0.1")), Some(s("8080")));
    assert_eq!(r.err().unwrap(), ConfigError::MissingDbUrl);
}

#[test]
fn load_rejects_empty_db_url() {
    let r = load_config(Some(s("")), Some(s("127.0.0.1")), Some(s("8080")));
    assert_eq!(r.err().unwrap(), ConfigError::EmptyDbUrl);
}

#[test]
fn load_rejects_missing_host() {
    let r = load_config(Some(s("postgres://db/x")), None, Some(s("8080")));
    assert_eq!(r.err().unwrap(), ConfigError::MissingServerHost);
}

#[test]
fn load_rejects_empty_host() {
    let r = load_config(Some(s("postgres://db/x")), Some(s("")), Some(s("8080")));
    assert_eq!(r.err().unwrap(), ConfigError::EmptyServerHost);
}

#[test]
fn load_rejects_missing_port() {
    let r = load_config(Some(s("postgres://db/x")), Some(s("127.0.0.1")), None);
    assert_eq!(r.err().unwrap(), ConfigError::MissingServerPort);
}

#[test]
fn load_rejects_bad_ports() {
    for bad in ["", "abc", "0", "65536", "8080x", "-1", "99999999999999999999"] {
        let r = load_config(Some(s("postgres://db/x")), Some(s("127.0.0.1")), Some(s(bad)));
        assert_eq!(r.err().unwrap(), ConfigError::InvalidServerPort);
    }
}

#[test]
fn load_keeps_values() {
    let c = load_config(Some(s("postgres://db/x")), Some(s("127.0.0.1")), Some(s("8080")))
        .unwrap();
    assert_eq!(c.db_url().as_str(), "postgres://db/x");
    assert_eq!(c.server_host().as_str(), "127.0.0.1");
    assert_eq!(c.server_port(), 8080);
}

#[test]
fn parse_port_exact_values() {
    assert_eq!(parse_port("1").unwrap(), 1);
    assert_eq!(parse_port("8080").unwrap(), 8080);
    assert_eq!(parse_port("65535").unwrap(), 65535);
    assert_eq!(parse_port("0080").unwrap(), 80);
}

#[test]
fn parse_port_rejects_out_of_range() {
    assert_eq!(parse_port("0").err().unwrap(), ConfigError::InvalidServerPort);
    assert_eq!(parse_port("65536").err().unwrap(), ConfigError::InvalidServerPort);
    assert_eq!(parse_port("000000").err().unwrap(), ConfigError::InvalidServerPort);
    assert_eq!(parse_port(" 80").err().unwrap(), ConfigError::InvalidServerPort);
}
