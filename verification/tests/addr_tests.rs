use bootcore::addr::{format_address, listening_line, numeral_string};
use bootcore::config::parse_port;

#[test]
fn numeral_renders_exactly() {
    assert_eq!(numeral_string(0).as_str(), "0");
    assert_eq!(numeral_string(7).as_str(), "7");
    assert_eq!(numeral_string(80).as_str(), "80");
    assert_eq!(numeral_string(8080).as_str(), "8080");
    assert_eq!(numeral_string(65535).as_str(), "65535");
}

#[test]
fn address_is_host_colon_port() {
    assert_eq!(format_address("127.0.0.1", 8080).as_str(), "127.0.0.1:8080");
    assert_eq!(format_address("0.0.0.0", 1).as_str(), "0.0.0.0:1");
}

#[test]
fn listening_line_is_exact() {
    assert_eq!(
        listening_line("127.0.0.1", 8080).as_str(),
        "listening on http://127.0.0.1:8080"
    );
}

#[test]
fn rendered_port_parses_back() {
    for p in [1u16, 80, 8080, 65535] {
        assert_eq!(parse_port(numeral_string(p).as_str()).unwrap(), p);
    }
}
