use personal_website::config::{parse_port, DEFAULT_PORT};
use personal_website::Config;

fn text(s: &str) -> Option<String> {
    Some(s.to_string())
}

#[test]
fn defaults_fill_what_is_missing() {
    let config = Config::from_values(None, None, None);
    assert_eq!(config.database_url, "sqlite:./portfolio.db");
    assert_eq!(config.host, "0.0.0.0");
    assert_eq!(config.port, 8080);
    assert_eq!(DEFAULT_PORT, 8080);
    assert_eq!(config.bind_addr(), "0.0.0.0:8080");
}

#[test]
fn given_values_are_taken() {
    let config = Config::from_values(text("sqlite::memory:"), text("127.0.0.1"), text("3000"));
    assert_eq!(config.database_url, "sqlite::memory:");
    assert_eq!(config.host, "127.0.0.1");
    assert_eq!(config.port, 3000);
    assert_eq!(config.bind_addr(), "127.0.0.1:3000");
}

#[test]
fn a_port_that_does_not_parse_takes_the_default() {
    for bad in
        ["", "abc", "80a", "-1", "65536", "99999999999999999999", " 80", "80 ", "+", "8_0", "0x50"]
    {
        assert_eq!(Config::from_values(None, None, text(bad)).port, 8080, "{:?}", bad);
    }
}

#[test]
fn ports_parse_as_the_standard_library_parses_them() {
    for candidate in [
        "0", "1", "80", "8080", "65535", "65536", "65540", "70000", "655350", "000080", "+80",
        "++80", "+-80", "-80", "+", "", " ", "8 0", "80\n", "4294967376", "\u{661}\u{662}", "1e3",
        "00000000000000000000000000065535", "00000000000000000000000000065536",
    ] {
        assert_eq!(parse_port(candidate), candidate.parse::<u16>().ok(), "{:?}", candidate);
    }
    assert_eq!(parse_port("8080"), Some(8080));
    assert_eq!(parse_port("+443"), Some(443));
    assert_eq!(parse_port("65535"), Some(65535));
    assert_eq!(parse_port("65536"), None);
}

#[test]
fn ports_are_written_in_decimal() {
    for port in [0u16, 7, 80, 443, 8080, 65535] {
        let config = Config { database_url: String::new(), host: "h".to_string(), port };
        assert_eq!(config.bind_addr(), format!("h:{}", port));
    }
}
