use financial_tracker::config::parse_port;
use financial_tracker::config::Config;

fn vars(host: Option<&str>, port: Option<&str>) -> Option<Config> {
    Config::from_vars(
        "db".to_string(),
        "pg".to_string(),
        "secret".to_string(),
        host.map(|h| h.to_string()),
        port.map(|p| p.to_string()),
    )
}

#[test]
fn host_and_port_have_defaults() {
    let config = vars(None, None).unwrap();
    assert_eq!(config.database_url, "db");
    assert_eq!(config.database_url_pg, "pg");
    assert_eq!(config.jwt_secret, "secret");
    assert_eq!(config.server_host, "127.0.0.1");
    assert_eq!(config.server_port, 8080);
}

#[test]
fn host_and_port_can_be_set() {
    let config = vars(Some("0.0.0.0"), Some("65535")).unwrap();
    assert_eq!(config.server_host, "0.0.0.0");
    assert_eq!(config.server_port, 65535);
    let copy = config.clone();
    assert_eq!(copy.server_host, "0.0.0.0");
    assert_eq!(copy.server_port, 65535);
    assert_eq!(copy.jwt_secret, "secret");
}

#[test]
fn a_port_that_is_no_number_gives_no_configuration() {
    assert!(vars(None, Some("http")).is_none());
    assert!(vars(None, Some("65536")).is_none());
    assert!(vars(None, Some("-1")).is_none());
    assert!(vars(None, Some("")).is_none());
    assert!(vars(None, Some(" 80")).is_none());
}

#[test]
fn a_port_is_a_decimal_number_of_16_bits() {
    assert_eq!(parse_port("8080"), Some(8080));
    assert_eq!(parse_port("+8080"), Some(8080));
    assert_eq!(parse_port("0"), Some(0));
    assert_eq!(parse_port("0080"), Some(80));
    assert_eq!(parse_port("65535"), Some(65535));
    assert_eq!(parse_port("65536"), None);
    assert_eq!(parse_port("99999999999999999999"), None);
    assert_eq!(parse_port(""), None);
    assert_eq!(parse_port("+"), None);
    assert_eq!(parse_port("++1"), None);
    assert_eq!(parse_port("-0"), None);
    assert_eq!(parse_port("8 0"), None);
    assert_eq!(parse_port("80 "), None);
    assert_eq!(parse_port("8_0"), None);
    assert_eq!(parse_port("0x50"), None);
    assert_eq!(parse_port("\u{663}"), None);
}

#[test]
fn a_port_is_read_as_the_standard_library_reads_it() {
    let texts = [
        "", "+", "-", "0", "+0", "-0", "1", "007", "+007", "65535", "65536", "+65535", "655350",
        "100000", "12a", "a12", "1 2", " 12", "12 ", "1_2", "1.0", "1e3", "\u{663}", "+-1",
        "4294967296",
    ];
    for text in texts {
        assert_eq!(parse_port(text), text.parse::<u16>().ok(), "{:?}", text);
    }
}
