use mbus::config::{heartbeat_interval_secs, parse_u64, Configuration, DEFAULT_HB_INTERVAL_SECS};

#[test]
fn interval_defaults_without_an_override() {
    assert_eq!(DEFAULT_HB_INTERVAL_SECS, 2);
    assert_eq!(heartbeat_interval_secs(None), 2);
}

#[test]
fn interval_takes_a_well_formed_override() {
    assert_eq!(heartbeat_interval_secs(Some("1")), 1);
    assert_eq!(heartbeat_interval_secs(Some("0")), 0);
    assert_eq!(heartbeat_interval_secs(Some("+7")), 7);
    assert_eq!(heartbeat_interval_secs(Some("007")), 7);
    assert_eq!(
        heartbeat_interval_secs(Some("18446744073709551615")),
        u64::MAX
    );
}

#[test]
fn interval_falls_back_on_a_malformed_override() {
    assert_eq!(heartbeat_interval_secs(Some("")), 2);
    assert_eq!(heartbeat_interval_secs(Some("+")), 2);
    assert_eq!(heartbeat_interval_secs(Some("abc")), 2);
    assert_eq!(heartbeat_interval_secs(Some("1s")), 2);
    assert_eq!(heartbeat_interval_secs(Some(" 5")), 2);
    assert_eq!(heartbeat_interval_secs(Some("-5")), 2);
    assert_eq!(heartbeat_interval_secs(Some("5.0")), 2);
    // one past the largest u64
    assert_eq!(heartbeat_interval_secs(Some("18446744073709551616")), 2);
}

#[test]
fn parse_agrees_with_the_standard_parser() {
    let cases = [
        "",
        "+",
        "0",
        "1",
        "42",
        "007",
        "+123",
        "++1",
        "-1",
        " 5",
        "5 ",
        "5x",
        "x5",
        "9999999999",
        "18446744073709551615",
        "18446744073709551616",
        "99999999999999999999999999",
        "caf\u{e9}",
    ];
    for s in cases {
        assert_eq!(
            parse_u64(&s.as_bytes().to_vec()),
            s.parse::<u64>().ok(),
            "input = {:?}",
            s
        );
    }
}

#[test]
fn config_holds_what_it_was_given() {
    let c = Configuration::new("node-a", "10.0.0.1:10124", Some("9"));
    assert_eq!(c.node, "node-a");
    assert_eq!(c.grpc_endpoint, "10.0.0.1:10124");
    assert_eq!(c.hb_interval_secs, 9);
}
