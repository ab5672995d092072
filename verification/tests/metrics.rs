use knot::metrics::{address_error, normalize_addr, MetricsError};

#[test]
fn shorthand_port() {
    assert_eq!(normalize_addr(":9090").unwrap(), "0.0.0.0:9090");
}

#[test]
fn explicit_addr() {
    assert_eq!(normalize_addr("127.0.0.1:9090").unwrap(), "127.0.0.1:9090");
}

#[test]
fn only_a_valid_port_is_shorthand() {
    assert_eq!(normalize_addr(":65535").unwrap(), "0.0.0.0:65535");
    assert_eq!(normalize_addr(":65536").unwrap(), ":65536");
    assert_eq!(normalize_addr(":00080").unwrap(), "0.0.0.0:00080");
    assert_eq!(normalize_addr(":+80").unwrap(), "0.0.0.0:+80");
    assert_eq!(normalize_addr(":+").unwrap(), ":+");
    assert_eq!(normalize_addr(":").unwrap(), ":");
    assert_eq!(normalize_addr(":-1").unwrap(), ":-1");
    assert_eq!(normalize_addr(":80a").unwrap(), ":80a");
    assert_eq!(normalize_addr(":99999999999999999999").unwrap(), ":99999999999999999999");
    assert_eq!(normalize_addr("").unwrap(), "");
    assert_eq!(normalize_addr("[::1]:80").unwrap(), "[::1]:80");
}

#[test]
fn full_addresses_stay_as_they_are() {
    for addr in [":9090", ":x", "0.0.0.0:1", "host:80", ""] {
        let once = normalize_addr(addr).unwrap();
        assert_eq!(normalize_addr(&once).unwrap(), once);
    }
}

#[test]
fn the_shorthand_agrees_with_the_port_parser() {
    for port in ["0", "1", "65535", "65536", "+1", "++1", "1+", " 1", "", "007", "１"] {
        let addr = format!(":{port}");
        let expected = if port.parse::<u16>().is_ok() {
            format!("0.0.0.0:{port}")
        } else {
            addr.clone()
        };
        assert_eq!(normalize_addr(&addr).unwrap(), expected, "{port:?}");
    }
}

#[test]
fn errors_say_what_failed() {
    let e = address_error("nope", "invalid socket address syntax");
    assert!(matches!(e, MetricsError::Address(_)));
    assert_eq!(e.message(), "invalid address: nope: invalid socket address syntax");
    assert_eq!(
        MetricsError::Install("in use".to_string()).message(),
        "install exporter: in use"
    );
}
