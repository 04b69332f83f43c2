use karl::host::Backend;
use karl::service::{parse_backend, parse_port};
use karl::text::{str_eq, to_decimal};

#[test]
fn decimal_matches_to_string() {
    for n in [0u64, 1, 9, 10, 11, 99, 100, 101, 4294967295, 4294967296, u64::MAX, 1234567890] {
        assert_eq!(to_decimal(n), n.to_string());
    }
}

#[test]
fn str_eq_compares_characters() {
    assert!(str_eq("", ""));
    assert!(str_eq("wasm", "wasm"));
    assert!(!str_eq("wasm", "was"));
    assert!(!str_eq("wasm", "wasn"));
    assert!(str_eq("é", "é"));
}

#[test]
fn backend_names() {
    assert_eq!(parse_backend("wasm"), Some(Backend::Wasm));
    assert_eq!(parse_backend("binary"), Some(Backend::Binary));
    assert_eq!(parse_backend("Wasm"), None);
    assert_eq!(parse_backend(""), None);
    assert_eq!(parse_backend("binary "), None);
}

#[test]
fn port_parsing_agrees_with_std() {
    let samples = [
        "", "0", "00", "8080", "+8080", "+", "-", "-1", "-0", "65535", "65536", "0065535",
        "99999", "123456789012345678901234567890", "12a", " 1", "1 ", "++1", "+-1", "٣",
        "1.5", "00000000000000000000080",
    ];
    for s in samples {
        assert_eq!(parse_port(s), s.parse::<u16>().ok(), "parse_port({:?})", s);
    }
}

#[test]
fn port_round_trip() {
    for p in [0u16, 1, 80, 8080, 65535] {
        assert_eq!(parse_port(&to_decimal(p as u64)), Some(p));
    }
}
