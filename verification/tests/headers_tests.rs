use what_is_my_ip::headers::Headers;
use what_is_my_ip::headers::LookupError;
use what_is_my_ip::headers::ResponseHeaderMap;

fn entries(pairs: &[(&str, &str)]) -> Vec<(String, String)> {
    let mut v: Vec<(String, String)> = Vec::new();
    for (name, value) in pairs {
        v.push((String::from(*name), String::from(*value)));
    }
    v
}

#[test]
fn get_returns_the_raw_value() {
    let h = Headers::from_entries(entries(&[("cf-meta-city", "Lisbon")]));
    assert_eq!(h.get("city").unwrap(), "Lisbon");
}

#[test]
fn get_prefixes_the_semantic_name() {
    let h = Headers::from_entries(entries(&[("city", "Lisbon")]));
    assert!(matches!(h.get("city"), Err(LookupError::NotFound)));
}

#[test]
fn get_is_case_insensitive() {
    let h = Headers::from_entries(entries(&[("CF-MeTa-CouNtry", "PT")]));
    assert_eq!(h.get("country").unwrap(), "PT");
}

#[test]
fn get_missing_is_not_found() {
    let h = Headers::from_entries(entries(&[]));
    assert!(matches!(h.get("asn"), Err(LookupError::NotFound)));
}

#[test]
fn get_u32_parses() {
    let h = Headers::from_entries(entries(&[("cf-meta-asn", "13335")]));
    assert_eq!(h.get_u32("asn").unwrap(), 13335);
}

#[test]
fn get_u32_rejects_garbage() {
    let h = Headers::from_entries(entries(&[("cf-meta-asn", "12x")]));
    match h.get_u32("asn") {
        Err(LookupError::ParseFailure { field, raw, reason }) => {
            assert_eq!(field, "asn");
            assert_eq!(raw, "12x");
            assert_eq!(reason, "expected an unsigned integer");
        },
        other => panic!("expected ParseFailure, got {:?}", other),
    }
}

#[test]
fn get_i64_parses_signed_values() {
    let h = Headers::from_entries(entries(&[("cf-meta-request-time", "-42")]));
    assert_eq!(h.get_i64("request-time").unwrap(), -42);
}

#[test]
fn get_i64_rejects_fractions() {
    let h = Headers::from_entries(entries(&[("cf-meta-request-time", "1.5")]));
    match h.get_i64("request-time") {
        Err(LookupError::ParseFailure { field, raw, reason }) => {
            assert_eq!(field, "request-time");
            assert_eq!(raw, "1.5");
            assert_eq!(reason, "expected an integer");
        },
        other => panic!("expected ParseFailure, got {:?}", other),
    }
}

#[test]
fn response_header_map_behaves_as_headers() {
    let m = ResponseHeaderMap::from_entries(entries(&[("Cf-Meta-Ip", "1.2.3.4")]));
    assert_eq!(m.get("ip").unwrap(), "1.2.3.4");
    assert!(matches!(m.get("city"), Err(LookupError::NotFound)));
    let h = m.into_headers();
    assert_eq!(h.get("ip").unwrap(), "1.2.3.4");
}
