use what_is_my_ip::headers::Headers;
use what_is_my_ip::ip::IpAddress;
use what_is_my_ip::metadata::Metadata;
use what_is_my_ip::metadata::MetadataError;

fn snapshot(entries: &[(&str, &str)]) -> Headers {
    let mut v: Vec<(String, String)> = Vec::new();
    for (name, value) in entries {
        v.push((String::from(*name), String::from(*value)));
    }
    Headers::from_entries(v)
}

fn full_snapshot() -> Headers {
    snapshot(&[
        ("cf-meta-latitude", "37.7749"),
        ("cf-meta-longitude", "-122.4194"),
        ("cf-meta-ip", "1.2.3.4"),
        ("cf-meta-city", "SF"),
        ("cf-meta-country", "US"),
        ("cf-meta-asn", "13335"),
        ("cf-meta-timezone", "America/Los_Angeles"),
        ("cf-meta-request-time", "1700000000"),
    ])
}

#[test]
fn round_trip() {
    let m = Metadata::from_headers(&full_snapshot()).unwrap();
    assert_eq!(m.coordinate.latitude.parse::<f64>().unwrap(), 37.7749);
    assert_eq!(m.coordinate.longitude.parse::<f64>().unwrap(), -122.4194);
    assert_eq!(m.ip_address, Some(IpAddress::V4 { a: 1, b: 2, c: 3, d: 4 }));
    assert_eq!(m.city, "SF");
    assert_eq!(m.country, "US");
    assert_eq!(m.asn.render(), "AS13335");
    assert_eq!(m.asn.value(), 13335);
    assert_eq!(m.time_zone.iana_name(), "America/Los_Angeles");
    assert_eq!(m.request_time, 1700000000);
}

#[test]
fn complete_snapshot_decodes_every_field() {
    let m = Metadata::from_headers(&snapshot(&[
        ("cf-meta-latitude", "48.8566"),
        ("cf-meta-longitude", "2.3522"),
        ("cf-meta-ip", "2001:db8::1"),
        ("cf-meta-city", "Paris"),
        ("cf-meta-country", "FR"),
        ("cf-meta-asn", "131072"),
        ("cf-meta-timezone", "Europe/Paris"),
        ("cf-meta-request-time", "-1"),
    ]))
    .unwrap();
    assert_eq!(m.coordinate.latitude, "48.8566");
    assert_eq!(m.coordinate.longitude, "2.3522");
    assert_eq!(
        m.ip_address,
        Some(IpAddress::V6 { g0: 0x2001, g1: 0xdb8, g2: 0, g3: 0, g4: 0, g5: 0, g6: 0, g7: 1 })
    );
    assert_eq!(m.city, "Paris");
    assert_eq!(m.country, "FR");
    assert_eq!(m.asn.render(), "AS131072");
    assert_eq!(m.time_zone.iana_name(), "Europe/Paris");
    assert_eq!(m.request_time, -1);
}

#[test]
fn missing_timezone_fails() {
    let r = Metadata::from_headers(&snapshot(&[
        ("cf-meta-latitude", "37.7749"),
        ("cf-meta-request-time", "1700000000"),
    ]));
    match r {
        Err(MetadataError::MissingRequiredField { field }) => assert_eq!(field, "timezone"),
        other => panic!("expected MissingRequiredField, got {:?}", other),
    }
}

#[test]
fn missing_request_time_fails() {
    let r = Metadata::from_headers(&snapshot(&[("cf-meta-timezone", "America/Los_Angeles")]));
    match r {
        Err(MetadataError::MissingRequiredField { field }) => assert_eq!(field, "request-time"),
        other => panic!("expected MissingRequiredField, got {:?}", other),
    }
}

#[test]
fn out_of_range_asn_fails() {
    for raw in ["0", "65535", "131071", "4294967295"] {
        let r = Metadata::from_headers(&snapshot(&[
            ("cf-meta-asn", raw),
            ("cf-meta-timezone", "America/Los_Angeles"),
            ("cf-meta-request-time", "1700000000"),
        ]));
        match r {
            Err(MetadataError::OutOfRange { field, value }) => {
                assert_eq!(field, "asn");
                assert_eq!(value, raw.parse::<u32>().unwrap());
            },
            other => panic!("expected OutOfRange for {raw}, got {:?}", other),
        }
    }
}

#[test]
fn non_numeric_asn_fails() {
    let r = Metadata::from_headers(&snapshot(&[
        ("cf-meta-asn", "AS13335"),
        ("cf-meta-timezone", "America/Los_Angeles"),
        ("cf-meta-request-time", "1700000000"),
    ]));
    match r {
        Err(MetadataError::InvalidValue { field, raw, .. }) => {
            assert_eq!(field, "asn");
            assert_eq!(raw, "AS13335");
        },
        other => panic!("expected InvalidValue, got {:?}", other),
    }
}

#[test]
fn missing_asn_tolerated() {
    let m = Metadata::from_headers(&snapshot(&[
        ("cf-meta-timezone", "America/Los_Angeles"),
        ("cf-meta-request-time", "1700000000"),
    ]))
    .unwrap();
    assert_eq!(m.asn.value(), 0);
    assert_eq!(m.asn.render(), "AS0");
}

#[test]
fn invalid_ip_tolerated() {
    let m = Metadata::from_headers(&snapshot(&[
        ("cf-meta-ip", "not-an-ip"),
        ("cf-meta-timezone", "America/Los_Angeles"),
        ("cf-meta-request-time", "1700000000"),
    ]))
    .unwrap();
    assert_eq!(m.ip_address, None);
}

#[test]
fn missing_coordinates_default_to_zero() {
    let m = Metadata::from_headers(&snapshot(&[
        ("cf-meta-timezone", "America/Los_Angeles"),
        ("cf-meta-request-time", "1700000000"),
    ]))
    .unwrap();
    assert_eq!(m.coordinate.latitude.parse::<f64>().unwrap(), 0.0);
    assert_eq!(m.coordinate.longitude.parse::<f64>().unwrap(), 0.0);
}

#[test]
fn malformed_coordinates_default_to_zero() {
    let m = Metadata::from_headers(&snapshot(&[
        ("cf-meta-latitude", "north"),
        ("cf-meta-longitude", "1e"),
        ("cf-meta-timezone", "America/Los_Angeles"),
        ("cf-meta-request-time", "1700000000"),
    ]))
    .unwrap();
    assert_eq!(m.coordinate.latitude, "0");
    assert_eq!(m.coordinate.longitude, "0");
}

#[test]
fn missing_city_and_country_default_to_empty() {
    let m = Metadata::from_headers(&snapshot(&[
        ("cf-meta-timezone", "America/Los_Angeles"),
        ("cf-meta-request-time", "1700000000"),
    ]))
    .unwrap();
    assert_eq!(m.city, "");
    assert_eq!(m.country, "");
}

#[test]
fn unresolvable_timezone_fails() {
    let r = Metadata::from_headers(&snapshot(&[
        ("cf-meta-timezone", "Nowhere/Imaginary_City"),
        ("cf-meta-request-time", "1700000000"),
    ]));
    match r {
        Err(MetadataError::InvalidValue { field, raw, reason }) => {
            assert_eq!(field, "timezone");
            assert_eq!(raw, "Nowhere/Imaginary_City");
            assert_eq!(reason, "unresolvable time zone");
        },
        other => panic!("expected InvalidValue, got {:?}", other),
    }
}

#[test]
fn non_integer_request_time_fails() {
    let r = Metadata::from_headers(&snapshot(&[
        ("cf-meta-timezone", "America/Los_Angeles"),
        ("cf-meta-request-time", "12.5"),
    ]));
    match r {
        Err(MetadataError::InvalidValue { field, raw, .. }) => {
            assert_eq!(field, "request-time");
            assert_eq!(raw, "12.5");
        },
        other => panic!("expected InvalidValue, got {:?}", other),
    }
}

#[test]
fn extreme_request_times() {
    let m = Metadata::from_headers(&snapshot(&[
        ("cf-meta-timezone", "UTC"),
        ("cf-meta-request-time", "9223372036854775807"),
    ]))
    .unwrap();
    assert_eq!(m.request_time, i64::MAX);
    let m = Metadata::from_headers(&snapshot(&[
        ("cf-meta-timezone", "UTC"),
        ("cf-meta-request-time", "-9223372036854775808"),
    ]))
    .unwrap();
    assert_eq!(m.request_time, i64::MIN);
    let r = Metadata::from_headers(&snapshot(&[
        ("cf-meta-timezone", "UTC"),
        ("cf-meta-request-time", "9223372036854775808"),
    ]));
    assert!(matches!(r, Err(MetadataError::InvalidValue { .. })));
}

#[test]
fn header_names_are_case_insensitive() {
    let m = Metadata::from_headers(&snapshot(&[
        ("CF-Meta-Timezone", "America/Los_Angeles"),
        ("CF-META-REQUEST-TIME", "1700000000"),
        ("Cf-Meta-City", "SF"),
    ]))
    .unwrap();
    assert_eq!(m.time_zone.iana_name(), "America/Los_Angeles");
    assert_eq!(m.request_time, 1700000000);
    assert_eq!(m.city, "SF");
}

#[test]
fn first_entry_wins_on_duplicates() {
    let m = Metadata::from_headers(&snapshot(&[
        ("cf-meta-city", "First"),
        ("cf-meta-city", "Second"),
        ("cf-meta-timezone", "UTC"),
        ("cf-meta-request-time", "0"),
    ]))
    .unwrap();
    assert_eq!(m.city, "First");
}

#[test]
fn construction_is_idempotent() {
    let h = full_snapshot();
    let first = Metadata::from_headers(&h).unwrap();
    let second = Metadata::from_headers(&h).unwrap();
    assert_eq!(first, second);
}

#[test]
fn empty_snapshot_fails_on_timezone() {
    let r = Metadata::from_headers(&snapshot(&[]));
    match r {
        Err(MetadataError::MissingRequiredField { field }) => assert_eq!(field, "timezone"),
        other => panic!("expected MissingRequiredField, got {:?}", other),
    }
}
