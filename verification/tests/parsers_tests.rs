use what_is_my_ip::autonomous_system::Number;
use what_is_my_ip::coordinate::is_float_literal_str;
use what_is_my_ip::ip::IpAddress;
use what_is_my_ip::ip::parse_ip;
use what_is_my_ip::numbers::parse_i64;
use what_is_my_ip::numbers::parse_u32;

#[test]
fn ipv4_literals_parse() {
    assert_eq!(parse_ip("0.0.0.0"), Some(IpAddress::V4 { a: 0, b: 0, c: 0, d: 0 }));
    assert_eq!(parse_ip("1.2.3.4"), Some(IpAddress::V4 { a: 1, b: 2, c: 3, d: 4 }));
    assert_eq!(
        parse_ip("255.255.255.255"),
        Some(IpAddress::V4 { a: 255, b: 255, c: 255, d: 255 })
    );
}

#[test]
fn bad_ipv4_literals_are_rejected() {
    for raw in ["", "1.2.3", "1.2.3.4.5", "256.1.1.1", "01.2.3.4", "1..2.3", "1.2.3.d", "+1.2.3.4"]
    {
        assert_eq!(parse_ip(raw), None, "{raw} should not parse");
    }
}

#[test]
fn ipv6_literals_parse() {
    assert_eq!(
        parse_ip("1:2:3:4:5:6:7:8"),
        Some(IpAddress::V6 { g0: 1, g1: 2, g2: 3, g3: 4, g4: 5, g5: 6, g6: 7, g7: 8 })
    );
    assert_eq!(
        parse_ip("2001:db8::8a2e:370:7334"),
        Some(IpAddress::V6 {
            g0: 0x2001,
            g1: 0xdb8,
            g2: 0,
            g3: 0,
            g4: 0,
            g5: 0x8a2e,
            g6: 0x370,
            g7: 0x7334
        })
    );
    assert_eq!(
        parse_ip("::1"),
        Some(IpAddress::V6 { g0: 0, g1: 0, g2: 0, g3: 0, g4: 0, g5: 0, g6: 0, g7: 1 })
    );
    assert_eq!(
        parse_ip("::"),
        Some(IpAddress::V6 { g0: 0, g1: 0, g2: 0, g3: 0, g4: 0, g5: 0, g6: 0, g7: 0 })
    );
    assert_eq!(
        parse_ip("fe80::"),
        Some(IpAddress::V6 { g0: 0xfe80, g1: 0, g2: 0, g3: 0, g4: 0, g5: 0, g6: 0, g7: 0 })
    );
    assert_eq!(
        parse_ip("1:2:3:4:5:6:7::"),
        Some(IpAddress::V6 { g0: 1, g1: 2, g2: 3, g3: 4, g4: 5, g5: 6, g6: 7, g7: 0 })
    );
    assert_eq!(
        parse_ip("::2:3:4:5:6:7:8"),
        Some(IpAddress::V6 { g0: 0, g1: 2, g2: 3, g3: 4, g4: 5, g5: 6, g6: 7, g7: 8 })
    );
    assert_eq!(
        parse_ip("ABCD::ef01"),
        Some(IpAddress::V6 { g0: 0xabcd, g1: 0, g2: 0, g3: 0, g4: 0, g5: 0, g6: 0, g7: 0xef01 })
    );
}

#[test]
fn ipv6_literals_with_embedded_quads_parse() {
    assert_eq!(
        parse_ip("::ffff:192.168.0.1"),
        Some(IpAddress::V6 { g0: 0, g1: 0, g2: 0, g3: 0, g4: 0, g5: 0xffff, g6: 0xc0a8, g7: 1 })
    );
    assert_eq!(
        parse_ip("1:2:3:4:5:6:7.8.9.10"),
        Some(IpAddress::V6 { g0: 1, g1: 2, g2: 3, g3: 4, g4: 5, g5: 6, g6: 0x0708, g7: 0x090a })
    );
    assert_eq!(
        parse_ip("::1.2.3.4"),
        Some(IpAddress::V6 { g0: 0, g1: 0, g2: 0, g3: 0, g4: 0, g5: 0, g6: 0x0102, g7: 0x0304 })
    );
    assert_eq!(
        parse_ip("1::2:255.255.255.255"),
        Some(IpAddress::V6 {
            g0: 1,
            g1: 0,
            g2: 0,
            g3: 0,
            g4: 0,
            g5: 2,
            g6: 0xffff,
            g7: 0xffff
        })
    );
    assert_eq!(
        parse_ip("1:2::3.4.5.6"),
        Some(IpAddress::V6 { g0: 1, g1: 2, g2: 0, g3: 0, g4: 0, g5: 0, g6: 0x0304, g7: 0x0506 })
    );
}

#[test]
fn bad_ipv6_literals_are_rejected() {
    for raw in [
        ":",
        ":::",
        "1:2:3:4:5:6:7",
        "1:2:3:4:5:6:7:8:9",
        "1:2:3:4:5:6:7:8::",
        "1::2::3",
        ":1:2:3:4:5:6:7",
        "1:2:3:4:5:6:7:",
        "12345::",
        "g::1",
        "1.2.3.4::",
        "::1.2.3.4.5",
        "::1.2.3",
        "::1.2.3.4:5",
        "1:2:3:4:5:6:7:1.2.3.4",
        "1::2::3.4.5.6",
    ] {
        assert_eq!(parse_ip(raw), None, "{raw} should not parse");
    }
}

#[test]
fn asn_ranges_are_enforced() {
    assert!(Number::try_from(1).is_ok());
    assert!(Number::try_from(65534).is_ok());
    assert!(Number::try_from(131072).is_ok());
    assert!(Number::try_from(4294967294).is_ok());
    assert!(Number::try_from(0).is_err());
    assert!(Number::try_from(65535).is_err());
    assert!(Number::try_from(131071).is_err());
    assert!(Number::try_from(4294967295).is_err());
}

#[test]
fn asn_renders_with_prefix() {
    assert_eq!(Number::try_from(13335).unwrap().render(), "AS13335");
    assert_eq!(Number::try_from(4294967294).unwrap().render(), "AS4294967294");
    assert_eq!(Number::default().render(), "AS0");
}

#[test]
fn u32_parsing_matches_the_standard_grammar() {
    assert_eq!(parse_u32("0"), Some(0));
    assert_eq!(parse_u32("007"), Some(7));
    assert_eq!(parse_u32("+7"), Some(7));
    assert_eq!(parse_u32("4294967295"), Some(u32::MAX));
    assert_eq!(parse_u32("4294967296"), None);
    assert_eq!(parse_u32("99999999999999999999"), None);
    assert_eq!(parse_u32("-1"), None);
    assert_eq!(parse_u32(""), None);
    assert_eq!(parse_u32("+"), None);
    assert_eq!(parse_u32("1 "), None);
}

#[test]
fn i64_parsing_matches_the_standard_grammar() {
    assert_eq!(parse_i64("0"), Some(0));
    assert_eq!(parse_i64("-0"), Some(0));
    assert_eq!(parse_i64("+42"), Some(42));
    assert_eq!(parse_i64("9223372036854775807"), Some(i64::MAX));
    assert_eq!(parse_i64("-9223372036854775808"), Some(i64::MIN));
    assert_eq!(parse_i64("9223372036854775808"), None);
    assert_eq!(parse_i64("-9223372036854775809"), None);
    assert_eq!(parse_i64("--5"), None);
    assert_eq!(parse_i64(""), None);
    assert_eq!(parse_i64("-"), None);
}

#[test]
fn float_literal_grammar_agrees_with_the_standard_parser() {
    for raw in [
        "0", "37.7749", "-122.4194", "+1", "1.", ".5", "-.5", "1e10", "1E-10", "1.5e+3", "inf",
        "-inf", "Infinity", "NaN", "nan", "", ".", "+", "-", "1e", "1e+", "1.2.3", "+-1", "abc",
        "0x1", "1 ", " 1", "in", "infinityy",
    ] {
        assert_eq!(
            is_float_literal_str(raw),
            raw.parse::<f64>().is_ok(),
            "disagreement on {raw:?}"
        );
    }
}
