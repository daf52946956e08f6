use jdk_pulse_core::version::{extract_quoted_segment, parse_decimal_u32, parse_major_version};

#[test]
fn legacy_version_gives_number_after_prefix() {
    assert_eq!(parse_major_version("1.8.0_382"), 8);
    assert_eq!(parse_major_version("1.7.0"), 7);
    assert_eq!(parse_major_version("1.11"), 11);
}

#[test]
fn modern_version_gives_number_before_first_dot() {
    assert_eq!(parse_major_version("21.0.1"), 21);
    assert_eq!(parse_major_version("17"), 17);
    assert_eq!(parse_major_version("11.0.2+9"), 11);
}

#[test]
fn malformed_legacy_version_defaults_to_eight() {
    assert_eq!(parse_major_version("1.x.0"), 8);
    assert_eq!(parse_major_version("1."), 8);
    assert_eq!(parse_major_version("1.99999999999.0"), 8);
}

#[test]
fn malformed_modern_version_defaults_to_zero() {
    assert_eq!(parse_major_version(""), 0);
    assert_eq!(parse_major_version("abc"), 0);
    assert_eq!(parse_major_version("openjdk64-21.0.10"), 0);
    assert_eq!(parse_major_version(".5"), 0);
    assert_eq!(parse_major_version("99999999999.0"), 0);
}

#[test]
fn version_one_without_dot_is_modern() {
    assert_eq!(parse_major_version("1"), 1);
}

#[test]
fn decimal_reading_follows_std() {
    for s in ["0", "42", "+7", "4294967295", "4294967296", "", "+", "-1", "1a", " 1", "007"] {
        assert_eq!(parse_decimal_u32(s), s.parse::<u32>().ok(), "input {:?}", s);
    }
}

#[test]
fn quoted_segment_absent_without_pair() {
    assert_eq!(extract_quoted_segment("no quotes here"), None);
    assert_eq!(extract_quoted_segment("one \"open quote"), None);
    assert_eq!(extract_quoted_segment(""), None);
}

#[test]
fn quoted_segment_is_first_pair() {
    assert_eq!(
        extract_quoted_segment("21.0.1 (x86_64) \"Eclipse Adoptium\" - \"OpenJDK 64-Bit Server VM\" /x"),
        Some("Eclipse Adoptium".to_string())
    );
    assert_eq!(extract_quoted_segment("\"\" \"b\""), Some(String::new()));
    assert_eq!(extract_quoted_segment("a \"b c\" d"), Some("b c".to_string()));
}
