use cpu_thermal::label::{classify, is_whitespace, parse_core_id, Role, ThermalError};

#[test]
fn package_label_is_package() {
    assert_eq!(classify("Package id 0"), Ok(Role::Package));
}

#[test]
fn package_label_any_suffix() {
    assert_eq!(classify("Package"), Ok(Role::Package));
    assert_eq!(classify("  Package   whatever 42 x"), Ok(Role::Package));
}

#[test]
fn core_label_keeps_token() {
    assert_eq!(classify("Core 3"), Ok(Role::Core(String::from("3"))));
    assert_eq!(classify("\tCore\u{3000}17 extra"), Ok(Role::Core(String::from("17"))));
}

#[test]
fn core_label_without_token_is_malformed() {
    assert_eq!(classify("Core"), Err(ThermalError::MalformedLabel));
    assert_eq!(classify("Core   "), Err(ThermalError::MalformedLabel));
}

#[test]
fn empty_label_is_malformed() {
    assert_eq!(classify(""), Err(ThermalError::MalformedLabel));
    assert_eq!(classify(" \t\n"), Err(ThermalError::MalformedLabel));
}

#[test]
fn other_label_is_unclassified() {
    assert_eq!(classify("temp1"), Ok(Role::Unclassified));
    assert_eq!(classify("Cores 1"), Ok(Role::Unclassified));
    assert_eq!(classify("package 0"), Ok(Role::Unclassified));
}

#[test]
fn whitespace_matches_std() {
    for u in 0u32..0x3100 {
        if let Some(c) = char::from_u32(u) {
            assert_eq!(is_whitespace(c), c.is_whitespace(), "{:?}", c);
        }
    }
}

#[test]
fn core_id_numbers() {
    assert_eq!(parse_core_id("0"), Ok(0));
    assert_eq!(parse_core_id("1"), Ok(1));
    assert_eq!(parse_core_id("007"), Ok(7));
    assert_eq!(parse_core_id("+12"), Ok(12));
    assert_eq!(parse_core_id("255"), Ok(255));
}

#[test]
fn core_id_rejects() {
    assert_eq!(parse_core_id("x"), Err(ThermalError::InvalidCoreId));
    assert_eq!(parse_core_id(""), Err(ThermalError::InvalidCoreId));
    assert_eq!(parse_core_id("+"), Err(ThermalError::InvalidCoreId));
    assert_eq!(parse_core_id("-1"), Err(ThermalError::InvalidCoreId));
    assert_eq!(parse_core_id("256"), Err(ThermalError::InvalidCoreId));
    assert_eq!(parse_core_id("1a"), Err(ThermalError::InvalidCoreId));
    assert_eq!(parse_core_id("99999999999"), Err(ThermalError::InvalidCoreId));
}

#[test]
fn core_id_agrees_with_std() {
    for t in ["0", "9", "10", "200", "255", "256", "+5", "-0", "", "+", "01", "1 ", "٣"] {
        assert_eq!(parse_core_id(t).ok(), t.parse::<u8>().ok(), "{:?}", t);
    }
}
