use suiup::binary::BinaryName;
use suiup::errors::ParseError;
use suiup::parser::{parse_component_with_version, parse_version_spec};

#[test]
fn version_spec_none_defaults_to_testnet() {
    let r = parse_version_spec(None).unwrap();
    assert_eq!(r.0, "testnet");
    assert_eq!(r.1, None);
}

#[test]
fn version_spec_testnet_prefix() {
    let r = parse_version_spec(Some("testnet-1.39.3".to_string())).unwrap();
    assert_eq!(r.0, "testnet");
    assert_eq!(r.1, Some("1.39.3".to_string()));
}

#[test]
fn version_spec_devnet_prefix() {
    let r = parse_version_spec(Some("devnet-0.9.1".to_string())).unwrap();
    assert_eq!(r.0, "devnet");
    assert_eq!(r.1, Some("0.9.1".to_string()));
}

#[test]
fn version_spec_mainnet_prefix() {
    let r = parse_version_spec(Some("mainnet-2.0.0".to_string())).unwrap();
    assert_eq!(r.0, "mainnet");
    assert_eq!(r.1, Some("2.0.0".to_string()));
}

#[test]
fn version_spec_bare_network() {
    let r = parse_version_spec(Some("mainnet".to_string())).unwrap();
    assert_eq!(r.0, "mainnet");
    assert_eq!(r.1, None);
    let r = parse_version_spec(Some("devnet".to_string())).unwrap();
    assert_eq!(r.0, "devnet");
    assert_eq!(r.1, None);
    let r = parse_version_spec(Some("testnet".to_string())).unwrap();
    assert_eq!(r.0, "testnet");
    assert_eq!(r.1, None);
}

#[test]
fn version_spec_bare_version_goes_to_testnet() {
    let r = parse_version_spec(Some("1.2.0".to_string())).unwrap();
    assert_eq!(r.0, "testnet");
    assert_eq!(r.1, Some("1.2.0".to_string()));
}

#[test]
fn version_spec_keeps_rest_after_first_dash() {
    let r = parse_version_spec(Some("testnet-v1.39.3-rc.1".to_string())).unwrap();
    assert_eq!(r.0, "testnet");
    assert_eq!(r.1, Some("v1.39.3-rc.1".to_string()));
}

#[test]
fn component_bare_name() {
    let m = parse_component_with_version("sui").unwrap();
    assert_eq!(m.name, BinaryName::Sui);
    assert_eq!(m.network, "testnet");
    assert_eq!(m.version, None);
}

#[test]
fn component_at_with_network_version() {
    let m = parse_component_with_version("sui@testnet-1.39.3").unwrap();
    assert_eq!(m.name, BinaryName::Sui);
    assert_eq!(m.network, "testnet");
    assert_eq!(m.version, Some("1.39.3".to_string()));
}

#[test]
fn component_double_eq_with_network() {
    let m = parse_component_with_version("walrus==mainnet").unwrap();
    assert_eq!(m.name, BinaryName::Walrus);
    assert_eq!(m.network, "mainnet");
    assert_eq!(m.version, None);
}

#[test]
fn component_single_eq() {
    let m = parse_component_with_version("walrus=mainnet").unwrap();
    assert_eq!(m.name, BinaryName::Walrus);
    assert_eq!(m.network, "mainnet");
    assert_eq!(m.version, None);
}

#[test]
fn component_space_delimiter() {
    let m = parse_component_with_version("mvr testnet-0.0.5").unwrap();
    assert_eq!(m.name, BinaryName::Mvr);
    assert_eq!(m.network, "testnet");
    assert_eq!(m.version, Some("0.0.5".to_string()));
}

#[test]
fn component_unknown_name_fails() {
    let e = parse_component_with_version("unknown@testnet").unwrap_err();
    assert!(matches!(e, ParseError::InvalidBinaryName(t) if t == "unknown"));
}

#[test]
fn component_three_parts_fails() {
    let e = parse_component_with_version("sui@a@b").unwrap_err();
    assert!(matches!(e, ParseError::InvalidSpecifierFormat(t) if t == "sui@a@b"));
}

#[test]
fn component_empty_input_fails_as_bad_name() {
    let e = parse_component_with_version("").unwrap_err();
    assert!(matches!(e, ParseError::InvalidBinaryName(t) if t.is_empty()));
}

#[test]
fn component_at_beats_eq() {
    // `@` wins over `=`, so the version part is everything after `@`.
    let m = parse_component_with_version("sui@mainnet=1").unwrap();
    assert_eq!(m.name, BinaryName::Sui);
    assert_eq!(m.network, "testnet");
    assert_eq!(m.version, Some("mainnet=1".to_string()));
}

#[test]
fn component_trailing_at_pins_empty_version() {
    let m = parse_component_with_version("sui@").unwrap();
    assert_eq!(m.name, BinaryName::Sui);
    assert_eq!(m.network, "testnet");
    assert_eq!(m.version, Some(String::new()));
}

#[test]
fn component_site_builder() {
    let m = parse_component_with_version("site-builder@mainnet-1.0.0").unwrap();
    assert_eq!(m.name, BinaryName::WalrusSites);
    assert_eq!(m.network, "mainnet");
    assert_eq!(m.version, Some("1.0.0".to_string()));
}

#[test]
fn error_messages_match_the_cli() {
    let e = parse_component_with_version("nope").unwrap_err();
    assert_eq!(
        e.message(),
        "Invalid binary name: nope. Use `suiup list` to find available binaries to install."
    );
    let e = parse_component_with_version("a@b@c").unwrap_err();
    assert_eq!(
        e.message(),
        "Invalid format. Use 'binary' or 'binary version'"
    );
}
