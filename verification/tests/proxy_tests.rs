//! Tests for proxy port patterns, actions, and configuration validation.

use chanmgr::proxy::{
    parse_u16, u16_decimal, ConfigBuildError, Encapsulation, ProxyAction, ProxyConfig,
    ProxyConfigError, ProxyPattern, ProxyRule, SockAddr, TargetAddr,
};
use chanmgr::proxy::ProxyAction as T;
use chanmgr::proxy::ProxyConfigError as PCE;
use chanmgr::proxy::ProxyPattern as P;

#[test]
fn pattern_ok() {
    assert_eq!(P::from_str("*").unwrap(), P(1, 65535));
    assert_eq!(P::from_str("100").unwrap(), P(100, 100));
    assert_eq!(P::from_str("100-200").unwrap(), P(100, 200));
    assert_eq!(P::from_str("0-200").unwrap(), P(1, 200));
}

#[test]
fn pattern_display() {
    assert_eq!(P::all_ports().display_string(), "*");
    assert_eq!(P::one_port(100).unwrap().display_string(), "100");
    assert_eq!(P::port_range(100, 200).unwrap().display_string(), "100-200");
}

#[test]
fn pattern_err() {
    assert!(matches!(P::from_str("fred"), Err(PCE::InvalidPort)));
    assert!(matches!(P::from_str("100-fred"), Err(PCE::InvalidPort)));
    assert!(matches!(P::from_str("100-42"), Err(PCE::EmptyPortRange)));
    assert!(matches!(P::from_str("100-0"), Err(PCE::ZeroPort)));
    assert!(matches!(P::from_str(""), Err(PCE::InvalidPort)));
}

#[test]
fn pattern_matching() {
    let p = ProxyPattern::port_range(100, 200).unwrap();
    assert!(p.matches_port(100));
    assert!(p.matches_port(200));
    assert!(!p.matches_port(99));
    assert!(!p.matches_port(201));
}

#[test]
fn parse_numbers() {
    assert_eq!(parse_u16(b"0"), Some(0));
    assert_eq!(parse_u16(b"65535"), Some(65535));
    assert_eq!(parse_u16(b"65536"), None);
    assert_eq!(parse_u16(b"+17"), Some(17));
    assert_eq!(parse_u16(b""), None);
    assert_eq!(parse_u16(b"+"), None);
    assert_eq!(parse_u16(b"-1"), None);
    assert_eq!(parse_u16(b"1 2"), None);
    assert_eq!(u16_decimal(0), "0");
    assert_eq!(u16_decimal(65535), "65535");
    assert_eq!(u16_decimal(100), "100");
}

#[test]
fn action_keywords() {
    assert!(matches!(T::parse_keyword("reject"), Some(T::RejectStream)));
    assert!(matches!(T::parse_keyword("ignore"), Some(T::IgnoreStream)));
    assert!(matches!(T::parse_keyword("destroy"), Some(T::DestroyCircuit)));
    assert!(T::parse_keyword("sdakljf").is_none());
    assert!(matches!(T::default(), T::DestroyCircuit));
    assert!(matches!(Encapsulation::default(), Encapsulation::Simple));
}

fn forward_to(addr: Vec<u8>, port: u16) -> ProxyAction {
    ProxyAction::Forward(Encapsulation::Simple, TargetAddr::Inet(SockAddr::V4(addr, port)))
}

#[test]
fn validation_fail() {
    // This should fail; the third pattern is not reachable.
    let rules = vec![
        ProxyRule::new(ProxyPattern::port_range(2, 300).unwrap(), forward_to(vec![127, 0, 0, 1], 11443)),
        ProxyRule::new(ProxyPattern::port_range(301, 999).unwrap(), ProxyAction::IgnoreStream),
        ProxyRule::new(ProxyPattern::port_range(30, 310).unwrap(), ProxyAction::DestroyCircuit),
    ];
    match ProxyConfig::new(rules) {
        Err(ConfigBuildError::Invalid { field, problem }) => {
            assert_eq!(field, "proxy_ports");
            assert_eq!(problem, "Port pattern 30-310 is not reachable");
        }
        other => panic!("Expected an Invalid error; got {other:?}"),
    }

    // This should work; the third pattern is not completely covered.
    let rules = vec![
        ProxyRule::new(ProxyPattern::port_range(2, 300).unwrap(), forward_to(vec![127, 0, 0, 1], 11443)),
        ProxyRule::new(ProxyPattern::port_range(302, 999).unwrap(), ProxyAction::IgnoreStream),
        ProxyRule::new(ProxyPattern::port_range(30, 310).unwrap(), ProxyAction::DestroyCircuit),
    ];
    assert!(ProxyConfig::new(rules).is_ok());
}

#[test]
fn resolve_port() {
    let rules = vec![
        ProxyRule::new(ProxyPattern::one_port(443).unwrap(), forward_to(vec![127, 0, 0, 1], 11443)),
        ProxyRule::new(ProxyPattern::one_port(80).unwrap(), ProxyAction::IgnoreStream),
        ProxyRule::new(ProxyPattern::all_ports(), ProxyAction::DestroyCircuit),
    ];
    let cfg = ProxyConfig::new(rules).unwrap();
    assert_eq!(cfg.proxy_ports.len(), 3);
    assert!(matches!(cfg.resolve_port_for_begin(443), Some(ProxyAction::Forward(..))));
    assert!(matches!(cfg.resolve_port_for_begin(80), Some(ProxyAction::IgnoreStream)));
    assert!(matches!(cfg.resolve_port_for_begin(81), Some(ProxyAction::DestroyCircuit)));
}
