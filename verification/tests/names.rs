use std::str::FromStr;

use dns_resolve::name::Name;
use hyper_util::client::legacy::connect::dns::Name as HyperName;

#[test]
fn name_keeps_its_text() {
    let name = Name::from_str("pooltest-eviction.test").unwrap();
    assert_eq!(name.as_str(), "pooltest-eviction.test");
}

#[test]
fn name_keeps_upper_case() {
    let name: Name = "Example.COM".parse().unwrap();
    assert_eq!(name.as_str(), "Example.COM");
}

#[test]
fn every_text_is_a_name() {
    for text in ["", "*", "a b", "\u{fc}nicode.test", "[::1]"] {
        assert_eq!(Name::from_str(text).unwrap().as_str(), text);
    }
}

#[test]
fn parsed_name_is_wrapped() {
    let inner = HyperName::from_str("host.test").unwrap();
    let name = Name::from_parsed::<()>(Ok(inner)).unwrap();
    assert_eq!(name.as_str(), "host.test");
}

#[test]
fn any_parse_failure_is_an_invalid_name() {
    let error = Name::from_parsed(Err("boom")).unwrap_err();
    assert_eq!(error.message(), "invalid DNS name");
}

#[test]
fn name_shows_its_text_in_debug_output() {
    let name = Name::from_str("host.test").unwrap();
    assert_eq!(format!("{:?}", name), "Name(\"host.test\")");
}
