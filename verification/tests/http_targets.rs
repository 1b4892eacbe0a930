use std::str::FromStr;

use dns_resolve::addr::{IpAddr, SocketAddr, SocketAddrV4, SocketAddrV6};
use dns_resolve::resolver::{DynResolver, HttpResolveError};
use dns_resolve::target::{conventional_port, is_host_readable, PortRule, UriParts};
use http::uri::Authority;
use http::Uri;
use hyper_util::client::legacy::connect::dns::Name as HyperName;

fn uri(text: &str) -> Uri {
    text.parse().unwrap()
}

fn v4(last: u8, port: u16) -> SocketAddr {
    SocketAddr::new(IpAddr::V4(0x7f00_0000 + u32::from(last)), port)
}

fn rule_for(text: &str) -> PortRule {
    DynResolver::new(()).http_resolve(&uri(text)).unwrap().ports
}

#[test]
fn socket_addr_parts() {
    let mut addr = SocketAddr::new(IpAddr::V4(0xc000_0201), 1);
    assert_eq!(addr, SocketAddr::V4(SocketAddrV4 { ip: 0xc000_0201, port: 1 }));
    assert_eq!(addr.ip(), IpAddr::V4(0xc000_0201));
    assert_eq!(addr.port(), 1);
    addr.set_port(443);
    assert_eq!(addr, SocketAddr::V4(SocketAddrV4 { ip: 0xc000_0201, port: 443 }));

    let addr = SocketAddr::new(IpAddr::V6(1), 80);
    assert_eq!(
        addr,
        SocketAddr::V6(SocketAddrV6 { ip: 1, port: 80, flowinfo: 0, scope_id: 0 })
    );
    assert_eq!(addr.ip(), IpAddr::V6(1));
}

#[test]
fn uri_parts_are_read() {
    let parts = UriParts::of(&uri("https://user:pw@www.example.org:8443/install?x=1"));
    assert_eq!(parts.host.as_deref(), Some("www.example.org"));
    assert_eq!(parts.port, Some(8443));
    assert!(parts.explicit_port);
    assert_eq!(parts.scheme.as_deref(), Some("https"));

    let parts = UriParts::of(&uri("/only/a/path"));
    assert_eq!(parts.host, None);
    assert_eq!(parts.port, None);
    assert!(!parts.explicit_port);
    assert_eq!(parts.scheme, None);
}

#[test]
fn uri_parts_of_a_bracketed_host() {
    let parts = UriParts::of(&uri("http://[::1]/"));
    assert_eq!(parts.host.as_deref(), Some("[::1]"));
    assert_eq!(parts.port, None);
    assert!(!parts.explicit_port);

    let parts = UriParts::of(&uri("http://[::1]:81/"));
    assert_eq!(parts.host.as_deref(), Some("[::1]"));
    assert_eq!(parts.port, Some(81));
    assert!(parts.explicit_port);
}

#[test]
fn conventional_ports() {
    for (scheme, port) in [
        ("https", 443),
        ("socks4", 1080),
        ("socks4a", 1080),
        ("socks5", 1080),
        ("socks5h", 1080),
        ("http", 80),
        ("ftp", 80),
        ("SOCKS5", 80),
        ("", 80),
    ] {
        assert_eq!(conventional_port(&Some(scheme.to_string())), port, "{scheme}");
    }
    assert_eq!(conventional_port(&None), 80);
}

#[test]
fn rule_without_a_port_takes_that_of_the_scheme() {
    for (text, port) in [
        ("http://h.test/", 80),
        ("https://h.test/", 443),
        ("HTTPS://h.test/", 443),
        ("socks4://h.test", 1080),
        ("socks4a://h.test", 1080),
        ("socks5://h.test", 1080),
        ("socks5h://h.test", 1080),
        ("h.test", 80),
    ] {
        assert_eq!(rule_for(text), PortRule { port, explicit_port: false }, "{text}");
    }
}

#[test]
fn rule_with_a_port_is_explicit() {
    assert_eq!(rule_for("http://h.test:8080/"), PortRule { port: 8080, explicit_port: true });
    assert_eq!(rule_for("socks5://h.test:9050"), PortRule { port: 9050, explicit_port: true });
    assert_eq!(rule_for("http://h.test:0/"), PortRule { port: 0, explicit_port: true });
    assert_eq!(rule_for("h.test:443"), PortRule { port: 443, explicit_port: true });
}

#[test]
fn explicit_port_overrides_every_port() {
    let rule = rule_for("http://h.test:8080/");
    let answer: Result<_, ()> = Ok(vec![v4(1, 0), v4(2, 443), v4(3, 8080)]);
    assert_eq!(rule.finish(answer), Ok(vec![v4(1, 8080), v4(2, 8080), v4(3, 8080)]));
}

#[test]
fn conventional_port_replaces_port_zero_only() {
    let rule = rule_for("https://h.test/");
    let answer: Result<_, ()> = Ok(vec![v4(1, 0), v4(2, 8443), v4(1, 0)]);
    assert_eq!(rule.finish(answer), Ok(vec![v4(1, 443), v4(2, 8443), v4(1, 443)]));
}

#[test]
fn explicit_port_zero_is_taken_at_its_word() {
    let rule = rule_for("http://h.test:0/");
    assert_eq!(rule.apply(v4(1, 443)), v4(1, 0));
}

#[test]
fn ports_leave_the_rest_of_an_address_alone() {
    let rule = rule_for("http://h.test/");
    let addr = SocketAddr::V6(SocketAddrV6 { ip: 7, port: 0, flowinfo: 8, scope_id: 9 });
    let ported = SocketAddr::V6(SocketAddrV6 { ip: 7, port: 80, flowinfo: 8, scope_id: 9 });
    assert_eq!(rule.apply(addr), ported);
    assert_eq!(rule.apply(addr).ip(), addr.ip());
}

#[test]
fn ports_are_settled_once() {
    for text in ["http://h.test/", "https://h.test:1/", "http://h.test:0/"] {
        let rule = rule_for(text);
        let once: Result<Vec<SocketAddr>, ()> = rule.finish(Ok(vec![v4(1, 0), v4(2, 5)]));
        assert_eq!(rule.finish(once.clone()), once);
    }
}

#[test]
fn parts_decide_the_rule_on_their_own() {
    let parts = UriParts {
        host: Some("h.test".to_string()),
        port: Some(99),
        explicit_port: false,
        scheme: Some("https".to_string()),
    };
    let rule = parts.port_rule();
    assert_eq!(rule, PortRule { port: 99, explicit_port: false });
    assert_eq!(rule.apply(v4(1, 0)), v4(1, 99));
    assert_eq!(rule.apply(v4(1, 1)), v4(1, 1));
}

#[test]
fn resolver_error_passes_through_the_ports() {
    let rule = rule_for("http://h.test:8080/");
    assert_eq!(rule.finish(Err("no such host")), Err("no such host"));
}

#[test]
fn empty_answer_stays_empty() {
    let rule = rule_for("http://h.test:8080/");
    assert_eq!(rule.finish::<()>(Ok(vec![])), Ok(vec![]));
}

#[test]
fn http_resolve_asks_for_the_host() {
    let resolver = DynResolver::new("handle");
    let asked = resolver.http_resolve(&uri("https://Host.Test:1/x")).unwrap();
    assert_eq!(*asked.query.resolver, "handle");
    assert_eq!(asked.query.name.as_str(), "Host.Test");
    assert_eq!(asked.ports, PortRule { port: 1, explicit_port: true });
}

#[test]
fn http_resolve_without_a_host_fails() {
    let error = DynResolver::new(()).http_resolve(&uri("/path")).unwrap_err();
    assert!(matches!(error, HttpResolveError::MissingHost));
    assert_eq!(error.message(), "missing host");

    let parts = UriParts { host: None, port: Some(1), explicit_port: true, scheme: None };
    assert!(DynResolver::new(()).http_resolve_parts(&parts).is_err());
}

#[test]
fn invalid_name_keeps_its_message() {
    let error = dns_resolve::name::Name::from_parsed(Err(())).unwrap_err();
    assert_eq!(HttpResolveError::InvalidName(error).message(), "invalid DNS name");
}

#[test]
fn call_passes_the_name_on() {
    let resolver = DynResolver::new(5);
    let query = resolver.call(HyperName::from_str("a.test").unwrap());
    assert_eq!(*query.resolver, 5);
    assert_eq!(query.name.as_str(), "a.test");
    assert_eq!(resolver.clone().resolver, 5);
}

#[test]
fn host_of_a_parsed_uri_is_readable() {
    for text in [
        "http://h.test/",
        "http://user:pw@h.test:80/",
        "http://a@b@h.test/",
        "http://[::1]:81/",
        "http://user@[::1]/",
        "h.test",
        "/only/a/path@",
        "*",
    ] {
        assert!(is_host_readable(&uri(text)), "{text}");
    }
}

#[test]
fn authority_without_a_host_is_not_read() {
    for text in ["/@", "a/b@", "/@[", "a/@[::1"] {
        let target = Uri::from(Authority::from_static(text));
        assert!(!is_host_readable(&target), "{text}");
        assert!(DynResolver::new(()).http_resolve_checked(&target).is_none(), "{text}");
    }
}

#[test]
fn odd_authority_with_a_host_is_read() {
    for (text, host) in [("a/b@c", "c"), ("/@[x]y", "[x]"), ("/@x[", "x[")] {
        let target = Uri::from(Authority::from_static(text));
        let resolver = DynResolver::new(());
        let asked = resolver.http_resolve_checked(&target).unwrap().unwrap();
        assert_eq!(asked.query.name.as_str(), host, "{text}");
    }
}

#[test]
fn checked_http_resolve_agrees_with_the_unchecked_one() {
    let resolver = DynResolver::new("handle");
    let asked = resolver.http_resolve_checked(&uri("https://h.test/")).unwrap().unwrap();
    assert_eq!(*asked.query.resolver, "handle");
    assert_eq!(asked.query.name.as_str(), "h.test");
    assert_eq!(asked.ports, PortRule { port: 443, explicit_port: false });

    let error = resolver.http_resolve_checked(&uri("/path")).unwrap().unwrap_err();
    assert!(matches!(error, HttpResolveError::MissingHost));
}

#[test]
fn host_is_cut_out_of_the_authority() {
    for (authority, host) in [
        ("h.test", "h.test"),
        ("h.test:80", "h.test"),
        ("h.test:", "h.test"),
        ("user:pw@h.test:80", "h.test"),
        ("a@b:c@h.test", "h.test"),
        ("[::1]", "[::1]"),
        ("u:1@[fe80::1]:80", "[fe80::1]"),
        (":80", ""),
    ] {
        let parts = UriParts::of(&Uri::from(authority.parse::<Authority>().unwrap()));
        assert_eq!(parts.host.as_deref(), Some(host), "{authority}");
    }
}

#[test]
fn port_is_the_number_behind_the_last_colon() {
    for (authority, port) in [
        ("h.test", None),
        ("h.test:", None),
        ("h.test:+", None),
        ("h.test:-1", None),
        ("h.test:x", None),
        ("h.test:8x", None),
        ("h.test:65536", None),
        ("h.test:99999999999999999999", None),
        ("[::1]", None),
        ("u:80@h.test", None),
        ("h.test:0", Some(0)),
        ("h.test:80", Some(80)),
        ("h.test:+80", Some(80)),
        ("h.test:65535", Some(65535)),
        ("h.test:000000000000000000080", Some(80)),
        ("u:1@[::1]:81", Some(81)),
    ] {
        let parts = UriParts::of(&Uri::from(authority.parse::<Authority>().unwrap()));
        assert_eq!(parts.port, port, "{authority}");
        assert_eq!(parts.explicit_port, port.is_some(), "{authority}");
    }
}
