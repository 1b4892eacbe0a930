use std::str::FromStr;

use dns_resolve::addr::{IpAddr, SocketAddr};
use dns_resolve::name::Name;
use dns_resolve::overrides::{DnsResolverWithOverrides, Lookup, Overrides};
use dns_resolve::resolver::DynResolver;
use dns_resolve::tracking::{DnsCheck, DnsTable, DnsTrackingResolver, IpSet};

fn name(text: &str) -> Name {
    Name::from_str(text).unwrap()
}

fn addr(ip: u32, port: u16) -> SocketAddr {
    SocketAddr::new(IpAddr::V4(ip), port)
}

fn check(hostname: &str, ip: IpAddr) -> DnsCheck<()> {
    DnsCheck { hostname: hostname.to_string(), connected_ip: ip, dns_state: () }
}

fn stale(table: &DnsTable, hostname: &str, ip: u32) -> bool {
    check(hostname, IpAddr::V4(ip)).is_obsolete(Some(table))
}

/// One resolution through a tracking resolver.
fn track(table: &mut DnsTable, hostname: &str, addrs: Vec<SocketAddr>) -> Vec<SocketAddr> {
    let tracking = DnsTrackingResolver::new((), ());
    let (query, pending) = tracking.resolve(name(hostname));
    assert_eq!(query.name.as_str(), hostname);
    match pending.answered::<()>(Ok(addrs)) {
        Ok(record) => record.store(Some(table)),
        Err(()) => panic!("an answer was given"),
    }
}

#[test]
fn ip_set_forgets_ports_order_and_repetition() {
    let set = IpSet::of(&vec![addr(2, 80), addr(1, 0), addr(2, 443)]);
    assert!(set.contains(&IpAddr::V4(1)));
    assert!(set.contains(&IpAddr::V4(2)));
    assert!(!set.contains(&IpAddr::V4(3)));
}

#[test]
fn ip_set_tells_the_families_apart() {
    let mut set = IpSet::new();
    assert!(!set.contains(&IpAddr::V6(1)));
    set.insert(IpAddr::V6(1));
    assert!(set.contains(&IpAddr::V6(1)));
    assert!(!set.contains(&IpAddr::V4(1)));
}

#[test]
fn ip_set_lists_each_address_once() {
    let set = IpSet::of(&vec![addr(2, 80), addr(1, 0), addr(2, 443)]);
    let mut ips = set.to_vec();
    ips.sort_by_key(|ip| match ip {
        IpAddr::V4(ip) => u128::from(*ip),
        IpAddr::V6(ip) => *ip,
    });
    assert_eq!(ips, vec![IpAddr::V4(1), IpAddr::V4(2)]);

    let mut set = IpSet::new();
    assert_eq!(set.to_vec(), vec![]);
    set.insert(IpAddr::V6(7));
    assert_eq!(set.to_vec(), vec![IpAddr::V6(7)]);
}

#[test]
fn table_keeps_one_set_per_host() {
    let mut table = DnsTable::new();
    assert!(table.get("a.test").is_none());
    table.insert("a.test".to_string(), IpSet::of(&vec![addr(1, 0)]));
    assert!(table.get("a.test").unwrap().contains(&IpAddr::V4(1)));
    assert!(table.get("A.test").is_none());
}

#[test]
fn tracking_passes_the_question_on() {
    let tracking = DnsTrackingResolver::new("inner", "state");
    let (query, pending) = tracking.resolve(name("a.test"));
    assert_eq!(*query.resolver, "inner");
    assert_eq!(query.name.as_str(), "a.test");
    assert_eq!(*pending.state, "state");
    assert_eq!(pending.hostname, "a.test");
    let record = match pending.answered::<()>(Ok(vec![addr(1, 2)])) {
        Ok(record) => record,
        Err(()) => panic!("an answer was given"),
    };
    assert_eq!(*record.state(), "state");
    assert_eq!(record.store(None), vec![addr(1, 2)]);
}

#[test]
fn tracking_returns_the_addresses_as_they_came() {
    let mut table = DnsTable::new();
    let addrs = vec![addr(2, 80), addr(1, 0), addr(2, 80)];
    assert_eq!(track(&mut table, "a.test", addrs.clone()), addrs);
}

#[test]
fn failed_resolution_leaves_nothing_to_record() {
    let tracking = DnsTrackingResolver::new((), ());
    let (_, pending) = tracking.resolve(name("a.test"));
    match pending.answered(Err("no entry for a.test")) {
        Ok(_) => panic!("there is no answer to record"),
        Err(error) => assert_eq!(error, "no entry for a.test"),
    }
}

#[test]
fn nothing_is_obsolete_without_a_record() {
    let table = DnsTable::new();
    assert!(!stale(&table, "a.test", 1));

    let mut table = DnsTable::new();
    track(&mut table, "b.test", vec![addr(2, 0)]);
    assert!(!stale(&table, "a.test", 1));
}

#[test]
fn nothing_is_obsolete_by_an_unreadable_table() {
    assert!(!check("a.test", IpAddr::V4(1)).is_obsolete(None));
}

#[test]
fn unwritable_table_keeps_its_record() {
    let mut table = DnsTable::new();
    track(&mut table, "a.test", vec![addr(1, 0)]);
    let tracking = DnsTrackingResolver::new((), ());
    let (_, pending) = tracking.resolve(name("a.test"));
    match pending.answered::<()>(Ok(vec![addr(2, 0)])) {
        Ok(record) => assert_eq!(record.store(None), vec![addr(2, 0)]),
        Err(()) => panic!("an answer was given"),
    }
    assert!(!stale(&table, "a.test", 1));
    assert!(stale(&table, "a.test", 2));
}

#[test]
fn changed_answer_makes_old_connections_obsolete() {
    let domain = "pooltest-eviction.test";
    let mut table = DnsTable::new();
    track(&mut table, domain, vec![addr(0x7f00_0001, 8000)]);
    assert!(!stale(&table, domain, 0x7f00_0001));
    // 192.0.2.1
    track(&mut table, domain, vec![addr(0xc000_0201, 1)]);
    assert!(stale(&table, domain, 0x7f00_0001));
    assert!(!stale(&table, domain, 0xc000_0201));
}

#[test]
fn unchanged_answer_keeps_connections() {
    let domain = "pooltest-stable.test";
    let mut table = DnsTable::new();
    for _ in 0..5 {
        track(&mut table, domain, vec![addr(0x7f00_0001, 8000)]);
        assert!(!stale(&table, domain, 0x7f00_0001));
    }
}

#[test]
fn new_port_or_order_keeps_connections() {
    let mut table = DnsTable::new();
    track(&mut table, "a.test", vec![addr(1, 80), addr(2, 80)]);
    track(&mut table, "a.test", vec![addr(2, 443), addr(1, 0), addr(2, 80)]);
    assert!(!stale(&table, "a.test", 1));
    assert!(!stale(&table, "a.test", 2));
    assert!(stale(&table, "a.test", 3));
}

#[test]
fn other_hosts_do_not_make_a_connection_obsolete() {
    let domain = "pooltest-same-ip.test";
    let mut table = DnsTable::new();
    track(&mut table, domain, vec![addr(1, 80)]);
    for ip in 2..6 {
        track(&mut table, "other.test", vec![addr(ip, 80)]);
        track(&mut table, "Pooltest-same-ip.test", vec![addr(ip, 80)]);
        assert!(!stale(&table, domain, 1));
    }
    track(&mut table, domain, vec![addr(1, 80), addr(9, 80)]);
    assert!(!stale(&table, domain, 1));
}

#[test]
fn last_answer_of_a_history_decides() {
    let mut table = DnsTable::new();
    track(&mut table, "a.test", vec![addr(1, 0)]);
    track(&mut table, "b.test", vec![addr(2, 0)]);
    track(&mut table, "a.test", vec![addr(3, 0)]);
    track(&mut table, "b.test", vec![addr(4, 0)]);
    assert!(stale(&table, "a.test", 1));
    assert!(!stale(&table, "a.test", 3));
    assert!(stale(&table, "b.test", 2));
    assert!(!stale(&table, "b.test", 4));
    assert!(!stale(&table, "c.test", 1));
}

#[test]
fn empty_answer_makes_every_connection_obsolete() {
    let mut table = DnsTable::new();
    track(&mut table, "a.test", vec![]);
    assert!(stale(&table, "a.test", 1));
    assert!(check("a.test", IpAddr::V6(1)).is_obsolete(Some(&table)));
}

#[test]
fn cloned_check_judges_alike() {
    let mut table = DnsTable::new();
    track(&mut table, "a.test", vec![addr(2, 0)]);
    let check = check("a.test", IpAddr::V4(1));
    assert!(check.clone().is_obsolete(Some(&table)));
}

#[test]
fn ported_answer_is_valid_by_its_record() {
    let resolver = DynResolver::new(());
    let uri: http::Uri = "https://a.test:8443/".parse().unwrap();
    let asked = resolver.http_resolve(&uri).unwrap();
    let mut table = DnsTable::new();
    let addrs = track(&mut table, asked.query.name.as_str(), vec![addr(1, 0), addr(2, 5)]);
    let ported = asked.ports.finish::<()>(Ok(addrs)).unwrap();
    assert_eq!(ported, vec![addr(1, 8443), addr(2, 8443)]);
    for addr in ported {
        assert!(!check("a.test", addr.ip()).is_obsolete(Some(&table)));
    }
}

#[test]
fn override_answers_without_asking() {
    let mut overrides = Overrides::new();
    overrides.insert("a.test".to_string(), vec![addr(1, 0), addr(2, 8080)]);
    let resolver = DnsResolverWithOverrides::new("inner", overrides);
    match resolver.resolve(name("a.test")) {
        Lookup::Ready(addrs) => assert_eq!(addrs, vec![addr(1, 0), addr(2, 8080)]),
        Lookup::Ask(_) => panic!("the addresses are fixed"),
    }
}

#[test]
fn other_names_are_asked_for() {
    let mut overrides = Overrides::new();
    overrides.insert("a.test".to_string(), vec![addr(1, 0)]);
    let resolver = DnsResolverWithOverrides::new("inner", overrides);
    for text in ["b.test", "A.test", "a.test.", ""] {
        match resolver.resolve(name(text)) {
            Lookup::Ready(_) => panic!("{text} is not fixed"),
            Lookup::Ask(query) => {
                assert_eq!(*query.resolver, "inner");
                assert_eq!(query.name.as_str(), text);
            }
        }
    }
}

#[test]
fn later_override_replaces_an_earlier_one() {
    let mut overrides = Overrides::new();
    assert!(overrides.get("a.test").is_none());
    overrides.insert("a.test".to_string(), vec![addr(1, 0)]);
    overrides.insert("a.test".to_string(), vec![]);
    assert_eq!(overrides.get("a.test"), Some(vec![]));
}

#[test]
fn tracked_override_is_never_obsolete() {
    let domain = "pooltest-override.test";
    let mut overrides = Overrides::new();
    overrides.insert(domain.to_string(), vec![addr(0x7f00_0001, 8000)]);
    let resolver = DnsResolverWithOverrides::new((), overrides);
    let mut table = DnsTable::new();
    for _ in 0..2 {
        match resolver.resolve(name(domain)) {
            Lookup::Ready(addrs) => {
                track(&mut table, domain, addrs);
            }
            Lookup::Ask(_) => panic!("the addresses are fixed"),
        }
        assert!(!stale(&table, domain, 0x7f00_0001));
    }
}
