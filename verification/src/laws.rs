//! What holds of the library as a whole.

use crate::addr::{ips_of, IpAddr, SocketAddr, SocketAddrV4, SocketAddrV6};
use crate::name::{hyper_name_text, Name};
use crate::target::{
    decimal, has_host, host_and_port, host_of, host_readable, is_bare_host, lemma_behind_userinfo,
    lemma_host_is_bare, opt_string, opt_text, port_of, port_of_scheme, uri_authority, uri_host,
    uri_port, uri_scheme, PortRule,
};
use crate::tracking::{obsolete, opt_table, recorded, DnsTable};
use http::Uri;
use hyper_util::client::legacy::connect::dns::Name as HyperName;
use vstd::prelude::*;

verus! {

/// A host and the addresses that it was resolved to.
pub struct Resolution {
    pub hostname: Seq<char>,
    pub addrs: Seq<SocketAddr>,
}

/// A table after a series of resolutions.
pub open spec fn after(
    table: Map<Seq<char>, Set<IpAddr>>,
    history: Seq<Resolution>,
) -> Map<Seq<char>, Set<IpAddr>>
    decreases history.len(),
{
    if history.len() == 0 {
        table
    } else {
        recorded(
            after(table, history.drop_last()),
            history.last().hostname,
            history.last().addrs,
        )
    }
}

/// Whether `i` is the place of the last resolution of a host.
pub open spec fn is_last_of(history: Seq<Resolution>, hostname: Seq<char>, i: int) -> bool {
    &&& 0 <= i < history.len()
    &&& history[i].hostname == hostname
    &&& forall|j: int| i < j < history.len() ==> (#[trigger] history[j]).hostname != hostname
}

/// A connection is not obsolete by a table that could not be read, nor by one
/// that holds no record of its host.
pub proof fn law_no_record_no_eviction(hostname: Seq<char>, ip: IpAddr)
    ensures
        !obsolete(None, hostname, ip),
        forall|table: Map<Seq<char>, Set<IpAddr>>|
            !table.contains_key(hostname) ==> !#[trigger] obsolete(Some(table), hostname, ip),
{
}

/// Once a host was resolved, exactly the connections to addresses outside the
/// answer are obsolete.
pub proof fn law_answer_decides(
    table: Map<Seq<char>, Set<IpAddr>>,
    hostname: Seq<char>,
    addrs: Seq<SocketAddr>,
    ip: IpAddr,
)
    ensures
        obsolete(Some(recorded(table, hostname, addrs)), hostname, ip) <==> forall|i: int|
            0 <= i < addrs.len() ==> (#[trigger] addrs[i]).spec_ip() != ip,
{
    let ips = addrs.map_values(|a: SocketAddr| a.spec_ip());
    assert forall|i: int| 0 <= i < addrs.len() implies (#[trigger] addrs[i]).spec_ip() == ips[i] by {
    }
    if ips.contains(ip) {
        let i = choose|i: int| 0 <= i < ips.len() && ips[i] == ip;
        assert(addrs[i].spec_ip() == ip);
    }
}

/// Resolving one host says nothing about the connections to another.
pub proof fn law_hosts_are_independent(
    table: Map<Seq<char>, Set<IpAddr>>,
    resolved: Seq<char>,
    addrs: Seq<SocketAddr>,
    hostname: Seq<char>,
    ip: IpAddr,
)
    requires
        resolved != hostname,
    ensures
        obsolete(Some(recorded(table, resolved, addrs)), hostname, ip) == obsolete(
            Some(table),
            hostname,
            ip,
        ),
{
}

/// A new answer for a host takes the place of the old one.
pub proof fn law_last_answer_wins(
    table: Map<Seq<char>, Set<IpAddr>>,
    hostname: Seq<char>,
    first: Seq<SocketAddr>,
    second: Seq<SocketAddr>,
)
    ensures
        recorded(recorded(table, hostname, first), hostname, second) == recorded(
            table,
            hostname,
            second,
        ),
{
    assert(recorded(recorded(table, hostname, first), hostname, second) =~= recorded(
        table,
        hostname,
        second,
    ));
}

/// Whatever was resolved in between, a connection is judged by the last
/// resolution of its own host.
pub proof fn law_history(
    table: Map<Seq<char>, Set<IpAddr>>,
    history: Seq<Resolution>,
    hostname: Seq<char>,
    ip: IpAddr,
    i: int,
)
    requires
        is_last_of(history, hostname, i),
    ensures
        obsolete(Some(after(table, history)), hostname, ip) <==> !ips_of(history[i].addrs).contains(
            ip,
        ),
    decreases history.len(),
{
    if i < history.len() - 1 {
        assert(history.last() == history[history.len() - 1]);
        assert forall|j: int| i < j < history.drop_last().len() implies (
        #[trigger] history.drop_last()[j]).hostname != hostname by {
            assert(history.drop_last()[j] == history[j]);
        }
        law_history(table, history.drop_last(), hostname, ip, i);
    }
}

/// A host that does not occur in a series of resolutions is judged as before it.
pub proof fn law_history_of_other_hosts(
    table: Map<Seq<char>, Set<IpAddr>>,
    history: Seq<Resolution>,
    hostname: Seq<char>,
    ip: IpAddr,
)
    requires
        forall|j: int| 0 <= j < history.len() ==> (#[trigger] history[j]).hostname != hostname,
    ensures
        obsolete(Some(after(table, history)), hostname, ip) == obsolete(Some(table), hostname, ip),
    decreases history.len(),
{
    if history.len() > 0 {
        assert(history.last() == history[history.len() - 1]);
        assert forall|j: int| 0 <= j < history.drop_last().len() implies (
        #[trigger] history.drop_last()[j]).hostname != hostname by {
            assert(history.drop_last()[j] == history[j]);
        }
        law_history_of_other_hosts(table, history.drop_last(), hostname, ip);
    }
}

/// As long as every answer for its host holds its address, a connection never
/// becomes obsolete, however many other hosts are resolved.
pub proof fn law_steady_address_is_kept(
    table: Map<Seq<char>, Set<IpAddr>>,
    history: Seq<Resolution>,
    hostname: Seq<char>,
    ip: IpAddr,
)
    requires
        !obsolete(Some(table), hostname, ip),
        forall|j: int|
            0 <= j < history.len() && (#[trigger] history[j]).hostname == hostname ==> ips_of(
                history[j].addrs,
            ).contains(ip),
    ensures
        !obsolete(Some(after(table, history)), hostname, ip),
    decreases history.len(),
{
    if history.len() > 0 {
        assert(history.last() == history[history.len() - 1]);
        assert forall|j: int|
            0 <= j < history.drop_last().len() && (#[trigger] history.drop_last()[j]).hostname
                == hostname implies ips_of(history.drop_last()[j].addrs).contains(ip) by {
            assert(history.drop_last()[j] == history[j]);
        }
        law_steady_address_is_kept(table, history.drop_last(), hostname, ip);
    }
}

/// While a host's addresses are fixed in advance, no connection to one of them
/// becomes obsolete.
pub proof fn law_override_is_kept(
    overrides: Map<Seq<char>, Seq<SocketAddr>>,
    table: Map<Seq<char>, Set<IpAddr>>,
    history: Seq<Resolution>,
    hostname: Seq<char>,
    i: int,
)
    requires
        overrides.contains_key(hostname),
        0 <= i < overrides[hostname].len(),
        !obsolete(Some(table), hostname, overrides[hostname][i].spec_ip()),
        forall|j: int|
            0 <= j < history.len() && (#[trigger] history[j]).hostname == hostname
                ==> history[j].addrs == overrides[hostname],
    ensures
        !obsolete(Some(after(table, history)), hostname, overrides[hostname][i].spec_ip()),
{
    let addrs = overrides[hostname];
    lemma_ip_of_member(addrs, i);
    law_steady_address_is_kept(table, history, hostname, addrs[i].spec_ip());
}

proof fn lemma_ip_of_member(addrs: Seq<SocketAddr>, i: int)
    requires
        0 <= i < addrs.len(),
    ensures
        ips_of(addrs).contains(addrs[i].spec_ip()),
{
    let ips = addrs.map_values(|a: SocketAddr| a.spec_ip());
    assert(ips[i] == addrs[i].spec_ip());
}

/// Giving an answer its ports leaves its IP addresses alone, so a connection to
/// any address that an answer led to is valid by the record of that answer.
pub proof fn law_ports_leave_the_record_alone(
    rule: PortRule,
    table: Map<Seq<char>, Set<IpAddr>>,
    hostname: Seq<char>,
    addrs: Seq<SocketAddr>,
    i: int,
)
    requires
        0 <= i < addrs.len(),
    ensures
        ips_of(rule.applied_all(addrs)) == ips_of(addrs),
        !obsolete(
            Some(recorded(table, hostname, addrs)),
            hostname,
            rule.applied_all(addrs)[i].spec_ip(),
        ),
{
    let ip = |a: SocketAddr| a.spec_ip();
    assert(rule.applied_all(addrs).map_values(ip) =~= addrs.map_values(ip));
    lemma_ip_of_member(addrs, i);
}

/// Whether some address of an answer has this IP.
pub open spec fn has_ip(addrs: Seq<SocketAddr>, ip: IpAddr) -> bool {
    exists|i: int| 0 <= i < addrs.len() && (#[trigger] addrs[i]).spec_ip() == ip
}

/// Whether each of two answers has every IP of the other.
pub open spec fn same_ips(first: Seq<SocketAddr>, second: Seq<SocketAddr>) -> bool {
    &&& forall|i: int|
        0 <= i < first.len() ==> has_ip(second, (#[trigger] first[i]).spec_ip())
    &&& forall|j: int|
        0 <= j < second.len() ==> has_ip(first, (#[trigger] second[j]).spec_ip())
}

/// Only the IP addresses of an answer are recorded: an answer with the same
/// addresses in another order, with repetitions or with other ports leaves the
/// same table.
pub proof fn law_only_ips_are_recorded(
    table: Map<Seq<char>, Set<IpAddr>>,
    hostname: Seq<char>,
    first: Seq<SocketAddr>,
    second: Seq<SocketAddr>,
)
    requires
        same_ips(first, second),
    ensures
        recorded(table, hostname, first) == recorded(table, hostname, second),
{
    let ip = |a: SocketAddr| a.spec_ip();
    let one = first.map_values(ip);
    let two = second.map_values(ip);
    assert forall|x: IpAddr| one.contains(x) == two.contains(x) by {
        if one.contains(x) {
            let i = choose|i: int| 0 <= i < one.len() && one[i] == x;
            assert(has_ip(second, first[i].spec_ip()));
            let j = choose|j: int| 0 <= j < second.len() && (#[trigger] second[j]).spec_ip() == x;
            assert(two[j] == x);
        }
        if two.contains(x) {
            let j = choose|j: int| 0 <= j < two.len() && two[j] == x;
            assert(has_ip(first, second[j].spec_ip()));
            let i = choose|i: int| 0 <= i < first.len() && (#[trigger] first[i]).spec_ip() == x;
            assert(one[i] == x);
        }
    }
    assert(ips_of(first) =~= ips_of(second));
}

/// An authority is its userinfo, its host and what is left, in that order. The
/// userinfo ends in `@` where there is one, and what is left behind a host
/// without brackets starts with the colon of a port where there is anything.
pub proof fn law_authority_falls_into_parts(authority: Seq<char>)
    requires
        has_host(authority),
    ensures
        ({
            let host = host_of(authority);
            let userinfo = authority.take(authority.len() - host_and_port(authority).len());
            let left = host_and_port(authority).skip(host.len() as int);
            &&& authority == userinfo + host + left
            &&& userinfo.len() > 0 ==> userinfo.last() == '@'
            &&& is_bare_host(host)
            &&& left.len() > 0 && host_and_port(authority)[0] != '[' ==> left[0] == ':'
        }),
{
    let text = host_and_port(authority);
    let host = host_of(authority);
    authority.index_of_last_ensures('@');
    text.index_of_first_ensures(']');
    text.index_of_first_ensures(':');
    lemma_host_is_bare(authority);
    let userinfo = authority.take(authority.len() - text.len());
    let left = text.skip(host.len() as int);
    assert(host + left =~= text);
    assert(userinfo + text =~= authority);
    assert(authority =~= userinfo + host + left);
}

/// A port in the URI overrides any port of an address.
pub proof fn law_explicit_port_overrides(uri: Uri, port: u16, addr: SocketAddr)
    requires
        uri_port(uri) == Some(port),
    ensures
        PortRule::for_uri(uri).applied(addr) == addr.with_port(port),
        PortRule::for_uri(uri).applied(addr).spec_port() == port,
{
}

/// Where the URI names no port, the conventional port of its scheme replaces
/// port 0, and any other port of an address stays. No address is left with
/// port 0.
pub proof fn law_conventional_port_fills_in(uri: Uri, addr: SocketAddr)
    requires
        uri_port(uri) is None,
    ensures
        addr.spec_port() == 0 ==> PortRule::for_uri(uri).applied(addr) == addr.with_port(
            port_of_scheme(uri_scheme(uri)),
        ),
        addr.spec_port() != 0 ==> PortRule::for_uri(uri).applied(addr) == addr,
        PortRule::for_uri(uri).applied(addr).spec_port() != 0,
{
}

/// Ports are all that changes: the answer keeps its length and its order, and
/// each address its IP.
pub proof fn law_only_ports_change(rule: PortRule, addrs: Seq<SocketAddr>, i: int)
    requires
        0 <= i < addrs.len(),
    ensures
        rule.applied_all(addrs).len() == addrs.len(),
        rule.applied_all(addrs)[i] == addrs[i].with_port(rule.applied(addrs[i]).spec_port()),
        rule.applied_all(addrs)[i].spec_ip() == addrs[i].spec_ip(),
{
}

/// An answer that has its ports keeps them when it is given its ports again.
pub proof fn law_ports_are_settled_once(rule: PortRule, addrs: Seq<SocketAddr>)
    ensures
        rule.applied_all(rule.applied_all(addrs)) == rule.applied_all(addrs),
{
    assert(rule.applied_all(rule.applied_all(addrs)) =~= rule.applied_all(addrs));
}

/// The IP and the port that are read from a socket address are its fields, and
/// to give it a port sets that field and keeps the others.
pub proof fn law_socket_addr_is_its_fields(v4: SocketAddrV4, v6: SocketAddrV6, port: u16)
    ensures
        SocketAddr::V4(v4).spec_ip() == IpAddr::V4(v4.ip),
        SocketAddr::V6(v6).spec_ip() == IpAddr::V6(v6.ip),
        SocketAddr::V4(v4).spec_port() == v4.port,
        SocketAddr::V6(v6).spec_port() == v6.port,
        SocketAddr::V4(v4).with_port(port) == SocketAddr::V4(SocketAddrV4 { ip: v4.ip, port }),
        SocketAddr::V6(v6).with_port(port) == SocketAddr::V6(
            SocketAddrV6 { ip: v6.ip, port, flowinfo: v6.flowinfo, scope_id: v6.scope_id },
        ),
{
}

/// Among the IPs of an answer are exactly the `ip` fields of its addresses, each
/// in its own family.
pub proof fn law_ips_are_the_fields(addrs: Seq<SocketAddr>, x: u32, y: u128)
    ensures
        ips_of(addrs).contains(IpAddr::V4(x)) <==> exists|i: int|
            0 <= i < addrs.len() && (#[trigger] addrs[i] matches SocketAddr::V4(a) && a.ip == x),
        ips_of(addrs).contains(IpAddr::V6(y)) <==> exists|i: int|
            0 <= i < addrs.len() && (#[trigger] addrs[i] matches SocketAddr::V6(a) && a.ip == y),
{
    let ips = addrs.map_values(|a: SocketAddr| a.spec_ip());
    assert(forall|i: int| 0 <= i < addrs.len() ==> ips[i] == (#[trigger] addrs[i]).spec_ip());
    if ips.contains(IpAddr::V4(x)) {
        let i = choose|i: int| 0 <= i < ips.len() && ips[i] == IpAddr::V4(x);
        assert(addrs[i] matches SocketAddr::V4(a) && a.ip == x);
    }
    if ips.contains(IpAddr::V6(y)) {
        let i = choose|i: int| 0 <= i < ips.len() && ips[i] == IpAddr::V6(y);
        assert(addrs[i] matches SocketAddr::V6(a) && a.ip == y);
    }
    if exists|i: int|
        0 <= i < addrs.len() && (#[trigger] addrs[i] matches SocketAddr::V4(a) && a.ip == x) {
        let i = choose|i: int|
            0 <= i < addrs.len() && (#[trigger] addrs[i] matches SocketAddr::V4(a) && a.ip == x);
        assert(ips[i] == IpAddr::V4(x));
    }
    if exists|i: int|
        0 <= i < addrs.len() && (#[trigger] addrs[i] matches SocketAddr::V6(a) && a.ip == y) {
        let i = choose|i: int|
            0 <= i < addrs.len() && (#[trigger] addrs[i] matches SocketAddr::V6(a) && a.ip == y);
        assert(ips[i] == IpAddr::V6(y));
    }
}

/// Once a host was resolved, a connection to an IPv4 address is kept exactly
/// where some IPv4 address of the answer has that `ip` field, and likewise for
/// IPv6.
pub proof fn law_connection_is_kept_by_its_field(
    table: Map<Seq<char>, Set<IpAddr>>,
    hostname: Seq<char>,
    addrs: Seq<SocketAddr>,
    x: u32,
    y: u128,
)
    ensures
        !obsolete(Some(recorded(table, hostname, addrs)), hostname, IpAddr::V4(x)) <==> exists|
            i: int,
        |
            0 <= i < addrs.len() && (#[trigger] addrs[i] matches SocketAddr::V4(a) && a.ip == x),
        !obsolete(Some(recorded(table, hostname, addrs)), hostname, IpAddr::V6(y)) <==> exists|
            i: int,
        |
            0 <= i < addrs.len() && (#[trigger] addrs[i] matches SocketAddr::V6(a) && a.ip == y),
{
    law_ips_are_the_fields(addrs, x, y);
}

/// A connection is obsolete exactly where its host has a record and the record
/// lacks its address.
pub proof fn law_obsolete_is_absence(
    table: Map<Seq<char>, Set<IpAddr>>,
    hostname: Seq<char>,
    ip: IpAddr,
)
    ensures
        table.contains_key(hostname) && table[hostname].contains(ip) ==> !obsolete(
            Some(table),
            hostname,
            ip,
        ),
        table.contains_key(hostname) && !table[hostname].contains(ip) ==> obsolete(
            Some(table),
            hostname,
            ip,
        ),
        !table.contains_key(hostname) ==> !obsolete(Some(table), hostname, ip),
{
}

/// To record an answer makes the host known, and leaves every other host as
/// known or unknown as it was, with the same addresses.
pub proof fn law_record_touches_one_host(
    table: Map<Seq<char>, Set<IpAddr>>,
    hostname: Seq<char>,
    addrs: Seq<SocketAddr>,
    other: Seq<char>,
)
    ensures
        recorded(table, hostname, addrs).contains_key(hostname),
        recorded(table, hostname, addrs)[hostname] == ips_of(addrs),
        other != hostname ==> {
            &&& recorded(table, hostname, addrs).contains_key(other) <==> table.contains_key(other)
            &&& recorded(table, hostname, addrs)[other] == table[other]
        },
{
}

/// A table within reach is judged by what it holds, and one out of reach by
/// nothing.
pub proof fn law_table_is_what_it_holds(table: &DnsTable)
    ensures
        opt_table(Some(table)) == Some(table@),
        opt_table(None) is None,
{
}

/// Where the port of the URI is explicit, each address comes out with that port
/// in its `port` field and with its other fields as they were.
pub proof fn law_explicit_port_is_the_field(
    rule: PortRule,
    v4: SocketAddrV4,
    v6: SocketAddrV6,
)
    requires
        rule.explicit_port,
    ensures
        rule.applied(SocketAddr::V4(v4)) == SocketAddr::V4(
            SocketAddrV4 { ip: v4.ip, port: rule.port },
        ),
        rule.applied(SocketAddr::V6(v6)) == SocketAddr::V6(
            SocketAddrV6 {
                ip: v6.ip,
                port: rule.port,
                flowinfo: v6.flowinfo,
                scope_id: v6.scope_id,
            },
        ),
{
}

/// Where it is not, a `port` field of 0 takes the port of the rule, with the
/// other fields as they were, and an address with any other `port` field comes
/// out unchanged.
pub proof fn law_port_fills_in_the_field(rule: PortRule, v4: SocketAddrV4, v6: SocketAddrV6)
    requires
        !rule.explicit_port,
    ensures
        v4.port == 0 ==> rule.applied(SocketAddr::V4(v4)) == SocketAddr::V4(
            SocketAddrV4 { ip: v4.ip, port: rule.port },
        ),
        v4.port != 0 ==> rule.applied(SocketAddr::V4(v4)) == SocketAddr::V4(v4),
        v6.port == 0 ==> rule.applied(SocketAddr::V6(v6)) == SocketAddr::V6(
            SocketAddrV6 {
                ip: v6.ip,
                port: rule.port,
                flowinfo: v6.flowinfo,
                scope_id: v6.scope_id,
            },
        ),
        v6.port != 0 ==> rule.applied(SocketAddr::V6(v6)) == SocketAddr::V6(v6),
{
}

/// Where the URI names no port, no address comes out with a `port` field of 0.
pub proof fn law_no_port_field_stays_zero(uri: Uri, v4: SocketAddrV4, v6: SocketAddrV6)
    requires
        uri_port(uri) is None,
    ensures
        PortRule::for_uri(uri).applied(SocketAddr::V4(v4)) matches SocketAddr::V4(a) && a.port != 0
            && a.ip == v4.ip,
        PortRule::for_uri(uri).applied(SocketAddr::V6(v6)) matches SocketAddr::V6(a) && a.port != 0
            && a.ip == v6.ip && a.flowinfo == v6.flowinfo && a.scope_id == v6.scope_id,
{
}

/// Whatever the rule, an address keeps its family and every field but the port.
pub proof fn law_other_fields_are_kept(rule: PortRule, v4: SocketAddrV4, v6: SocketAddrV6)
    ensures
        rule.applied(SocketAddr::V4(v4)) matches SocketAddr::V4(a) && a.ip == v4.ip,
        rule.applied(SocketAddr::V6(v6)) matches SocketAddr::V6(a) && a.ip == v6.ip && a.flowinfo
            == v6.flowinfo && a.scope_id == v6.scope_id,
{
}

/// The addresses of an answer get their ports one by one, each in its place.
pub proof fn law_answer_is_ported_address_by_address(
    rule: PortRule,
    before: Seq<SocketAddr>,
    addr: SocketAddr,
    behind: Seq<SocketAddr>,
)
    ensures
        rule.applied_all(before + seq![addr] + behind) == rule.applied_all(before) + seq![
            rule.applied(addr),
        ] + rule.applied_all(behind),
        rule.applied_all(Seq::<SocketAddr>::empty()) == Seq::<SocketAddr>::empty(),
{
    assert(rule.applied_all(before + seq![addr] + behind) =~= rule.applied_all(before) + seq![
        rule.applied(addr),
    ] + rule.applied_all(behind));
    assert(rule.applied_all(Seq::<SocketAddr>::empty()) =~= Seq::<SocketAddr>::empty());
}

/// A port of the URI is the port of its rule, and explicit. Without one, the
/// rule has the port of the scheme, and is not explicit.
pub proof fn law_rule_of_a_uri(uri: Uri, port: u16)
    ensures
        uri_port(uri) == Some(port) ==> {
            &&& PortRule::for_uri(uri).port == port
            &&& PortRule::for_uri(uri).explicit_port
        },
        uri_port(uri) is None ==> {
            &&& PortRule::for_uri(uri).port == port_of_scheme(uri_scheme(uri))
            &&& !PortRule::for_uri(uri).explicit_port
        },
{
}

/// The port that was read from a URI is the port of the rule. Where none was,
/// the port of the scheme is. Whether it is explicit is taken over.
pub proof fn law_rule_of_parts(port: u16, explicit_port: bool, scheme: Option<Seq<char>>)
    ensures
        PortRule::for_parts(Some(port), explicit_port, scheme).port == port,
        PortRule::for_parts(None, explicit_port, scheme).port == port_of_scheme(scheme),
        PortRule::for_parts(Some(port), explicit_port, scheme).explicit_port == explicit_port,
        PortRule::for_parts(None, explicit_port, scheme).explicit_port == explicit_port,
{
}

/// The conventional ports: 443 for `https`, 1080 for the four `socks` schemes,
/// and 80 for any other scheme and for none.
pub proof fn law_conventional_ports(scheme: Seq<char>)
    ensures
        port_of_scheme(Some("https"@)) == 443,
        port_of_scheme(Some("socks4"@)) == 1080,
        port_of_scheme(Some("socks4a"@)) == 1080,
        port_of_scheme(Some("socks5"@)) == 1080,
        port_of_scheme(Some("socks5h"@)) == 1080,
        port_of_scheme(None) == 80,
        scheme != "https"@ && scheme != "socks4"@ && scheme != "socks4a"@ && scheme != "socks5"@
            && scheme != "socks5h"@ ==> port_of_scheme(Some(scheme)) == 80,
{
    reveal_strlit("https");
    reveal_strlit("socks4");
    reveal_strlit("socks4a");
    reveal_strlit("socks5");
    reveal_strlit("socks5h");
    assert("https"@.len() == 5);
    assert("socks4"@.len() == 6);
    assert("socks4a"@.len() == 7);
    assert("socks5"@.len() == 6);
    assert("socks5h"@.len() == 7);
}

/// A host that is not bracketed can be told and is given back, whatever
/// userinfo stands before it and whatever stands behind its colon. It may be
/// empty where a colon follows.
pub proof fn law_plain_host_is_found(userinfo: Seq<char>, host: Seq<char>, behind: Seq<char>)
    requires
        !host.contains('@'),
        !host.contains(':'),
        !behind.contains('@'),
        host.len() > 0 ==> host[0] != '[',
        behind.len() > 0 ==> behind[0] == ':',
        host.len() + behind.len() > 0,
    ensures
        has_host(host + behind),
        host_of(host + behind) == host,
        has_host(userinfo + seq!['@'] + (host + behind)),
        host_of(userinfo + seq!['@'] + (host + behind)) == host,
{
    let text = host + behind;
    lemma_no_char_in_sum(host, behind, '@');
    lemma_behind_userinfo(userinfo, text);
    text.index_of_first_ensures(':');
    assert forall|i: int| 0 <= i < host.len() implies text[i] != ':' by {
        assert(host.contains(host[i]));
    }
    if behind.len() > 0 {
        assert(text[host.len() as int] == ':');
        assert(text.contains(':'));
    } else {
        assert(text =~= host);
    }
    assert(host_of(text) =~= host);
}

/// A bracketed host can be told and is given back, brackets included, whatever
/// userinfo stands before it and whatever stands behind it.
pub proof fn law_bracketed_host_is_found(
    userinfo: Seq<char>,
    inner: Seq<char>,
    behind: Seq<char>,
)
    requires
        !inner.contains('@'),
        !inner.contains(']'),
        !behind.contains('@'),
    ensures
        has_host(seq!['['] + inner + seq![']'] + behind),
        host_of(seq!['['] + inner + seq![']'] + behind) == seq!['['] + inner + seq![']'],
        has_host(userinfo + seq!['@'] + (seq!['['] + inner + seq![']'] + behind)),
        host_of(userinfo + seq!['@'] + (seq!['['] + inner + seq![']'] + behind)) == seq!['[']
            + inner + seq![']'],
{
    let host = seq!['['] + inner + seq![']'];
    let text = host + behind;
    let end = inner.len() + 1;
    assert forall|i: int| 0 < i < end implies host[i] != '@' && host[i] != ']' by {
        assert(inner.contains(inner[i - 1]));
        assert(host[i] == inner[i - 1]);
    }
    assert(host[end as int] == ']');
    assert(!host.contains('@'));
    lemma_no_char_in_sum(host, behind, '@');
    lemma_behind_userinfo(userinfo, text);
    assert(text[end as int] == ']');
    assert(text.contains(']'));
    text.index_of_first_ensures(']');
    let first = text.index_of_first(']')->0;
    assert(first == end) by {
        if first < end {
            assert(text[first] == host[first]);
        }
    }
    assert(host_of(text) =~= host);
}

/// A host that stands alone holds no `@`. Without brackets it holds no colon,
/// and with brackets its only closing bracket is its last character.
pub proof fn law_bare_host(host: Seq<char>, i: int)
    requires
        is_bare_host(host),
        0 <= i < host.len(),
    ensures
        host[i] != '@',
        host[0] != '[' ==> host[i] != ':',
        host[0] == '[' ==> (host[i] == ']' <==> i == host.len() - 1),
{
    assert(host.contains(host[i]));
    host.index_of_first_ensures(']');
}

/// There is no host where nothing follows the userinfo, nor where a bracket
/// opens that is never closed.
pub proof fn law_no_host(userinfo: Seq<char>, inner: Seq<char>)
    requires
        !inner.contains('@'),
        !inner.contains(']'),
    ensures
        !has_host(Seq::<char>::empty()),
        !has_host(userinfo + seq!['@']),
        !has_host(seq!['['] + inner),
        !has_host(userinfo + seq!['@'] + (seq!['['] + inner)),
{
    let nothing = Seq::<char>::empty();
    lemma_behind_userinfo(userinfo, nothing);
    assert(userinfo + seq!['@'] + nothing =~= userinfo + seq!['@']);
    let text = seq!['['] + inner;
    assert(!seq!['['].contains('@'));
    assert(!seq!['['].contains(']'));
    lemma_no_char_in_sum(seq!['['], inner, '@');
    lemma_no_char_in_sum(seq!['['], inner, ']');
    lemma_behind_userinfo(userinfo, text);
}

/// What a URI says of host and port is what its authority says. Without an
/// authority it has neither, and there is nothing that could not be told.
pub proof fn law_uri_speaks_by_its_authority(uri: Uri, authority: Seq<char>)
    ensures
        uri_authority(uri) == Some(authority) ==> {
            &&& host_readable(uri) <==> has_host(authority)
            &&& uri_host(uri) == Some(host_of(authority))
            &&& uri_port(uri) == port_of(authority)
        },
        uri_authority(uri) is None ==> {
            &&& host_readable(uri)
            &&& uri_host(uri) is None
            &&& uri_port(uri) is None
        },
{
}

/// A number behind the last colon of an authority is its port, with or without
/// a plus sign, unless it is too large for one.
pub proof fn law_port_is_behind_the_last_colon(before: Seq<char>, digits: Seq<char>)
    requires
        digits.len() > 0,
        forall|i: int| 0 <= i < digits.len() ==> '0' <= #[trigger] digits[i] <= '9',
    ensures
        decimal(digits) <= 0xffff ==> {
            &&& port_of(before + seq![':'] + digits) matches Some(port) && port == decimal(digits)
            &&& port_of(before + seq![':'] + (seq!['+'] + digits)) matches Some(port) && port
                == decimal(digits)
        },
        decimal(digits) > 0xffff ==> {
            &&& port_of(before + seq![':'] + digits) is None
            &&& port_of(before + seq![':'] + (seq!['+'] + digits)) is None
        },
{
    lemma_decimal_is_not_negative(digits);
    let signed = seq!['+'] + digits;
    assert(!digits.contains(':'));
    assert forall|i: int| 0 <= i < signed.len() implies signed[i] != ':' by {
        if i > 0 {
            assert(signed[i] == digits[i - 1]);
        }
    }
    lemma_behind_last_colon(before, digits);
    lemma_behind_last_colon(before, signed);
    assert(signed.skip(1) =~= digits);
    assert('0' <= digits[0] <= '9');
}

/// There is no port without a colon, nor where what stands behind the last one
/// is empty, is a lone plus sign, or holds anything but digits and a plus sign
/// at its start.
pub proof fn law_no_port(before: Seq<char>, text: Seq<char>, i: int)
    requires
        !text.contains(':'),
    ensures
        port_of(text) is None,
        port_of(before + seq![':']) is None,
        port_of(before + seq![':'] + seq!['+']) is None,
        0 <= i < text.len() && !('0' <= text[i] <= '9') && (i > 0 || text[i] != '+') ==> port_of(
            before + seq![':'] + text,
        ) is None,
{
    let nothing = Seq::<char>::empty();
    text.index_of_last_ensures(':');
    lemma_behind_last_colon(before, nothing);
    assert(before + seq![':'] + nothing =~= before + seq![':']);
    assert(!seq!['+'].contains(':'));
    lemma_behind_last_colon(before, seq!['+']);
    lemma_behind_last_colon(before, text);
    if 0 <= i < text.len() && text[0] == '+' && i > 0 {
        assert(text.skip(1)[i - 1] == text[i]);
    }
}

/// A number grows by a digit as decimal numbers do.
pub proof fn law_decimal(digits: Seq<char>, digit: char)
    ensures
        decimal(Seq::<char>::empty()) == 0,
        decimal(digits.push(digit)) == 10 * decimal(digits) + (digit as int - '0' as int),
{
    assert(digits.push(digit).drop_last() =~= digits);
}

/// A name is the text that the resolver's library holds for it.
pub proof fn law_name_is_its_text(name: HyperName)
    ensures
        Name(name)@ == hyper_name_text(name),
{
}

/// An optional text stands for its characters, all of them and in order.
pub proof fn law_optional_text_is_its_characters(text: &str, string: String)
    ensures
        opt_text(Some(text)) == Some(text@),
        opt_text(None) is None,
        opt_string(Some(string)) == Some(string@),
        opt_string(None) is None,
{
}

proof fn lemma_no_char_in_sum(a: Seq<char>, b: Seq<char>, c: char)
    requires
        !a.contains(c),
        !b.contains(c),
    ensures
        !(a + b).contains(c),
{
    assert forall|i: int| 0 <= i < (a + b).len() implies (a + b)[i] != c by {
        if i < a.len() {
            assert(a.contains(a[i]));
        } else {
            assert(b.contains(b[i - a.len()]));
        }
    }
}

proof fn lemma_behind_last_colon(before: Seq<char>, text: Seq<char>)
    requires
        !text.contains(':'),
    ensures
        (before + seq![':'] + text).index_of_last(':') == Some(before.len() as int),
        (before + seq![':'] + text).skip(before.len() as int + 1) == text,
{
    let authority = before + seq![':'] + text;
    authority.index_of_last_ensures(':');
    assert(authority[before.len() as int] == ':');
    assert(authority.contains(':'));
    let last = authority.index_of_last(':')->0;
    if last > before.len() {
        assert(authority[last] == text[last - before.len() - 1]);
        assert(text.contains(text[last - before.len() - 1]));
    }
    assert(authority.skip(before.len() as int + 1) =~= text);
}

proof fn lemma_decimal_is_not_negative(digits: Seq<char>)
    requires
        forall|i: int| 0 <= i < digits.len() ==> '0' <= #[trigger] digits[i] <= '9',
    ensures
        decimal(digits) >= 0,
    decreases digits.len(),
{
    if digits.len() > 0 {
        assert forall|i: int| 0 <= i < digits.drop_last().len() implies '0'
            <= #[trigger] digits.drop_last()[i] <= '9' by {
            assert(digits.drop_last()[i] == digits[i]);
        }
        lemma_decimal_is_not_negative(digits.drop_last());
        assert('0' <= digits[digits.len() - 1] <= '9');
    }
}

} // verus!
