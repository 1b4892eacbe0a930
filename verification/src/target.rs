//! What a request's URI says about where to connect.

use crate::addr::{SocketAddr, SocketAddrV4, SocketAddrV6};
use http::Uri;
use vstd::prelude::*;

verus! {

/// `http`'s parsed URI.
#[verifier::external_type_specification]
#[verifier::external_body]
pub struct ExUri(Uri);

/// `http`'s port of a URI, together with the text that it was read from.
#[verifier::external_type_specification]
#[verifier::external_body]
#[verifier::reject_recursive_types(T)]
pub struct ExPort<T>(http::uri::Port<T>);

/// The text of a URI's authority, which is what `http`'s `Authority::as_str`
/// returns for what `Uri::authority` returns.
pub uninterp spec fn uri_authority(uri: Uri) -> Option<Seq<char>>;

/// What `http`'s `Uri::scheme_str` returns for a URI.
pub uninterp spec fn uri_scheme(uri: Uri) -> Option<Seq<char>>;

/// An optional text by its characters.
pub open spec fn opt_text(text: Option<&str>) -> Option<Seq<char>> {
    match text {
        Some(t) => Some(t@),
        None => None,
    }
}

/// What stands behind the userinfo of an authority: all that follows the last
/// `@`, or everything where there is none.
pub open spec fn host_and_port(authority: Seq<char>) -> Seq<char> {
    match authority.index_of_last('@') {
        Some(at) => authority.skip(at + 1),
        None => authority,
    }
}

/// Whether there is a host in an authority: something follows the userinfo, and
/// a bracket that opens there is closed.
pub open spec fn has_host(authority: Seq<char>) -> bool {
    let text = host_and_port(authority);
    text.len() > 0 && (text[0] == '[' ==> text.contains(']'))
}

/// The host of an authority that has one: up to the closing bracket where it is
/// bracketed, else up to the first colon or the end.
pub open spec fn host_of(authority: Seq<char>) -> Seq<char>
    recommends
        has_host(authority),
{
    let text = host_and_port(authority);
    if text[0] == '[' {
        text.take(text.index_of_first(']')->0 + 1)
    } else {
        match text.index_of_first(':') {
            Some(colon) => text.take(colon),
            None => text,
        }
    }
}

/// The host of a URI.
pub open spec fn uri_host(uri: Uri) -> Option<Seq<char>> {
    match uri_authority(uri) {
        Some(authority) => Some(host_of(authority)),
        None => None,
    }
}

/// Whether a host stands alone, with no userinfo before it and no port behind
/// it: it holds no `@`, and its end is a closing bracket where it is bracketed,
/// while it holds no colon where it is not.
pub open spec fn is_bare_host(host: Seq<char>) -> bool {
    &&& !host.contains('@')
    &&& if host.len() > 0 && host[0] == '[' {
        host.index_of_first(']') == Some(host.len() - 1)
    } else {
        !host.contains(':')
    }
}

/// The number that decimal digits spell.
pub open spec fn decimal(digits: Seq<char>) -> int
    decreases digits.len(),
{
    if digits.len() == 0 {
        0
    } else {
        10 * decimal(digits.drop_last()) + (digits.last() as int - '0' as int)
    }
}

/// The digits of a number that may carry a plus sign.
pub open spec fn unsigned(text: Seq<char>) -> Seq<char> {
    if text.len() > 0 && text[0] == '+' {
        text.skip(1)
    } else {
        text
    }
}

/// Whether a text is a port: nothing but digits, at least one, behind an
/// optional plus sign, and no more than a port can hold.
pub open spec fn is_port(text: Seq<char>) -> bool {
    let digits = unsigned(text);
    &&& digits.len() > 0
    &&& forall|i: int| 0 <= i < digits.len() ==> '0' <= #[trigger] digits[i] <= '9'
    &&& decimal(digits) <= u16::MAX
}

/// The port of an authority: the number behind its last colon, where it is one.
pub open spec fn port_of(authority: Seq<char>) -> Option<u16> {
    match authority.index_of_last(':') {
        Some(colon) => {
            let text = authority.skip(colon + 1);
            if is_port(text) {
                Some(decimal(unsigned(text)) as u16)
            } else {
                None
            }
        },
        None => None,
    }
}

/// The port of a URI.
pub open spec fn uri_port(uri: Uri) -> Option<u16> {
    match uri_authority(uri) {
        Some(authority) => port_of(authority),
        None => None,
    }
}

/// Whether `http` can tell the host of a URI. Every URI that was parsed is
/// readable. One that was built from `Authority::from_static` may not be,
/// because that constructor takes texts such as `/@`.
pub open spec fn host_readable(uri: Uri) -> bool {
    uri_authority(uri) matches Some(authority) ==> has_host(authority)
}

/// `http`'s `Uri::authority`, taken as text by `Authority::as_str`: a function
/// of the URI alone.
#[verifier::external_body]
fn authority_text(uri: &Uri) -> (text: Option<&str>)
    ensures
        opt_text(text) == uri_authority(*uri),
{
    uri.authority().map(http::uri::Authority::as_str)
}

/// `http`'s `Uri::host`: the host part of the authority, and nothing where the
/// URI has no authority. It panics where the authority has no host.
pub assume_specification[ Uri::host ](uri: &Uri) -> (host: Option<&str>)
    requires
        host_readable(*uri),
    ensures
        opt_text(host) == uri_host(*uri),
;

/// `http`'s `Uri::port_u16`: what stands behind the last colon of the authority,
/// parsed as a `u16` by the standard library, and nothing where it does not
/// parse.
pub assume_specification[ Uri::port_u16 ](uri: &Uri) -> (port: Option<u16>)
    ensures
        port == uri_port(*uri),
;

/// `http`'s `Uri::port`: there is a port exactly where `Uri::port_u16`, which
/// is defined through it, gives a number.
pub assume_specification[ Uri::port ](uri: &Uri) -> (port: Option<http::uri::Port<&str>>)
    ensures
        port is Some <==> uri_port(*uri) is Some,
;

/// `http`'s `Uri::scheme_str`: the scheme, a function of the URI alone.
pub assume_specification[ Uri::scheme_str ](uri: &Uri) -> (scheme: Option<&str>)
    ensures
        opt_text(scheme) == uri_scheme(*uri),
;

/// The host of an authority stands alone.
pub proof fn lemma_host_is_bare(authority: Seq<char>)
    requires
        has_host(authority),
    ensures
        is_bare_host(host_of(authority)),
{
    let text = host_and_port(authority);
    let host = host_of(authority);
    authority.index_of_last_ensures('@');
    text.index_of_first_ensures(']');
    text.index_of_first_ensures(':');
    host.index_of_first_ensures(']');
    assert(forall|i: int| 0 <= i < host.len() ==> host[i] == text[i]);
    assert(!text.contains('@')) by {
        if text.contains('@') {
            let i = choose|i: int| 0 <= i < text.len() && text[i] == '@';
            match authority.index_of_last('@') {
                Some(at) => {
                    assert(authority[at + 1 + i] == '@');
                },
                None => {},
            }
        }
    }
    assert forall|i: int| 0 <= i < host.len() implies host[i] != '@' by {
        assert(text.contains(text[i]));
    }
    if text[0] == '[' {
        assert(host[host.len() - 1] == ']');
        assert(host.contains(']'));
    } else {
        assert forall|i: int| 0 <= i < host.len() implies host[i] != ':' by {
            assert(text.contains(text[i]));
        }
    }
}

/// Whether `at` is where the userinfo of an authority ends.
spec fn is_host_start(authority: Seq<char>, at: int) -> bool {
    &&& 0 <= at <= authority.len()
    &&& at > 0 ==> authority[at - 1] == '@'
    &&& forall|i: int| at <= i < authority.len() ==> authority[i] != '@'
}

proof fn lemma_host_start(authority: Seq<char>, at: int)
    requires
        is_host_start(authority, at),
    ensures
        host_and_port(authority) == authority.skip(at),
{
    authority.index_of_last_ensures('@');
    match authority.index_of_last('@') {
        Some(last) => {
            assert(last < at);
            assert(at - 1 <= last);
        },
        None => {
            assert(at == 0) by {
                if at > 0 {
                    assert(authority.contains(authority[at - 1]));
                }
            }
            assert(authority.skip(0) =~= authority);
        },
    }
}

/// Whatever the userinfo holds, what stands behind it is what follows its `@`.
pub proof fn lemma_behind_userinfo(userinfo: Seq<char>, text: Seq<char>)
    requires
        !text.contains('@'),
    ensures
        host_and_port(text) == text,
        host_and_port(userinfo + seq!['@'] + text) == text,
{
    let authority = userinfo + seq!['@'] + text;
    let at: int = userinfo.len() as int + 1;
    assert forall|i: int| 0 <= i < text.len() implies text[i] != '@' by {
        assert(text.contains(text[i]));
    }
    assert(is_host_start(text, 0));
    lemma_host_start(text, 0);
    assert(text.skip(0) =~= text);
    assert(authority[at - 1] == '@');
    assert forall|i: int| at <= i < authority.len() implies authority[i] != '@' by {
        assert(authority[i] == text[i - at]);
    }
    lemma_host_start(authority, at);
    assert(authority.skip(at) =~= text);
}

/// Looks for a host in an authority.
fn check_host(authority: &str) -> (ok: bool)
    ensures
        ok == has_host(authority@),
{
    let ghost text = authority@;
    let ghost mut start: int = 0;
    let mut empty = true;
    let mut opened = false;
    let mut closed = false;
    for c in chars: authority.chars()
        invariant
            chars.seq() == text,
            text == authority@,
            is_host_start(text.take(chars.index() as int), start),
            empty <==> start == chars.index(),
            opened <==> start < chars.index() && text[start] == '[',
            closed <==> exists|i: int| start < i < chars.index() && text[i] == ']',
    {
        let ghost n = chars.index() as int;
        assert(text.take(n + 1) =~= text.take(n).push(c));
        if c == '@' {
            proof {
                start = n + 1;
            }
            empty = true;
            opened = false;
            closed = false;
        } else {
            if empty {
                empty = false;
                opened = c == '[';
            } else if c == ']' {
                closed = true;
                assert(text[n] == ']');
            }
        }
    }
    assert(text.take(text.len() as int) =~= text);
    let ok = !empty && (!opened || closed);
    proof {
        lemma_host_start(text, start);
        let tail = text.skip(start);
        if opened {
            assert(closed ==> tail.contains(']')) by {
                if closed {
                    let i = choose|i: int| start < i < text.len() && text[i] == ']';
                    assert(tail[i - start] == ']');
                }
            }
            if tail.contains(']') {
                let i = choose|i: int| 0 <= i < tail.len() && tail[i] == ']';
                assert(text[start + i] == ']');
            }
        }
    }
    ok
}

/// Whether the host of a URI can be told.
pub fn is_host_readable(target: &Uri) -> (ok: bool)
    ensures
        ok == host_readable(*target),
{
    match authority_text(target) {
        Some(authority) => check_host(authority),
        None => true,
    }
}

/// What a URI says about where to connect.
#[derive(Debug)]
pub struct UriParts {
    /// The host, as the URI spells it.
    pub host: Option<String>,
    /// The port, as a number.
    pub port: Option<u16>,
    /// Whether the URI names a port.
    pub explicit_port: bool,
    /// The scheme.
    pub scheme: Option<String>,
}

/// An optional string by its characters.
pub open spec fn opt_string(text: Option<String>) -> Option<Seq<char>> {
    match text {
        Some(t) => Some(t@),
        None => None,
    }
}

fn to_opt_string(text: Option<&str>) -> (copy: Option<String>)
    ensures
        opt_string(copy) == opt_text(text),
{
    match text {
        Some(t) => Some(t.to_string()),
        None => None,
    }
}

impl UriParts {
    /// Reads the parts of a URI whose host can be told.
    pub fn of(target: &Uri) -> (parts: UriParts)
        requires
            host_readable(*target),
        ensures
            opt_string(parts.host) == uri_host(*target),
            parts.port == uri_port(*target),
            parts.explicit_port == (uri_port(*target) is Some),
            opt_string(parts.scheme) == uri_scheme(*target),
    {
        UriParts {
            host: to_opt_string(target.host()),
            port: target.port_u16(),
            explicit_port: target.port().is_some(),
            scheme: to_opt_string(target.scheme_str()),
        }
    }

    /// How the addresses of an answer get their ports.
    pub fn port_rule(&self) -> (rule: PortRule)
        ensures
            rule == PortRule::for_parts(self.port, self.explicit_port, opt_string(self.scheme)),
    {
        let port: u16 = match self.port {
            Some(port) => port,
            None => conventional_port(&self.scheme),
        };
        PortRule { port, explicit_port: self.explicit_port }
    }
}

/// The port that a scheme stands for where a URI names none.
pub open spec fn port_of_scheme(scheme: Option<Seq<char>>) -> u16 {
    if scheme == Some("https"@) {
        443
    } else if {
        ||| scheme == Some("socks4"@)
        ||| scheme == Some("socks4a"@)
        ||| scheme == Some("socks5"@)
        ||| scheme == Some("socks5h"@)
    } {
        1080
    } else {
        80
    }
}

/// The port that a scheme stands for where a URI names none.
pub fn conventional_port(scheme: &Option<String>) -> (port: u16)
    ensures
        port == port_of_scheme(opt_string(*scheme)),
{
    match scheme {
        Some(scheme) => {
            if *scheme == "https".to_string() {
                443
            } else if *scheme == "socks4".to_string() || *scheme == "socks4a".to_string()
                || *scheme == "socks5".to_string() || *scheme == "socks5h".to_string() {
                1080
            } else {
                80
            }
        },
        None => 80,
    }
}

/// How the addresses of an answer get their ports.
#[derive(Clone, Copy, Debug, PartialEq, Eq, Structural)]
pub struct PortRule {
    /// The port to connect to.
    pub port: u16,
    /// Whether that port also replaces a port that the resolver gave.
    pub explicit_port: bool,
}

impl PortRule {
    /// The rule for a URI with the given port and scheme.
    pub open spec fn for_parts(
        port: Option<u16>,
        explicit_port: bool,
        scheme: Option<Seq<char>>,
    ) -> PortRule {
        PortRule {
            port: match port {
                Some(port) => port,
                None => port_of_scheme(scheme),
            },
            explicit_port,
        }
    }

    /// The rule for a URI.
    pub open spec fn for_uri(uri: Uri) -> PortRule {
        PortRule::for_parts(uri_port(uri), uri_port(uri) is Some, uri_scheme(uri))
    }

    /// The address that the rule makes of one that a resolver gave.
    pub open spec fn applied(self, addr: SocketAddr) -> SocketAddr {
        if self.explicit_port || addr.spec_port() == 0 {
            addr.with_port(self.port)
        } else {
            addr
        }
    }

    /// The list that the rule makes of a resolver's answer.
    pub open spec fn applied_all(self, addrs: Seq<SocketAddr>) -> Seq<SocketAddr> {
        addrs.map_values(|a: SocketAddr| self.applied(a))
    }

    /// An explicit port of the URI overrides any port of the address. Otherwise
    /// the port of the scheme stands in for port 0.
    pub fn apply(&self, addr: SocketAddr) -> (ported: SocketAddr)
        ensures
            ported == self.applied(addr),
            addr matches SocketAddr::V4(a) ==> ported == SocketAddr::V4(
                SocketAddrV4 {
                    ip: a.ip,
                    port: if self.explicit_port || a.port == 0 {
                        self.port
                    } else {
                        a.port
                    },
                },
            ),
            addr matches SocketAddr::V6(a) ==> ported == SocketAddr::V6(
                SocketAddrV6 {
                    ip: a.ip,
                    port: if self.explicit_port || a.port == 0 {
                        self.port
                    } else {
                        a.port
                    },
                    flowinfo: a.flowinfo,
                    scope_id: a.scope_id,
                },
            ),
    {
        let mut addr = addr;
        if self.explicit_port || addr.port() == 0 {
            addr.set_port(self.port);
        }
        addr
    }

    /// Gives every address of an answer its port. A resolver's error passes
    /// through.
    pub fn finish<E>(&self, answer: Result<Vec<SocketAddr>, E>) -> (ported: Result<
        Vec<SocketAddr>,
        E,
    >)
        ensures
            ported is Ok <==> answer is Ok,
            answer matches Ok(addrs) ==> ported->Ok_0@ == self.applied_all(addrs@),
            answer matches Ok(addrs) ==> {
                &&& ported->Ok_0@.len() == addrs@.len()
                &&& forall|i: int|
                    0 <= i < addrs@.len() ==> #[trigger] ported->Ok_0@[i] == self.applied(addrs@[i])
            },
            answer matches Err(error) ==> ported->Err_0 == error,
    {
        let addrs = match answer {
            Ok(addrs) => addrs,
            Err(error) => return Err(error),
        };
        let mut ported: Vec<SocketAddr> = Vec::new();
        for i in 0..addrs.len()
            invariant
                ported@ == self.applied_all(addrs@.take(i as int)),
        {
            ported.push(self.apply(addrs[i]));
            assert(addrs@.take(i + 1) == addrs@.take(i as int).push(addrs@[i as int]));
        }
        assert(addrs@.take(addrs@.len() as int) == addrs@);
        Ok(ported)
    }
}

} // verus!
