//! Names whose addresses are fixed in advance.

use crate::addr::SocketAddr;
use crate::name::Name;
use crate::resolver::Query;
use vstd::hash_map::StringHashMap;
use vstd::prelude::*;

verus! {

/// The addresses that are fixed in advance, by host name.
pub struct Overrides {
    by_host: StringHashMap<Vec<SocketAddr>>,
}

impl View for Overrides {
    type V = Map<Seq<char>, Seq<SocketAddr>>;

    closed spec fn view(&self) -> Map<Seq<char>, Seq<SocketAddr>> {
        self.by_host@.map_values(|addrs: Vec<SocketAddr>| addrs@)
    }
}

impl Overrides {
    /// No name is fixed.
    pub fn new() -> (this: Overrides)
        ensures
            this@ == Map::<Seq<char>, Seq<SocketAddr>>::empty(),
    {
        let this = Overrides { by_host: StringHashMap::new() };
        assert(this@ =~= Map::<Seq<char>, Seq<SocketAddr>>::empty());
        this
    }

    /// Fixes the addresses of a host. Those that were fixed for it before are
    /// forgotten.
    pub fn insert(&mut self, host: String, addrs: Vec<SocketAddr>)
        ensures
            final(self)@ == old(self)@.insert(host@, addrs@),
    {
        self.by_host.insert(host, addrs);
        assert(self@ =~= old(self)@.insert(host@, addrs@));
    }

    /// A copy of the addresses that are fixed for a host. The spelling of the
    /// host counts, upper and lower case included.
    pub fn get(&self, host: &str) -> (found: Option<Vec<SocketAddr>>)
        ensures
            found is Some <==> self@.contains_key(host@),
            found matches Some(addrs) ==> addrs@ == self@[host@],
    {
        match self.by_host.get(host) {
            Some(addrs) => {
                let copy = addrs.clone();
                assert(copy@ =~= addrs@);
                Some(copy)
            },
            None => None,
        }
    }
}

/// How a lookup goes on.
#[derive(Debug)]
pub enum Lookup<'a, R> {
    /// The addresses are known.
    Ready(Vec<SocketAddr>),
    /// A resolver has to be asked.
    Ask(Query<'a, R>),
}

/// A resolver that answers for some names itself.
pub struct DnsResolverWithOverrides<R> {
    pub dns_resolver: R,
    pub overrides: Overrides,
}

impl<R> DnsResolverWithOverrides<R> {
    /// Puts fixed addresses in front of a resolver.
    pub fn new(dns_resolver: R, overrides: Overrides) -> (this: DnsResolverWithOverrides<R>)
        ensures
            this.dns_resolver == dns_resolver,
            this.overrides == overrides,
    {
        DnsResolverWithOverrides { dns_resolver, overrides }
    }

    /// Answers for a name that is fixed in advance, and passes any other name
    /// on as it is.
    pub fn resolve(&self, name: Name) -> (lookup: Lookup<'_, R>)
        ensures
            match lookup {
                Lookup::Ready(addrs) => {
                    &&& self.overrides@.contains_key(name@)
                    &&& addrs@ == self.overrides@[name@]
                },
                Lookup::Ask(query) => {
                    &&& !self.overrides@.contains_key(name@)
                    &&& *query.resolver == self.dns_resolver
                    &&& query.name == name
                },
            },
    {
        match self.overrides.get(name.as_str()) {
            Some(dest) => Lookup::Ready(dest),
            None => Lookup::Ask(Query { resolver: &self.dns_resolver, name }),
        }
    }
}

} // verus!
