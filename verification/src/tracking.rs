//! The addresses that each host had at its last resolution, and the connections
//! that they make obsolete.

use crate::addr::{ips_of, IpAddr, SocketAddr};
use crate::name::Name;
use crate::resolver::Query;
use std::collections::HashSet;
use vstd::hash_map::StringHashMap;
use vstd::prelude::*;
use vstd::std_specs::iter::IteratorSpec;

verus! {

broadcast use vstd::std_specs::hash::group_hash_axioms;

/// A set of IP addresses.
#[derive(Debug)]
pub struct IpSet {
    v4: HashSet<u32>,
    v6: HashSet<u128>,
}

impl View for IpSet {
    type V = Set<IpAddr>;

    closed spec fn view(&self) -> Set<IpAddr> {
        Set::new(
            |ip: IpAddr|
                match ip {
                    IpAddr::V4(ip) => self.v4@.contains(ip),
                    IpAddr::V6(ip) => self.v6@.contains(ip),
                },
        )
    }
}

impl IpSet {
    /// The empty set.
    pub fn new() -> (this: IpSet)
        ensures
            this@ == Set::<IpAddr>::empty(),
    {
        let this = IpSet { v4: HashSet::new(), v6: HashSet::new() };
        assert(this@ =~= Set::<IpAddr>::empty());
        this
    }

    /// Adds an address.
    pub fn insert(&mut self, ip: IpAddr)
        ensures
            final(self)@ == old(self)@.insert(ip),
    {
        match ip {
            IpAddr::V4(ip) => {
                self.v4.insert(ip);
            },
            IpAddr::V6(ip) => {
                self.v6.insert(ip);
            },
        }
        assert(self@ =~= old(self)@.insert(ip));
    }

    /// Whether an address is in the set.
    pub fn contains(&self, ip: &IpAddr) -> (found: bool)
        ensures
            found == self@.contains(*ip),
    {
        match ip {
            IpAddr::V4(ip) => self.v4.contains(ip),
            IpAddr::V6(ip) => self.v6.contains(ip),
        }
    }

    /// The addresses of the set, each once, in no particular order.
    pub fn to_vec(&self) -> (ips: Vec<IpAddr>)
        ensures
            ips@.no_duplicates(),
            ips@.to_set() == self@,
    {
        let mut ips: Vec<IpAddr> = Vec::new();
        let iter4 = self.v4.iter();
        let ghost s4 = iter4.remaining();
        for ip in v4: iter4
            invariant
                v4.seq() == s4,
                ips@.len() == v4.index(),
                forall|i: int| 0 <= i < v4.index() ==> #[trigger] ips@[i] == IpAddr::V4(*s4[i]),
        {
            ips.push(IpAddr::V4(*ip));
        }
        let iter6 = self.v6.iter();
        let ghost s6 = iter6.remaining();
        for ip in v6: iter6
            invariant
                v6.seq() == s6,
                ips@.len() == s4.len() + v6.index(),
                forall|i: int| 0 <= i < s4.len() ==> #[trigger] ips@[i] == IpAddr::V4(*s4[i]),
                forall|i: int|
                    s4.len() <= i < ips@.len() ==> #[trigger] ips@[i] == IpAddr::V6(
                        *s6[i - s4.len()],
                    ),
        {
            ips.push(IpAddr::V6(*ip));
        }
        assert forall|ip: IpAddr| ips@.contains(ip) == self@.contains(ip) by {
            match ip {
                IpAddr::V4(x) => {
                    if self.v4@.contains(x) {
                        assert(s4.unref().contains(x));
                        let i = choose|i: int| 0 <= i < s4.len() && s4.unref()[i] == x;
                        assert(ips@[i] == ip);
                    }
                    if ips@.contains(ip) {
                        let i = choose|i: int| 0 <= i < ips@.len() && ips@[i] == ip;
                        assert(s4.unref()[i] == x);
                    }
                },
                IpAddr::V6(x) => {
                    if self.v6@.contains(x) {
                        assert(s6.unref().contains(x));
                        let i = choose|i: int| 0 <= i < s6.len() && s6.unref()[i] == x;
                        assert(ips@[s4.len() + i] == ip);
                    }
                    if ips@.contains(ip) {
                        let i = choose|i: int| 0 <= i < ips@.len() && ips@[i] == ip;
                        assert(s6.unref()[i - s4.len()] == x);
                    }
                },
            }
        }
        assert(ips@.to_set() =~= self@);
        ips
    }

    /// The IP addresses of a list of socket addresses.
    pub fn of(addrs: &Vec<SocketAddr>) -> (this: IpSet)
        ensures
            this@ == ips_of(addrs@),
    {
        let mut this = IpSet::new();
        assert(ips_of(addrs@.take(0)) =~= Set::<IpAddr>::empty());
        for i in 0..addrs.len()
            invariant
                this@ == ips_of(addrs@.take(i as int)),
        {
            this.insert(addrs[i].ip());
            proof {
                lemma_ips_of_push(addrs@.take(i as int), addrs@[i as int]);
                assert(addrs@.take(i + 1) =~= addrs@.take(i as int).push(addrs@[i as int]));
            }
        }
        assert(addrs@.take(addrs@.len() as int) =~= addrs@);
        this
    }
}

proof fn lemma_ips_of_push(addrs: Seq<SocketAddr>, addr: SocketAddr)
    ensures
        ips_of(addrs.push(addr)) == ips_of(addrs).insert(addr.spec_ip()),
{
    let ip = |a: SocketAddr| a.spec_ip();
    let before = addrs.map_values(ip);
    let after = addrs.push(addr).map_values(ip);
    assert(after =~= before.push(addr.spec_ip()));
    assert forall|x: IpAddr| after.contains(x) == (before.contains(x) || x == addr.spec_ip()) by {
        if before.contains(x) {
            let i = choose|i: int| 0 <= i < before.len() && before[i] == x;
            assert(after[i] == x);
        }
        assert(after[before.len() as int] == addr.spec_ip());
    }
    assert(after.to_set() =~= before.to_set().insert(addr.spec_ip()));
}

/// The current set of valid IP addresses of each host that was resolved.
pub struct DnsTable {
    by_host: StringHashMap<IpSet>,
}

impl View for DnsTable {
    type V = Map<Seq<char>, Set<IpAddr>>;

    closed spec fn view(&self) -> Map<Seq<char>, Set<IpAddr>> {
        self.by_host@.map_values(|ips: IpSet| ips@)
    }
}

impl DnsTable {
    /// No host was resolved yet.
    pub fn new() -> (this: DnsTable)
        ensures
            this@ == Map::<Seq<char>, Set<IpAddr>>::empty(),
    {
        let this = DnsTable { by_host: StringHashMap::new() };
        assert(this@ =~= Map::<Seq<char>, Set<IpAddr>>::empty());
        this
    }

    /// Replaces the set of a host.
    pub fn insert(&mut self, hostname: String, ips: IpSet)
        ensures
            final(self)@ == old(self)@.insert(hostname@, ips@),
    {
        self.by_host.insert(hostname, ips);
        assert(self@ =~= old(self)@.insert(hostname@, ips@));
    }

    /// The set of a host, where the host was resolved.
    pub fn get(&self, hostname: &str) -> (ips: Option<&IpSet>)
        ensures
            ips is Some <==> self@.contains_key(hostname@),
            ips matches Some(ips) ==> ips@ == self@[hostname@],
    {
        self.by_host.get(hostname)
    }
}

/// A table after a host was resolved to some addresses.
pub open spec fn recorded(
    table: Map<Seq<char>, Set<IpAddr>>,
    hostname: Seq<char>,
    addrs: Seq<SocketAddr>,
) -> Map<Seq<char>, Set<IpAddr>> {
    table.insert(hostname, ips_of(addrs))
}

/// Whether a connection to an address of a host is obsolete, by a table that
/// may have been out of reach.
pub open spec fn obsolete(
    table: Option<Map<Seq<char>, Set<IpAddr>>>,
    hostname: Seq<char>,
    ip: IpAddr,
) -> bool {
    table matches Some(table) && table.contains_key(hostname) && !table[hostname].contains(ip)
}

/// A table behind an optional reference.
pub open spec fn opt_table(table: Option<&DnsTable>) -> Option<Map<Seq<char>, Set<IpAddr>>> {
    match table {
        Some(table) => Some(table@),
        None => None,
    }
}

/// Attached to each connection; holds the info needed to decide whether the
/// connection's IP is still valid.
///
/// `S` is whatever handle a caller shares the [`DnsTable`] by.
#[derive(Debug)]
pub struct DnsCheck<S> {
    pub hostname: String,
    pub connected_ip: IpAddr,
    pub dns_state: S,
}

impl<S> DnsCheck<S> {
    /// Returns `true` when the DNS state has been updated **and** this
    /// connection's IP is no longer in the valid set.
    ///
    /// `state` is the table behind `dns_state`, or `None` where it could not be
    /// read.
    pub fn is_obsolete(&self, state: Option<&DnsTable>) -> (stale: bool)
        ensures
            stale == obsolete(opt_table(state), self.hostname@, self.connected_ip),
            state is None ==> !stale,
            state matches Some(table) ==> (stale <==> table@.contains_key(self.hostname@)
                && !table@[self.hostname@].contains(self.connected_ip)),
    {
        if let Some(state) = state {
            if let Some(valid_ips) = state.get(self.hostname.as_str()) {
                return !valid_ips.contains(&self.connected_ip);
            }
        }
        // No record yet: the first resolution has not happened through us.
        false
    }
}

impl<S: Clone> Clone for DnsCheck<S> {
    /// A check of the same connection, by a clone of the handle.
    fn clone(&self) -> (copy: Self)
        ensures
            copy.hostname@ == self.hostname@,
            copy.connected_ip == self.connected_ip,
            cloned::<S>(self.dns_state, copy.dns_state),
    {
        DnsCheck {
            hostname: self.hostname.clone(),
            connected_ip: self.connected_ip,
            dns_state: self.dns_state.clone(),
        }
    }
}

/// Resolver wrapper that updates a shared [`DnsTable`] on every resolution.
pub struct DnsTrackingResolver<R, S> {
    pub inner: R,
    pub state: S,
}

/// A resolution that waits for the answer of the wrapped resolver.
pub struct PendingRecord<'a, S> {
    pub state: &'a S,
    pub hostname: String,
}

/// An answer of the wrapped resolver that waits for the table.
///
/// The set that goes into the table is that of the addresses that come back.
pub struct AddressRecord<'a, S> {
    state: &'a S,
    hostname: String,
    new_ips: IpSet,
    addrs: Vec<SocketAddr>,
}

impl<R, S> DnsTrackingResolver<R, S> {
    /// Wraps a resolver and updates the table behind a handle.
    pub fn new(inner: R, state: S) -> (this: DnsTrackingResolver<R, S>)
        ensures
            this.inner == inner,
            this.state == state,
    {
        DnsTrackingResolver { inner, state }
    }

    /// Passes the name on to the wrapped resolver as it is, and keeps what it
    /// takes to record the answer.
    pub fn resolve(&self, name: Name) -> (step: (Query<'_, R>, PendingRecord<'_, S>))
        ensures
            *step.0.resolver == self.inner,
            step.0.name == name,
            *step.1.state == self.state,
            step.1.hostname@ == name@,
    {
        let hostname = name.as_str().to_string();
        (Query { resolver: &self.inner, name }, PendingRecord { state: &self.state, hostname })
    }
}

impl<'a, S> PendingRecord<'a, S> {
    /// Takes the answer of the wrapped resolver. An error passes through, and
    /// there is nothing to record.
    pub fn answered<E>(self, answer: Result<Vec<SocketAddr>, E>) -> (record: Result<
        AddressRecord<'a, S>,
        E,
    >)
        ensures
            record is Ok <==> answer is Ok,
            answer matches Ok(addrs) ==> {
                &&& record->Ok_0.spec_state() == *self.state
                &&& record->Ok_0.spec_hostname() == self.hostname@
                &&& record->Ok_0.spec_addrs() == addrs@
            },
            answer matches Err(error) ==> record->Err_0 == error,
    {
        match answer {
            Ok(addrs) => {
                let new_ips = IpSet::of(&addrs);
                Ok(AddressRecord { state: self.state, hostname: self.hostname, new_ips, addrs })
            },
            Err(error) => Err(error),
        }
    }
}

impl<'a, S> AddressRecord<'a, S> {
    #[verifier::type_invariant]
    spec fn well_formed(self) -> bool {
        self.new_ips@ == ips_of(self.addrs@)
    }

    /// The handle of the table to write.
    pub closed spec fn spec_state(self) -> S {
        *self.state
    }

    /// The host that was resolved.
    pub closed spec fn spec_hostname(self) -> Seq<char> {
        self.hostname@
    }

    /// The addresses of the answer.
    pub closed spec fn spec_addrs(self) -> Seq<SocketAddr> {
        self.addrs@
    }

    /// The handle of the table to write.
    pub fn state(&self) -> (state: &'a S)
        ensures
            *state == self.spec_state(),
    {
        self.state
    }

    /// Writes the new addresses into the table behind the handle, or nothing
    /// where `table` is `None` because it could not be written. Either way the
    /// addresses of the answer come back.
    pub fn store(self, table: Option<&mut DnsTable>) -> (addrs: Vec<SocketAddr>)
        ensures
            addrs@ == self.spec_addrs(),
            table matches Some(table) ==> final(table)@ == recorded(
                table@,
                self.spec_hostname(),
                self.spec_addrs(),
            ),
            table matches Some(table) ==> final(table)@ == table@.insert(
                self.spec_hostname(),
                ips_of(self.spec_addrs()),
            ),
    {
        proof {
            use_type_invariant(&self);
        }
        if let Some(table) = table {
            table.insert(self.hostname, self.new_ips);
        }
        self.addrs
    }
}

} // verus!
