//! The servers that a client has discovered, each under the fully-qualified
//! name of its service instance.

use crate::metadata::enumerates;
use crate::server::DiscoveredServer;
use crate::server::PeerRecord;
use vstd::prelude::*;

verus! {

/// Records of servers, each under the fully-qualified name of its instance.
pub type Peers = Map<Seq<char>, PeerRecord>;

/// All servers discovered on local network.
///
/// The servers are kept in a hash map with a fixed hasher. The verifier sees
/// the map only through [`listed_servers`].
#[verifier::external_body]
#[derive(Debug)]
pub struct DiscoveredServerList {
    servers: bevy_utils::StableHashMap<String, DiscoveredServer>,
}

/// The records that a list holds, each under the fully-qualified name of its
/// instance.
pub uninterp spec fn listed_servers(list: DiscoveredServerList) -> Map<Seq<char>, PeerRecord>;

/// The names and records of `items`.
pub open spec fn entry_views(items: Seq<(&str, &DiscoveredServer)>) -> Seq<(Seq<char>, PeerRecord)> {
    Seq::new(items.len(), |i: int| (items[i].0@, items[i].1@))
}

/// The records of `servers`.
pub open spec fn record_views(servers: Seq<&DiscoveredServer>) -> Seq<PeerRecord> {
    Seq::new(servers.len(), |i: int| servers[i]@)
}

/// Whether `records` lists the records of `peers`: the record of each
/// instance once, and nothing else.
pub open spec fn lists(records: Seq<PeerRecord>, peers: Peers) -> bool {
    exists|entries: Seq<(Seq<char>, PeerRecord)>|
        #![trigger enumerates(entries, peers)]
        enumerates(entries, peers) && records == Seq::new(entries.len(), |i: int| entries[i].1)
}

/// Whether `peers` holds `number` records, neither more nor fewer.
pub open spec fn holds_exactly(peers: Peers, number: nat) -> bool {
    peers.dom().finite() && peers.dom().len() == number
}

impl View for DiscoveredServerList {
    type V = Peers;

    open spec fn view(&self) -> Peers {
        listed_servers(*self)
    }
}

impl DiscoveredServerList {
    /// `StableHashMap::default`: a map without entries.
    #[verifier::external_body]
    fn empty() -> (list: DiscoveredServerList)
        ensures
            listed_servers(list) == Peers::empty(),
    {
        DiscoveredServerList { servers: Default::default() }
    }

    /// `hashbrown::HashMap::len`: the number of entries, of which there are
    /// finitely many.
    #[verifier::external_body]
    fn count(&self) -> (number: usize)
        ensures
            holds_exactly(listed_servers(*self), number as nat),
    {
        self.servers.len()
    }

    /// `hashbrown::HashMap::get`: the server stored under `fullname`, if there
    /// is one.
    #[verifier::external_body]
    pub(crate) fn find(&self, fullname: &str) -> (server: Option<&DiscoveredServer>)
        ensures
            match server {
                Some(found) => listed_servers(*self).contains_pair(fullname@, found@),
                None => !listed_servers(*self).dom().contains(fullname@),
            },
    {
        self.servers.get(fullname)
    }

    /// `hashbrown::HashMap::entry_ref` followed by `EntryRef::insert`: `server`
    /// is stored under `fullname`, in place of what was stored there; the
    /// other entries stay.
    #[verifier::external_body]
    pub(crate) fn put(&mut self, fullname: &str, server: DiscoveredServer)
        ensures
            listed_servers(*final(self)) == listed_servers(*old(self)).insert(fullname@, server@),
    {
        self.servers.entry_ref(fullname).insert(server);
    }

    /// `hashbrown::HashMap::remove`: the entry under `fullname` leaves the
    /// map and its server is returned, if there is one; the other entries
    /// stay.
    #[verifier::external_body]
    pub(crate) fn take(&mut self, fullname: &str) -> (server: Option<DiscoveredServer>)
        ensures
            listed_servers(*final(self)) == listed_servers(*old(self)).remove(fullname@),
            match server {
                Some(taken) => listed_servers(*old(self)).contains_pair(fullname@, taken@),
                None => !listed_servers(*old(self)).dom().contains(fullname@),
            },
    {
        self.servers.remove(fullname)
    }

    /// `hashbrown::HashMap::clear`: every entry leaves the map.
    #[verifier::external_body]
    pub(crate) fn wipe(&mut self)
        ensures
            listed_servers(*final(self)) == Peers::empty(),
    {
        self.servers.clear();
    }

    /// `hashbrown::HashMap::iter`: every entry once, in the order in which the
    /// table is walked.
    #[verifier::external_body]
    fn entries(&self) -> (items: Vec<(&str, &DiscoveredServer)>)
        ensures
            enumerates(entry_views(items@), listed_servers(*self)),
    {
        self.servers.iter().map(|(fullname, server)| (fullname.as_str(), server)).collect()
    }

    /// A list without servers.
    pub fn new() -> (list: DiscoveredServerList)
        ensures
            list@ == Peers::empty(),
    {
        DiscoveredServerList::empty()
    }

    /// Returns true if there are no discovered servers
    pub fn is_empty(&self) -> (empty: bool)
        ensures
            empty == (self@ == Peers::empty()),
    {
        let count = self.count();
        proof {
            if count == 0 {
                self@.dom().lemma_len0_is_empty();
                assert(self@ =~= Peers::empty());
            } else {
                assert(Peers::empty().dom().len() == 0);
            }
        }
        count == 0
    }

    /// Returns the amount of discovered servers
    pub fn len(&self) -> (count: usize)
        ensures
            self@.dom().finite(),
            count == self@.len(),
    {
        self.count()
    }

    /// The server discovered under the fully-qualified name `fullname`, if
    /// there is one.
    pub fn get(&self, fullname: &str) -> (server: Option<&DiscoveredServer>)
        ensures
            match server {
                Some(found) => self@.contains_pair(fullname@, found@),
                None => !self@.dom().contains(fullname@),
            },
    {
        self.find(fullname)
    }

    /// All discovered servers, each of them once. The order is that of the
    /// underlying table; it changes only when the list does.
    pub fn iter(&self) -> (servers: Vec<&DiscoveredServer>)
        ensures
            lists(record_views(servers@), self@),
            servers@.len() == self@.len(),
    {
        let items = self.entries();
        let mut servers: Vec<&DiscoveredServer> = Vec::new();
        let mut index: usize = 0;
        while index < items.len()
            invariant
                index <= items.len(),
                servers@.len() == index,
                forall|i: int| 0 <= i < index ==> servers@[i] == items@[i].1,
            decreases items.len() - index,
        {
            servers.push(items[index].1);
            index += 1;
        }
        proof {
            let entries = entry_views(items@);
            assert(record_views(servers@) =~= Seq::new(entries.len(), |i: int| entries[i].1));
            lemma_enumeration_length(entries, self@);
        }
        servers
    }
}

impl Default for DiscoveredServerList {
    fn default() -> (list: Self)
        ensures
            list@ == Peers::empty(),
    {
        DiscoveredServerList::new()
    }
}

/// A listing of a map's entries is as long as the map is large, and the map
/// is finite.
pub proof fn lemma_enumeration_length<V>(pairs: Seq<(Seq<char>, V)>, entries: Map<Seq<char>, V>)
    requires
        enumerates(pairs, entries),
    ensures
        entries.dom().finite(),
        pairs.len() == entries.len(),
{
    let keys = Seq::new(pairs.len(), |i: int| pairs[i].0);
    assert(keys.no_duplicates());
    assert(keys.to_set() =~= entries.dom()) by {
        assert forall|key: Seq<char>| entries.dom().contains(key) implies keys.to_set().contains(
            key,
        ) by {
            let i = choose|i: int| 0 <= i < pairs.len() && (#[trigger] pairs[i]).0 == key;
            assert(keys[i] == key);
        }
        assert forall|key: Seq<char>| keys.to_set().contains(key) implies entries.dom().contains(
            key,
        ) by {
            let i = choose|i: int| 0 <= i < keys.len() && keys[i] == key;
            assert(entries.contains_pair(pairs[i].0, pairs[i].1));
        }
    }
    keys.unique_seq_to_set();
    vstd::seq_lib::seq_to_set_is_finite(keys);
}

} // verus!
