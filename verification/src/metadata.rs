//! String-keyed metadata attached to advertised and discovered servers.

use vstd::prelude::*;

verus! {

/// A string key-value map for additional server info to send to clients.
///
/// The entries are kept in a hash map with a fixed hasher. The verifier sees the
/// map only through [`metadata_entries`].
#[verifier::external_body]
#[derive(Debug)]
pub struct ServerMetadata {
    entries: bevy_utils::StableHashMap<String, String>,
}

/// Key-value pairs, each string taken by its characters.
pub type Entries = Map<Seq<char>, Seq<char>>;

/// The key-value pairs that a metadata map holds.
pub uninterp spec fn metadata_entries(metadata: ServerMetadata) -> Map<Seq<char>, Seq<char>>;

/// The pairs of `items`, each string taken by its characters.
pub open spec fn pair_views(items: Seq<(&str, &str)>) -> Seq<(Seq<char>, Seq<char>)> {
    Seq::new(items.len(), |i: int| (items[i].0@, items[i].1@))
}

/// The pairs of `items`, each string taken by its characters.
pub open spec fn property_views(items: Seq<(String, String)>) -> Seq<(Seq<char>, Seq<char>)> {
    Seq::new(items.len(), |i: int| (items[i].0@, items[i].1@))
}

/// Whether `pairs` lists the entries of `entries`: each of them once, and
/// nothing else.
pub open spec fn enumerates<V>(pairs: Seq<(Seq<char>, V)>, entries: Map<Seq<char>, V>) -> bool {
    &&& forall|i: int, j: int| 0 <= i < j < pairs.len() ==> pairs[i].0 != pairs[j].0
    &&& forall|i: int|
        0 <= i < pairs.len() ==> #[trigger] entries.contains_pair(pairs[i].0, pairs[i].1)
    &&& forall|key: Seq<char>| #[trigger]
        entries.dom().contains(key) ==> exists|i: int|
            0 <= i < pairs.len() && (#[trigger] pairs[i]).0 == key
}

/// The map that results from setting the pairs of `pairs` one after another,
/// so that of two pairs with the same key the later one stays.
pub open spec fn collect_pairs(pairs: Seq<(Seq<char>, Seq<char>)>) -> Map<Seq<char>, Seq<char>>
    decreases pairs.len(),
{
    if pairs.len() == 0 {
        Map::empty()
    } else {
        collect_pairs(pairs.drop_last()).insert(pairs.last().0, pairs.last().1)
    }
}

impl View for ServerMetadata {
    type V = Map<Seq<char>, Seq<char>>;

    open spec fn view(&self) -> Map<Seq<char>, Seq<char>> {
        metadata_entries(*self)
    }
}

impl ServerMetadata {
    /// `StableHashMap::default`: a map without entries.
    #[verifier::external_body]
    fn empty() -> (metadata: ServerMetadata)
        ensures
            metadata_entries(metadata) == Entries::empty(),
    {
        ServerMetadata { entries: Default::default() }
    }

    /// `hashbrown::HashMap::get`: the value stored under `key`, if there is one.
    #[verifier::external_body]
    fn lookup(&self, key: &str) -> (value: Option<&String>)
        ensures
            match value {
                Some(found) => metadata_entries(*self).contains_pair(key@, found@),
                None => !metadata_entries(*self).dom().contains(key@),
            },
    {
        self.entries.get(key)
    }

    /// `hashbrown::HashMap::entry_ref` followed by `EntryRef::insert`: `value`
    /// is stored under `key`, in place of what was stored there; the other
    /// entries stay.
    #[verifier::external_body]
    fn store(&mut self, key: &str, value: String)
        ensures
            metadata_entries(*final(self)) == metadata_entries(*old(self)).insert(key@, value@),
    {
        self.entries.entry_ref(key).insert(value);
    }

    /// `hashbrown::HashMap::iter`: every entry once, in the order in which the
    /// table is walked.
    #[verifier::external_body]
    pub(crate) fn pairs(&self) -> (items: Vec<(&str, &str)>)
        ensures
            enumerates(pair_views(items@), metadata_entries(*self)),
    {
        self.entries.iter().map(|(key, value)| (key.as_str(), value.as_str())).collect()
    }

    /// `==` of `hashbrown::HashMap`: whether both maps hold the same keys with
    /// the same values.
    #[verifier::external_body]
    fn same_entries(&self, other: &ServerMetadata) -> (same: bool)
        ensures
            same == (metadata_entries(*self) == metadata_entries(*other)),
    {
        self.entries == other.entries
    }

    /// `clone` of `hashbrown::HashMap`: a map with the same entries.
    #[verifier::external_body]
    fn duplicate(&self) -> (copy: ServerMetadata)
        ensures
            metadata_entries(copy) == metadata_entries(*self),
    {
        ServerMetadata { entries: self.entries.clone() }
    }

    /// Returns new empty server metadata.
    pub fn new() -> (metadata: Self)
        ensures
            metadata@ == Entries::empty(),
    {
        Self::empty()
    }

    /// Returns a reference to the value corresponding to the key.
    pub fn get(&self, key: &str) -> (value: Option<&str>)
        ensures
            match value {
                Some(found) => self@.contains_pair(key@, found@),
                None => !self@.dom().contains(key@),
            },
    {
        match self.lookup(key) {
            Some(found) => Some(found.as_str()),
            None => None,
        }
    }

    /// Sets the value of a key.
    pub fn set(&mut self, key: &str, value: &str)
        ensures
            final(self)@ == old(self)@.insert(key@, value@),
    {
        self.store(key, value.to_owned());
    }

    /// Sets the value of a key and returns self, so that calls can be chained.
    pub fn with(self, key: &str, value: &str) -> (metadata: Self)
        ensures
            metadata@ == self@.insert(key@, value@),
    {
        let mut metadata = self;
        metadata.set(key, value);
        metadata
    }

    /// Iterate over all key-value pairs stored in metadata.
    pub fn iter(&self) -> (cursor: ServerMetadataIter<'_>)
        ensures
            enumerates(cursor.remaining(), self@),
    {
        let items = self.pairs();
        let cursor = ServerMetadataIter { items, position: 0 };
        assert(cursor.remaining() =~= pair_views(items@));
        cursor
    }

    /// Builds metadata from the properties of a resolved service, in the order
    /// in which they were received: of two properties with the same key the
    /// later one stays.
    pub fn from_txt_properties(properties: &Vec<(String, String)>) -> (metadata: ServerMetadata)
        ensures
            metadata@ == collect_pairs(property_views(properties@)),
    {
        let mut metadata = ServerMetadata::new();
        let mut index: usize = 0;
        while index < properties.len()
            invariant
                index <= properties.len(),
                metadata@ == collect_pairs(property_views(properties@).take(index as int)),
            decreases properties.len() - index,
        {
            let ghost done = property_views(properties@).take(index as int);
            let ghost next = property_views(properties@).take(index + 1);
            assert(next.drop_last() =~= done);
            metadata.set(properties[index].0.as_str(), properties[index].1.as_str());
            index += 1;
        }
        assert(property_views(properties@).take(index as int) =~= property_views(properties@));
        metadata
    }
}

impl Clone for ServerMetadata {
    fn clone(&self) -> (copy: Self)
        ensures
            copy@ == self@,
    {
        self.duplicate()
    }
}

impl PartialEq for ServerMetadata {
    fn eq(&self, other: &Self) -> (same: bool) {
        self.same_entries(other)
    }
}

impl Eq for ServerMetadata {

}

impl vstd::std_specs::cmp::PartialEqSpecImpl for ServerMetadata {
    open spec fn obeys_eq_spec() -> bool {
        true
    }

    open spec fn eq_spec(&self, other: &Self) -> bool {
        self@ == other@
    }
}

impl Default for ServerMetadata {
    fn default() -> (metadata: Self)
        ensures
            metadata@ == Entries::empty(),
    {
        ServerMetadata::new()
    }
}

/// A cursor over the key-value pairs of a [`ServerMetadata`], in the order in
/// which the map enumerated them when the cursor was made.
pub struct ServerMetadataIter<'a> {
    items: Vec<(&'a str, &'a str)>,
    position: usize,
}

impl<'a> ServerMetadataIter<'a> {
    /// The pairs that the cursor has not handed out yet.
    pub closed spec fn remaining(&self) -> Seq<(Seq<char>, Seq<char>)> {
        if self.position <= self.items@.len() {
            pair_views(self.items@).skip(self.position as int)
        } else {
            Seq::empty()
        }
    }

    /// Hands out the next pair, or `None` when all were handed out.
    pub fn next(&mut self) -> (item: Option<(&'a str, &'a str)>)
        ensures
            match item {
                Some(pair) => {
                    &&& old(self).remaining().len() > 0
                    &&& (pair.0@, pair.1@) == old(self).remaining()[0]
                    &&& final(self).remaining() == old(self).remaining().drop_first()
                },
                None => old(self).remaining().len() == 0 && final(self).remaining().len() == 0,
            },
    {
        if self.position < self.items.len() {
            let pair = self.items[self.position];
            self.position += 1;
            Some(pair)
        } else {
            None
        }
    }
}

} // verus!
