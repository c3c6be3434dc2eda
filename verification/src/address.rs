//! Network addresses of discovered servers, as plain numbers.

use vstd::prelude::*;

verus! {

/// An IP address: the 32 bits of an IPv4 address or the 128 bits of an IPv6
/// address, most significant octet first.
///
/// An IPv4 address and the IPv6 address that embeds it are different
/// addresses.
#[derive(Clone, Copy, Debug, PartialEq, Eq, Structural, Hash)]
pub enum IpAddress {
    /// An IPv4 address.
    V4(u32),
    /// An IPv6 address.
    V6(u128),
}

/// A set of addresses. The order in which addresses were added plays no part
/// in what the set is, nor in whether two sets are equal.
#[derive(Debug)]
pub struct AddressSet {
    items: Vec<IpAddress>,
}

impl View for AddressSet {
    type V = Set<IpAddress>;

    closed spec fn view(&self) -> Set<IpAddress> {
        self.items@.to_set()
    }
}

impl AddressSet {
    #[verifier::type_invariant]
    spec fn distinct(self) -> bool {
        self.items@.no_duplicates()
    }

    /// A set without addresses.
    pub fn new() -> (set: AddressSet)
        ensures
            set@ == Set::<IpAddress>::empty(),
    {
        let set = AddressSet { items: Vec::new() };
        assert(set.items@.to_set() =~= Set::<IpAddress>::empty());
        set
    }

    /// The set of the addresses in `addresses`, whatever their order and
    /// however often each occurs.
    pub fn from_addresses(addresses: &Vec<IpAddress>) -> (set: AddressSet)
        ensures
            set@ == addresses@.to_set(),
    {
        let mut set = AddressSet::new();
        let mut index: usize = 0;
        while index < addresses.len()
            invariant
                index <= addresses.len(),
                set@ == addresses@.take(index as int).to_set(),
            decreases addresses.len() - index,
        {
            proof {
                let done = addresses@.take(index as int);
                assert(addresses@.take(index + 1) =~= done.push(addresses@[index as int]));
                done.lemma_push_to_set_commute(addresses@[index as int]);
            }
            set.insert(addresses[index]);
            index += 1;
        }
        assert(addresses@.take(index as int) =~= addresses@);
        set
    }

    /// Whether `address` is in the set.
    pub fn contains(&self, address: IpAddress) -> (found: bool)
        ensures
            found == self@.contains(address),
    {
        let mut index: usize = 0;
        while index < self.items.len()
            invariant
                index <= self.items.len(),
                forall|i: int| 0 <= i < index ==> self.items@[i] != address,
            decreases self.items.len() - index,
        {
            if self.items[index] == address {
                return true;
            }
            index += 1;
        }
        false
    }

    /// Adds `address` to the set. Returns whether the set grew, that is,
    /// whether `address` was not in it before.
    pub fn insert(&mut self, address: IpAddress) -> (grew: bool)
        ensures
            final(self)@ == old(self)@.insert(address),
            grew == !old(self)@.contains(address),
    {
        proof {
            use_type_invariant(&*self);
        }
        if self.contains(address) {
            assert(self@.insert(address) =~= self@);
            false
        } else {
            let mut taken = AddressSet::new();
            core::mem::swap(self, &mut taken);
            let AddressSet { items } = taken;
            let mut items = items;
            proof {
                items@.lemma_push_to_set_commute(address);
            }
            items.push(address);
            *self = AddressSet { items };
            true
        }
    }

    /// The number of addresses in the set.
    pub fn len(&self) -> (count: usize)
        ensures
            count == self@.len(),
            self@.finite(),
    {
        proof {
            use_type_invariant(self);
            self.items@.unique_seq_to_set();
        }
        self.items.len()
    }

    /// Whether the set holds no address.
    pub fn is_empty(&self) -> (empty: bool)
        ensures
            empty == (self@ == Set::<IpAddress>::empty()),
    {
        proof {
            if self.items@.len() > 0 {
                assert(self.items@.contains(self.items@[0]));
                assert(self@.contains(self.items@[0]));
            } else {
                assert(self.items@.to_set() =~= Set::<IpAddress>::empty());
            }
        }
        self.items.len() == 0
    }

    /// The addresses of the set, each of them once.
    pub fn addresses(&self) -> (listing: &Vec<IpAddress>)
        ensures
            listing@.no_duplicates(),
            listing@.to_set() == self@,
    {
        proof {
            use_type_invariant(self);
        }
        &self.items
    }

    /// Whether every address of this set is in `other`.
    pub fn is_subset_of(&self, other: &AddressSet) -> (included: bool)
        ensures
            included == self@.subset_of(other@),
    {
        let mut index: usize = 0;
        while index < self.items.len()
            invariant
                index <= self.items.len(),
                forall|i: int| 0 <= i < index ==> other@.contains(self.items@[i]),
            decreases self.items.len() - index,
        {
            if !other.contains(self.items[index]) {
                assert(self@.contains(self.items@[index as int]));
                return false;
            }
            index += 1;
        }
        true
    }
}

impl Clone for AddressSet {
    fn clone(&self) -> (copy: Self)
        ensures
            copy@ == self@,
    {
        proof {
            use_type_invariant(self);
        }
        let mut items: Vec<IpAddress> = Vec::new();
        let mut index: usize = 0;
        while index < self.items.len()
            invariant
                index <= self.items.len(),
                items@ == self.items@.take(index as int),
            decreases self.items.len() - index,
        {
            items.push(self.items[index]);
            assert(items@ =~= self.items@.take(index + 1));
            index += 1;
        }
        assert(items@ =~= self.items@);
        AddressSet { items }
    }
}

impl PartialEq for AddressSet {
    fn eq(&self, other: &Self) -> (same: bool) {
        let same = self.is_subset_of(other) && other.is_subset_of(self);
        assert(same == (self@ =~= other@));
        same
    }
}

impl Eq for AddressSet {

}

impl vstd::std_specs::cmp::PartialEqSpecImpl for AddressSet {
    open spec fn obeys_eq_spec() -> bool {
        true
    }

    open spec fn eq_spec(&self, other: &Self) -> bool {
        self@ == other@
    }
}

impl Default for AddressSet {
    fn default() -> (set: Self)
        ensures
            set@ == Set::<IpAddress>::empty(),
    {
        AddressSet::new()
    }
}

} // verus!
