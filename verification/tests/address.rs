use bevy_server_browser::AddressSet;
use bevy_server_browser::IpAddress;

const LOOPBACK: IpAddress = IpAddress::V4(0x7f00_0001);
const LAN: IpAddress = IpAddress::V4(0xc0a8_0001);
const LOOPBACK_V6: IpAddress = IpAddress::V6(1);

#[test]
fn new_set_is_empty() {
    let set = AddressSet::new();
    assert!(set.is_empty());
    assert_eq!(set.len(), 0);
    assert!(!set.contains(LOOPBACK));
    assert!(set == AddressSet::default());
}

#[test]
fn insert_reports_growth() {
    let mut set = AddressSet::new();
    assert!(set.insert(LOOPBACK));
    assert!(!set.insert(LOOPBACK));
    assert!(set.insert(LAN));
    assert_eq!(set.len(), 2);
    assert!(set.contains(LOOPBACK));
    assert!(set.contains(LAN));
    assert!(!set.is_empty());
}

#[test]
fn from_addresses_drops_repetitions() {
    let set = AddressSet::from_addresses(&vec![LAN, LOOPBACK, LAN, LAN]);
    assert_eq!(set.len(), 2);
    assert_eq!(set.addresses().len(), 2);
    assert!(set.addresses().contains(&LAN));
    assert!(set.addresses().contains(&LOOPBACK));
}

#[test]
fn equality_ignores_order() {
    let left = AddressSet::from_addresses(&vec![LAN, LOOPBACK]);
    let right = AddressSet::from_addresses(&vec![LOOPBACK, LAN, LOOPBACK]);
    assert!(left == right);
    assert!(left.is_subset_of(&right));
}

#[test]
fn sets_with_different_addresses_differ() {
    let one = AddressSet::from_addresses(&vec![LAN]);
    let two = AddressSet::from_addresses(&vec![LAN, LOOPBACK]);
    assert!(one != two);
    assert!(one.is_subset_of(&two));
    assert!(!two.is_subset_of(&one));
    assert!(one != AddressSet::from_addresses(&vec![LOOPBACK]));
}

#[test]
fn an_address_and_the_one_that_embeds_it_differ() {
    let mapped = IpAddress::V6(0xffff_7f00_0001);
    assert!(LOOPBACK != mapped);
    assert!(LOOPBACK != LOOPBACK_V6);
    let set = AddressSet::from_addresses(&vec![LOOPBACK, mapped, IpAddress::V6(0x7f00_0001)]);
    assert_eq!(set.len(), 3);
}

#[test]
fn clone_is_equal_and_independent() {
    let source = AddressSet::from_addresses(&vec![LAN]);
    let mut copy = source.clone();
    assert!(copy == source);
    copy.insert(LOOPBACK);
    assert!(copy != source);
    assert_eq!(source.len(), 1);
}
