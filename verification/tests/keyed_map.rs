use yieldladder::address::Address;
use yieldladder::keyed_map::KeyedMap;

#[test]
fn insert_replaces_and_remove_deletes() {
    let mut m: KeyedMap<Address, i128> = KeyedMap::new();
    let a = Address::account(0, 1);
    let b = Address::contract(0, 1);
    m.insert(a, 5);
    m.insert(b, 7);
    m.insert(a, 9);
    assert_eq!(m.len(), 2);
    assert_eq!(m.get(&a), Some(&9));
    assert_eq!(m.get(&b), Some(&7));
    assert_eq!(m.entry(0), &(a, 9));
    m.remove(&a);
    assert_eq!(m.get(&a), None);
    assert!(!m.contains(&a));
    assert!(m.contains(&b));
    assert_eq!(m.len(), 1);
    let c = m.copied();
    assert_eq!(c.get(&b), Some(&7));
}
