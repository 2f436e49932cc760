//! The parts that all contracts share.

use data_market::dummy::{Dummy, DummyContract};
use data_market::host::{Address, Effect, Effects, Hash32, StorageKey};
use data_market::table::{Key, Table};
use data_market::text::{decimal_text, hex_text, numbered};

#[test]
fn numbers_are_written_in_decimal() {
    assert_eq!(decimal_text(0), "0");
    assert_eq!(decimal_text(7), "7");
    assert_eq!(decimal_text(1203), "1203");
    assert_eq!(decimal_text(u32::MAX), "4294967295");
    assert_eq!(numbered("ds_", 12), "ds_12");
}

#[test]
fn a_table_holds_one_value_for_each_key() {
    let key = |s: &str| Address { strkey: String::from(s) };
    let mut table: Table<Address, String> = Table::new();
    assert!(!table.has(&key("a")));
    table.set(key("a"), String::from("one"));
    table.set(key("b"), String::from("two"));
    table.set(key("a"), String::from("three"));
    assert_eq!(table.get(&key("a")), Some(&String::from("three")));
    assert_eq!(table.get(&key("b")), Some(&String::from("two")));
    assert_eq!(table.get(&key("c")), None);
    table.remove(&key("a"));
    assert_eq!(table.get(&key("a")), None);
    assert!(table.has(&key("b")));
    table.remove(&key("c"));
    assert!(table.has(&key("b")));
}

#[test]
fn hashes_are_compared_byte_by_byte() {
    let mut bytes = [0u8; 32];
    assert!(Hash32 { bytes }.is_zero());
    bytes[31] = 1;
    let last = Hash32 { bytes };
    assert!(!last.is_zero());
    assert!(last.same(&Hash32 { bytes }));
    bytes[0] = 1;
    assert!(!last.same(&Hash32 { bytes }));
}

#[test]
fn effects_come_in_order() {
    let who = |s: &str| Address { strkey: String::from(s) };
    let mut fx = Effects::new();
    fx.authorize(&who("a"));
    fx.transfer(&who("t"), &who("a"), &who("b"), 3);
    assert_eq!(
        fx.list,
        vec![
            Effect::Authorize(who("a")),
            Effect::Transfer { token: who("t"), from: who("a"), to: who("b"), amount: 3 },
        ]
    );
}

#[test]
fn the_smallest_contracts_answer() {
    Dummy::hello();
    assert_eq!(DummyContract::hello(), 1);
}

#[test]
fn bytes_are_written_in_hexadecimal() {
    let mut bytes = [0u8; 32];
    bytes[0] = 0xa5;
    bytes[31] = 0x0f;
    let text = hex_text(&bytes);
    assert_eq!(text.len(), 64);
    assert!(text.starts_with("a500"));
    assert!(text.ends_with("000f"));
}

#[test]
fn no_two_entries_share_a_name() {
    let who = |s: &str| Address { strkey: String::from(s) };
    let id = |s: &str| String::from(s);
    let hash = Hash32 { bytes: [0x1b; 32] };
    let name = |key: StorageKey| key.name().unwrap();
    assert_eq!(StorageKey::Instance.name(), None);
    assert_eq!(name(StorageKey::Commission(id("com_1"))), "com_1");
    assert_eq!(name(StorageKey::License(id("lic_1"))), "lic_1");
    assert_eq!(name(StorageKey::Record(id("pay_1"))), "pay_1");
    assert_eq!(name(StorageKey::HashIndex(hash)), format!("hash_{}", "1b".repeat(32)));
    assert_eq!(name(StorageKey::Reputation(who("GA"))), "rep_GA");
    assert_eq!(name(StorageKey::Curator(who("GA"))), "cur_GA");
    assert_eq!(name(StorageKey::Attestation(id("ds_1"), who("GA"))), "att_ds_1_GA");
    assert_eq!(name(StorageKey::Attesters(id("ds_1"))), "alist_ds_1");
    assert_eq!(name(StorageKey::Quality(id("ds_1"))), "agg_ds_1");
    // An id may hold what separates it from the address.
    assert_ne!(
        name(StorageKey::Attestation(id("a_b"), who("CC"))),
        name(StorageKey::Attestation(id("a"), who("bC")))
    );
}
