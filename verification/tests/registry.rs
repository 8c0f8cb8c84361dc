use stuff::registry::{deposit, lookup, withdraw, Deposit, Stuff};
use stuff::shelf::Shelf;

#[test]
fn stuff() {
    let mut stuff = Stuff::new();
    stuff.insert("dogs".to_string(), 5u32);
    stuff.insert("cats".to_string(), "seven".to_string());
    assert_eq!(*stuff.get::<u32>("dogs").unwrap(), 5u32);
    assert_eq!(*stuff.get::<String>("cats").unwrap(), "seven".to_string());
    assert_eq!(stuff.get("centaurs"), None::<&u32>);
    assert_eq!(stuff.remove::<u32>("dogs").unwrap(), 5u32);
    assert_eq!(stuff.remove("dogs"), None::<u32>);
}

#[test]
fn new_registry_holds_nothing() {
    let mut stuff = Stuff::new();
    assert_eq!(stuff.get::<u32>("dogs"), None);
    assert_eq!(stuff.get::<String>(""), None);
    assert_eq!(stuff.remove::<u32>("dogs"), None);
    assert_eq!(stuff.remove::<Vec<u8>>("dogs"), None);
}

#[test]
fn inserted_value_is_found_until_removed() {
    let mut stuff = Stuff::new();
    stuff.insert("dogs".to_string(), 5u32);
    assert_eq!(stuff.get::<u32>("dogs"), Some(&5));
    stuff.insert("cats".to_string(), 7u32);
    stuff.insert("birds".to_string(), 9u32);
    assert_eq!(stuff.remove::<u32>("cats"), Some(7));
    assert_eq!(stuff.get::<u32>("dogs"), Some(&5));
    assert_eq!(stuff.get::<u32>("birds"), Some(&9));
    assert_eq!(stuff.get::<u32>("cats"), None);
    assert_eq!(stuff.remove::<u32>("dogs"), Some(5));
    assert_eq!(stuff.get::<u32>("dogs"), None);
    assert_eq!(stuff.get::<u32>("birds"), Some(&9));
}

#[test]
fn first_writer_wins() {
    let mut stuff = Stuff::new();
    stuff.insert("dogs".to_string(), 5u32);
    stuff.insert("dogs".to_string(), 6u32);
    assert_eq!(stuff.get::<u32>("dogs"), Some(&5));
    assert_eq!(stuff.remove::<u32>("dogs"), Some(5));
    assert_eq!(stuff.remove::<u32>("dogs"), None);
}

#[test]
fn removed_key_can_be_stored_under_again() {
    let mut stuff = Stuff::new();
    stuff.insert("dogs".to_string(), 5u32);
    assert_eq!(stuff.remove::<u32>("dogs"), Some(5));
    stuff.insert("dogs".to_string(), 6u32);
    assert_eq!(stuff.get::<u32>("dogs"), Some(&6));
}

#[test]
fn types_have_keyspaces_of_their_own() {
    let mut stuff = Stuff::new();
    stuff.insert("k".to_string(), 1u32);
    stuff.insert("k".to_string(), "one".to_string());
    stuff.insert("k".to_string(), 1u64);
    assert_eq!(stuff.get::<u32>("k"), Some(&1u32));
    assert_eq!(stuff.get::<String>("k"), Some(&"one".to_string()));
    assert_eq!(stuff.get::<u64>("k"), Some(&1u64));
    assert_eq!(stuff.remove::<u32>("k"), Some(1u32));
    assert_eq!(stuff.get::<u32>("k"), None);
    assert_eq!(stuff.get::<String>("k"), Some(&"one".to_string()));
    assert_eq!(stuff.get::<u64>("k"), Some(&1u64));
}

#[test]
fn key_under_another_type_is_absent() {
    let mut stuff = Stuff::new();
    stuff.insert("dogs".to_string(), 5u32);
    assert_eq!(stuff.get::<u64>("dogs"), None);
    assert_eq!(stuff.get::<String>("dogs"), None);
    assert_eq!(stuff.get::<i32>("dogs"), None);
    assert_eq!(stuff.remove::<u64>("dogs"), None);
    assert_eq!(stuff.get::<u32>("dogs"), Some(&5));
}

#[test]
fn removal_gives_the_value_once() {
    let mut stuff = Stuff::new();
    stuff.insert("cats".to_string(), "seven".to_string());
    assert_eq!(stuff.remove::<String>("cats"), Some("seven".to_string()));
    assert_eq!(stuff.get::<String>("cats"), None);
    assert_eq!(stuff.remove::<String>("cats"), None);
}

#[test]
fn emptied_shelf_is_used_again() {
    let mut stuff = Stuff::new();
    stuff.insert("a".to_string(), 1u8);
    assert_eq!(stuff.remove::<u8>("a"), Some(1));
    stuff.insert("b".to_string(), 2u8);
    stuff.insert("a".to_string(), 3u8);
    assert_eq!(stuff.get::<u8>("a"), Some(&3));
    assert_eq!(stuff.get::<u8>("b"), Some(&2));
}

#[test]
fn offer_hands_back_the_rejected_value() {
    let mut stuff = Stuff::new();
    assert_eq!(stuff.offer("dogs".to_string(), 5u32), None);
    assert_eq!(stuff.offer("dogs".to_string(), 6u32), Some(6));
    assert_eq!(stuff.offer("dogs".to_string(), 6u64), None);
    assert_eq!(stuff.offer("cats".to_string(), 7u32), None);
    assert_eq!(stuff.get::<u32>("dogs"), Some(&5));
    assert_eq!(stuff.get::<u64>("dogs"), Some(&6));
    assert_eq!(stuff.get::<u32>("cats"), Some(&7));
}

#[test]
fn empty_key_is_a_key() {
    let mut stuff = Stuff::new();
    stuff.insert(String::new(), 1u32);
    stuff.insert(" ".to_string(), 2u32);
    assert_eq!(stuff.get::<u32>(""), Some(&1));
    assert_eq!(stuff.get::<u32>(" "), Some(&2));
    assert_eq!(stuff.remove::<u32>(""), Some(1));
    assert_eq!(stuff.get::<u32>(""), None);
    assert_eq!(stuff.get::<u32>(" "), Some(&2));
}

#[test]
fn keys_are_compared_whole() {
    let mut stuff = Stuff::new();
    stuff.insert("dog".to_string(), 1u32);
    assert_eq!(stuff.get::<u32>("dogs"), None);
    assert_eq!(stuff.get::<u32>("do"), None);
    assert_eq!(stuff.get::<u32>("Dog"), None);
    assert_eq!(stuff.get::<u32>("dog"), Some(&1));
}

#[test]
fn values_without_equality_are_stored() {
    struct Opaque(u8);
    let mut stuff = Stuff::new();
    assert!(stuff.offer("x".to_string(), Opaque(3)).is_none());
    assert_eq!(stuff.get::<Opaque>("x").map(|o| o.0), Some(3));
    assert_eq!(stuff.remove::<Opaque>("x").map(|o| o.0), Some(3));
    assert!(stuff.get::<Opaque>("x").is_none());
}

#[test]
fn shelf_keeps_the_first_value() {
    let mut shelf: Shelf<u32> = Shelf::new();
    assert_eq!(shelf.get("a"), None);
    assert_eq!(shelf.insert("a".to_string(), 1), None);
    assert_eq!(shelf.insert("b".to_string(), 2), None);
    assert_eq!(shelf.insert("a".to_string(), 3), Some(3));
    assert_eq!(shelf.get("a"), Some(&1));
    assert_eq!(shelf.get("b"), Some(&2));
    assert_eq!(shelf.get("c"), None);
}

#[test]
fn shelf_removal_leaves_the_rest() {
    let mut shelf: Shelf<String> = Shelf::new();
    assert_eq!(shelf.insert("a".to_string(), "x".to_string()), None);
    assert_eq!(shelf.insert("b".to_string(), "y".to_string()), None);
    assert_eq!(shelf.insert("c".to_string(), "z".to_string()), None);
    assert_eq!(shelf.remove("b"), Some("y".to_string()));
    assert_eq!(shelf.remove("b"), None);
    assert_eq!(shelf.remove("d"), None);
    assert_eq!(shelf.get("a"), Some(&"x".to_string()));
    assert_eq!(shelf.get("b"), None);
    assert_eq!(shelf.get("c"), Some(&"z".to_string()));
    assert_eq!(shelf.remove("a"), Some("x".to_string()));
    assert_eq!(shelf.remove("c"), Some("z".to_string()));
    assert_eq!(shelf.get("c"), None);
    assert_eq!(shelf.insert("b".to_string(), "w".to_string()), None);
    assert_eq!(shelf.get("b"), Some(&"w".to_string()));
}

#[test]
fn lookup_without_a_shelf_finds_nothing() {
    assert_eq!(lookup::<u32>(None, "dogs"), None);
    let mut shelf: Shelf<u32> = Shelf::new();
    assert_eq!(lookup(Some(&shelf), "dogs"), None);
    assert_eq!(shelf.insert("dogs".to_string(), 5), None);
    assert_eq!(lookup(Some(&shelf), "dogs"), Some(&5));
    assert_eq!(lookup(Some(&shelf), "cats"), None);
}

#[test]
fn withdraw_without_a_shelf_takes_nothing() {
    assert_eq!(withdraw::<u32>(None, "dogs"), None);
    let mut shelf: Shelf<u32> = Shelf::new();
    assert_eq!(shelf.insert("dogs".to_string(), 5), None);
    assert_eq!(withdraw(Some(&mut shelf), "cats"), None);
    assert_eq!(withdraw(Some(&mut shelf), "dogs"), Some(5));
    assert_eq!(withdraw(Some(&mut shelf), "dogs"), None);
    assert_eq!(shelf.get("dogs"), None);
}

#[test]
fn deposit_without_a_shelf_makes_one() {
    match deposit::<u32>(None, "dogs".to_string(), 5) {
        Deposit::Fresh(shelf) => {
            assert_eq!(shelf.get("dogs"), Some(&5));
            assert_eq!(shelf.get("cats"), None);
        }
        _ => panic!("a shelf was expected"),
    }
}

#[test]
fn deposit_on_a_shelf_stores_or_rejects() {
    let mut shelf: Shelf<u32> = Shelf::new();
    assert!(matches!(deposit(Some(&mut shelf), "dogs".to_string(), 5), Deposit::Stored));
    assert!(matches!(deposit(Some(&mut shelf), "dogs".to_string(), 6), Deposit::Rejected(6)));
    assert!(matches!(deposit(Some(&mut shelf), "cats".to_string(), 6), Deposit::Stored));
    assert_eq!(shelf.get("dogs"), Some(&5));
    assert_eq!(shelf.get("cats"), Some(&6));
}

#[test]
fn key_held_by_no_type_is_free() {
    let mut stuff = Stuff::new();
    stuff.insert("dogs".to_string(), 5u32);
    assert_eq!(stuff.get::<u32>("cats"), None);
    assert_eq!(stuff.remove::<String>("cats"), None);
    assert_eq!(stuff.offer("cats".to_string(), 1u8), None);
    assert_eq!(stuff.offer("cats".to_string(), 2u8), Some(2));
    assert_eq!(stuff.get::<u8>("cats"), Some(&1));
}

#[test]
fn first_value_of_a_type_puts_its_shelf_up() {
    let mut stuff = Stuff::new();
    assert_eq!(stuff.get::<i64>("a"), None);
    stuff.insert("a".to_string(), -1i64);
    stuff.insert("b".to_string(), -2i64);
    assert_eq!(stuff.get::<i64>("a"), Some(&-1));
    assert_eq!(stuff.get::<i64>("b"), Some(&-2));
    assert_eq!(stuff.remove::<i64>("a"), Some(-1));
    assert_eq!(stuff.remove::<i64>("b"), Some(-2));
    assert_eq!(stuff.get::<i64>("a"), None);
    stuff.insert("a".to_string(), -3i64);
    assert_eq!(stuff.get::<i64>("a"), Some(&-3));
}
