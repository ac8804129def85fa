use food_delivery::cart::{Cart, Item};
use food_delivery::error::{CustomError, OrderError};
use food_delivery::order::bill_total;
use food_delivery::registry::Registry;

#[test]
fn add_counts_items() {
    let mut cart = Cart::new();
    let a = Item::new("a", 12);
    let b = Item::new("b", 14);
    cart.add(&a);
    cart.add(&a);
    cart.add(&b);
    assert_eq!(cart.quantity("a"), 2);
    assert_eq!(cart.quantity("b"), 1);
    assert_eq!(cart.quantity("c"), 0);
    assert_eq!(cart.get_items().len(), 2);
}

#[test]
fn remove_decrements_then_deletes() {
    let mut cart = Cart::new();
    let a = Item::new("a", 12);
    cart.add(&a);
    cart.add(&a);
    cart.remove(&a);
    assert_eq!(cart.quantity("a"), 1);
    cart.remove(&a);
    assert_eq!(cart.quantity("a"), 0);
    assert!(!cart.get_items().contains_key("a"));
    assert_eq!(cart.get_items().len(), 0);
}

#[test]
fn remove_absent_is_noop() {
    let mut cart = Cart::new();
    let a = Item::new("a", 12);
    let b = Item::new("b", 14);
    cart.add(&a);
    cart.remove(&b);
    cart.remove(&b);
    assert_eq!(cart.quantity("a"), 1);
    assert_eq!(cart.get_items().len(), 1);
}

#[test]
fn clear_empties_cart() {
    let mut cart = Cart::new();
    cart.add(&Item::new("a", 1));
    cart.add(&Item::new("b", 1));
    cart.clear();
    assert_eq!(cart.get_items().len(), 0);
}

#[test]
fn registry_replaces_on_insert() {
    let mut r: Registry<usize> = Registry::new();
    r.insert("x".to_string(), 1);
    r.insert("y".to_string(), 2);
    r.insert("x".to_string(), 3);
    assert_eq!(r.len(), 2);
    assert_eq!(r.get("x"), Some(&3));
    assert_eq!(r.get("y"), Some(&2));
    assert_eq!(r.get("z"), None);
    r.remove("x");
    assert_eq!(r.get("x"), None);
    assert_eq!(r.len(), 1);
}

fn menu(entries: &[(&str, usize)]) -> Registry<usize> {
    let mut m = Registry::new();
    for (id, price) in entries {
        m.insert(id.to_string(), *price);
    }
    m
}

#[test]
fn bill_is_price_times_quantity() {
    let mut cart = Cart::new();
    let a = Item::new("A", 12);
    cart.add(&a);
    cart.add(&a);
    assert_eq!(bill_total(&cart, &menu(&[("A", 12)])), Ok(24));
}

#[test]
fn bill_sums_entries() {
    let mut cart = Cart::new();
    cart.add(&Item::new("1", 12));
    cart.add(&Item::new("2", 14));
    cart.add(&Item::new("2", 14));
    assert_eq!(bill_total(&cart, &menu(&[("1", 12), ("2", 14), ("3", 99)])), Ok(40));
}

#[test]
fn bill_of_empty_cart_is_zero() {
    let cart = Cart::new();
    assert_eq!(bill_total(&cart, &menu(&[("1", 12)])), Ok(0));
}

#[test]
fn bill_rejects_item_not_on_menu() {
    let mut cart = Cart::new();
    cart.add(&Item::new("1", 12));
    cart.add(&Item::new("9", 5));
    assert_eq!(
        bill_total(&cart, &menu(&[("1", 12)])),
        Err(CustomError::OrderError(OrderError::ItemNotOnMenu))
    );
}

#[test]
fn bill_overflow_is_reported() {
    let mut cart = Cart::new();
    cart.add(&Item::new("1", 0));
    cart.add(&Item::new("1", 0));
    let r = bill_total(&cart, &menu(&[("1", usize::MAX)]));
    assert!(matches!(r, Err(CustomError::Other(_))));
}

#[test]
fn unknown_item_wins_over_overflow() {
    let mut cart = Cart::new();
    cart.add(&Item::new("1", 0));
    cart.add(&Item::new("1", 0));
    cart.add(&Item::new("2", 0));
    let r = bill_total(&cart, &menu(&[("1", usize::MAX)]));
    assert_eq!(r, Err(CustomError::OrderError(OrderError::ItemNotOnMenu)));
}
