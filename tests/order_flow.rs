use food_delivery::cart::{Cart, Item};
use food_delivery::error::{CustomError, NotificationError, OrderError, PaymentError, RiderError};
use food_delivery::location::Location;
use food_delivery::notification::Email;
use food_delivery::order::Zomato;
use food_delivery::payment::Gpay;
use food_delivery::registry::Registry;
use food_delivery::restaurant::Restaurant;
use food_delivery::rider::Rider;
use food_delivery::user::User;

fn located(id: &str, x: i32, y: i32) -> Rider {
    let mut r = Rider::new(id);
    r.update(Location(x, y));
    r
}

fn service_with_restaurant() -> (Zomato, Item, Item) {
    let mut z = Zomato::new();
    let item1 = Item::new("1", 12);
    let item2 = Item::new("2", 14);
    let mut menu = Registry::new();
    menu.insert(item1.id.clone(), item1.price);
    menu.insert(item2.id.clone(), item2.price);
    z.add_restaurant(Restaurant::new("1", "Karnot Dhaba", Location(1, 1), menu));
    (z, item1, item2)
}

fn balance_of(z: &Zomato, user: &User) -> usize {
    z.payment_manager.get(user).unwrap().balance
}

fn cart_len(z: &Zomato, user: &User) -> usize {
    z.cart_manager.get(user).unwrap().get_items().len()
}

#[test]
fn insufficient_funds_leaves_balance() {
    let mut g = Gpay::new("u", 10);
    assert_eq!(g.pay(24), Err(PaymentError::InsufficientFunds));
    assert_eq!(g.balance, 10);
    assert_eq!(g.pay(4), Ok(6));
    assert_eq!(g.balance, 6);
}

#[test]
fn refund_restores_balance() {
    let mut g = Gpay::new("u", 100);
    assert_eq!(g.pay(24), Ok(76));
    assert_eq!(g.refund(24), 100);
    assert_eq!(g.balance, 100);
}

#[test]
fn end_to_end_order() {
    let (mut z, item1, item2) = service_with_restaurant();
    let user = User::new("1", "Shivank", Location(1, 2));
    z.notification_manager.attach(&user, Email::new("shivank@example.com"));
    z.payment_manager.attach(&user, Gpay::new("shivank", 100));
    z.rider_service.push(located("r1", 2, 2));
    z.rider_service.push(located("r2", 3, 3));
    z.add_to_cart(&user, &item1).unwrap();
    z.add_to_cart(&user, &item2).unwrap();

    let receipt = z.process_order(&user, "1").unwrap();
    assert_eq!(receipt.total, 26);
    assert_eq!(receipt.rider_id, "r1");
    assert_eq!(receipt.rider, 0);
    assert_eq!(receipt.remaining_balance, 74);
    assert_eq!(receipt.notification, Ok(()));
    assert_eq!(balance_of(&z, &user), 74);
    assert_eq!(cart_len(&z, &user), 0);
    assert!(!z.rider_service.riders[0].is_available);
    assert_eq!(z.rider_service.riders[0].target_location, Some(Location(1, 2)));
    assert!(z.rider_service.riders[1].is_available);

    let email = z.notification_manager.get(&user).unwrap();
    assert_eq!(email.outbox.len(), 1);
    assert_eq!(email.outbox[0].total, 26);
    assert_eq!(email.outbox[0].restaurant, "Karnot Dhaba");
    assert_eq!(email.outbox[0].rider, "r1");
    assert_eq!(email.outbox[0].balance, 74);
}

#[test]
fn second_order_gets_remaining_rider() {
    let (mut z, item1, item2) = service_with_restaurant();
    let u1 = User::new("1", "Shivank", Location(1, 2));
    let u2 = User::new("2", "Ajay", Location(1, 3));
    z.payment_manager.attach(&u1, Gpay::new("shivank", 100));
    z.payment_manager.attach(&u2, Gpay::new("ajay", 150));
    z.rider_service.push(located("r1", 2, 2));
    z.rider_service.push(located("r2", 3, 3));
    z.add_to_cart(&u1, &item1).unwrap();
    z.add_to_cart(&u1, &item2).unwrap();
    z.add_to_cart(&u2, &item1).unwrap();
    z.add_to_cart(&u2, &item1).unwrap();
    assert_eq!(z.process_order(&u1, "1").unwrap().rider_id, "r1");
    let r2 = z.process_order(&u2, "1").unwrap();
    assert_eq!(r2.total, 24);
    assert_eq!(r2.rider_id, "r2");
    assert_eq!(r2.remaining_balance, 126);
}

#[test]
fn no_rider_refunds_payment() {
    let (mut z, item1, _) = service_with_restaurant();
    let user = User::new("1", "Shivank", Location(1, 2));
    z.payment_manager.attach(&user, Gpay::new("shivank", 100));
    z.add_to_cart(&user, &item1).unwrap();
    z.add_to_cart(&user, &item1).unwrap();
    let r = z.process_order(&user, "1");
    assert_eq!(r.unwrap_err(), CustomError::RiderError(RiderError::NoRiderAvailable));
    assert_eq!(balance_of(&z, &user), 100);
    assert_eq!(z.cart_manager.get(&user).unwrap().quantity("1"), 2);
}

#[test]
fn failed_order_keeps_cart() {
    let (mut z, item1, item2) = service_with_restaurant();
    let user = User::new("1", "Shivank", Location(1, 2));
    z.payment_manager.attach(&user, Gpay::new("shivank", 10));
    z.rider_service.push(located("r1", 2, 2));
    z.add_to_cart(&user, &item1).unwrap();
    z.add_to_cart(&user, &item2).unwrap();
    let r = z.process_order(&user, "1");
    assert_eq!(r.unwrap_err(), CustomError::PaymentError(PaymentError::InsufficientFunds));
    let cart = z.cart_manager.get(&user).unwrap();
    assert_eq!(cart.quantity("1"), 1);
    assert_eq!(cart.quantity("2"), 1);
    assert_eq!(balance_of(&z, &user), 10);
    assert!(z.rider_service.riders[0].is_available);
}

#[test]
fn no_cart_is_reported() {
    let (mut z, _, _) = service_with_restaurant();
    let user = User::new("1", "Shivank", Location(1, 2));
    z.payment_manager.attach(&user, Gpay::new("shivank", 100));
    assert_eq!(
        z.process_order(&user, "1").unwrap_err(),
        CustomError::OrderError(OrderError::NoCart)
    );
}

#[test]
fn unknown_restaurant_is_reported() {
    let (mut z, item1, _) = service_with_restaurant();
    let user = User::new("1", "Shivank", Location(1, 2));
    z.add_to_cart(&user, &item1).unwrap();
    assert_eq!(
        z.process_order(&user, "7").unwrap_err(),
        CustomError::OrderError(OrderError::UnknownRestaurant)
    );
}

#[test]
fn item_not_on_menu_is_reported() {
    let (mut z, item1, _) = service_with_restaurant();
    let user = User::new("1", "Shivank", Location(1, 2));
    z.payment_manager.attach(&user, Gpay::new("shivank", 100));
    z.rider_service.push(located("r1", 2, 2));
    z.add_to_cart(&user, &item1).unwrap();
    z.add_to_cart(&user, &Item::new("9", 3)).unwrap();
    assert_eq!(
        z.process_order(&user, "1").unwrap_err(),
        CustomError::OrderError(OrderError::ItemNotOnMenu)
    );
    assert_eq!(balance_of(&z, &user), 100);
    assert_eq!(cart_len(&z, &user), 2);
}

#[test]
fn missing_account_is_reported() {
    let (mut z, item1, _) = service_with_restaurant();
    let user = User::new("1", "Shivank", Location(1, 2));
    z.rider_service.push(located("r1", 2, 2));
    z.add_to_cart(&user, &item1).unwrap();
    assert_eq!(
        z.process_order(&user, "1").unwrap_err(),
        CustomError::PaymentError(PaymentError::NoAccount)
    );
    assert!(z.rider_service.riders[0].is_available);
}

#[test]
fn missing_channel_does_not_undo_order() {
    let (mut z, item1, _) = service_with_restaurant();
    let user = User::new("1", "Shivank", Location(1, 2));
    z.payment_manager.attach(&user, Gpay::new("shivank", 100));
    z.rider_service.push(located("r1", 2, 2));
    z.add_to_cart(&user, &item1).unwrap();
    let receipt = z.process_order(&user, "1").unwrap();
    assert_eq!(receipt.notification, Err(NotificationError::NoChannel));
    assert_eq!(receipt.total, 12);
    assert_eq!(balance_of(&z, &user), 88);
    assert_eq!(cart_len(&z, &user), 0);
}

#[test]
fn add_to_cart_uses_attached_cart() {
    let mut z = Zomato::new();
    let user = User::new("1", "Shivank", Location(1, 2));
    let item = Item::new("1", 1);
    let mut cart = Cart::new();
    cart.add(&item);
    z.cart_manager.attach(&user, cart);
    assert_eq!(z.add_to_cart(&user, &item), Ok(()));
    assert_eq!(z.cart_manager.get(&user).unwrap().quantity("1"), 2);
    assert!(z.add_to_cart(&user, &Item::new("2", 1)).is_ok());
    assert_eq!(cart_len(&z, &user), 2);
}

#[test]
fn order_total_overflow_is_reported() {
    let mut z = Zomato::new();
    let user = User::new("1", "Shivank", Location(1, 2));
    let item = Item::new("1", usize::MAX);
    let mut menu = Registry::new();
    menu.insert(item.id.clone(), item.price);
    z.add_restaurant(Restaurant::new("1", "Dear", Location(0, 0), menu));
    z.payment_manager.attach(&user, Gpay::new("u", usize::MAX));
    z.add_to_cart(&user, &item).unwrap();
    z.add_to_cart(&user, &item).unwrap();
    let r = z.process_order(&user, "1");
    assert!(matches!(r, Err(CustomError::Other(_))));
    assert_eq!(balance_of(&z, &user), usize::MAX);
}

#[test]
fn attach_replaces_account() {
    let mut z = Zomato::new();
    let user = User::new("1", "Shivank", Location(1, 2));
    z.payment_manager.attach(&user, Gpay::new("old", 5));
    z.payment_manager.attach(&user, Gpay::new("new", 50));
    assert_eq!(z.payment_manager.get(&user).unwrap().id, "new");
    assert_eq!(balance_of(&z, &user), 50);
}
