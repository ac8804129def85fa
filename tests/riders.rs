use food_delivery::error::RiderError;
use food_delivery::location::Location;
use food_delivery::rider::{Rider, RiderMatchingService};

fn located(id: &str, x: i32, y: i32) -> Rider {
    let mut r = Rider::new(id);
    r.update(Location(x, y));
    r
}

#[test]
fn squared_distance_exact() {
    assert_eq!(Location(1, 2).squared_distance_to(&Location(2, 2)), 1);
    assert_eq!(Location(1, 2).squared_distance_to(&Location(3, 3)), 5);
    assert_eq!(Location(0, 0).squared_distance_to(&Location(0, 0)), 0);
    assert_eq!(Location(3, 4).squared_distance_to(&Location(0, 0)), 25);
    assert_eq!(Location(0, 0).squared_distance_to(&Location(3, 4)), 25);
}

#[test]
fn squared_distance_extremes() {
    let a = Location(i32::MIN, i32::MIN);
    let b = Location(i32::MAX, i32::MAX);
    let d = (u32::MAX as u128) * (u32::MAX as u128);
    assert_eq!(a.squared_distance_to(&b), 2 * d);
}

#[test]
fn new_rider_is_available_without_location() {
    let r = Rider::new("r1");
    assert_eq!(r.id, "r1");
    assert!(r.is_available);
    assert_eq!(r.location, None);
    assert_eq!(r.target_location, None);
}

#[test]
fn matches_nearest_rider() {
    let mut pool = RiderMatchingService::new();
    pool.push(located("far", 10, 10));
    pool.push(located("near", 1, 1));
    pool.push(located("mid", 3, 3));
    let i = pool.match_rider(&Location(0, 0)).unwrap();
    assert_eq!(pool.riders[i].id, "near");
    assert!(!pool.riders[i].is_available);
    assert_eq!(pool.riders[i].target_location, Some(Location(0, 0)));
    assert!(pool.riders[0].is_available);
    assert!(pool.riders[2].is_available);
}

#[test]
fn tie_goes_to_earliest_registered() {
    let mut pool = RiderMatchingService::new();
    pool.push(located("a", 5, 5));
    pool.push(located("b", 1, 0));
    pool.push(located("c", 0, 1));
    let i = pool.match_rider(&Location(0, 0)).unwrap();
    assert_eq!(i, 1);
    let j = pool.match_rider(&Location(0, 0)).unwrap();
    assert_eq!(j, 2);
}

#[test]
fn matched_rider_not_selected_again() {
    let mut pool = RiderMatchingService::new();
    pool.push(located("r1", 0, 0));
    pool.push(located("r2", 9, 9));
    assert_eq!(pool.match_rider(&Location(0, 0)), Ok(0));
    assert_eq!(pool.match_rider(&Location(0, 0)), Ok(1));
    assert_eq!(pool.match_rider(&Location(0, 0)), Err(RiderError::NoRiderAvailable));
}

#[test]
fn unavailable_and_unlocated_riders_skipped() {
    let mut pool = RiderMatchingService::new();
    pool.push(Rider::new("nowhere"));
    let mut busy = located("busy", 0, 0);
    busy.accept_ride(Location(7, 7));
    pool.push(busy);
    pool.push(located("free", 50, 50));
    let i = pool.match_rider(&Location(0, 0)).unwrap();
    assert_eq!(pool.riders[i].id, "free");
}

#[test]
fn no_eligible_rider_fails_and_changes_nothing() {
    let mut pool = RiderMatchingService::new();
    pool.push(Rider::new("nowhere"));
    assert_eq!(pool.match_rider(&Location(0, 0)), Err(RiderError::NoRiderAvailable));
    assert!(pool.riders[0].is_available);
    assert_eq!(pool.riders[0].target_location, None);
}

#[test]
fn empty_pool_has_no_rider() {
    let mut pool = RiderMatchingService::new();
    assert_eq!(pool.match_rider(&Location(0, 0)), Err(RiderError::NoRiderAvailable));
}

#[test]
fn location_update_keeps_availability() {
    let mut pool = RiderMatchingService::new();
    pool.push(Rider::new("r1"));
    assert!(pool.update_location("r1", Location(2, 2)));
    assert!(!pool.update_location("r9", Location(2, 2)));
    assert_eq!(pool.riders[0].location, Some(Location(2, 2)));
    assert!(pool.riders[0].is_available);
    assert_eq!(pool.match_rider(&Location(0, 0)), Ok(0));
    assert!(pool.update_location("r1", Location(4, 4)));
    assert!(!pool.riders[0].is_available);
}

#[test]
fn completed_delivery_makes_rider_available() {
    let mut pool = RiderMatchingService::new();
    pool.push(located("r1", 0, 0));
    assert_eq!(pool.match_rider(&Location(1, 1)), Ok(0));
    assert_eq!(pool.match_rider(&Location(1, 1)), Err(RiderError::NoRiderAvailable));
    assert!(pool.complete_delivery("r1"));
    assert!(!pool.complete_delivery("r2"));
    assert!(pool.riders[0].is_available);
    assert_eq!(pool.riders[0].target_location, None);
    assert_eq!(pool.match_rider(&Location(1, 1)), Ok(0));
}
