//! A food-delivery fulfilment core: carts, per-user capability registries,
//! nearest-rider matching and an order workflow with refund on failure.
pub mod error;
pub mod location;
pub mod registry;
pub mod rider;
pub mod payment;
pub mod user;
pub mod cart;
pub mod notification;
pub mod restaurant;
pub mod order;
