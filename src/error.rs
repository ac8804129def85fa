use vstd::prelude::*;

verus! {

/// Why an order could not be placed.
#[derive(Clone, Copy, Debug, PartialEq, Eq, Structural)]
pub enum OrderError {
    NoCart,
    UnknownRestaurant,
    ItemNotOnMenu,
}

/// Why a payment could not be taken.
#[derive(Clone, Copy, Debug, PartialEq, Eq, Structural)]
pub enum PaymentError {
    NoAccount,
    InsufficientFunds,
}

/// Why no rider could be matched.
#[derive(Clone, Copy, Debug, PartialEq, Eq, Structural)]
pub enum RiderError {
    NoRiderAvailable,
}

/// Why a confirmation could not be sent.
#[derive(Clone, Copy, Debug, PartialEq, Eq, Structural)]
pub enum NotificationError {
    NoChannel,
    DeliveryFailed,
}

/// Every failure of the order workflow, by the step it comes from.
#[derive(Debug, PartialEq, Eq)]
pub enum CustomError {
    NotificationError(NotificationError),
    PaymentError(PaymentError),
    OrderError(OrderError),
    RiderError(RiderError),
    Other(String),
}

} // verus!
