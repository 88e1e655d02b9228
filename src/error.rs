use vstd::prelude::*;

verus! {

/// The typed failures of `subscribe` and `unsubscribe`.
///
/// Delivery failures are never errors of an operation: they are recorded per
/// subscriber in a `DeliveryReport`.
#[derive(Clone, Copy, Debug, PartialEq, Eq, Structural)]
pub enum NotificationError {
    /// The category is empty or the URL is not a well-formed absolute URL.
    InvalidInput,
    /// The (category, url) pair is already registered.
    DuplicateSubscription,
    /// The (category, url) pair is not registered.
    SubscriptionNotFound,
}

} // verus!
