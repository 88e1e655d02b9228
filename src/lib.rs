//! An in-memory publish/subscribe notification registry.
//!
//! Subscribers register a callback URL under a category (a product type).
//! The [`Registry`] owns the category/URL pairs, the notification service
//! (`subscribe`, `unsubscribe`, `publish`) validates input and sequences the
//! registry with the dispatcher, which hands each delivery to a [`Notifier`].
pub mod address;
pub mod dispatch;
pub mod error;
pub mod notification;
pub mod registry;
pub mod subscriber;

pub use address::{is_absolute_url, is_valid_category};
pub use dispatch::{Delivery, DeliveryOutcome, DeliveryReport, Notifier};
pub use error::NotificationError;
pub use notification::{publish, subscribe, unsubscribe};
pub use registry::Registry;
pub use subscriber::Subscriber;
