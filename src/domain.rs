//! Validated values of the subscription domain.
pub mod new_subscriber;
pub mod subscriber_email;
pub mod subscriber_name;
pub mod subscription_status;
pub mod subscription_token;

pub use new_subscriber::NewSubscriber;
pub use subscriber_email::SubscriberEmail;
pub use subscriber_name::SubscriberName;
pub use subscription_status::SubscriptionStatus;
pub use subscription_token::{token_regex, SubscriptionToken};
