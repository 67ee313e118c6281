//! Downstream demand, its limits, and the routing of events to clients.
pub mod hub;
pub mod limits;
pub mod registry;

pub use hub::{ClientFeed, DeliveryOutcome, GatewayHub, PublishError};
pub use limits::ProviderLimits;
pub use registry::{
    ClientId, DesiredSubscriptions, RegistryError, SubscriptionChange, SubscriptionRegistry,
};
