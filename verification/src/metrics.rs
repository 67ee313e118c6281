//! The labels under which the gateway is measured.
use vstd::prelude::*;

use crate::domain;
use crate::domain::Provider;
use crate::providers;
use crate::providers::EndpointKind;

verus! {

/// The label of an endpoint.
#[derive(Debug, PartialEq, Eq)]
pub struct EndpointLabels {
    pub provider: String,
    pub endpoint: String,
}

impl EndpointLabels {
    /// The label of an endpoint: the names of its venue and of itself.
    pub fn new(provider: Provider, endpoint: EndpointKind) -> (labels: Self)
        ensures
            labels.provider@ == domain::provider_name(provider),
            labels.endpoint@ == providers::endpoint_name(endpoint),
    {
        EndpointLabels {
            provider: provider.name().to_owned(),
            endpoint: endpoint.name().to_owned(),
        }
    }
}

/// The label of a venue.
#[derive(Debug, PartialEq, Eq)]
pub struct ProviderLabels {
    pub provider: String,
}

impl ProviderLabels {
    /// The label of a venue: its name.
    pub fn new(provider: Provider) -> (labels: Self)
        ensures
            labels.provider@ == domain::provider_name(provider),
    {
        ProviderLabels { provider: provider.name().to_owned() }
    }
}

} // verus!
