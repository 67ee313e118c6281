//! The course of a client's connection.
use vstd::prelude::*;

use super::{Gateway, Reply};
use crate::api;
use crate::catalog::Catalog;
use crate::domain;
use crate::domain::{KeyView, MarketEvent, Provider, ProviderEvent, SCHEMA_VERSION};
use crate::gateway::hub;
use crate::gateway::hub::{ClientFeed, DeliveryOutcome, PublishError, RouteView};
use crate::gateway::limits;
use crate::gateway::registry;
use crate::gateway::registry::ClientId;
use crate::keyset;
use crate::protocol;
use crate::protocol::{ControlMessage, ControlView, ErrorCode};
use crate::venues::ProviderSet;
use crate::wire;

verus! {

/// What happens to a connection.
#[derive(Debug)]
pub enum SessionInput {
    /// The client sent a text.
    Text(String),
    /// The client sent a ping with a payload.
    Ping(Vec<u8>),
    /// The client sent a pong.
    Pong,
    /// The client sent bytes.
    Binary,
    /// The client closed the connection, or it failed.
    Disconnected,
    /// An event is next in the client's queue.
    Event(MarketEvent),
    /// The client's queue was closed.
    FeedClosed,
    /// The client's queue was overrun, so many times.
    Lagged(u64),
    /// The gateway stops.
    Shutdown,
}

/// A message to a client.
#[derive(Debug)]
pub enum Outgoing {
    Control(ControlMessage),
    Event(MarketEvent),
    Pong(Vec<u8>),
    Close,
}

/// What to do next: send a message where there is one, and end the connection or not.
#[derive(Debug)]
pub struct SessionStep {
    pub outgoing: Option<Outgoing>,
    pub ends: bool,
    /// A command was refused.
    pub rejected: bool,
    /// The client's queue was overrun.
    pub lagged: bool,
}

/// How a connection begins.
#[derive(Debug)]
pub enum Opening {
    /// There are too many clients: send the message and close.
    Rejected(ControlMessage),
    /// Send the greeting and feed the client from a queue.
    Opened { feed: ClientFeed, hello: ControlMessage },
}

/// Whether a message is the greeting of a gateway.
pub open spec fn is_hello(gateway: Gateway, message: ControlView) -> bool {
    message matches ControlView::Hello {
        schema_version,
        stream_epoch,
        max_subscriptions,
        max_provider_subscriptions,
        provider_subscription_limits,
    } && {
        &&& schema_version == SCHEMA_VERSION
        &&& stream_epoch == wire::uuid(gateway.hub().epoch())
        &&& max_subscriptions == gateway.subscriptions().client_limit()
        &&& gateway.subscriptions().is_safe_ceiling(max_provider_subscriptions)
        &&& limits::declared(provider_subscription_limits)
            == gateway.subscriptions().venue_limits()@
        &&& forall|i: int, j: int|
            0 <= i < j < provider_subscription_limits.len() ==> keyset::provider_rank(
                (#[trigger] provider_subscription_limits[i]).0,
            ) < keyset::provider_rank((#[trigger] provider_subscription_limits[j]).0)
    }
}

/// What becomes of what happens to a connection.
pub open spec fn stepped(
    before: Gateway,
    after: Gateway,
    step: SessionStep,
    client: ClientId,
    input: SessionInput,
    max_command_bytes: usize,
    enabled: Set<Provider>,
    catalog: Catalog,
) -> bool {
    &&& input is Text || after.same_clients(&before)
    &&& match input {
        SessionInput::Text(text) => {
            &&& !step.ends
            &&& !step.lagged
            &&& step.outgoing matches Some(Outgoing::Control(message)) && api::answered(
                before,
                after,
                (Reply { message, rejected: step.rejected }),
                client,
                text@,
                max_command_bytes,
                enabled,
                catalog,
            )
        },
        SessionInput::Ping(payload) => {
            &&& !step.ends && !step.rejected && !step.lagged
            &&& step.outgoing matches Some(Outgoing::Pong(echo)) && echo@ == payload@
        },
        SessionInput::Pong => {
            !step.ends && !step.rejected && !step.lagged && step.outgoing is None
        },
        SessionInput::Binary => {
            &&& !step.ends && step.rejected && !step.lagged
            &&& step.outgoing matches Some(Outgoing::Control(message)) && message@
                == protocol::error_of(
                None,
                ErrorCode::InvalidCommand,
                "commands must be UTF-8 JSON text"@,
            )
        },
        SessionInput::Disconnected | SessionInput::FeedClosed => {
            step.ends && !step.rejected && !step.lagged && step.outgoing is None
        },
        SessionInput::Event(event) => {
            &&& !step.ends && !step.rejected && !step.lagged
            &&& step.outgoing matches Some(Outgoing::Event(sent)) && sent@ == event@
        },
        SessionInput::Lagged(dropped) => {
            &&& step.ends && !step.rejected && step.lagged
            &&& step.outgoing matches Some(Outgoing::Control(message)) && message@ == (
            ControlView::Gap {
                schema_version: SCHEMA_VERSION,
                dropped_messages: dropped,
                message: "downstream buffer overrun; reconnect and repair gaps"@,
            })
        },
        SessionInput::Shutdown => {
            step.ends && !step.rejected && !step.lagged && step.outgoing
                == Some(Outgoing::Close)
        },
    }
}

impl Gateway {
    /// Open the connection of a client.
    pub fn open_session(&mut self, client_id: ClientId) -> (opening: Opening)
        ensures
            final(self).is_sound(),
            final(self).same_terms(old(self)),
            final(self).subscriptions() == old(self).subscriptions(),
            match opening {
                Opening::Rejected(message) => {
                    &&& !old(self).hub().routes().contains_key(client_id)
                    &&& old(self).hub().routes().dom().len() >= old(self).hub().client_limit()
                    &&& message@ == protocol::error_of(
                        None,
                        ErrorCode::LimitExceeded,
                        "downstream client limit exceeded"@,
                    )
                    &&& final(self).hub().routes() == old(self).hub().routes()
                },
                Opening::Opened { feed, hello } => {
                    &&& old(self).hub().routes().contains_key(client_id) || old(
                        self,
                    ).hub().routes().dom().len() < old(self).hub().client_limit()
                    &&& feed == (ClientFeed { client_id, capacity: old(self).hub().capacity() })
                    &&& is_hello(*old(self), hello@)
                    &&& final(self).hub().routes() == old(self).hub().routes().insert(
                        client_id,
                        RouteView { subscriptions: Set::empty(), lagged: 0 },
                    )
                },
            },
    {
        let (mut hub, subscriptions) = self.take();
        let registered = hub.try_register_client(client_id);
        *self = Gateway { hub, subscriptions };
        match registered {
            Some(feed) => {
                let hello = ControlMessage::hello(
                    wire::uuid_text(self.hub.stream_epoch()).as_str(),
                    self.subscriptions.max_subscriptions_per_client(),
                    self.subscriptions.provider_limits(),
                );
                Opening::Opened { feed, hello }
            },
            None => Opening::Rejected(
                ControlMessage::error(
                    None,
                    ErrorCode::LimitExceeded,
                    "downstream client limit exceeded",
                ),
            ),
        }
    }

    /// Say what to do when something happens to the connection of a client.
    pub fn step_session(
        &mut self,
        client_id: ClientId,
        input: SessionInput,
        max_command_bytes: usize,
        enabled: &ProviderSet,
        catalog: &Catalog,
    ) -> (step: SessionStep)
        ensures
            final(self).is_sound(),
            final(self).same_terms(old(self)),
            stepped(
                *old(self),
                *final(self),
                step,
                client_id,
                input,
                max_command_bytes,
                enabled@,
                *catalog,
            ),
    {
        proof {
            use_type_invariant(&*self);
        }
        match input {
            SessionInput::Text(text) => {
                let reply = self.handle_text(
                    client_id,
                    text.as_str(),
                    max_command_bytes,
                    enabled,
                    catalog,
                );
                let Reply { message, rejected } = reply;
                SessionStep {
                    outgoing: Some(Outgoing::Control(message)),
                    ends: false,
                    rejected,
                    lagged: false,
                }
            },
            SessionInput::Ping(payload) => SessionStep {
                outgoing: Some(Outgoing::Pong(payload)),
                ends: false,
                rejected: false,
                lagged: false,
            },
            SessionInput::Pong => SessionStep {
                outgoing: None,
                ends: false,
                rejected: false,
                lagged: false,
            },
            SessionInput::Binary => SessionStep {
                outgoing: Some(
                    Outgoing::Control(
                        ControlMessage::error(
                            None,
                            ErrorCode::InvalidCommand,
                            "commands must be UTF-8 JSON text",
                        ),
                    ),
                ),
                ends: false,
                rejected: true,
                lagged: false,
            },
            SessionInput::Disconnected | SessionInput::FeedClosed => SessionStep {
                outgoing: None,
                ends: true,
                rejected: false,
                lagged: false,
            },
            SessionInput::Event(event) => SessionStep {
                outgoing: Some(Outgoing::Event(event)),
                ends: false,
                rejected: false,
                lagged: false,
            },
            SessionInput::Lagged(dropped_messages) => SessionStep {
                outgoing: Some(
                    Outgoing::Control(
                        ControlMessage::Gap {
                            schema_version: SCHEMA_VERSION,
                            dropped_messages,
                            message: "downstream buffer overrun; reconnect and repair gaps".to_owned(),
                        },
                    ),
                ),
                ends: true,
                rejected: false,
                lagged: true,
            },
            SessionInput::Shutdown => SessionStep {
                outgoing: Some(Outgoing::Close),
                ends: true,
                rejected: false,
                lagged: false,
            },
        }
    }

    /// Forget a client whose connection ended.
    pub fn close_session(&mut self, client_id: ClientId)
        ensures
            final(self).is_sound(),
            final(self).same_terms(old(self)),
            final(self).hub().routes() == old(self).hub().routes().remove(client_id),
            final(self).subscriptions().demand() == old(self).subscriptions().demand().remove(
                client_id,
            ),
    {
        let (mut hub, mut subscriptions) = self.take();
        hub.remove_client(client_id);
        let _change = subscriptions.cleanup_client(client_id);
        proof {
            let before = old(self).subscriptions().demand();
            assert forall|client: ClientId| #[trigger]
                hub.routes().contains_key(client) implies hub.routes()[client].subscriptions.subset_of(
                registry::owned(subscriptions.demand(), client),
            ) by {
                assert(old(self).hub().routes().contains_key(client));
                assert(registry::owned(before.remove(client_id), client) == registry::owned(
                    before,
                    client,
                ));
            }
        }
        *self = Gateway { hub, subscriptions };
    }

    /// Number an event, and name the clients that it goes to.
    ///
    /// # Errors
    ///
    /// The numbers are used up.
    pub fn publish(&mut self, event: ProviderEvent) -> (r: Result<
        (MarketEvent, Vec<ClientId>),
        PublishError,
    >)
        ensures
            final(self).is_sound(),
            final(self).same_clients(old(self)),
            final(self).hub().epoch() == old(self).hub().epoch(),
            match r {
                Ok((published, clients)) => {
                    &&& old(self).hub().next_sequence() < u64::MAX
                    &&& published@ == domain::numbered(
                        event@,
                        old(self).hub().epoch(),
                        old(self).hub().next_sequence(),
                    )
                    &&& final(self).hub().next_sequence() == old(self).hub().next_sequence() + 1
                    &&& hub::ids_enumerate(
                        clients@,
                        hub::recipients(old(self).hub().routes(), domain::event_key(event@)),
                    )
                },
                Err(error) => {
                    &&& old(self).hub().next_sequence() == u64::MAX
                    &&& error == PublishError::SequenceExhausted
                    &&& final(self).hub().next_sequence() == old(self).hub().next_sequence()
                },
            },
    {
        let (mut hub, subscriptions) = self.take();
        let published = hub.publish(event);
        *self = Gateway { hub, subscriptions };
        match published {
            Ok(published) => {
                let clients = self.hub.route_event(&published);
                Ok((published, clients))
            },
            Err(error) => Err(error),
        }
    }

    /// Take note of what became of an event that was offered to a client's queue.
    pub fn record_delivery(&mut self, client_id: ClientId, outcome: DeliveryOutcome)
        ensures
            final(self).is_sound(),
            final(self).same_terms(old(self)),
            final(self).subscriptions() == old(self).subscriptions(),
            final(self).hub().routes() == hub::after_delivery(
                old(self).hub().routes(),
                client_id,
                outcome,
            ),
    {
        let (mut hub, subscriptions) = self.take();
        hub.record_delivery(client_id, outcome);
        proof {
            assert forall|client: ClientId| #[trigger]
                hub.routes().contains_key(client) implies hub.routes()[client].subscriptions.subset_of(
                registry::owned(subscriptions.demand(), client),
            ) by {
                assert(old(self).hub().routes().contains_key(client));
            }
        }
        *self = Gateway { hub, subscriptions };
    }
}

// ---------------------------------------------------------------------------------------------
// Laws
// ---------------------------------------------------------------------------------------------

/// A command that was refused changed nothing.
pub proof fn law_refused_commands_change_nothing(
    before: Gateway,
    after: Gateway,
    reply: Reply,
    client: ClientId,
    text: Seq<char>,
    max_command_bytes: usize,
    enabled: Set<Provider>,
    catalog: Catalog,
)
    requires
        api::answered(before, after, reply, client, text, max_command_bytes, enabled, catalog),
        reply.rejected,
    ensures
        after.same_clients(&before),
        reply.message@ is Error,
{
}

/// A command of one client touches no other: what the others demand and are routed stays as it is.
pub proof fn law_commands_concern_one_client(
    before: Gateway,
    after: Gateway,
    reply: Reply,
    client: ClientId,
    text: Seq<char>,
    max_command_bytes: usize,
    enabled: Set<Provider>,
    catalog: Catalog,
    other: ClientId,
)
    requires
        api::answered(before, after, reply, client, text, max_command_bytes, enabled, catalog),
        other != client,
    ensures
        registry::owned(after.subscriptions().demand(), other) == registry::owned(
            before.subscriptions().demand(),
            other,
        ),
        after.hub().routes().contains_key(other) == before.hub().routes().contains_key(other),
        after.hub().routes().contains_key(other) ==> after.hub().routes()[other]
            == before.hub().routes()[other],
{
}

/// An acknowledged subscription is demanded, and it is routed where the client is registered.
pub proof fn law_acknowledged_keys_are_demanded(
    before: Gateway,
    after: Gateway,
    reply: Reply,
    client: ClientId,
    request_id: Seq<char>,
    requested: Seq<domain::SubscriptionView>,
    enabled: Set<Provider>,
    catalog: Catalog,
    key: KeyView,
)
    requires
        api::subscribed(
            before,
            after,
            reply,
            client,
            request_id,
            requested,
            enabled,
            catalog,
        ),
        !reply.rejected,
        api::expansion(requested)->Ok_0.contains(key),
    ensures
        registry::owned(after.subscriptions().demand(), client).contains(key),
        registry::demanded(after.subscriptions().demand()).contains(key),
        before.hub().routes().contains_key(client) ==> hub::recipients(
            after.hub().routes(),
            key,
        ).contains(client),
{
    let keys = api::expansion(requested)->Ok_0;
    let wanted = registry::owned(before.subscriptions().demand(), client).union(keys);
    assert(wanted.contains(key));
    let demand = after.subscriptions().demand();
    assert(demand.contains_key(client) && demand[client].contains(key));
}

/// An acknowledged subscription is offered: its venue is enabled, and the catalog has its instrument.
pub proof fn law_acknowledged_keys_are_offered(
    before: Gateway,
    after: Gateway,
    reply: Reply,
    client: ClientId,
    request_id: Seq<char>,
    requested: Seq<domain::SubscriptionView>,
    enabled: Set<Provider>,
    catalog: Catalog,
)
    requires
        api::subscribed(
            before,
            after,
            reply,
            client,
            request_id,
            requested,
            enabled,
            catalog,
        ),
        !reply.rejected,
    ensures
        reply.message@ matches ControlView::Ack { subscriptions, .. } && forall|i: int|
            0 <= i < subscriptions.len() ==> {
                &&& enabled.contains((#[trigger] subscriptions[i]).provider)
                &&& api::resolved(catalog, subscriptions[i]) is Ok
            },
{
    let keys = api::in_order(api::expansion(requested)->Ok_0);
    api::lemma_offered(keys, enabled, catalog);
}

/// The answer to a command carries the identifier of the command.
pub proof fn law_answers_carry_the_request_id(
    before: Gateway,
    after: Gateway,
    reply: Reply,
    client: ClientId,
    command: protocol::ClientCommandView,
    enabled: Set<Provider>,
    catalog: Catalog,
)
    requires
        api::applied(before, after, reply, client, command, enabled, catalog),
    ensures
        match reply.message@ {
            ControlView::Ack { request_id, .. } => request_id == protocol::request_of(command),
            ControlView::Pong { request_id, .. } => request_id == protocol::request_of(command),
            ControlView::Error { request_id, .. } => request_id == Some(
                protocol::request_of(command),
            ),
            _ => false,
        },
{
}

/// An event goes only to clients that demand it.
pub proof fn law_events_reach_only_clients_that_demand_them(
    gateway: Gateway,
    key: KeyView,
    client: ClientId,
)
    requires
        gateway.is_sound(),
        hub::recipients(gateway.hub().routes(), key).contains(client),
    ensures
        registry::owned(gateway.subscriptions().demand(), client).contains(key),
        registry::owners(gateway.subscriptions().demand(), key).contains(client),
{
    assert(gateway.hub().routes().contains_key(client));
    let own = registry::owned(gateway.subscriptions().demand(), client);
    assert(own.contains(key));
}

/// A client whose connection ended demands nothing and receives nothing.
pub proof fn law_closed_sessions_leave_nothing(
    demand: registry::Demand,
    routes: Map<ClientId, RouteView>,
    client: ClientId,
    key: KeyView,
)
    ensures
        registry::owned(demand.remove(client), client) == Set::<KeyView>::empty(),
        !registry::owners(demand.remove(client), key).contains(client),
        !hub::recipients(routes.remove(client), key).contains(client),
{
}

} // verus!
