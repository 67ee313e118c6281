//! What clients ask of the gateway and what it answers.
pub mod rest;
pub mod session;

use vstd::prelude::*;

use crate::catalog;
use crate::catalog::{Catalog, CatalogErrorView};
use crate::domain;
use crate::domain::{KeyView, Provider, Subscription, SubscriptionKey, SubscriptionView, SCHEMA_VERSION};
use crate::gateway::hub::{GatewayHub, RouteView};
use crate::gateway::limits::ProviderLimits;
use crate::gateway::registry;
use crate::gateway::registry::{ClientId, RegistryError, SubscriptionRegistry};
use crate::keyset;
use crate::keyset::KeySet;
use crate::protocol;
use crate::protocol::{
    ClientCommand, ClientCommandView, CommandFault, ControlMessage, ControlView, ErrorCode,
};
use crate::text;
use crate::venues::ProviderSet;

verus! {

/// The longest identifier of a command, in bytes.
pub const MAX_REQUEST_ID_BYTES: usize = 128;

// ---------------------------------------------------------------------------------------------
// Keys
// ---------------------------------------------------------------------------------------------

/// The keys that subscriptions ask for, or why one of them is refused.
pub open spec fn requested_keys(list: Seq<SubscriptionView>) -> Result<Set<KeyView>, Seq<char>>
    decreases list.len(),
{
    if list.len() == 0 {
        Ok(Set::empty())
    } else {
        match requested_keys(list.drop_last()) {
            Err(message) => Err(message),
            Ok(keys) => match domain::expanded(list.last()) {
                Err(error) => Err(domain::domain_message(error)),
                Ok(more) => Ok(keys.union(more.to_set())),
            },
        }
    }
}

/// The keys that at least one subscription asks for.
pub open spec fn expansion(list: Seq<SubscriptionView>) -> Result<Set<KeyView>, Seq<char>> {
    if list.len() == 0 {
        Err("subscriptions must not be empty"@)
    } else {
        requested_keys(list)
    }
}

/// The keys of a set in their order.
pub open spec fn in_order(keys: Set<KeyView>) -> Seq<KeyView> {
    choose|list: Seq<KeyView>| keyset::enumerates(list, keys)
}

/// A list that names the keys of a set in order is the set in its order.
pub proof fn lemma_in_order(list: Seq<KeyView>, keys: Set<KeyView>)
    requires
        keyset::enumerates(list, keys),
    ensures
        in_order(keys) == list,
{
    keyset::lemma_enumeration_unique(in_order(keys), list, keys);
}

/// Where a prefix of a list is refused, the list is, for the same reason.
proof fn lemma_requested_error(list: Seq<SubscriptionView>, count: int)
    requires
        0 <= count <= list.len(),
        requested_keys(list.take(count)) is Err,
    ensures
        requested_keys(list) == requested_keys(list.take(count)),
    decreases list.len(),
{
    if count < list.len() {
        assert(list.drop_last().take(count) =~= list.take(count));
        lemma_requested_error(list.drop_last(), count);
    } else {
        assert(list.take(count) =~= list);
    }
}

/// Expand subscriptions into channel keys, each once and in order.
///
/// # Errors
///
/// No subscription, a subscription without a channel and an invalid symbol are refused.
pub fn expand_subscriptions(requested: Vec<Subscription>) -> (r: Result<
    Vec<SubscriptionKey>,
    String,
>)
    ensures
        ({
            let wanted = expansion(protocol::subscription_views(requested@));
            match r {
                Ok(keys) => {
                    &&& wanted is Ok
                    &&& domain::key_views(keys@) == in_order(wanted->Ok_0)
                    &&& keyset::enumerates(domain::key_views(keys@), wanted->Ok_0)
                },
                Err(message) => wanted == Err::<Set<KeyView>, Seq<char>>(message@),
            }
        }),
{
    if requested.len() == 0 {
        return Err("subscriptions must not be empty".to_owned());
    }
    let ghost all = protocol::subscription_views(requested@);
    let mut keys = KeySet::new();
    let mut i: usize = 0;
    while i < requested.len()
        invariant
            i <= requested@.len(),
            requested@.len() > 0,
            all == protocol::subscription_views(requested@),
            requested_keys(all.take(i as int)) == Ok::<Set<KeyView>, Seq<char>>(keys@),
        decreases requested.len() - i,
    {
        proof {
            assert(all.take(i + 1).drop_last() =~= all.take(i as int));
            assert(all.take(i + 1).last() == all[i as int]);
            if requested_keys(all.take(i + 1)) is Err {
                lemma_requested_error(all, i + 1);
            }
        }
        let subscription = requested[i].clone();
        match subscription.into_keys() {
            Ok(expanded) => {
                keys.extend(&KeySet::from_list(expanded));
            },
            Err(error) => {
                return Err(error.message());
            },
        }
        i += 1;
    }
    proof {
        assert(all.take(i as int) =~= all);
    }
    let list = keys.to_vec();
    proof {
        lemma_in_order(domain::key_views(list@), keys@);
    }
    Ok(list)
}

// ---------------------------------------------------------------------------------------------
// Commands
// ---------------------------------------------------------------------------------------------

/// What a text comes to as a command.
pub open spec fn command_in(text: Seq<char>) -> Result<ClientCommandView, ControlView> {
    match protocol::command_in(text) {
        Ok(command) => Ok(command),
        Err(CommandFault::Text) => Err(
            protocol::error_of(None, ErrorCode::InvalidJson, "invalid client command"@),
        ),
        Err(CommandFault::Command) => Err(
            protocol::error_of(None, ErrorCode::InvalidCommand, "invalid client command"@),
        ),
    }
}

/// Read a command.
///
/// # Errors
///
/// The error to answer a text with that is no JSON, or no command.
pub fn parse_command(text: &str) -> (r: Result<ClientCommand, ControlMessage>)
    ensures
        match r {
            Ok(command) => command_in(text@) == Ok::<ClientCommandView, ControlView>(command@),
            Err(error) => command_in(text@) == Err::<ClientCommandView, ControlView>(error@),
        },
{
    match protocol::command_from(text) {
        Ok(command) => Ok(command),
        Err(CommandFault::Text) => Err(
            ControlMessage::error(None, ErrorCode::InvalidJson, "invalid client command"),
        ),
        Err(CommandFault::Command) => Err(
            ControlMessage::error(None, ErrorCode::InvalidCommand, "invalid client command"),
        ),
    }
}

/// An answer to a command, and whether the command was refused.
#[derive(Debug)]
pub struct Reply {
    pub message: ControlMessage,
    pub rejected: bool,
}

/// The first key of a list whose venue is not enabled.
pub open spec fn first_disabled(keys: Seq<KeyView>, enabled: Set<Provider>) -> Option<KeyView>
    decreases keys.len(),
{
    if keys.len() == 0 {
        None
    } else if first_disabled(keys.drop_last(), enabled) is Some {
        first_disabled(keys.drop_last(), enabled)
    } else if !enabled.contains(keys.last().provider) {
        Some(keys.last())
    } else {
        None
    }
}

/// What a key resolves to in a catalog.
pub open spec fn resolved(catalog: Catalog, key: KeyView) -> Result<
    catalog::InstrumentView,
    CatalogErrorView,
> {
    catalog::resolution(
        catalog.enabled().contains(key.provider),
        catalog.snapshot(key.provider).instruments,
        key,
    )
}

/// Why the first key of a list that resolves to nothing does so.
pub open spec fn first_unresolved(keys: Seq<KeyView>, catalog: Catalog) -> Option<CatalogErrorView>
    decreases keys.len(),
{
    if keys.len() == 0 {
        None
    } else if first_unresolved(keys.drop_last(), catalog) is Some {
        first_unresolved(keys.drop_last(), catalog)
    } else {
        match resolved(catalog, keys.last()) {
            Ok(_) => None,
            Err(error) => Some(error),
        }
    }
}

/// Why keys are not offered, in order: a venue is disabled, or the catalog does not have them.
pub open spec fn offer_problem(keys: Seq<KeyView>, enabled: Set<Provider>, catalog: Catalog) -> Option<
    Seq<char>,
> {
    match first_disabled(keys, enabled) {
        Some(key) => Some(domain::provider_name(key.provider) + " is disabled"@),
        None => match first_unresolved(keys, catalog) {
            Some(error) => Some(catalog::catalog_message(error)),
            None => None,
        },
    }
}

/// The answer to a subscription that is refused before demand is counted.
pub open spec fn subscribe_refusal(
    request_id: Seq<char>,
    requested: Seq<SubscriptionView>,
    enabled: Set<Provider>,
    catalog: Catalog,
) -> Option<ControlView> {
    match expansion(requested) {
        Err(message) => Some(
            protocol::error_of(Some(request_id), ErrorCode::InvalidCommand, message),
        ),
        Ok(keys) => match offer_problem(in_order(keys), enabled, catalog) {
            Some(message) => Some(
                protocol::error_of(
                    Some(request_id),
                    ErrorCode::UnsupportedSubscription,
                    message,
                ),
            ),
            None => None,
        },
    }
}

/// What is found in a prefix of a list is found in the list.
proof fn lemma_disabled_stays(keys: Seq<KeyView>, enabled: Set<Provider>, count: int)
    requires
        0 <= count <= keys.len(),
        first_disabled(keys.take(count), enabled) is Some,
    ensures
        first_disabled(keys, enabled) == first_disabled(keys.take(count), enabled),
    decreases keys.len(),
{
    if count < keys.len() {
        assert(keys.drop_last().take(count) =~= keys.take(count));
        lemma_disabled_stays(keys.drop_last(), enabled, count);
    } else {
        assert(keys.take(count) =~= keys);
    }
}

/// What is found in a prefix of a list is found in the list.
proof fn lemma_unresolved_stays(keys: Seq<KeyView>, catalog: Catalog, count: int)
    requires
        0 <= count <= keys.len(),
        first_unresolved(keys.take(count), catalog) is Some,
    ensures
        first_unresolved(keys, catalog) == first_unresolved(keys.take(count), catalog),
    decreases keys.len(),
{
    if count < keys.len() {
        assert(keys.drop_last().take(count) =~= keys.take(count));
        lemma_unresolved_stays(keys.drop_last(), catalog, count);
    } else {
        assert(keys.take(count) =~= keys);
    }
}

/// Keys that nothing speaks against are of enabled venues and in the catalog.
pub(crate) proof fn lemma_offered(keys: Seq<KeyView>, enabled: Set<Provider>, catalog: Catalog)
    requires
        first_disabled(keys, enabled) is None,
        first_unresolved(keys, catalog) is None,
    ensures
        forall|i: int|
            0 <= i < keys.len() ==> {
                &&& enabled.contains((#[trigger] keys[i]).provider)
                &&& resolved(catalog, keys[i]) is Ok
            },
    decreases keys.len(),
{
    if keys.len() > 0 {
        lemma_offered(keys.drop_last(), enabled, catalog);
        assert forall|i: int| 0 <= i < keys.len() implies {
            &&& enabled.contains((#[trigger] keys[i]).provider)
            &&& resolved(catalog, keys[i]) is Ok
        } by {
            if i < keys.len() - 1 {
                assert(keys.drop_last()[i] == keys[i]);
            }
        }
    }
}

/// Check that keys are offered.
///
/// # Errors
///
/// A venue that is disabled and a key that the catalog does not have are refused.
pub fn check_offer(keys: &Vec<SubscriptionKey>, enabled: &ProviderSet, catalog: &Catalog) -> (r:
    Result<(), String>)
    ensures
        match r {
            Ok(()) => offer_problem(domain::key_views(keys@), enabled@, *catalog) is None,
            Err(message) => offer_problem(domain::key_views(keys@), enabled@, *catalog) == Some(
                message@,
            ),
        },
{
    let ghost all = domain::key_views(keys@);
    let mut i: usize = 0;
    while i < keys.len()
        invariant
            i <= keys@.len(),
            all == domain::key_views(keys@),
            first_disabled(all.take(i as int), enabled@) is None,
        decreases keys.len() - i,
    {
        proof {
            assert(all.take(i + 1).drop_last() =~= all.take(i as int));
            assert(all.take(i + 1).last() == all[i as int]);
            if first_disabled(all.take(i + 1), enabled@) is Some {
                lemma_disabled_stays(all, enabled@, i + 1);
            }
        }
        if !enabled.contains(keys[i].provider) {
            return Err(text::cat2(keys[i].provider.name(), " is disabled"));
        }
        i += 1;
    }
    proof {
        assert(all.take(i as int) =~= all);
    }
    let mut i: usize = 0;
    while i < keys.len()
        invariant
            i <= keys@.len(),
            all == domain::key_views(keys@),
            first_disabled(all, enabled@) is None,
            first_unresolved(all.take(i as int), *catalog) is None,
        decreases keys.len() - i,
    {
        proof {
            assert(all.take(i + 1).drop_last() =~= all.take(i as int));
            assert(all.take(i + 1).last() == all[i as int]);
            if first_unresolved(all.take(i + 1), *catalog) is Some {
                lemma_unresolved_stays(all, *catalog, i + 1);
            }
        }
        if let Err(error) = catalog.validate_subscription(&keys[i]) {
            return Err(error.message());
        }
        i += 1;
    }
    proof {
        assert(all.take(i as int) =~= all);
    }
    Ok(())
}

/// The words for demand that is refused.
pub open spec fn limit_words(error: RegistryError) -> Seq<char> {
    match error {
        RegistryError::ClientLimitExceeded { limit, requested } =>
            "subscription limit exceeded: requested "@ + text::digits(requested as nat)
            + ", maximum "@ + text::digits(limit as nat),
        RegistryError::ProviderLimitExceeded { provider, limit, requested } =>
            domain::provider_name(provider) + " subscription limit exceeded: requested "@
            + text::digits(requested as nat) + ", maximum "@ + text::digits(limit as nat),
    }
}

fn limit_message(error: &RegistryError) -> (message: String)
    ensures
        message@ == limit_words(*error),
{
    match error {
        RegistryError::ClientLimitExceeded { limit, requested } => text::cat4(
            "subscription limit exceeded: requested ",
            text::unsigned_text(*requested as u64).as_str(),
            ", maximum ",
            text::unsigned_text(*limit as u64).as_str(),
        ),
        RegistryError::ProviderLimitExceeded { provider, limit, requested } => text::cat5(
            provider.name(),
            " subscription limit exceeded: requested ",
            text::unsigned_text(*requested as u64).as_str(),
            ", maximum ",
            text::unsigned_text(*limit as u64).as_str(),
        ),
    }
}

// ---------------------------------------------------------------------------------------------
// The gateway
// ---------------------------------------------------------------------------------------------

/// Whether no client is routed what it does not demand.
pub open spec fn routes_follow(routes: Map<ClientId, RouteView>, demand: registry::Demand) -> bool {
    forall|client: ClientId| #[trigger]
        routes.contains_key(client) ==> routes[client].subscriptions.subset_of(
            registry::owned(demand, client),
        )
}

/// The routes of clients together with their demand.
#[derive(Debug)]
pub struct Gateway {
    hub: GatewayHub,
    subscriptions: SubscriptionRegistry,
}

impl Gateway {
    /// No client is routed what it does not demand.
    #[verifier::type_invariant]
    spec fn consistent(&self) -> bool {
        routes_follow(self.hub.routes(), self.subscriptions.demand())
    }

    /// The routes of clients.
    pub closed spec fn the_hub(&self) -> &GatewayHub {
        &self.hub
    }

    /// The demand of clients.
    pub closed spec fn the_subscriptions(&self) -> &SubscriptionRegistry {
        &self.subscriptions
    }

    /// What holds of every gateway: no client is routed what it does not demand.
    pub open spec fn is_sound(&self) -> bool {
        routes_follow(self.hub().routes(), self.subscriptions().demand())
    }

    /// The routes of clients.
    #[verifier::when_used_as_spec(the_hub)]
    pub fn hub(&self) -> (hub: &GatewayHub)
        ensures
            hub == self.hub(),
            self.is_sound(),
    {
        proof {
            use_type_invariant(self);
        }
        &self.hub
    }

    /// The demand of clients.
    #[verifier::when_used_as_spec(the_subscriptions)]
    pub fn subscriptions(&self) -> (subscriptions: &SubscriptionRegistry)
        ensures
            subscriptions == self.subscriptions(),
            self.is_sound(),
    {
        proof {
            use_type_invariant(self);
        }
        &self.subscriptions
    }

    /// A gateway without clients. The epoch of its hub is random, so nothing is said of it.
    pub fn new(
        downstream_buffer: usize,
        max_downstream_clients: usize,
        max_client_subscriptions: usize,
        limits: ProviderLimits,
    ) -> (gateway: Self)
        requires
            downstream_buffer > 0,
            max_downstream_clients > 0,
        ensures
            gateway.is_sound(),
            gateway.hub().routes() == Map::<ClientId, RouteView>::empty(),
            gateway.hub().next_sequence() == 1,
            gateway.hub().capacity() == downstream_buffer,
            gateway.hub().client_limit() == max_downstream_clients,
            gateway.subscriptions().demand() == Map::<ClientId, Set<KeyView>>::empty(),
            gateway.subscriptions().client_limit() == max_client_subscriptions,
            gateway.subscriptions().venue_limits() == limits,
    {
        Gateway {
            hub: GatewayHub::with_client_limit(downstream_buffer, max_downstream_clients),
            subscriptions: SubscriptionRegistry::with_provider_limits(
                max_client_subscriptions,
                limits,
            ),
        }
    }

    /// Take both parts out, to be put back together.
    fn take(&mut self) -> (parts: (GatewayHub, SubscriptionRegistry))
        ensures
            parts.0 == *old(self).hub(),
            parts.1 == *old(self).subscriptions(),
            old(self).is_sound(),
    {
        proof {
            use_type_invariant(&*self);
        }
        let mut taken = Gateway {
            hub: GatewayHub::vacant(),
            subscriptions: SubscriptionRegistry::new(0),
        };
        core::mem::swap(self, &mut taken);
        let Gateway { hub, subscriptions } = taken;
        (hub, subscriptions)
    }

    /// Whether limits, epoch and numbering are the same.
    pub open spec fn same_terms(&self, other: &Gateway) -> bool {
        &&& self.hub().same_but_routes(other.hub())
        &&& self.subscriptions().client_limit() == other.subscriptions().client_limit()
        &&& self.subscriptions().venue_limits() == other.subscriptions().venue_limits()
    }

    /// Whether routes and demand are the same.
    pub open spec fn same_clients(&self, other: &Gateway) -> bool {
        &&& self.hub().routes() == other.hub().routes()
        &&& self.subscriptions().demand() == other.subscriptions().demand()
    }

    /// Whether a client demands just some keys now, is routed them where it is registered, and
    /// nothing else changed.
    pub open spec fn reassigns(&self, before: &Gateway, client: ClientId, keys: Set<KeyView>) -> bool {
        let routes = before.hub().routes();
        &&& self.subscriptions().demand() == registry::reassigned(
            before.subscriptions().demand(),
            client,
            keys,
        )
        &&& self.hub().routes() == if routes.contains_key(client) {
            routes.insert(
                client,
                RouteView { subscriptions: keys, lagged: routes[client].lagged },
            )
        } else {
            routes
        }
    }
}

/// The keys of a client whose keys were replaced are the new ones, and other clients keep theirs.
proof fn lemma_reassigned(demand: registry::Demand, client: ClientId, keys: Set<KeyView>)
    ensures
        registry::owned(registry::reassigned(demand, client, keys), client) == keys,
        forall|other: ClientId|
            other != client ==> #[trigger] registry::owned(
                registry::reassigned(demand, client, keys),
                other,
            ) == registry::owned(demand, other),
{
    if keys == Set::<KeyView>::empty() {
        assert(registry::owned(registry::reassigned(demand, client, keys), client) =~= keys);
    }
}

/// What became of a subscription: it was refused and nothing changed, or it was acknowledged, and
/// the client demands the keys on top of its own.
pub open spec fn subscribed(
    before: Gateway,
    after: Gateway,
    reply: Reply,
    client: ClientId,
    request_id: Seq<char>,
    requested: Seq<SubscriptionView>,
    enabled: Set<Provider>,
    catalog: Catalog,
) -> bool {
    match subscribe_refusal(request_id, requested, enabled, catalog) {
        Some(refusal) => {
            &&& reply.rejected
            &&& reply.message@ == refusal
            &&& after.same_clients(&before)
        },
        None => {
            let keys = expansion(requested)->Ok_0;
            let own = registry::owned(before.subscriptions().demand(), client);
            if before.subscriptions().admits(client, keys) {
                &&& !reply.rejected
                &&& reply.message@ == (ControlView::Ack {
                    schema_version: SCHEMA_VERSION,
                    request_id,
                    operation: "subscribe"@,
                    subscriptions: in_order(keys),
                })
                &&& after.reassigns(&before, client, own.union(keys))
            } else {
                &&& reply.rejected
                &&& exists|error: RegistryError|
                    {
                        &&& #[trigger] before.subscriptions().refuses(client, keys, error)
                        &&& reply.message@ == protocol::error_of(
                            Some(request_id),
                            ErrorCode::LimitExceeded,
                            limit_words(error),
                        )
                    }
                &&& after.same_clients(&before)
            }
        },
    }
}

/// What became of the end of a subscription: it was refused and nothing changed, or it was
/// acknowledged, and the client does not demand the keys any more.
pub open spec fn unsubscribed(
    before: Gateway,
    after: Gateway,
    reply: Reply,
    client: ClientId,
    request_id: Seq<char>,
    requested: Seq<SubscriptionView>,
) -> bool {
    match expansion(requested) {
        Err(message) => {
            &&& reply.rejected
            &&& reply.message@ == protocol::error_of(
                Some(request_id),
                ErrorCode::InvalidCommand,
                message,
            )
            &&& after.same_clients(&before)
        },
        Ok(keys) => {
            &&& !reply.rejected
            &&& reply.message@ == (ControlView::Ack {
                schema_version: SCHEMA_VERSION,
                request_id,
                operation: "unsubscribe"@,
                subscriptions: in_order(keys),
            })
            &&& after.reassigns(
                &before,
                client,
                registry::owned(before.subscriptions().demand(), client).difference(keys),
            )
        },
    }
}

/// Whether an identifier of a command is accepted.
pub open spec fn is_request_id(request_id: Seq<char>) -> bool {
    0 < request_id.len() && text::byte_length(request_id) <= MAX_REQUEST_ID_BYTES
}

/// What became of a command.
pub open spec fn applied(
    before: Gateway,
    after: Gateway,
    reply: Reply,
    client: ClientId,
    command: ClientCommandView,
    enabled: Set<Provider>,
    catalog: Catalog,
) -> bool {
    let request_id = protocol::request_of(command);
    if !is_request_id(request_id) {
        &&& reply.rejected
        &&& reply.message@ == protocol::error_of(
            Some(request_id),
            ErrorCode::InvalidCommand,
            "request_id must contain between 1 and 128 bytes"@,
        )
        &&& after.same_clients(&before)
    } else {
        match command {
            ClientCommandView::Ping { .. } => {
                &&& !reply.rejected
                &&& reply.message@ == (ControlView::Pong {
                    schema_version: SCHEMA_VERSION,
                    request_id,
                })
                &&& after.same_clients(&before)
            },
            ClientCommandView::Subscribe { subscriptions, .. } => subscribed(
                before,
                after,
                reply,
                client,
                request_id,
                subscriptions,
                enabled,
                catalog,
            ),
            ClientCommandView::Unsubscribe { subscriptions, .. } => unsubscribed(
                before,
                after,
                reply,
                client,
                request_id,
                subscriptions,
            ),
        }
    }
}

/// What became of a text that a client sent.
pub open spec fn answered(
    before: Gateway,
    after: Gateway,
    reply: Reply,
    client: ClientId,
    text: Seq<char>,
    max_command_bytes: usize,
    enabled: Set<Provider>,
    catalog: Catalog,
) -> bool {
    if text::byte_length(text) > max_command_bytes {
        &&& reply.rejected
        &&& reply.message@ == protocol::error_of(
            None,
            ErrorCode::LimitExceeded,
            "command exceeds maximum size"@,
        )
        &&& after.same_clients(&before)
    } else {
        match command_in(text) {
            Err(error) => {
                &&& reply.rejected
                &&& reply.message@ == error
                &&& after.same_clients(&before)
            },
            Ok(command) => applied(before, after, reply, client, command, enabled, catalog),
        }
    }
}

fn rejected_reply(request_id: Option<String>, code: ErrorCode, message: &str) -> (reply: Reply)
    ensures
        reply.rejected,
        reply.message@ == protocol::error_of(domain::text_view(request_id), code, message@),
{
    Reply { message: ControlMessage::error(request_id, code, message), rejected: true }
}

impl Gateway {
    /// Put both parts back together, and route to a client what it demands now.
    fn follow(
        &mut self,
        parts: (GatewayHub, SubscriptionRegistry),
        client_id: ClientId,
        keys: &KeySet,
        Ghost(before): Ghost<Gateway>,
    )
        requires
            parts.0 == *before.hub(),
            before.is_sound(),
            parts.1.demand() == registry::reassigned(
                before.subscriptions().demand(),
                client_id,
                keys@,
            ),
        ensures
            final(self).is_sound(),
            final(self).reassigns(&before, client_id, keys@),
            final(self).hub().same_but_routes(before.hub()),
            *final(self).subscriptions() == parts.1,
    {
        let (mut hub, subscriptions) = parts;
        let _registered = hub.update_client_subscriptions(client_id, keys);
        proof {
            lemma_reassigned(before.subscriptions().demand(), client_id, keys@);
        }
        *self = Gateway { hub, subscriptions };
    }

    /// Subscribe a client.
    pub fn subscribe(
        &mut self,
        client_id: ClientId,
        request_id: String,
        requested: Vec<Subscription>,
        enabled: &ProviderSet,
        catalog: &Catalog,
    ) -> (reply: Reply)
        ensures
            final(self).is_sound(),
            final(self).same_terms(old(self)),
            subscribed(
                *old(self),
                *final(self),
                reply,
                client_id,
                request_id@,
                protocol::subscription_views(requested@),
                enabled@,
                *catalog,
            ),
    {
        proof {
            use_type_invariant(&*self);
        }
        let ghost before = *self;
        let keys = match expand_subscriptions(requested) {
            Ok(keys) => keys,
            Err(message) => {
                return rejected_reply(
                    Some(request_id),
                    ErrorCode::InvalidCommand,
                    message.as_str(),
                );
            },
        };
        if let Err(message) = check_offer(&keys, enabled, catalog) {
            return rejected_reply(
                Some(request_id),
                ErrorCode::UnsupportedSubscription,
                message.as_str(),
            );
        }
        let wanted = copied_keys(&keys);
        let (hub, mut subscriptions) = self.take();
        match subscriptions.add(client_id, wanted) {
            Ok(change) => {
                proof {
                    lemma_reassigned(
                        before.subscriptions().demand(),
                        client_id,
                        registry::owned(before.subscriptions().demand(), client_id).union(
                            domain::key_views(keys@).to_set(),
                        ),
                    );
                }
                self.follow(
                    (hub, subscriptions),
                    client_id,
                    &change.client_subscriptions,
                    Ghost(before),
                );
                Reply {
                    message: ControlMessage::Ack {
                        schema_version: SCHEMA_VERSION,
                        request_id,
                        operation: "subscribe".to_owned(),
                        subscriptions: keys,
                    },
                    rejected: false,
                }
            },
            Err(error) => {
                *self = Gateway { hub, subscriptions };
                proof {
                    assert(before.subscriptions().refuses(
                        client_id,
                        domain::key_views(keys@).to_set(),
                        error,
                    ));
                }
                rejected_reply(
                    Some(request_id),
                    ErrorCode::LimitExceeded,
                    limit_message(&error).as_str(),
                )
            },
        }
    }

    /// End subscriptions of a client.
    pub fn unsubscribe(
        &mut self,
        client_id: ClientId,
        request_id: String,
        requested: Vec<Subscription>,
    ) -> (reply: Reply)
        ensures
            final(self).is_sound(),
            final(self).same_terms(old(self)),
            unsubscribed(
                *old(self),
                *final(self),
                reply,
                client_id,
                request_id@,
                protocol::subscription_views(requested@),
            ),
    {
        proof {
            use_type_invariant(&*self);
        }
        let ghost before = *self;
        let keys = match expand_subscriptions(requested) {
            Ok(keys) => keys,
            Err(message) => {
                return rejected_reply(
                    Some(request_id),
                    ErrorCode::InvalidCommand,
                    message.as_str(),
                );
            },
        };
        let unwanted = copied_keys(&keys);
        let (hub, mut subscriptions) = self.take();
        let change = subscriptions.remove(client_id, unwanted);
        proof {
            lemma_reassigned(
                before.subscriptions().demand(),
                client_id,
                registry::owned(before.subscriptions().demand(), client_id).difference(
                    domain::key_views(keys@).to_set(),
                ),
            );
        }
        self.follow(
            (hub, subscriptions),
            client_id,
            &change.client_subscriptions,
            Ghost(before),
        );
        Reply {
            message: ControlMessage::Ack {
                schema_version: SCHEMA_VERSION,
                request_id,
                operation: "unsubscribe".to_owned(),
                subscriptions: keys,
            },
            rejected: false,
        }
    }

    /// Apply a command of a client.
    pub fn apply_command(
        &mut self,
        client_id: ClientId,
        command: ClientCommand,
        enabled: &ProviderSet,
        catalog: &Catalog,
    ) -> (reply: Reply)
        ensures
            final(self).is_sound(),
            final(self).same_terms(old(self)),
            applied(
                *old(self),
                *final(self),
                reply,
                client_id,
                command@,
                enabled@,
                *catalog,
            ),
    {
        proof {
            use_type_invariant(&*self);
        }
        let request_id = command.request_id().to_owned();
        if request_id.as_str().is_empty() || text::length(request_id.as_str())
            > MAX_REQUEST_ID_BYTES {
            return rejected_reply(
                Some(request_id),
                ErrorCode::InvalidCommand,
                "request_id must contain between 1 and 128 bytes",
            );
        }
        match command {
            ClientCommand::Ping { request_id } => Reply {
                message: ControlMessage::Pong { schema_version: SCHEMA_VERSION, request_id },
                rejected: false,
            },
            ClientCommand::Subscribe { request_id, subscriptions } => self.subscribe(
                client_id,
                request_id,
                subscriptions,
                enabled,
                catalog,
            ),
            ClientCommand::Unsubscribe { request_id, subscriptions } => self.unsubscribe(
                client_id,
                request_id,
                subscriptions,
            ),
        }
    }

    /// Answer a text that a client sent.
    pub fn handle_text(
        &mut self,
        client_id: ClientId,
        text: &str,
        max_command_bytes: usize,
        enabled: &ProviderSet,
        catalog: &Catalog,
    ) -> (reply: Reply)
        ensures
            final(self).is_sound(),
            final(self).same_terms(old(self)),
            answered(
                *old(self),
                *final(self),
                reply,
                client_id,
                text@,
                max_command_bytes,
                enabled@,
                *catalog,
            ),
    {
        proof {
            use_type_invariant(&*self);
        }
        if text::length(text) > max_command_bytes {
            return rejected_reply(None, ErrorCode::LimitExceeded, "command exceeds maximum size");
        }
        match parse_command(text) {
            Ok(command) => self.apply_command(client_id, command, enabled, catalog),
            Err(message) => Reply { message, rejected: true },
        }
    }
}

fn copied_keys(keys: &Vec<SubscriptionKey>) -> (copy: Vec<SubscriptionKey>)
    ensures
        domain::key_views(copy@) == domain::key_views(keys@),
{
    let mut copy: Vec<SubscriptionKey> = Vec::new();
    let mut i: usize = 0;
    while i < keys.len()
        invariant
            i <= keys@.len(),
            copy@.len() == i,
            forall|k: int| 0 <= k < i ==> (#[trigger] copy@[k])@ == keys@[k]@,
        decreases keys.len() - i,
    {
        copy.push(keys[i].clone());
        i += 1;
    }
    proof {
        assert(domain::key_views(copy@) =~= domain::key_views(keys@));
    }
    copy
}

} // verus!
