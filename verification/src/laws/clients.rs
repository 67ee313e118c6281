//! What clients ask for and what they are answered.
use vstd::prelude::*;

use super::documents::venue;
use super::says;
use crate::api;
use crate::api::rest;
use crate::api::rest::{CandleQuery, FailureView};
use crate::api::{Gateway, Reply};
use crate::catalog;
use crate::catalog::{Catalog, CatalogErrorView, InstrumentView};
use crate::domain;
use crate::domain::{Channel, KeyView, MarketKind, Provider, SubscriptionView};
use crate::gateway::registry;
use crate::gateway::registry::ClientId;
use crate::history;
use crate::history::{HistoryErrorView, RequestView};
use crate::json;
use crate::json::reading;
use crate::json::{JsonView, LayoutView};
use crate::protocol;
use crate::protocol::{ClientCommandView, ControlView, ErrorCode};
use crate::text;

verus! {

// ---------------------------------------------------------------------------------------------
// Commands
// ---------------------------------------------------------------------------------------------

/// The name of a channel.
pub open spec fn channel_name(channel: Channel) -> Seq<char> {
    match channel {
        Channel::Ticker => "ticker"@,
        Channel::Candle1m => "candle_1m"@,
    }
}

/// Whether an object has members of those names alone.
pub open spec fn has_no_other(value: JsonView, names: Seq<Seq<char>>) -> bool {
    match value {
        JsonView::Object(members) => forall|i: int|
            0 <= i < members.len() ==> names.contains((#[trigger] members[i]).0),
        _ => false,
    }
}

/// Whether an object names a venue, the market, a symbol and channels.
pub open spec fn is_subscription(value: JsonView, subscription: SubscriptionView) -> bool {
    &&& has_no_other(value, seq!["provider"@, "market"@, "symbol"@, "channels"@])
    &&& says(value, "provider"@, venue(subscription.provider))
    &&& says(value, "market"@, "linear_perpetual"@)
    &&& says(value, "symbol"@, subscription.symbol)
    &&& json::member_of(value, "channels"@) == Some(
        JsonView::List(
            Seq::new(
                subscription.channels.len(),
                |i: int| JsonView::Text(channel_name(subscription.channels[i])),
            ),
        ),
    )
    &&& subscription.market == MarketKind::LinearPerpetual
}

proof fn lemma_names()
    ensures
        forall|channel: Channel| #[trigger]
            protocol::named_channel(channel_name(channel)) == Some(channel),
        forall|provider: Provider| #[trigger]
            protocol::named_provider(venue(provider)) == Some(provider),
{
    reveal_strlit("ticker");
    reveal_strlit("candle_1m");
    assert("ticker"@.len() == 6 && "candle_1m"@.len() == 9);
    reveal_strlit("bybit");
    reveal_strlit("binance");
    reveal_strlit("okx");
    reveal_strlit("kucoin");
    reveal_strlit("mexc");
    reveal_strlit("bingx");
    assert("bybit"@.len() == 5 && "bingx"@.len() == 5 && "binance"@.len() == 7);
    assert("okx"@.len() == 3 && "kucoin"@.len() == 6 && "mexc"@.len() == 4);
    assert("bybit"@[1] == 'y' && "bingx"@[1] == 'i');
}

proof fn lemma_channels(channels: Seq<Channel>, items: Seq<JsonView>)
    requires
        items.len() == channels.len(),
        forall|i: int|
            0 <= i < items.len() ==> #[trigger] items[i] == JsonView::Text(
                channel_name(channels[i]),
            ),
    ensures
        protocol::channels_of(items) == Some(channels),
    decreases items.len(),
{
    if items.len() > 0 {
        let rest = items.drop_last();
        let fewer = channels.drop_last();
        assert forall|i: int| 0 <= i < rest.len() implies #[trigger] rest[i] == JsonView::Text(
            channel_name(fewer[i]),
        ) by {
            assert(rest[i] == items[i]);
        }
        lemma_channels(fewer, rest);
        lemma_names();
        assert(items[items.len() - 1] == JsonView::Text(channel_name(channels.last())));
        assert(fewer.push(channels.last()) =~= channels);
    } else {
        assert(channels =~= Seq::empty());
    }
}

proof fn lemma_subscription(value: JsonView, subscription: SubscriptionView)
    requires
        is_subscription(value, subscription),
    ensures
        protocol::subscription_of(value) == Some(subscription),
{
    lemma_names();
    let items = Seq::new(
        subscription.channels.len(),
        |i: int| JsonView::Text(channel_name(subscription.channels[i])),
    );
    lemma_channels(subscription.channels, items);
}

proof fn lemma_subscriptions(items: Seq<JsonView>, list: Seq<SubscriptionView>)
    requires
        items.len() == list.len(),
        forall|i: int| 0 <= i < items.len() ==> is_subscription(#[trigger] items[i], list[i]),
    ensures
        protocol::subscriptions_of(items) == Some(list),
    decreases items.len(),
{
    if items.len() > 0 {
        let rest = items.drop_last();
        let fewer = list.drop_last();
        assert forall|i: int| 0 <= i < rest.len() implies is_subscription(
            #[trigger] rest[i],
            fewer[i],
        ) by {
            assert(rest[i] == items[i]);
        }
        lemma_subscriptions(rest, fewer);
        assert(is_subscription(items[items.len() - 1], list[items.len() - 1]));
        lemma_subscription(items.last(), list.last());
        assert(fewer.push(list.last()) =~= list);
    } else {
        assert(list =~= Seq::empty());
    }
}

/// The layout of a name.
pub open spec fn name_alone() -> LayoutView {
    LayoutView::Record(Seq::empty(), 0)
}

/// The layout of a command.
pub open spec fn command_layout() -> LayoutView {
    json::with_field(
        json::flat("op,request_id,subscriptions"@, 2),
        "subscriptions"@,
        LayoutView::Each(
            Box::new(
                json::with_field(
                    json::with_field(
                        json::with_field(
                            json::flat("provider,market,symbol,channels"@, 4),
                            "provider"@,
                            name_alone(),
                        ),
                        "market"@,
                        name_alone(),
                    ),
                    "channels"@,
                    LayoutView::Each(Box::new(name_alone())),
                ),
            ),
        ),
    )
}

/// Whether a text is one document and nothing else, laid out as a command is.
pub open spec fn is_document(text: Seq<char>, value: JsonView) -> bool {
    &&& !protocol::misnamed(text)
    &&& reading::leading_document(text) matches Some((document, rest))
    &&& reading::unspaced(rest).len() == 0
    &&& json::document_of(document) is Ok
    &&& reading::document_as(document, command_layout()) == Some(value)
}

/// A command to subscribe or to unsubscribe is read with its identifier and with each subscription as
/// it names it, and a ping with its identifier.
pub proof fn law_commands_are_read(
    text: Seq<char>,
    value: JsonView,
    request_id: Seq<char>,
    items: Seq<JsonView>,
    list: Seq<SubscriptionView>,
)
    requires
        is_document(text, value),
        says(value, "request_id"@, request_id),
        items.len() == list.len(),
        forall|i: int| 0 <= i < items.len() ==> is_subscription(#[trigger] items[i], list[i]),
    ensures
        says(value, "op"@, "ping"@) && has_no_other(value, seq!["op"@, "request_id"@])
            ==> api::command_in(text) == Ok::<ClientCommandView, ControlView>(
            ClientCommandView::Ping { request_id },
        ),
        says(value, "op"@, "subscribe"@) && json::member_of(value, "subscriptions"@) == Some(
            JsonView::List(items),
        ) && has_no_other(value, seq!["op"@, "request_id"@, "subscriptions"@])
            ==> api::command_in(text) == Ok::<ClientCommandView, ControlView>(
            ClientCommandView::Subscribe { request_id, subscriptions: list },
        ),
        says(value, "op"@, "unsubscribe"@) && json::member_of(value, "subscriptions"@) == Some(
            JsonView::List(items),
        ) && has_no_other(value, seq!["op"@, "request_id"@, "subscriptions"@])
            ==> api::command_in(text) == Ok::<ClientCommandView, ControlView>(
            ClientCommandView::Unsubscribe { request_id, subscriptions: list },
        ),
{
    lemma_subscriptions(items, list);
    reveal_strlit("subscribe");
    reveal_strlit("unsubscribe");
    reveal_strlit("ping");
    assert("subscribe"@.len() == 9 && "unsubscribe"@.len() == 11 && "ping"@.len() == 4);
    let all = protocol::command_of(value);
    assert(command_layout() == protocol::command_layout());
}

/// A text that is no document is answered as one, and a document that is no command as the other.
pub proof fn law_other_texts_are_refused(text: Seq<char>)
    ensures
        api::command_in(text) matches Err(answer) ==> {
            let is_json = protocol::misnamed(text) || (reading::leading_document(text) matches Some(
                (document, _),
            ) && json::document_of(document) is Ok && protocol::command_as(document) is None);
            answer == ControlView::Error {
                schema_version: 1,
                request_id: None,
                code: if is_json {
                    ErrorCode::InvalidCommand
                } else {
                    ErrorCode::InvalidJson
                },
                message: "invalid client command"@,
            }
        },
{
}

// ---------------------------------------------------------------------------------------------
// Keys
// ---------------------------------------------------------------------------------------------

/// Whether a subscription asks for a key.
pub open spec fn asks_for(subscription: SubscriptionView, key: KeyView) -> bool {
    &&& key.provider == subscription.provider
    &&& key.market == subscription.market
    &&& domain::symbol_identity(subscription.symbol) == Ok::<Seq<char>, domain::DomainErrorView>(
        key.symbol,
    )
    &&& subscription.channels.contains(key.channel)
}

/// Whether one of some subscriptions asks for a key.
pub open spec fn some_asks_for(list: Seq<SubscriptionView>, key: KeyView) -> bool {
    exists|i: int| 0 <= i < list.len() && asks_for(#[trigger] list[i], key)
}

/// Whether subscriptions make sense: there is one, and each names a symbol and a channel.
pub open spec fn make_sense(list: Seq<SubscriptionView>) -> bool {
    &&& list.len() > 0
    &&& forall|i: int|
        0 <= i < list.len() ==> (#[trigger] list[i]).channels.len() > 0 && domain::symbol_identity(
            list[i].symbol,
        ) is Ok
}

proof fn lemma_requested(list: Seq<SubscriptionView>)
    ensures
        api::requested_keys(list) is Ok <==> forall|i: int|
            0 <= i < list.len() ==> (#[trigger] list[i]).channels.len() > 0
                && domain::symbol_identity(list[i].symbol) is Ok,
        api::requested_keys(list) matches Ok(keys) ==> forall|key: KeyView| #[trigger]
            keys.contains(key) <==> some_asks_for(list, key),
    decreases list.len(),
{
    if list.len() > 0 {
        let rest = list.drop_last();
        lemma_requested(rest);
        super::values::law_subscriptions_come_to_keys(list.last());
        assert(list[list.len() - 1] == list.last());
        assert forall|i: int| 0 <= i < rest.len() implies #[trigger] rest[i] == list[i] by {}
        if api::requested_keys(list) is Ok {
            assert forall|i: int| 0 <= i < list.len() implies (#[trigger] list[i]).channels.len()
                > 0 && domain::symbol_identity(list[i].symbol) is Ok by {
                if i < rest.len() {
                    assert(rest[i] == list[i]);
                }
            }
            let keys = api::requested_keys(list)->Ok_0;
            let more = domain::expanded(list.last())->Ok_0;
            assert forall|key: KeyView| #[trigger] keys.contains(key) <==> some_asks_for(
                list,
                key,
            ) by {
                assert(more.to_set().contains(key) == more.contains(key));
                if some_asks_for(list, key) {
                    let i = choose|i: int| 0 <= i < list.len() && asks_for(#[trigger] list[i], key);
                    if i < rest.len() {
                        assert(rest[i] == list[i]);
                    }
                }
                if some_asks_for(rest, key) {
                    let i = choose|i: int| 0 <= i < rest.len() && asks_for(#[trigger] rest[i], key);
                    assert(list[i] == rest[i]);
                }
            }
        }
    }
}

/// Subscriptions are taken exactly if they make sense, and then come to just the keys that they ask
/// for.
pub proof fn law_subscriptions_come_to_what_they_ask_for(list: Seq<SubscriptionView>)
    ensures
        api::expansion(list) is Ok <==> make_sense(list),
        api::expansion(list) matches Ok(keys) ==> forall|key: KeyView| #[trigger]
            keys.contains(key) <==> some_asks_for(list, key),
{
    lemma_requested(list);
}

// ---------------------------------------------------------------------------------------------
// Offers
// ---------------------------------------------------------------------------------------------

/// A key is offered exactly if its venue is enabled and lists an instrument with its symbol that
/// streams its channel.
pub proof fn law_keys_are_offered_by_the_catalog(
    provider: Provider,
    list: Seq<InstrumentView>,
    enabled: bool,
    key: KeyView,
)
    requires
        catalog::is_listing(provider, list),
        domain::symbol_identity(key.symbol) == Ok::<Seq<char>, domain::DomainErrorView>(key.symbol),
    ensures
        catalog::resolution(enabled, list, key) is Ok <==> enabled && exists|i: int|
            0 <= i < list.len() && (#[trigger] list[i]).symbol == key.symbol && match key.channel {
                Channel::Ticker => list[i].capabilities.ticker,
                Channel::Candle1m => list[i].capabilities.candle_1m,
            },
        catalog::resolution(enabled, list, key) matches Ok(instrument) ==> list.contains(instrument)
            && instrument.symbol == key.symbol,
        catalog::resolution(enabled, list, key) matches Err(error) ==> match error {
            CatalogErrorView::ProviderDisabled(venue) => !enabled && venue == key.provider,
            CatalogErrorView::InstrumentUnavailable { provider, market, symbol } => {
                &&& enabled
                &&& provider == key.provider && market == key.market && symbol == key.symbol
                &&& forall|i: int| 0 <= i < list.len() ==> (#[trigger] list[i]).symbol != key.symbol
            },
            CatalogErrorView::UnsupportedChannel { provider, market, symbol, channel } => {
                &&& enabled
                &&& provider == key.provider && market == key.market && symbol == key.symbol
                    && channel == key.channel
            },
            _ => false,
        },
{
    domain::lemma_canonical_is_trimmed(key.symbol);
    lemma_found(list, key.symbol);
    if let Some(found) = catalog::with_symbol(list, key.symbol) {
        let k = choose|k: int| 0 <= k < list.len() && list[k] == found;
        assert(list[k].symbol == key.symbol);
        assert forall|i: int| 0 <= i < list.len() && (#[trigger] list[i]).symbol
            == key.symbol implies list[i] == found by {
            catalog::law_listed_symbols_resolve(provider, list, i);
        }
    }
}

proof fn lemma_found(list: Seq<InstrumentView>, symbol: Seq<char>)
    ensures
        match catalog::with_symbol(list, symbol) {
            Some(found) => list.contains(found) && found.symbol == symbol,
            None => forall|i: int| 0 <= i < list.len() ==> (#[trigger] list[i]).symbol != symbol,
        },
    decreases list.len(),
{
    if list.len() > 0 {
        let rest = list.drop_last();
        lemma_found(rest, symbol);
        match catalog::with_symbol(rest, symbol) {
            Some(found) => {
                let k = choose|k: int| 0 <= k < rest.len() && rest[k] == found;
                assert(list[k] == found);
            },
            None => {
                assert(list[list.len() - 1] == list.last());
                assert forall|i: int| 0 <= i < rest.len() implies (#[trigger] list[i]).symbol
                    != symbol by {
                    assert(rest[i] == list[i]);
                }
            },
        }
    }
}

/// Whether the enabled venues offer a key.
pub open spec fn is_offered(key: KeyView, enabled: Set<Provider>, catalog: Catalog) -> bool {
    &&& enabled.contains(key.provider)
    &&& catalog::resolution(
        catalog.enabled().contains(key.provider),
        catalog.snapshot(key.provider).instruments,
        key,
    ) is Ok
}

proof fn lemma_offers(keys: Seq<KeyView>, enabled: Set<Provider>, catalog: Catalog)
    ensures
        (api::first_disabled(keys, enabled) is None) == (forall|i: int|
            0 <= i < keys.len() ==> enabled.contains((#[trigger] keys[i]).provider)),
        (api::first_unresolved(keys, catalog) is None) == (forall|i: int|
            0 <= i < keys.len() ==> api::resolved(catalog, #[trigger] keys[i]) is Ok),
    decreases keys.len(),
{
    if keys.len() > 0 {
        let rest = keys.drop_last();
        lemma_offers(rest, enabled, catalog);
        assert(keys[keys.len() - 1] == keys.last());
        assert forall|i: int| 0 <= i < rest.len() implies #[trigger] rest[i] == keys[i] by {}
        if api::first_disabled(keys, enabled) is None {
            assert forall|i: int| 0 <= i < keys.len() implies enabled.contains(
                (#[trigger] keys[i]).provider,
            ) by {
                if i < rest.len() {
                    assert(rest[i] == keys[i]);
                }
            }
        }
        if api::first_unresolved(keys, catalog) is None {
            assert forall|i: int| 0 <= i < keys.len() implies api::resolved(
                catalog,
                #[trigger] keys[i],
            ) is Ok by {
                if i < rest.len() {
                    assert(rest[i] == keys[i]);
                }
            }
        }
    }
}

// ---------------------------------------------------------------------------------------------
// Answers
// ---------------------------------------------------------------------------------------------

/// Whether an identifier of a request has between one and one hundred and twenty-eight bytes.
pub open spec fn is_identifier(request_id: Seq<char>) -> bool {
    request_id.len() > 0 && text::byte_length(request_id) <= 128
}

/// Whether a message refuses a request, for a reason of that kind.
pub open spec fn refuses(message: ControlView, request_id: Seq<char>, reason: ErrorCode) -> bool {
    match message {
        ControlView::Error { schema_version, request_id: id, code, .. } => schema_version == 1
            && id == Some(request_id) && code == reason,
        _ => false,
    }
}

/// Whether a message acknowledges an operation with those keys.
pub open spec fn acknowledges(
    message: ControlView,
    request: Seq<char>,
    name: Seq<char>,
    keys: Set<KeyView>,
) -> bool {
    match message {
        ControlView::Ack { schema_version, request_id, operation, subscriptions } => schema_version
            == 1 && request_id == request && operation == name && subscriptions == api::in_order(
            keys,
        ),
        _ => false,
    }
}

/// A request to subscribe adds what it asks for to what its client has, and is acknowledged with just
/// that. It is refused, and changes nothing, where it does not make sense, asks for what is not
/// offered, or for more than is allowed.
pub proof fn law_subscribing_adds_what_is_asked_for(
    before: Gateway,
    after: Gateway,
    reply: Reply,
    client: ClientId,
    request_id: Seq<char>,
    list: Seq<SubscriptionView>,
    enabled: Set<Provider>,
    catalog: Catalog,
    order: Seq<KeyView>,
)
    requires
        api::applied(
            before,
            after,
            reply,
            client,
            ClientCommandView::Subscribe { request_id, subscriptions: list },
            enabled,
            catalog,
        ),
        is_identifier(request_id),
        make_sense(list) ==> crate::keyset::enumerates(order, api::expansion(list)->Ok_0),
    ensures
        !make_sense(list) ==> refuses(reply.message@, request_id, ErrorCode::InvalidCommand),
        make_sense(list) ==> {
            let keys = api::expansion(list)->Ok_0;
            let own = registry::owned(before.subscriptions().demand(), client);
            let all = registry::demanded(before.subscriptions().demand());
            let offered = forall|key: KeyView| #[trigger]
                keys.contains(key) ==> is_offered(key, enabled, catalog);
            let allowed = own.union(keys).len() <= before.subscriptions().client_limit() && forall|
                provider: Provider,
            |
                all.union(keys).filter(|key: KeyView| key.provider == provider).len()
                    <= #[trigger] before.subscriptions().venue_limits().limit_of(provider);
            &&& !offered ==> refuses(
                reply.message@,
                request_id,
                ErrorCode::UnsupportedSubscription,
            )
            &&& offered && !allowed ==> refuses(
                reply.message@,
                request_id,
                ErrorCode::LimitExceeded,
            )
            &&& offered && allowed ==> {
                &&& acknowledges(reply.message@, request_id, "subscribe"@, keys)
                &&& registry::owned(after.subscriptions().demand(), client) == own.union(keys)
                &&& before.hub().routes().contains_key(client)
                    ==> after.hub().routes()[client].subscriptions == own.union(keys)
            }
            &&& reply.rejected <==> !(offered && allowed)
        },
        reply.rejected ==> after.same_clients(&before),
{
    law_subscriptions_come_to_what_they_ask_for(list);
    if make_sense(list) {
        let keys = api::expansion(list)->Ok_0;
        api::lemma_in_order(order, keys);
        lemma_offers(order, enabled, catalog);
        assert(order.to_set() == keys);
        let offered = forall|key: KeyView| #[trigger]
            keys.contains(key) ==> is_offered(key, enabled, catalog);
        if offered {
            assert forall|i: int| 0 <= i < order.len() implies is_offered(
                #[trigger] order[i],
                enabled,
                catalog,
            ) by {
                assert(order.contains(order[i]));
                assert(keys.contains(order[i]));
            }
        }
        if api::offer_problem(order, enabled, catalog) is None {
            assert forall|key: KeyView| #[trigger] keys.contains(key) implies is_offered(
                key,
                enabled,
                catalog,
            ) by {
                assert(order.contains(key));
                let i = choose|i: int| 0 <= i < order.len() && order[i] == key;
                assert(enabled.contains(order[i].provider));
                assert(api::resolved(catalog, order[i]) is Ok);
            }
        }
        let all = registry::demanded(before.subscriptions().demand());
        assert(registry::within(all.union(keys), before.subscriptions().venue_limits()) == forall|
            provider: Provider,
        |
            all.union(keys).filter(|key: KeyView| key.provider == provider).len()
                <= #[trigger] before.subscriptions().venue_limits().limit_of(provider)) by {
            assert forall|provider: Provider| #[trigger]
                before.subscriptions().venue_limits().limit_of(provider) >= 0 implies (
            registry::provider_total(all.union(keys), provider) == all.union(keys).filter(
                |key: KeyView| key.provider == provider,
            ).len()) by {}
        }
        let own = registry::owned(before.subscriptions().demand(), client);
        assert(own.union(keys) == Set::<KeyView>::empty() ==> registry::owned(
            before.subscriptions().demand().remove(client),
            client,
        ) == Set::<KeyView>::empty());
    }
}

/// A request to unsubscribe takes what it asks for from what its client has, and is acknowledged with
/// just that. It is refused, and changes nothing, where it does not make sense.
pub proof fn law_unsubscribing_takes_what_is_asked_for(
    before: Gateway,
    after: Gateway,
    reply: Reply,
    client: ClientId,
    request_id: Seq<char>,
    list: Seq<SubscriptionView>,
    enabled: Set<Provider>,
    catalog: Catalog,
)
    requires
        api::applied(
            before,
            after,
            reply,
            client,
            ClientCommandView::Unsubscribe { request_id, subscriptions: list },
            enabled,
            catalog,
        ),
        is_identifier(request_id),
    ensures
        !make_sense(list) ==> {
            &&& reply.rejected
            &&& refuses(reply.message@, request_id, ErrorCode::InvalidCommand)
            &&& after.same_clients(&before)
        },
        make_sense(list) ==> {
            let keys = api::expansion(list)->Ok_0;
            let own = registry::owned(before.subscriptions().demand(), client);
            &&& !reply.rejected
            &&& acknowledges(reply.message@, request_id, "unsubscribe"@, keys)
            &&& registry::owned(after.subscriptions().demand(), client) == own.difference(keys)
            &&& before.hub().routes().contains_key(client)
                ==> after.hub().routes()[client].subscriptions == own.difference(keys)
        },
{
    law_subscriptions_come_to_what_they_ask_for(list);
}

/// A ping is answered under its identifier, and changes nothing. A command without a proper identifier
/// is refused.
pub proof fn law_pings_are_answered(
    before: Gateway,
    after: Gateway,
    reply: Reply,
    client: ClientId,
    command: ClientCommandView,
    enabled: Set<Provider>,
    catalog: Catalog,
)
    requires
        api::applied(before, after, reply, client, command, enabled, catalog),
    ensures
        command matches ClientCommandView::Ping { request_id } ==> (is_identifier(request_id) ==> {
            &&& !reply.rejected
            &&& reply.message@ == (ControlView::Pong { schema_version: 1, request_id })
            &&& after.same_clients(&before)
        }),
        !is_identifier(
            match command {
                ClientCommandView::Subscribe { request_id, .. } => request_id,
                ClientCommandView::Unsubscribe { request_id, .. } => request_id,
                ClientCommandView::Ping { request_id } => request_id,
            },
        ) ==> {
            &&& reply.rejected
            &&& reply.message@ matches ControlView::Error { code, .. }
            &&& code == ErrorCode::InvalidCommand
            &&& after.same_clients(&before)
        },
{
}

/// A text that is too long is refused as such, and any other is read as a command: refused as what is
/// no command, or carried out.
pub proof fn law_texts_are_answered(
    before: Gateway,
    after: Gateway,
    reply: Reply,
    client: ClientId,
    text: Seq<char>,
    max_command_bytes: usize,
    enabled: Set<Provider>,
    catalog: Catalog,
)
    requires
        api::answered(before, after, reply, client, text, max_command_bytes, enabled, catalog),
    ensures
        text::byte_length(text) > max_command_bytes ==> {
            &&& reply.rejected
            &&& reply.message@ == (ControlView::Error {
                schema_version: 1,
                request_id: None,
                code: ErrorCode::LimitExceeded,
                message: "command exceeds maximum size"@,
            })
            &&& after.same_clients(&before)
        },
        text::byte_length(text) <= max_command_bytes ==> match api::command_in(text) {
            Ok(command) => api::applied(before, after, reply, client, command, enabled, catalog),
            Err(error) => reply.rejected && reply.message@ == error && after.same_clients(&before),
        },
{
}

// ---------------------------------------------------------------------------------------------
// Candles on demand
// ---------------------------------------------------------------------------------------------

/// A request for candles is for the instrument and the window that it names, and for a thousand candles
/// where it names no number. What makes no sense is a bad request, and an instrument that is not
/// offered cannot be processed.
pub proof fn law_candles_are_planned_as_asked(query: CandleQuery, catalog: Catalog)
    ensures
        ({
            let symbol = domain::symbol_identity(query.symbol@);
            let plan = rest::candles_plan(query, catalog);
            let key = KeyView {
                provider: query.provider,
                market: MarketKind::LinearPerpetual,
                symbol: symbol->Ok_0,
                channel: Channel::Candle1m,
            };
            let request = RequestView {
                provider: query.provider,
                symbol: symbol->Ok_0,
                start_time_ms: query.start_time_ms,
                end_time_ms: query.end_time_ms,
                limit: match query.limit {
                    Some(limit) => limit,
                    None => 1_000,
                },
            };
            let offered = catalog::resolution(
                catalog.enabled().contains(query.provider),
                catalog.snapshot(query.provider).instruments,
                key,
            ) is Ok;
            let valid = history::request_problem(request) is None;
            &&& symbol is Err ==> fails(plan, 400, "invalid_request"@)
            &&& symbol is Ok && !offered ==> fails(plan, 422, "unsupported_instrument"@)
            &&& symbol is Ok && offered && !valid ==> fails(plan, 400, "invalid_request"@)
            &&& symbol is Ok && offered && valid ==> plan == Ok::<RequestView, FailureView>(request)
        }),
{
}

/// Whether a plan fails with that status and code.
pub open spec fn fails(
    plan: Result<RequestView, FailureView>,
    status: u16,
    code: Seq<char>,
) -> bool {
    match plan {
        Err(failure) => failure.status == status && failure.code == code && failure.message.len()
            <= 500,
        Ok(_) => false,
    }
}

/// A retrieval that fails is the fault of the venue, unless the request was bad.
pub proof fn law_failed_retrievals_are_told(provider: Provider, error: HistoryErrorView)
    ensures
        ({
            let failure = rest::history_failure_of(provider, error);
            match error {
                HistoryErrorView::InvalidRequest(message) => {
                    &&& failure.status == 400
                    &&& failure.code == "invalid_request"@
                    &&& message.len() <= 500 ==> failure.message == message
                    &&& message.len() > 500 ==> failure.message == message.take(500)
                },
                _ => failure.status == 502 && failure.code == "provider_unavailable"@,
            }
        }),
{
}

} // verus!
