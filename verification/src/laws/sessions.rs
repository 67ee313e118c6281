//! What the sessions of the venues read and send, where the venues are, and the words of errors.
use vstd::prelude::*;

use super::documents::venue;
use crate::catalog::{CatalogError, CatalogErrorView};
use crate::config::Settings;
use crate::domain::{Channel, DomainError, DomainErrorView, KeyView, Provider, SubscriptionKey};
use crate::gateway::registry::RegistryError;
use crate::history::fetch::HistorySources;
use crate::history::payload;
use crate::history::{HistoryError, HistoryErrorView};
use crate::keyset;
use crate::providers::binance;
use crate::providers::binance::{BinanceAdapter, BinanceSession};
use crate::providers::bingx;
use crate::providers::bingx::{BingxAdapter, BingxSession};
use crate::providers::bybit;
use crate::providers::bybit::{BybitAdapter, BybitSession};
use crate::providers::kucoin;
use crate::providers::kucoin::{KucoinAdapter, KucoinSession};
use crate::providers::mexc;
use crate::providers::mexc::{MexcAdapter, MexcSession};
use crate::providers::okx;
use crate::providers::okx::{OkxAdapter, OkxSession};
use crate::providers::{
    AdapterError, AdapterErrorView, AdapterSession, EndpointKind, SubscriptionAction,
};
use crate::runtime;
use crate::runtime::{RuntimeError, RuntimeErrorView};
use crate::text;
use crate::weburl;

verus! {

// ---------------------------------------------------------------------------------------------
// Sessions
// ---------------------------------------------------------------------------------------------

/// What a session makes of a text is what the venue means by it, and it goes on from there.
pub proof fn law_sessions_read_their_venue(
    bybit: (&BybitSession, &BybitSession),
    binance: (&BinanceSession, &BinanceSession),
    okx: (&OkxSession, &OkxSession),
    kucoin: (&KucoinSession, &KucoinSession),
    mexc: (&MexcSession, &MexcSession),
    bingx: (&BingxSession, &BingxSession),
    text: Seq<char>,
    time: u64,
)
    ensures
        bybit.0.frame_for(text, time) == bybit::text_frame(bybit.0@, text, time).1,
        bybit.0.after_frame(text, time, bybit.1) ==> bybit.1@ == bybit::text_frame(
            bybit.0@,
            text,
            time,
        ).0,
        binance.0.frame_for(text, time) == binance::text_frame(binance.0@, text, time).1,
        binance.0.after_frame(text, time, binance.1) ==> binance.1@ == binance::text_frame(
            binance.0@,
            text,
            time,
        ).0,
        okx.0.frame_for(text, time) == okx::text_frame(okx.0@, text, time).1,
        okx.0.after_frame(text, time, okx.1) ==> okx.1@ == okx::text_frame(okx.0@, text, time).0
            && okx.1.endpoint() == okx.0.endpoint(),
        kucoin.0.frame_for(text, time) == kucoin::text_frame(kucoin.0@, text, time).1,
        kucoin.0.after_frame(text, time, kucoin.1) ==> kucoin.1@ == kucoin::text_frame(
            kucoin.0@,
            text,
            time,
        ).0 && kucoin.1.endpoint() == kucoin.0.endpoint(),
        mexc.0.frame_for(text, time) == mexc::text_frame(mexc.0@, text, time).1,
        mexc.0.after_frame(text, time, mexc.1) ==> mexc.1@ == mexc::text_frame(
            mexc.0@,
            text,
            time,
        ).0 && mexc.1.endpoint() == mexc.0.endpoint(),
        bingx.0.frame_for(text, time) == bingx::text_frame(bingx.0@, text, time).1,
        bingx.0.after_frame(text, time, bingx.1) ==> bingx.1@ == bingx::text_frame(
            bingx.0@,
            text,
            time,
        ).0,
{
}

/// The commands of a session are those of its venue, and it goes on from there.
pub proof fn law_sessions_command_their_venue(
    bybit: (&BybitSession, &BybitSession),
    binance: (&BinanceSession, &BinanceSession),
    okx: (&OkxSession, &OkxSession),
    kucoin: (&KucoinSession, &KucoinSession),
    mexc: (&MexcSession, &MexcSession),
    bingx: (&BingxSession, &BingxSession),
    action: SubscriptionAction,
    keys: Seq<KeyView>,
)
    ensures
        bybit.0.commands_for(action, keys) == bybit::subscription_outcome(
            bybit.0@,
            action,
            keys,
        ).1,
        bybit.0.after_change(action, keys, bybit.1) ==> bybit.1@ == bybit::subscription_outcome(
            bybit.0@,
            action,
            keys,
        ).0,
        binance.0.commands_for(action, keys) == binance::subscription_outcome(
            binance.0@,
            action,
            keys,
        ).1,
        binance.0.after_change(action, keys, binance.1) ==> binance.1@
            == binance::subscription_outcome(binance.0@, action, keys).0,
        okx.0.commands_for(action, keys) == okx::subscription_outcome(
            okx.0.endpoint(),
            okx.0@,
            action,
            keys,
        ).1,
        okx.0.after_change(action, keys, okx.1) ==> okx.1@ == okx::subscription_outcome(
            okx.0.endpoint(),
            okx.0@,
            action,
            keys,
        ).0,
        kucoin.0.commands_for(action, keys) == kucoin::subscription_outcome(
            kucoin.0.endpoint(),
            kucoin.0@,
            action,
            keys,
        ).1,
        kucoin.0.after_change(action, keys, kucoin.1) ==> kucoin.1@ == kucoin::subscription_outcome(
            kucoin.0.endpoint(),
            kucoin.0@,
            action,
            keys,
        ).0,
        mexc.0.commands_for(action, keys) == mexc::subscription_outcome(
            mexc.0.endpoint(),
            mexc.0@,
            action,
            keys,
        ).1,
        mexc.0.after_change(action, keys, mexc.1) ==> mexc.1@ == mexc::subscription_outcome(
            mexc.0.endpoint(),
            mexc.0@,
            action,
            keys,
        ).0,
        bingx.0.commands_for(action, keys) == bingx::subscription_outcome(
            bingx.0@,
            action,
            keys,
        ).1,
        bingx.0.after_change(action, keys, bingx.1) ==> bingx.1@ == bingx::subscription_outcome(
            bingx.0@,
            action,
            keys,
        ).0,
{
}

// ---------------------------------------------------------------------------------------------
// Addresses
// ---------------------------------------------------------------------------------------------

/// The venues are where they say that they are, unless another address is given.
pub proof fn law_venues_have_their_addresses(
    bybit: BybitAdapter,
    binance: BinanceAdapter,
    okx: OkxAdapter,
    mexc: MexcAdapter,
    bingx: BingxAdapter,
    url: String,
    other: String,
)
    ensures
        call_ensures(BybitAdapter::new, (), bybit) ==> bybit.url()
            == "wss://stream.bybit.com/v5/public/linear"@,
        call_ensures(BybitAdapter::with_url, (url,), bybit) ==> bybit.url() == url@,
        call_ensures(BinanceAdapter::new, (), binance) ==> binance.url()
            == "wss://fstream.binance.com/market/ws"@,
        call_ensures(BinanceAdapter::with_url, (url,), binance) ==> binance.url() == url@,
        call_ensures(OkxAdapter::new, (url, other), okx) ==> okx.url_of(EndpointKind::Public)
            == Some(url@) && okx.url_of(EndpointKind::Business) == Some(other@),
        call_ensures(MexcAdapter::new, (), mexc) ==> mexc.url() == "wss://contract.mexc.com/edge"@,
        call_ensures(MexcAdapter::with_url, (url,), mexc) ==> mexc.url() == url@,
        call_ensures(BingxAdapter::new, (), bingx) ==> bingx.url()
            == "wss://open-api-swap.bingx.com/swap-market"@,
        call_ensures(BingxAdapter::with_url, (url,), bingx) ==> bingx.url() == url@,
{
}

/// Where nothing else is said, the settings have the addresses at which the venues are, and leave room for
/// clients, commands and histories.
pub proof fn law_default_settings(
    settings: Settings,
    sources: HistorySources,
    bybit: BybitAdapter,
    binance: BinanceAdapter,
    mexc: MexcAdapter,
    bingx: BingxAdapter,
    provider: Provider,
)
    requires
        call_ensures(Settings::default, (), settings),
    ensures
        call_ensures(BybitAdapter::new, (), bybit) ==> settings.bybit_ws_url@ == bybit.url(),
        call_ensures(BinanceAdapter::new, (), binance) ==> settings.binance_ws_url@
            == binance.url(),
        call_ensures(MexcAdapter::new, (), mexc) ==> settings.mexc_ws_url@ == mexc.url(),
        call_ensures(BingxAdapter::new, (), bingx) ==> settings.bingx_ws_url@ == bingx.url(),
        call_ensures(HistorySources::default, (), sources) ==> settings.root(provider)
            == sources.root(provider),
        settings.downstream_buffer == 4_096,
        settings.max_downstream_clients == 64,
        settings.max_client_subscriptions == 512,
        settings.max_provider_subscriptions is None,
        settings.max_command_bytes == 65_536,
        settings.max_history_requests == 8,
        settings.upstream_backoff_min_ms == 500,
        settings.upstream_backoff_max_ms == 30_000,
        settings.stable_connection_seconds == 60,
        settings.shutdown_grace_seconds == 10,
        settings.catalog_refresh_seconds == 6 * 60 * 60,
        settings.allowed_origins@.len() == 0,
{
}

/// KuCoin is asked for its servers under its root.
pub proof fn law_servers_are_asked_for(
    kucoin: &KucoinAdapter,
    endpoint: EndpointKind,
    r: Result<String, AdapterError>,
)
    requires
        call_ensures(KucoinAdapter::discovery_url, (kucoin, endpoint), r),
    ensures
        r matches Ok(url) ==> endpoint == EndpointKind::Primary && match weburl::joined_url(
            kucoin.rest_url(),
            "/api/v1/bullet-public"@,
        ) {
            Ok(joined) => url@ == joined.text,
            Err(_) => false,
        },
        r is Err && endpoint == EndpointKind::Primary ==> weburl::joined_url(
            kucoin.rest_url(),
            "/api/v1/bullet-public"@,
        ) is Err,
{
}

/// An answer with a history is a text of at most four mebibytes, and comes with a status of success.
pub proof fn law_histories_are_bounded_texts(
    provider: Provider,
    status: u16,
    bytes: &[u8],
    r: Result<String, HistoryError>,
)
    requires
        call_ensures(payload::check_answer, (provider, status, bytes), r),
    ensures
        r is Ok <==> bytes@.len() <= 4_194_304 && vstd::utf8::valid_utf8(bytes@) && 200 <= status
            <= 299,
        r matches Ok(body) ==> body@ == vstd::utf8::decode_utf8(bytes@),
{
}

// ---------------------------------------------------------------------------------------------
// Order
// ---------------------------------------------------------------------------------------------

/// Where a venue stands.
pub open spec fn standing(provider: Provider) -> int {
    match provider {
        Provider::Bybit => 1,
        Provider::Binance => 2,
        Provider::Okx => 3,
        Provider::Kucoin => 4,
        Provider::Mexc => 5,
        Provider::Bingx => 6,
    }
}

/// Keys are in the order of their venues, then of their symbols, and the ticker of an instrument stands
/// before its candles.
pub proof fn law_keys_are_ordered(a: &SubscriptionKey, b: &SubscriptionKey, answer: bool)
    requires
        call_ensures(keyset::less, (a, b), answer),
    ensures
        a@.provider != b@.provider ==> answer == (standing(a@.provider) < standing(b@.provider)),
        a@.provider == b@.provider && a@.symbol != b@.symbol ==> answer == text::precedes(
            a@.symbol,
            b@.symbol,
        ),
        a@.provider == b@.provider && a@.symbol == b@.symbol ==> answer == (a@.channel
            == Channel::Ticker && b@.channel == Channel::Candle1m),
{
}

// ---------------------------------------------------------------------------------------------
// Words
// ---------------------------------------------------------------------------------------------

/// What is wrong with a value is said in words, with the value.
pub proof fn law_words_for_values(error: &DomainError, words: String)
    requires
        call_ensures(DomainError::message, (error,), words),
    ensures
        words@ == match error@ {
            DomainErrorView::InvalidSymbol(symbol) => "invalid venue symbol: "@ + symbol,
            DomainErrorView::NoChannels => "subscription must contain at least one channel"@,
            DomainErrorView::InvalidDecimal(value) => "invalid decimal value: "@ + value,
            DomainErrorView::TickerWithoutPrice => "ticker must contain at least one price"@,
            DomainErrorView::InvalidCandleWindow => "candle must cover exactly one minute"@,
        },
{
}

/// A limit that is exceeded is told with what was asked for and what is allowed.
pub proof fn law_words_for_limits(error: &RegistryError, words: String)
    requires
        call_ensures(RegistryError::message, (error,), words),
    ensures
        words@ == match *error {
            RegistryError::ClientLimitExceeded { limit, requested } =>
                "client subscription limit exceeded: requested "@ + text::digits(requested as nat)
                + ", maximum is "@ + text::digits(limit as nat),
            RegistryError::ProviderLimitExceeded { provider, limit, requested } =>
                "provider subscription limit exceeded for "@ + venue(provider) + ": requested "@
                + text::digits(requested as nat) + ", maximum is "@ + text::digits(limit as nat),
        },
{
}

/// What is wrong with a history is said in words, with the venue.
pub proof fn law_words_for_histories(error: &HistoryError, words: String)
    requires
        call_ensures(HistoryError::message, (error,), words),
    ensures
        match error@ {
            HistoryErrorView::InvalidRequest(message) => words@ == "invalid history request: "@
                + message,
            HistoryErrorView::HttpStatus { provider, status, message } => words@ == venue(provider)
                + " history endpoint returned HTTP "@ + text::digits(status as nat) + ": "@
                + message,
            HistoryErrorView::ProviderRejected { provider, code, message } => words@ == venue(
                provider,
            ) + " rejected history request with code "@ + code + ": "@ + message,
            HistoryErrorView::InvalidPayload { provider, message } => words@ == "invalid "@ + venue(
                provider,
            ) + " history payload: "@ + message,
            HistoryErrorView::PaginationStalled { provider, cursor_ms } => words@ == venue(provider)
                + " history pagination did not advance from "@ + text::digits(cursor_ms as nat),
            _ => true,
        },
{
}

/// What is wrong with a list of instruments is said in words, with the venue.
pub proof fn law_words_for_catalogs(error: &CatalogError, words: String)
    requires
        call_ensures(CatalogError::message, (error,), words),
    ensures
        match error@ {
            CatalogErrorView::ProviderDisabled(provider) => words@ == venue(provider)
                + " instrument catalog is disabled"@,
            CatalogErrorView::HttpStatus { provider, status } => words@ == venue(provider)
                + " catalog endpoint returned HTTP "@ + text::digits(status as nat),
            CatalogErrorView::InvalidPayload { provider, message } => words@ == venue(provider)
                + " catalog payload is invalid: "@ + message,
            CatalogErrorView::DuplicateInstrument { provider, symbol } => words@ == venue(provider)
                + " catalog returned duplicate instrument "@ + symbol,
            CatalogErrorView::RepeatedCursor { provider, cursor } => words@ == venue(provider)
                + " catalog pagination repeated cursor "@ + cursor,
            CatalogErrorView::EmptySnapshot(provider) => words@ == venue(provider)
                + " catalog returned no live linear perpetual instruments"@,
            CatalogErrorView::InstrumentUnavailable { provider, symbol, .. } => words@
                == "instrument is not available: "@ + (venue(provider) + ":"@ + "linear_perpetual"@
                + ":"@ + symbol),
            CatalogErrorView::UnsupportedChannel { provider, symbol, channel, .. } => words@ == (
            if channel == Channel::Ticker {
                "ticker"@
            } else {
                "candle_1m"@
            }) + " is not available for "@ + (venue(provider) + ":"@ + "linear_perpetual"@ + ":"@
                + symbol),
            _ => true,
        },
{
}

/// What is wrong with a venue is said in words, with the venue.
pub proof fn law_words_for_venues(error: &AdapterError, words: String)
    requires
        call_ensures(AdapterError::message, (error,), words),
    ensures
        match error@ {
            AdapterErrorView::InvalidSubscription { provider, message } => words@
                == "invalid subscription for "@ + venue(provider) + ": "@ + message,
            AdapterErrorView::InvalidPayload { provider, message } => words@ == venue(provider)
                + " returned invalid data: "@ + message,
            AdapterErrorView::CommandRejected { provider, message } => words@ == venue(provider)
                + " rejected a command: "@ + message,
            AdapterErrorView::Discovery { provider, message } => words@ == "could not discover "@
                + venue(provider) + " websocket endpoint: "@ + message,
            _ => true,
        },
{
}

/// What ended a connection is said in words.
pub proof fn law_words_for_connections(error: &RuntimeError, words: String)
    requires
        call_ensures(RuntimeError::message, (error,), words),
    ensures
        match error@ {
            RuntimeErrorView::WebSocket(message) => words@ == message,
            RuntimeErrorView::Closed => words@ == "upstream websocket closed"@,
            RuntimeErrorView::Stale(wait) => words@ == "upstream websocket was stale for "@
                + runtime::duration_words(wait),
            RuntimeErrorView::ProviderClosed(frame) => words@ == "provider closed the websocket: "@
                + frame,
            RuntimeErrorView::NonUtf8Binary => words@ == "provider sent a non-UTF-8 binary frame"@,
            RuntimeErrorView::DuplicateOutboundRequestId(id) => words@
                == "provider reused outbound request id "@ + id,
            RuntimeErrorView::UnexpectedAcknowledgement(id) => words@
                == "provider acknowledged unknown or already completed request id "@ + id,
            RuntimeErrorView::SubscriptionAcknowledgementTimeout(wait) => words@
                == "initial subscription acknowledgement timed out after "@
                + runtime::duration_words(wait),
            _ => true,
        },
{
}

/// A duration is told in seconds where they are full ones, and below one second in milliseconds.
pub proof fn law_durations_in_words(millis: u64, words: String)
    requires
        call_ensures(runtime::duration_text, (millis,), words),
    ensures
        0 < millis < 1_000 ==> words@ == text::digits(millis as nat) + "ms"@,
        millis >= 1_000 && millis % 1_000 == 0 ==> words@ == text::digits((millis / 1_000) as nat)
            + "s"@,
{
}

} // verus!
