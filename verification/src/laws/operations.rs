//! What the operations give is what the texts mean and what the rules say.
use vstd::prelude::*;

use crate::api;
use crate::api::rest;
use crate::api::rest::{ApiFailure, CandleQuery};
use crate::api::{Gateway, Reply};
use crate::catalog;
use crate::catalog::fetch::CatalogFetch;
use crate::catalog::payload as lists;
use crate::catalog::{
    Catalog, CatalogError, CatalogErrorView, Instrument, InstrumentView, Listing,
    ProviderCatalogStatus, RefreshOutcome,
};
use crate::config::Settings;
use crate::domain;
use crate::domain::{
    Candle, CandleView, DomainError, DomainErrorView, MarketEvent, MarketKind, Provider,
    ProviderEvent, SubscriptionKey,
};
use crate::gateway::limits::ProviderLimits;
use crate::gateway::registry::ClientId;
use crate::history;
use crate::history::fetch;
use crate::history::fetch::{HistorySources, Retrieval};
use crate::history::payload;
use crate::history::{HistoryError, HistoryErrorView, HistoryRequest, HistoryResult};
use crate::json;
use crate::json::Json;
use crate::protocol;
use crate::protocol::{ClientCommand, ControlMessage};
use crate::runtime::supervisor::{Backoff, ConnectionExit, NextStep, NextStepView};
use crate::runtime::RuntimeError;
use crate::venues::ProviderSet;
use crate::wire;

verus! {

// ---------------------------------------------------------------------------------------------
// Histories
// ---------------------------------------------------------------------------------------------

/// Whether candles are those of an answer, or an error is the one of it.
pub open spec fn gives_candles(
    r: Result<Vec<Candle>, HistoryError>,
    meaning: Result<Seq<CandleView>, HistoryErrorView>,
) -> bool {
    match (r, meaning) {
        (Ok(list), Ok(wanted)) => list@.len() == wanted.len() && forall|i: int|
            0 <= i < wanted.len() ==> (#[trigger] list@[i])@ == wanted[i],
        (Err(error), Err(wanted)) => error@ == wanted,
        _ => false,
    }
}

/// What is read from the answer of a venue is what the answer means.
pub proof fn law_answers_are_read(
    body: &str,
    symbol: &str,
    time: u64,
    r: Result<Vec<Candle>, HistoryError>,
)
    ensures
        call_ensures(payload::parse_bybit, (body, symbol), r) ==> gives_candles(
            r,
            payload::bybit_candles_in(body@, symbol@),
        ),
        call_ensures(payload::parse_binance, (body, time), r) ==> gives_candles(
            r,
            payload::binance_candles_in(body@, time),
        ),
        call_ensures(payload::parse_okx, (body,), r) ==> gives_candles(
            r,
            payload::okx_candles_in(body@),
        ),
        call_ensures(payload::parse_kucoin, (body,), r) ==> gives_candles(
            r,
            payload::kucoin_candles_in(body@),
        ),
        call_ensures(payload::parse_mexc, (body, time), r) ==> gives_candles(
            r,
            payload::mexc_candles_in(body@, time),
        ),
        call_ensures(payload::parse_bingx, (body, time), r) ==> gives_candles(
            r,
            payload::bingx_candles_in(body@, time),
        ),
{
}

/// A retrieval begins with its request and the root of its venue.
pub proof fn law_retrievals_begin_with_the_request(
    request: HistoryRequest,
    sources: &HistorySources,
    retrieval: Retrieval,
)
    requires
        call_ensures(Retrieval::begin, (request, sources), retrieval),
    ensures
        retrieval@ == fetch::begun(request@, sources.root(request@.provider)),
{
}

/// The next address of a retrieval is the one that it asks for.
pub proof fn law_retrievals_ask_in_turn(
    retrieval: &mut Retrieval,
    r: Result<Option<String>, HistoryError>,
)
    requires
        call_ensures(Retrieval::next_url, (retrieval,), r),
    ensures
        final(retrieval)@ == fetch::asked(old(retrieval)@).0,
        match (r, fetch::asked(old(retrieval)@).1) {
            (Ok(Some(url)), Ok(Some(wanted))) => url@ == wanted,
            (Ok(None), Ok(None)) => true,
            (Err(error), Err(wanted)) => error@ == wanted,
            _ => false,
        },
{
}

/// An answer to a question of a retrieval is taken as the question wants it.
pub proof fn law_retrievals_take_answers(
    retrieval: &mut Retrieval,
    body: &str,
    r: Result<(), HistoryError>,
)
    requires
        call_ensures(Retrieval::take_answer, (retrieval, body), r),
        !(fetch::question(old(retrieval)@) is Nothing),
    ensures
        final(retrieval)@ == fetch::answered(old(retrieval)@, body@).0,
        match (r, fetch::answered(old(retrieval)@, body@).1) {
            (Ok(_), None) => true,
            (Err(error), Some(wanted)) => error@ == wanted,
            _ => false,
        },
{
}

/// A retrieval ends with a history of its request: at most as many candles as were asked for, all of them in
/// the window, in their order.
pub proof fn law_retrievals_end_with_their_history(
    retrieval: Retrieval,
    r: Result<HistoryResult, HistoryError>,
    i: int,
)
    requires
        call_ensures(Retrieval::finish, (retrieval,), r),
        r is Ok,
    ensures
        ({
            let result = r->Ok_0;
            let request = retrieval@.request;
            &&& result.provider == request.provider
            &&& result.symbol@ == request.symbol
            &&& result.start_time_ms == request.start_time_ms
            &&& result.end_time_ms == request.end_time_ms
            &&& result.candles@.len() <= request.limit
            &&& 0 <= i < result.candles@.len() ==> {
                &&& request.start_time_ms <= result.candles@[i].candle@.start_time_ms
                &&& result.candles@[i].candle@.end_time_ms <= request.end_time_ms
                &&& retrieval@.candles.contains(result.candles@[i].candle@)
                &&& i > 0 ==> result.candles@[i - 1].candle@.start_time_ms
                    < result.candles@[i].candle@.start_time_ms
            }
        }),
{
    let all = retrieval@.candles;
    let request = retrieval@.request;
    let result = r->Ok_0;
    let kept = history::within(request, all);
    let list = choose|list: Seq<CandleView>| #[trigger]
        history::arranges(list, kept) && history::answers(
            result,
            request,
            history::limited(list, request.limit),
        );
    history::law_results_are_ordered_bounded_and_earliest(request, all, list);
    let told = history::limited(list, request.limit);
    if 0 <= i < result.candles@.len() {
        assert(result.candles@[i].candle@ == told[i]);
        assert(history::in_range(request, told[i]));
        if i > 0 {
            assert(result.candles@[i - 1].candle@ == told[i - 1]);
        }
    }
}

/// A request is taken exactly if it can be met, and says what was asked for.
pub proof fn law_requests_say_what_was_asked_for(
    provider: Provider,
    symbol: &str,
    start: u64,
    end: u64,
    limit: usize,
    r: Result<HistoryRequest, HistoryError>,
)
    requires
        call_ensures(HistoryRequest::new, (provider, symbol, start, end, limit), r),
    ensures
        r matches Ok(request) ==> {
            &&& request@.provider == provider
            &&& request@.symbol == symbol@
            &&& request@.start_time_ms == start
            &&& request@.end_time_ms == end
            &&& request@.limit == limit
            &&& 0 < start < end
            &&& start % 60_000 == 0 && end % 60_000 == 0
            &&& end - start <= 600_000_000
            &&& 1 <= limit <= 10_000
            &&& domain::symbol_identity(symbol@) == Ok::<Seq<char>, DomainErrorView>(symbol@)
        },
{
}

// ---------------------------------------------------------------------------------------------
// Lists of instruments
// ---------------------------------------------------------------------------------------------

/// Whether a list is the one of an answer, or an error is the one of it.
pub open spec fn gives_list(
    r: Result<Listing, CatalogError>,
    meaning: Result<Seq<InstrumentView>, CatalogErrorView>,
    provider: Provider,
) -> bool {
    match (r, meaning) {
        (Ok(listing), Ok(wanted)) => listing@ == wanted && listing.venue() == provider,
        (Err(error), Err(wanted)) => error@ == wanted,
        _ => false,
    }
}

/// What is read from an answer with a list is what the answer means.
pub proof fn law_lists_are_read(provider: Provider, body: &str, r: Result<Listing, CatalogError>)
    ensures
        call_ensures(lists::parse_binance_catalog, (body,), r) ==> gives_list(
            r,
            lists::answer_in(Provider::Binance, body@),
            Provider::Binance,
        ),
        call_ensures(lists::parse_okx_catalog, (body,), r) ==> gives_list(
            r,
            lists::answer_in(Provider::Okx, body@),
            Provider::Okx,
        ),
        call_ensures(lists::parse_kucoin_catalog, (body,), r) ==> gives_list(
            r,
            lists::answer_in(Provider::Kucoin, body@),
            Provider::Kucoin,
        ),
        call_ensures(lists::parse_catalog, (provider, body), r) ==> gives_list(
            r,
            lists::answer_in(provider, body@),
            provider,
        ),
{
}

/// What a fetch takes of an answer is what it comes to with it.
pub proof fn law_fetches_take_answers(
    fetch: CatalogFetch,
    body: &str,
    r: Result<CatalogFetch, CatalogError>,
    listing: Listing,
)
    ensures
        call_ensures(CatalogFetch::take_answer, (fetch, body), r) ==> match (
            r,
            catalog::fetch::after_answer(fetch@, body@),
        ) {
            (Ok(next), Ok(wanted)) => next@ == wanted,
            (Err(error), Err(wanted)) => error@ == wanted,
            _ => false,
        },
        call_ensures(CatalogFetch::finish, (fetch,), listing) ==> listing@ == fetch@.instruments
            && listing.venue() == fetch@.provider,
{
}

/// A list has no symbol twice: an instrument is added exactly if its symbol is not there yet.
pub proof fn law_symbols_are_listed_once(
    listing: &mut Listing,
    instrument: Instrument,
    r: Result<(), CatalogError>,
)
    requires
        call_ensures(Listing::insert_unique, (listing, instrument), r),
    ensures
        r is Ok <==> forall|i: int|
            0 <= i < old(listing)@.len() ==> (#[trigger] old(listing)@[i]).symbol
                != instrument@.symbol,
        r is Ok ==> final(listing)@.len() == old(listing)@.len() + 1 && final(listing)@.contains(
            instrument@,
        ),
        r matches Err(error) ==> final(listing)@ == old(listing)@ && error@ == (
        CatalogErrorView::DuplicateInstrument {
            provider: instrument@.provider,
            symbol: instrument@.symbol,
        }),
{
    let list = old(listing)@;
    lemma_found(list, instrument@.symbol);
    if r is Ok {
        let at = catalog::place(list, instrument@.symbol);
        catalog::lemma_place(list, instrument@.symbol);
        assert(final(listing)@ == list.insert(at, instrument@));
        assert(final(listing)@[at] == instrument@);
    }
}

proof fn lemma_found(list: Seq<InstrumentView>, symbol: Seq<char>)
    ensures
        match catalog::with_symbol(list, symbol) {
            Some(found) => list.contains(found) && found.symbol == symbol,
            None => forall|i: int| 0 <= i < list.len() ==> (#[trigger] list[i]).symbol != symbol,
        },
    decreases list.len(),
{
    if list.len() > 0 {
        let rest = list.drop_last();
        lemma_found(rest, symbol);
        match catalog::with_symbol(rest, symbol) {
            Some(found) => {
                let k = choose|k: int| 0 <= k < rest.len() && rest[k] == found;
                assert(list[k] == found);
            },
            None => {
                assert(list[list.len() - 1] == list.last());
                assert forall|i: int| 0 <= i < rest.len() implies (#[trigger] list[i]).symbol
                    != symbol by {
                    assert(rest[i] == list[i]);
                }
            },
        }
    }
}

/// A key is that of a listed instrument which offers its channel exactly if its venue is enabled, lists the
/// instrument, and has the channel.
pub proof fn law_keys_resolve_to_listed_instruments(
    catalog: &Catalog,
    key: &SubscriptionKey,
    r: Result<Instrument, CatalogError>,
)
    requires
        call_ensures(Catalog::validate_subscription, (catalog, key), r),
    ensures
        r matches Ok(instrument) ==> {
            &&& catalog.enabled().contains(key@.provider)
            &&& catalog.snapshot(key@.provider).instruments.contains(instrument@)
            &&& instrument@.capabilities.offers(key@.channel)
        },
        !catalog.enabled().contains(key@.provider) ==> r is Err && r->Err_0@
            == CatalogErrorView::ProviderDisabled(key@.provider),
{
    let list = catalog.snapshot(key@.provider).instruments;
    let exact = crate::text::trimmed(key@.symbol);
    lemma_found(list, exact);
    if let Ok(normal) = domain::symbol_identity(exact) {
        lemma_found(list, normal);
    }
}

/// An instrument of a venue is found by its symbol.
pub proof fn law_instruments_are_found_by_symbol(
    catalog: &Catalog,
    provider: Provider,
    market: MarketKind,
    symbol: &str,
    found: Option<Instrument>,
    i: int,
)
    requires
        call_ensures(Catalog::get, (catalog, provider, market, symbol), found),
    ensures
        found matches Some(instrument) ==> catalog.snapshot(provider).instruments.contains(
            instrument@,
        ) && (instrument@.symbol == crate::text::trimmed(symbol@) || domain::symbol_identity(
            crate::text::trimmed(symbol@),
        ) == Ok::<Seq<char>, DomainErrorView>(instrument@.symbol)),
        0 <= i < catalog.snapshot(provider).instruments.len() && catalog.snapshot(
            provider,
        ).instruments[i].symbol == crate::text::trimmed(symbol@) ==> found is Some
            && found->0@.symbol == crate::text::trimmed(symbol@),
{
    let list = catalog.snapshot(provider).instruments;
    let exact = crate::text::trimmed(symbol@);
    lemma_found(list, exact);
    if let Ok(normal) = domain::symbol_identity(exact) {
        lemma_found(list, normal);
    }
}

/// The instruments are those of all venues, and a status is the one of its venue.
pub proof fn law_catalogs_tell_what_they_hold(
    catalog: &Catalog,
    provider: Provider,
    list: Vec<Instrument>,
    status: ProviderCatalogStatus,
    i: int,
)
    ensures
        call_ensures(Catalog::list, (catalog,), list) ==> list@.len() == catalog.everything().len()
            && (0 <= i < list@.len() ==> list@[i]@ == catalog.everything()[i]),
        call_ensures(Catalog::status, (catalog, provider), status) ==> status@ == catalog.snapshot(
            provider,
        ).status,
{
    if call_ensures(Catalog::list, (catalog,), list) {
        assert(catalog::instrument_views(list@) == catalog.everything());
        if 0 <= i < list@.len() {
            assert(catalog::instrument_views(list@)[i] == list@[i]@);
        }
    }
}

/// A refresh concerns one venue, tells how many instruments it has then, and leaves it alone where it is not
/// enabled.
pub proof fn law_refreshes_concern_one_venue(
    catalog: &mut Catalog,
    provider: Provider,
    attempted: u64,
    refreshed: u64,
    fetched: Result<Listing, CatalogError>,
    r: Result<RefreshOutcome, CatalogError>,
    other: Provider,
)
    requires
        call_ensures(
            Catalog::refresh_provider,
            (catalog, provider, attempted, refreshed, fetched),
            r,
        ),
    ensures
        final(catalog).enabled() == old(catalog).enabled(),
        other != provider ==> final(catalog).snapshot(other) == old(catalog).snapshot(other),
        !old(catalog).enabled().contains(provider) ==> r is Err && final(catalog).snapshot(provider)
            == old(catalog).snapshot(provider),
        r matches Ok(outcome) ==> {
            &&& outcome.provider == provider
            &&& outcome.refreshed_at_ms == refreshed
            &&& outcome.instrument_count == final(catalog).snapshot(provider).instruments.len()
            &&& fetched matches Ok(listing) && final(catalog).snapshot(provider).instruments
                == listing@
        },
        fetched is Err ==> r is Err && final(catalog).snapshot(provider).instruments == old(
            catalog,
        ).snapshot(provider).instruments,
{
}

// ---------------------------------------------------------------------------------------------
// Clients
// ---------------------------------------------------------------------------------------------

/// A text of a client is answered as the rules for texts say.
pub proof fn law_texts_are_handled(
    gateway: &mut Gateway,
    client: ClientId,
    text: &str,
    most: usize,
    enabled: &ProviderSet,
    catalog: &Catalog,
    reply: Reply,
)
    requires
        call_ensures(Gateway::handle_text, (gateway, client, text, most, enabled, catalog), reply),
    ensures
        api::answered(
            *old(gateway),
            *final(gateway),
            reply,
            client,
            text@,
            most,
            enabled@,
            *catalog,
        ),
        final(gateway).subscriptions().client_limit() == old(gateway).subscriptions().client_limit(),
        final(gateway).hub().next_sequence() == old(gateway).hub().next_sequence(),
{
}

/// A command of a client is carried out as the rules for commands say.
pub proof fn law_commands_are_carried_out(
    gateway: &mut Gateway,
    client: ClientId,
    command: ClientCommand,
    enabled: &ProviderSet,
    catalog: &Catalog,
    reply: Reply,
)
    requires
        call_ensures(Gateway::apply_command, (gateway, client, command, enabled, catalog), reply),
    ensures
        api::applied(
            *old(gateway),
            *final(gateway),
            reply,
            client,
            command@,
            enabled@,
            *catalog,
        ),
{
}

/// A text is read as the command that it is.
pub proof fn law_texts_are_read_as_commands(text: &str, r: Result<ClientCommand, ControlMessage>)
    requires
        call_ensures(api::parse_command, (text,), r),
    ensures
        match (r, api::command_in(text@)) {
            (Ok(command), Ok(wanted)) => command@ == wanted,
            (Err(message), Err(wanted)) => message@ == wanted,
            _ => false,
        },
{
}

/// A query for candles is planned as the rules for queries say.
pub proof fn law_queries_are_planned(
    query: &CandleQuery,
    catalog: &Catalog,
    r: Result<HistoryRequest, ApiFailure>,
)
    requires
        call_ensures(rest::plan_candles, (query, catalog), r),
    ensures
        match (r, rest::candles_plan(*query, *catalog)) {
            (Ok(request), Ok(wanted)) => request@ == wanted,
            (Err(failure), Err(wanted)) => failure@ == wanted,
            _ => false,
        },
{
}

/// Too many histories at once are answered with a status of their own.
pub proof fn law_busy_histories(failure: ApiFailure, provider: Provider, error: &HistoryError)
    ensures
        call_ensures(rest::history_busy, (), failure) ==> failure@.status == 429 && failure@.code
            == "history_busy"@ && failure@.message == "too many concurrent history requests"@,
        call_ensures(rest::history_failure, (provider, error), failure) ==> failure@
            == rest::history_failure_of(provider, error@),
{
    reveal_strlit("too many concurrent history requests");
}

// ---------------------------------------------------------------------------------------------
// Documents
// ---------------------------------------------------------------------------------------------

/// What is sent is the document of what is told.
pub proof fn law_documents_are_sent(
    key: &SubscriptionKey,
    event: &MarketEvent,
    history: &HistoryResult,
    instrument: &Instrument,
    status: &ProviderCatalogStatus,
    control: &ControlMessage,
    value: Json,
    text: String,
)
    ensures
        call_ensures(wire::key_json, (key,), value) ==> value@ == wire::key_document(key@),
        call_ensures(wire::event_json, (event,), value) ==> value@ == wire::event_document(event@),
        call_ensures(wire::event_text, (event,), text) ==> text@ == json::text_of(
            wire::event_document(event@),
        ),
        call_ensures(wire::history_json, (history,), value) ==> value@ == wire::history_document(
            *history,
        ),
        call_ensures(wire::instrument_json, (instrument,), value) ==> value@
            == wire::instrument_document(instrument@),
        call_ensures(wire::status_json, (status,), value) ==> value@ == wire::status_document(
            status@,
        ),
        call_ensures(ControlMessage::to_json, (control,), value) ==> value@
            == protocol::control_document(control@),
        call_ensures(ControlMessage::to_text, (control,), text) ==> text@ == json::text_of(
            protocol::control_document(control@),
        ),
{
}

// ---------------------------------------------------------------------------------------------
// Values and settings
// ---------------------------------------------------------------------------------------------

/// A symbol is normal exactly as the rules for symbols say, and an update that is numbered keeps what it told.
pub proof fn law_values_are_kept(
    symbol: &str,
    r: Result<String, DomainError>,
    update: ProviderEvent,
    epoch: u128,
    number: u64,
    event: MarketEvent,
    key: SubscriptionKey,
)
    ensures
        call_ensures(domain::normalize_symbol, (symbol,), r) ==> match (
            r,
            domain::symbol_identity(symbol@),
        ) {
            (Ok(normal), Ok(wanted)) => normal@ == wanted,
            (Err(error), Err(wanted)) => error@ == wanted,
            _ => false,
        },
        call_ensures(ProviderEvent::into_market_event, (update, epoch, number), event) ==> {
            &&& event@.stream_epoch == epoch
            &&& event@.delivery_sequence == number
            &&& event@.provider == update@.provider
            &&& event@.market == update@.market
            &&& event@.symbol == update@.symbol
            &&& event@.payload == update@.payload
            &&& event@.exchange_time_ms == update@.exchange_time_ms
            &&& event@.gateway_received_time_ms == update@.gateway_received_time_ms
        },
        call_ensures(ProviderEvent::subscription_key, (&update,), key) ==> key@.provider
            == update@.provider && key@.market == update@.market && key@.symbol == update@.symbol,
        call_ensures(MarketEvent::subscription_key, (&event,), key) ==> key@.provider
            == event@.provider && key@.market == event@.market && key@.symbol == event@.symbol,
{
}

/// Limits are tightened to a ceiling and never loosened, and the settings tighten all of them alike.
pub proof fn law_limits_are_tightened(
    limits: &ProviderLimits,
    ceiling: usize,
    tight: ProviderLimits,
    settings: &Settings,
    declared: ProviderLimits,
    provider: Provider,
    least: usize,
)
    ensures
        call_ensures(ProviderLimits::tightened, (limits, ceiling), tight) ==> tight.limit_of(
            provider,
        ) <= ceiling && tight.limit_of(provider) <= limits.limit_of(provider) && (tight.limit_of(
            provider,
        ) == ceiling || tight.limit_of(provider) == limits.limit_of(provider)),
        call_ensures(Settings::provider_limits, (settings, declared), tight)
            ==> match settings.max_provider_subscriptions {
            Some(most) => tight.limit_of(provider) <= most && tight.limit_of(provider)
                <= declared.limit_of(provider) && (tight.limit_of(provider) == most
                || tight.limit_of(provider) == declared.limit_of(provider)),
            None => tight.limit_of(provider) == declared.limit_of(provider),
        },
        call_ensures(ProviderLimits::limit_for, (limits, provider), least) ==> least
            == limits.limit_of(provider),
{
}

/// The venues that are enabled are those that are chosen.
pub proof fn law_chosen_venues(settings: &Settings, set: ProviderSet)
    requires
        call_ensures(Settings::enabled_providers, (settings,), set),
    ensures
        set@ == crate::config::chosen_providers(settings.providers@),
{
}

// ---------------------------------------------------------------------------------------------
// Connections that end
// ---------------------------------------------------------------------------------------------

/// After a connection the next step is a stop where everything stops, a wait for demand where there is none,
/// and else another connection, after a wait of at most the current one.
pub proof fn law_next_steps(
    backoff: &mut Backoff,
    result: Result<ConnectionExit, RuntimeError>,
    lasted: u128,
    stopping: bool,
    step: NextStep,
)
    requires
        call_ensures(Backoff::connection_ended, (backoff, result, lasted, stopping), step),
    ensures
        stopping ==> step@ is Stop,
        !stopping && result == Ok::<ConnectionExit, RuntimeError>(ConnectionExit::Idle) ==> step@
            is WaitForDemand && final(backoff).current_ms == old(backoff).min_ms,
        !stopping && result != Ok::<ConnectionExit, RuntimeError>(ConnectionExit::Idle)
            ==> match step@ {
            NextStepView::Reconnect { longest_wait_ms, .. } => longest_wait_ms == (if lasted >= old(
                backoff,
            ).stable_ms {
                old(backoff).min_ms
            } else {
                old(backoff).current_ms
            }),
            _ => false,
        },
        final(backoff).min_ms == old(backoff).min_ms,
        final(backoff).max_ms == old(backoff).max_ms,
{
}

/// A wait is followed by one that is twice as long, up to the longest.
pub proof fn law_longer_waits(backoff: &mut Backoff)
    requires
        call_ensures(Backoff::waited, (backoff,), ()),
    ensures
        old(backoff).current_ms * 2 <= old(backoff).max_ms ==> final(backoff).current_ms == old(
            backoff,
        ).current_ms * 2,
        old(backoff).current_ms * 2 > old(backoff).max_ms ==> final(backoff).current_ms == old(
            backoff,
        ).max_ms,
{
}

} // verus!
