//! Where things come from: addresses, settings and what is kept of a venue.
use vstd::prelude::*;

use super::says;
use crate::catalog;
use crate::catalog::fetch;
use crate::catalog::fetch::FetchView;
use crate::catalog::payload;
use crate::catalog::{CatalogErrorView, InstrumentView, SnapshotView};
use crate::config;
use crate::config::{ProviderSelection, Settings};
use crate::domain::{Channel, KeyView, Provider, TickerView};
use crate::history::payload as history_payload;
use crate::history::HistoryErrorView;
use crate::json;
use crate::json::JsonView;
use crate::providers;
use crate::providers::bingx::BingxView;
use crate::providers::mexc::MexcView;
use crate::providers::{binance, bingx, bybit, fields, kucoin, mexc, okx};
use crate::providers::{EndpointKind, SessionView, SubscriptionAction};
use crate::text;
use crate::weburl;

verus! {

// ---------------------------------------------------------------------------------------------
// Settings
// ---------------------------------------------------------------------------------------------

/// The list of instruments of a venue stands at its own address under the root of the venue.
pub proof fn law_lists_have_their_addresses(root: Seq<char>, provider: Provider)
    ensures
        ({
            let path = match provider {
                Provider::Bybit => "v5/market/instruments-info"@,
                Provider::Binance => "fapi/v1/exchangeInfo"@,
                Provider::Okx => "api/v5/public/instruments"@,
                Provider::Kucoin => "api/v1/contracts/active"@,
                Provider::Mexc => "api/v1/contract/detail/country"@,
                Provider::Bingx => "openApi/swap/v2/quote/contracts"@,
            };
            match weburl::joined_url(root, path) {
                Ok(url) => config::catalog_endpoint(root, provider) == Ok::<Seq<char>, Seq<char>>(
                    url.text,
                ),
                Err(_) => config::catalog_endpoint(root, provider) is Err,
            }
        }),
{
}

/// Each venue has a root of its own.
pub proof fn law_venues_have_their_roots(settings: Settings)
    ensures
        settings.root(Provider::Bybit) == settings.bybit_rest_url@,
        settings.root(Provider::Binance) == settings.binance_futures_rest_url@,
        settings.root(Provider::Okx) == settings.okx_rest_url@,
        settings.root(Provider::Kucoin) == settings.kucoin_futures_rest_url@,
        settings.root(Provider::Mexc) == settings.mexc_futures_rest_url@,
        settings.root(Provider::Bingx) == settings.bingx_swap_rest_url@,
{
}

/// The name by which a venue is chosen.
pub open spec fn choice(provider: Provider) -> ProviderSelection {
    match provider {
        Provider::Bybit => ProviderSelection::Bybit,
        Provider::Binance => ProviderSelection::Binance,
        Provider::Okx => ProviderSelection::Okx,
        Provider::Kucoin => ProviderSelection::Kucoin,
        Provider::Mexc => ProviderSelection::Mexc,
        Provider::Bingx => ProviderSelection::Bingx,
    }
}

/// A venue is enabled if it is chosen, or all are, unless none is to be.
pub proof fn law_chosen_venues_are_enabled(chosen: Seq<ProviderSelection>, provider: Provider)
    ensures
        config::chosen_providers(chosen).contains(provider) <==> !chosen.contains(
            ProviderSelection::Nothing,
        ) && (chosen.contains(ProviderSelection::All) || chosen.contains(choice(provider))),
{
}

/// A ceiling never raises what a venue carries, and Binance carries two hundred streams.
pub proof fn law_ceilings_only_tighten(limit: usize, ceiling: Option<usize>)
    ensures
        config::tightest(limit, ceiling) <= limit,
        ceiling matches Some(most) ==> config::tightest(limit, ceiling) <= most,
        config::tightest(limit, ceiling) == limit || Some(config::tightest(limit, ceiling))
            == ceiling,
        config::known_capacity(Provider::Binance) == 200,
{
}

/// A stream is taken from an address of its own protocol, and a list from a root.
pub proof fn law_addresses_fit_their_purpose(name: Seq<char>, value: Seq<char>)
    ensures
        config::websocket_text_problem(name, value) is None <==> match weburl::url_of(value) {
            Ok(url) => url.scheme == "ws"@ || url.scheme == "wss"@,
            Err(_) => false,
        },
        config::root_text_problem(name, value) is None <==> match weburl::url_of(value) {
            Ok(url) => (url.scheme == "http"@ || url.scheme == "https"@) && !url.has_query
                && !url.has_fragment && text::finishes_with(url.path, "/"@),
            Err(_) => false,
        },
{
}

// ---------------------------------------------------------------------------------------------
// Lists of instruments
// ---------------------------------------------------------------------------------------------

/// Bybit is asked for linear instruments, a thousand at a time, from where the last page ended; OKX is
/// asked for swaps; the others are asked without a query.
pub proof fn law_lists_are_asked_for(state: FetchView)
    ensures
        state.provider == Provider::Bybit && state.cursor is None ==> fetch::address(state)
            == weburl::url_with_query(
            state.endpoint,
            seq![("category"@, "linear"@), ("limit"@, "1000"@)],
        ),
        state.provider == Provider::Bybit ==> (state.cursor matches Some(cursor) ==> fetch::address(
            state,
        ) == weburl::url_with_query(
            state.endpoint,
            seq![("category"@, "linear"@), ("limit"@, "1000"@), ("cursor"@, cursor)],
        )),
        state.provider == Provider::Okx ==> fetch::address(state) == weburl::url_with_query(
            state.endpoint,
            seq![("instType"@, "SWAP"@)],
        ),
        state.provider != Provider::Bybit && state.provider != Provider::Okx ==> fetch::address(
            state,
        ) == Some(state.endpoint),
{
    if let Some(cursor) = state.cursor {
        assert(seq![("category"@, "linear"@), ("limit"@, "1000"@)].push(("cursor"@, cursor)) =~= seq![
            ("category"@, "linear"@),
            ("limit"@, "1000"@),
            ("cursor"@, cursor),
        ]);
    }
}

/// A page of Bybit is added to what was read before. The list is complete with a page that names no
/// next one; a next page that was asked for already, or one too many, ends the reading.
pub proof fn law_pages_are_added(
    state: FetchView,
    body: Seq<char>,
    page: payload::PageView,
    longer: Seq<InstrumentView>,
)
    requires
        state.provider == Provider::Bybit,
        payload::bybit_page_in(body) == Ok::<payload::PageView, CatalogErrorView>(page),
        payload::joined(state.instruments, page.instruments) == Ok::<
            Seq<InstrumentView>,
            CatalogErrorView,
        >(longer),
    ensures
        ({
            let next = page.next_page_cursor;
            let after = fetch::after_answer(state, body);
            &&& next.len() == 0 ==> after is Ok && after->Ok_0.done && after->Ok_0.instruments
                == longer
            &&& next.len() > 0 && state.requested_cursors.contains(next) ==> after == Err::<
                FetchView,
                CatalogErrorView,
            >(CatalogErrorView::RepeatedCursor { provider: Provider::Bybit, cursor: next })
            &&& next.len() > 0 && !state.requested_cursors.contains(next) && state.pages + 1
                >= 10_000 ==> after is Err
            &&& next.len() > 0 && !state.requested_cursors.contains(next) && state.pages + 1
                < 10_000 ==> {
                &&& after is Ok
                &&& after->Ok_0.cursor == Some(next)
                &&& after->Ok_0.done == state.done
                &&& after->Ok_0.instruments == longer
                &&& after->Ok_0.pages == state.pages + 1
                &&& after->Ok_0.requested_cursors == state.requested_cursors.push(next)
            }
        }),
{
}

/// The one answer of any other venue is its list.
pub proof fn law_single_answers_are_complete(
    state: FetchView,
    body: Seq<char>,
    list: Seq<InstrumentView>,
)
    requires
        state.provider != Provider::Bybit,
        payload::answer_in(state.provider, body) == Ok::<Seq<InstrumentView>, CatalogErrorView>(
            list,
        ),
    ensures
        fetch::after_answer(state, body) is Ok,
        fetch::after_answer(state, body)->Ok_0.done,
        fetch::after_answer(state, body)->Ok_0.instruments == list,
{
}

/// An answer is read where its status says that it succeeded, it is not longer than eight mebibytes,
/// and it is text.
pub proof fn law_answers_are_bounded_texts(provider: Provider, status: u16, bytes: Seq<u8>)
    ensures
        payload::body_of(provider, status, bytes) is Ok <==> 200 <= status <= 299 && bytes.len()
            <= 8 * 1_024 * 1_024 && vstd::utf8::valid_utf8(bytes),
        payload::body_of(provider, status, bytes) matches Ok(body) ==> body
            == vstd::utf8::decode_utf8(bytes),
        !(200 <= status <= 299) ==> payload::body_of(provider, status, bytes) == Err::<
            Seq<char>,
            CatalogErrorView,
        >(CatalogErrorView::HttpStatus { provider, status }),
{
}

/// A list that was read replaces the one before, and clears the last error; a failure or an empty list
/// leaves the one before, and tells the error. Either way the attempt is remembered.
pub proof fn law_lists_are_refreshed(
    snapshot: SnapshotView,
    provider: Provider,
    attempted_at_ms: u64,
    refreshed_at_ms: u64,
    fetched: Result<Seq<InstrumentView>, CatalogErrorView>,
)
    ensures
        ({
            let after = catalog::refreshed(
                snapshot,
                provider,
                attempted_at_ms,
                refreshed_at_ms,
                fetched,
            );
            let good = fetched is Ok && fetched->Ok_0.len() > 0;
            &&& after.status.last_attempt_at_ms == Some(attempted_at_ms)
            &&& after.status.provider == snapshot.status.provider
            &&& after.status.enabled == snapshot.status.enabled
            &&& good ==> {
                &&& after.instruments == fetched->Ok_0
                &&& after.status.instrument_count == fetched->Ok_0.len()
                &&& after.status.last_success_at_ms == Some(refreshed_at_ms)
                &&& after.status.last_error is None
            }
            &&& !good ==> {
                &&& after.instruments == snapshot.instruments
                &&& after.status.instrument_count == snapshot.status.instrument_count
                &&& after.status.last_success_at_ms == snapshot.status.last_success_at_ms
                &&& after.status.last_error is Some
            }
        }),
{
}

// ---------------------------------------------------------------------------------------------
// What is kept
// ---------------------------------------------------------------------------------------------

/// Whether one of the keys is for the ticker of a symbol.
pub open spec fn names_ticker(keys: Seq<KeyView>, symbol: Seq<char>) -> bool {
    exists|i: int|
        0 <= i < keys.len() && (#[trigger] keys[i]).symbol == symbol && keys[i].channel
            == Channel::Ticker
}

/// What is known of tickers is kept when more is asked for. When tickers are given up, what is known of
/// them is forgotten, and nothing else is.
pub proof fn law_given_up_tickers_are_forgotten(
    tickers: Map<Seq<char>, TickerView>,
    action: SubscriptionAction,
    keys: Seq<KeyView>,
    symbol: Seq<char>,
)
    ensures
        ({
            let after = providers::tickers_after(tickers, action, keys);
            &&& action == SubscriptionAction::Subscribe ==> after == tickers
            &&& action == SubscriptionAction::Unsubscribe ==> (after.contains_key(symbol)
                <==> tickers.contains_key(symbol) && !names_ticker(keys, symbol))
            &&& after.contains_key(symbol) ==> after[symbol] == tickers[symbol]
        }),
    decreases keys.len(),
{
    if keys.len() > 0 {
        let rest = keys.drop_last();
        law_given_up_tickers_are_forgotten(tickers, action, rest, symbol);
        assert(keys[keys.len() - 1] == keys.last());
        if names_ticker(keys, symbol) {
            let i = choose|i: int|
                0 <= i < keys.len() && (#[trigger] keys[i]).symbol == symbol && keys[i].channel
                    == Channel::Ticker;
            if i < rest.len() {
                assert(rest[i] == keys[i]);
            }
        }
        if names_ticker(rest, symbol) {
            let i = choose|i: int|
                0 <= i < rest.len() && (#[trigger] rest[i]).symbol == symbol && rest[i].channel
                    == Channel::Ticker;
            assert(keys[i] == rest[i]);
        }
    }
}

/// Whether a session has forgotten just the tickers that were given up.
pub open spec fn forgets(
    before: Map<Seq<char>, TickerView>,
    after: Map<Seq<char>, TickerView>,
    action: SubscriptionAction,
    keys: Seq<KeyView>,
    symbol: Seq<char>,
) -> bool {
    &&& action == SubscriptionAction::Subscribe ==> after == before
    &&& action == SubscriptionAction::Unsubscribe ==> (after.contains_key(symbol)
        <==> before.contains_key(symbol) && !names_ticker(keys, symbol))
    &&& after.contains_key(symbol) ==> after[symbol] == before[symbol]
}

/// A change of subscriptions that any venue takes forgets just the tickers that are given up, and
/// leaves the connection as it is.
pub proof fn law_every_venue_forgets_what_is_given_up(
    state: SessionView,
    mexc_state: MexcView,
    bingx_state: BingxView,
    endpoint: EndpointKind,
    action: SubscriptionAction,
    keys: Seq<KeyView>,
    symbol: Seq<char>,
)
    ensures
        bybit::subscription_outcome(state, action, keys).1 is Ok ==> forgets(
            state.tickers,
            bybit::subscription_outcome(state, action, keys).0.tickers,
            action,
            keys,
            symbol,
        ),
        binance::subscription_outcome(state, action, keys).1 is Ok ==> forgets(
            state.tickers,
            binance::subscription_outcome(state, action, keys).0.tickers,
            action,
            keys,
            symbol,
        ),
        okx::subscription_outcome(endpoint, state, action, keys).1 is Ok ==> forgets(
            state.tickers,
            okx::subscription_outcome(endpoint, state, action, keys).0.tickers,
            action,
            keys,
            symbol,
        ),
        kucoin::subscription_outcome(endpoint, state, action, keys).1 is Ok ==> forgets(
            state.tickers,
            kucoin::subscription_outcome(endpoint, state, action, keys).0.tickers,
            action,
            keys,
            symbol,
        ),
        mexc::subscription_outcome(endpoint, mexc_state, action, keys).1 is Ok ==> forgets(
            mexc_state.common.tickers,
            mexc::subscription_outcome(endpoint, mexc_state, action, keys).0.common.tickers,
            action,
            keys,
            symbol,
        ),
        bingx::subscription_outcome(bingx_state, action, keys).1 is Ok ==> forgets(
            bingx_state.common.tickers,
            bingx::subscription_outcome(bingx_state, action, keys).0.common.tickers,
            action,
            keys,
            symbol,
        ),
        bybit::subscription_outcome(state, action, keys).0.connection_epoch
            == state.connection_epoch,
        binance::subscription_outcome(state, action, keys).0.connection_epoch
            == state.connection_epoch,
        okx::subscription_outcome(endpoint, state, action, keys).0.connection_epoch
            == state.connection_epoch,
        kucoin::subscription_outcome(endpoint, state, action, keys).0.connection_epoch
            == state.connection_epoch,
        mexc::subscription_outcome(endpoint, mexc_state, action, keys).0.common.connection_epoch
            == mexc_state.common.connection_epoch,
        bingx::subscription_outcome(bingx_state, action, keys).0.common.connection_epoch
            == bingx_state.common.connection_epoch,
{
    law_given_up_tickers_are_forgotten(state.tickers, action, keys, symbol);
    law_given_up_tickers_are_forgotten(mexc_state.common.tickers, action, keys, symbol);
    law_given_up_tickers_are_forgotten(bingx_state.common.tickers, action, keys, symbol);
}

/// Commands are numbered in turn: each has the number after the one before, and from the highest on
/// the numbers start over.
pub proof fn law_commands_are_numbered_in_turn(id: u64, count: nat)
    ensures
        id + count <= u64::MAX ==> providers::id_after(id, count) == id + count,
        providers::id_after(u64::MAX, 1) == 1,
        providers::fresh(0).next_request_id == 1,
    decreases count,
{
    if count > 0 {
        law_commands_are_numbered_in_turn(id, (count - 1) as nat);
    } else {
        reveal_with_fuel(providers::id_after, 2);
    }
}

/// A new session knows nothing of any ticker.
pub proof fn law_sessions_start_afresh(connection_epoch: u128, symbol: Seq<char>)
    ensures
        providers::fresh(connection_epoch).connection_epoch == connection_epoch,
        !providers::fresh(connection_epoch).tickers.contains_key(symbol),
{
}

// ---------------------------------------------------------------------------------------------
// Failed answers
// ---------------------------------------------------------------------------------------------

/// An answer that failed is told with the code and the words of the venue where it gives a code, and
/// else with its status and the first two hundred and fifty-six characters of its text.
pub proof fn law_failed_answers_are_told(
    provider: Provider,
    status: u16,
    body: Seq<char>,
    root: JsonView,
    code: Seq<char>,
    words: Seq<char>,
)
    requires
        json::document_of(body) == Ok::<JsonView, Seq<char>>(root),
    ensures
        ({
            let code_name = if provider == Provider::Bybit {
                "retCode"@
            } else {
                "code"@
            };
            let words_name = if provider == Provider::Bybit {
                "retMsg"@
            } else {
                "msg"@
            };
            let error = history_payload::status_error(provider, status, body);
            &&& says(root, code_name, code) && says(root, words_name, words) ==> error
                == HistoryErrorView::ProviderRejected { provider, code, message: words }
            &&& json::member_of(root, code_name) is None ==> match error {
                HistoryErrorView::HttpStatus { provider: venue, status: told, message } => {
                    &&& venue == provider
                    &&& told == status
                    &&& message == if body.len() == 0 {
                        "empty response"@
                    } else if body.len() <= 256 {
                        body
                    } else {
                        body.take(256)
                    }
                },
                _ => false,
            }
        }),
{
}

// ---------------------------------------------------------------------------------------------
// Spelled numbers
// ---------------------------------------------------------------------------------------------

/// White space between the parts of a document.
pub open spec fn is_gap(c: char) -> bool {
    c == ' ' || c == '\t' || c == '\n' || c == '\r' || c as u32 == 12
}

/// A character of a number.
pub open spec fn in_number(c: char) -> bool {
    '0' <= c <= '9' || c == '-' || c == '+' || c == '.' || c == 'e' || c == 'E'
}

proof fn lemma_gap(s: Seq<char>, i: int)
    requires
        0 <= i <= s.len(),
    ensures
        i <= fields::after_gap(s, i) <= s.len(),
        forall|k: int| i <= k < fields::after_gap(s, i) ==> is_gap(#[trigger] s[k]),
    decreases s.len() - i,
{
    if i < s.len() && fields::is_gap(s[i]) {
        lemma_gap(s, i + 1);
    }
}

proof fn lemma_number(s: Seq<char>, i: int)
    requires
        0 <= i <= s.len(),
    ensures
        i <= fields::number_end(s, i) <= s.len(),
        forall|k: int| i <= k < fields::number_end(s, i) ==> in_number(#[trigger] s[k]),
        fields::number_end(s, i) < s.len() ==> !in_number(s[fields::number_end(s, i)]),
    decreases s.len() - i,
{
    if i < s.len() && fields::in_number(s[i]) {
        lemma_number(s, i + 1);
    }
}

/// Whether a number stands in a text at a place, under a name: the name in quotation marks, a colon,
/// and the number up to where it ends, with nothing but white space between.
pub open spec fn stands_at(
    s: Seq<char>,
    name: Seq<char>,
    number: Seq<char>,
    at: int,
    colon: int,
    start: int,
) -> bool {
    let close = at + 1 + name.len();
    let end = start + number.len();
    &&& 0 <= at && close < colon && colon < start && end <= s.len()
    &&& s[at] == '"'
    &&& s.subrange(at + 1, close) == name
    &&& s[close] == '"'
    &&& forall|k: int| close < k < colon ==> is_gap(#[trigger] s[k])
    &&& s[colon] == ':'
    &&& forall|k: int| colon < k < start ==> is_gap(#[trigger] s[k])
    &&& number.len() > 0
    &&& s.subrange(start, end) == number
    &&& forall|k: int| start <= k < end ==> in_number(#[trigger] s[k])
    &&& end < s.len() ==> !in_number(s[end])
}

proof fn lemma_spelled(s: Seq<char>, name: Seq<char>, i: int) -> (places: (int, int, int))
    requires
        0 <= i <= s.len(),
        fields::number_named(s, name, i) is Some,
    ensures
        stands_at(s, name, fields::number_named(s, name, i)->0, places.0, places.1, places.2),
    decreases s.len() - i,
{
    let open = fields::next_quote(s, i);
    fields::lemma_scans_advance(s, i);
    lemma_quote(s, i);
    fields::lemma_scans_advance(s, open + 1);
    let close = fields::string_end(s, open + 1);
    lemma_string(s, open + 1);
    let content = s.subrange(open + 1, close);
    lemma_gap(s, close + 1);
    let colon = fields::after_gap(s, close + 1);
    if content != name || text::holds(content, '\\') {
        lemma_spelled(s, name, close + 1)
    } else if colon >= s.len() || s[colon] != ':' {
        lemma_spelled(s, name, colon)
    } else {
        lemma_gap(s, colon + 1);
        let start = fields::after_gap(s, colon + 1);
        lemma_number(s, start);
        if fields::number_end(s, start) > start {
            assert(s.subrange(open + 1, open + 1 + name.len()) =~= name);
            (open, colon, start)
        } else {
            lemma_spelled(s, name, start)
        }
    }
}

proof fn lemma_quote(s: Seq<char>, i: int)
    requires
        0 <= i <= s.len(),
    ensures
        i <= fields::next_quote(s, i) <= s.len(),
        fields::next_quote(s, i) < s.len() ==> s[fields::next_quote(s, i)] == '"',
        forall|k: int| i <= k < fields::next_quote(s, i) ==> (#[trigger] s[k]) != '"',
    decreases s.len() - i,
{
    if i < s.len() && s[i] != '"' {
        lemma_quote(s, i + 1);
    }
}

proof fn lemma_string(s: Seq<char>, i: int)
    requires
        0 <= i,
    ensures
        i <= fields::string_end(s, i),
        fields::string_end(s, i) < s.len() ==> s[fields::string_end(s, i)] == '"',
    decreases s.len() - i + 2,
{
    if i < s.len() && s[i] == '\\' {
        lemma_string(s, i + 2);
    } else if i < s.len() && s[i] != '"' {
        lemma_string(s, i + 1);
    }
}

/// A number that is found under a name in a text stands there just so: the name in quotation marks, a
/// colon, and the characters of the number up to where they end.
pub proof fn law_numbers_are_found_as_they_are_spelled(s: Seq<char>, name: Seq<char>) -> (places: (
    int,
    int,
    int,
))
    requires
        fields::raw_number(s, name) is Some,
    ensures
        stands_at(s, name, fields::raw_number(s, name)->0, places.0, places.1, places.2),
{
    lemma_spelled(s, name, 0)
}

} // verus!
