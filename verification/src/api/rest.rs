//! The answers to plain requests.
use vstd::prelude::*;

use crate::api;
use crate::catalog;
use crate::catalog::{Catalog, ProviderCatalogStatus};
use crate::domain;
use crate::domain::{Channel, KeyView, MarketKind, Provider, SubscriptionKey};
use crate::health;
use crate::health::HealthRegistry;
use crate::history;
use crate::history::{HistoryError, HistoryErrorView, HistoryRequest, RequestView};
use crate::json;
use crate::json::{Json, JsonView};
use crate::providers;
use crate::text;
use crate::venues;
use crate::venues::ProviderSet;
use crate::wire;
use crate::wire::{ObjectBuilder, ObjectFields};

verus! {

/// The most characters of the message of a failure.
pub const MAX_MESSAGE_CHARACTERS: usize = 500;

/// How many candles are asked for where nothing is said.
pub const DEFAULT_CANDLE_LIMIT: usize = 1_000;

// ---------------------------------------------------------------------------------------------
// Failures
// ---------------------------------------------------------------------------------------------

/// A failure, with the HTTP status to report it under.
#[derive(Debug, PartialEq, Eq)]
pub struct ApiFailure {
    pub status: u16,
    pub code: &'static str,
    pub message: String,
}

/// The mathematical value of a failure.
pub struct FailureView {
    pub status: u16,
    pub code: Seq<char>,
    pub message: Seq<char>,
}

impl View for ApiFailure {
    type V = FailureView;

    open spec fn view(&self) -> FailureView {
        FailureView { status: self.status, code: self.code@, message: self.message@ }
    }
}

/// The first characters of a message.
pub open spec fn shortened(message: Seq<char>) -> Seq<char> {
    if message.len() <= MAX_MESSAGE_CHARACTERS {
        message
    } else {
        message.take(MAX_MESSAGE_CHARACTERS as int)
    }
}

/// A failure, with a message of bounded length.
pub open spec fn failure(status: u16, code: Seq<char>, message: Seq<char>) -> FailureView {
    FailureView { status, code, message: shortened(message) }
}

/// A failure, with a message of bounded length.
pub fn api_error(status: u16, code: &'static str, message: &str) -> (error: ApiFailure)
    ensures
        error@ == failure(status, code@, message@),
{
    let count = text::characters(message).len();
    if count <= MAX_MESSAGE_CHARACTERS {
        return ApiFailure { status, code, message: message.to_owned() };
    }
    let start = message.substring_char(0, MAX_MESSAGE_CHARACTERS);
    proof {
        assert(start@ =~= message@.take(MAX_MESSAGE_CHARACTERS as int));
    }
    ApiFailure { status, code, message: start.to_owned() }
}

impl ApiFailure {
    /// The failure as a document.
    pub fn to_json(&self) -> (value: Json)
        ensures
            value@ == JsonView::Object(
                wire::no_fields()
                    .with("code"@, JsonView::Text(self@.code))
                    .with("message"@, JsonView::Text(self@.message)),
            ),
    {
        let mut object = ObjectBuilder::new();
        object.text("code", self.code);
        object.text("message", self.message.as_str());
        object.finish()
    }
}

// ---------------------------------------------------------------------------------------------
// Candles
// ---------------------------------------------------------------------------------------------

/// A request for candles.
#[derive(Debug)]
pub struct CandleQuery {
    pub provider: Provider,
    pub symbol: String,
    pub start_time_ms: u64,
    pub end_time_ms: u64,
    pub limit: Option<usize>,
}

/// What a request for candles comes to: the request for the venue, or why there is none.
pub open spec fn candles_plan(query: CandleQuery, catalog: Catalog) -> Result<
    RequestView,
    FailureView,
> {
    match domain::symbol_identity(query.symbol@) {
        Err(error) => Err(failure(400, "invalid_request"@, domain::domain_message(error))),
        Ok(symbol) => {
            let key = KeyView {
                provider: query.provider,
                market: MarketKind::LinearPerpetual,
                symbol,
                channel: Channel::Candle1m,
            };
            let request = RequestView {
                provider: query.provider,
                symbol,
                start_time_ms: query.start_time_ms,
                end_time_ms: query.end_time_ms,
                limit: match query.limit {
                    Some(limit) => limit,
                    None => DEFAULT_CANDLE_LIMIT,
                },
            };
            match api::resolved(catalog, key) {
                Err(error) => Err(
                    failure(422, "unsupported_instrument"@, catalog::catalog_message(error)),
                ),
                Ok(_) => match history::request_problem(request) {
                    Some(message) => Err(
                        failure(
                            400,
                            "invalid_request"@,
                            history::history_message(history::bad_request(message)),
                        ),
                    ),
                    None => Ok(request),
                },
            }
        },
    }
}

/// Say what to ask a venue for.
///
/// # Errors
///
/// An invalid symbol or range and an instrument that the catalog does not have are refused.
pub fn plan_candles(query: &CandleQuery, catalog: &Catalog) -> (r: Result<
    HistoryRequest,
    ApiFailure,
>)
    ensures
        match r {
            Ok(request) => candles_plan(*query, *catalog) == Ok::<RequestView, FailureView>(
                request@,
            ),
            Err(error) => candles_plan(*query, *catalog) == Err::<RequestView, FailureView>(
                error@,
            ),
        },
{
    let key = match SubscriptionKey::new(
        query.provider,
        MarketKind::LinearPerpetual,
        query.symbol.as_str(),
        Channel::Candle1m,
    ) {
        Ok(key) => key,
        Err(error) => {
            return Err(api_error(400, "invalid_request", error.message().as_str()));
        },
    };
    if let Err(error) = catalog.validate_subscription(&key) {
        return Err(api_error(422, "unsupported_instrument", error.message().as_str()));
    }
    let limit = match query.limit {
        Some(limit) => limit,
        None => DEFAULT_CANDLE_LIMIT,
    };
    match HistoryRequest::new(
        query.provider,
        key.symbol.as_str(),
        query.start_time_ms,
        query.end_time_ms,
        limit,
    ) {
        Ok(request) => Ok(request),
        Err(error) => Err(api_error(400, "invalid_request", error.message().as_str())),
    }
}

/// The failure where too many requests for candles are under way.
pub fn history_busy() -> (error: ApiFailure)
    ensures
        error@ == failure(429, "history_busy"@, "too many concurrent history requests"@),
{
    api_error(429, "history_busy", "too many concurrent history requests")
}

/// What is reported of a retrieval that failed. What a venue said is kept back.
pub open spec fn history_failure_of(provider: Provider, error: HistoryErrorView) -> FailureView {
    match error {
        HistoryErrorView::InvalidRequest(message) => failure(400, "invalid_request"@, message),
        _ => failure(
            502,
            "provider_unavailable"@,
            domain::provider_name(provider) + " history request failed"@,
        ),
    }
}

/// What is reported of a retrieval that failed.
pub fn history_failure(provider: Provider, error: &HistoryError) -> (failure: ApiFailure)
    ensures
        failure@ == history_failure_of(provider, error@),
{
    match error {
        HistoryError::InvalidRequest(message) => api_error(
            400,
            "invalid_request",
            message.as_str(),
        ),
        _ => api_error(
            502,
            "provider_unavailable",
            text::cat2(provider.name(), " history request failed").as_str(),
        ),
    }
}

// ---------------------------------------------------------------------------------------------
// State
// ---------------------------------------------------------------------------------------------

/// Whether every enabled venue was refreshed successfully at least once.
pub open spec fn catalogs_ready(catalog: Catalog) -> bool {
    forall|provider: Provider| #[trigger]
        catalog.snapshot(provider).status.enabled ==> catalog.snapshot(
            provider,
        ).status.last_success_at_ms is Some
}

/// Whether the service is ready, with the document that says so.
#[derive(Debug)]
pub struct Readiness {
    pub ready: bool,
    pub status: u16,
    pub endpoints: Vec<health::EndpointHealth>,
    pub catalogs: Vec<ProviderCatalogStatus>,
}

fn all_refreshed(list: &Vec<ProviderCatalogStatus>) -> (answer: bool)
    ensures
        answer == forall|i: int|
            0 <= i < list@.len() ==> (#[trigger] list@[i]).enabled
                ==> list@[i].last_success_at_ms is Some,
{
    let mut i: usize = 0;
    while i < list.len()
        invariant
            i <= list@.len(),
            forall|k: int|
                0 <= k < i ==> (#[trigger] list@[k]).enabled
                    ==> list@[k].last_success_at_ms is Some,
        decreases list.len() - i,
    {
        if list[i].enabled && list[i].last_success_at_ms.is_none() {
            return false;
        }
        i += 1;
    }
    true
}

/// Say whether the service is ready: every enabled catalog was refreshed, and every endpoint with
/// demand is live.
pub fn readiness(health: &HealthRegistry, catalog: &Catalog) -> (report: Readiness)
    ensures
        report.ready == (health::all_ready(health::listed(health@)) && catalogs_ready(*catalog)),
        report.status == if report.ready {
            200u16
        } else {
            503u16
        },
        health::health_views(report.endpoints@) == health::listed(health@),
        report.catalogs@.len() == venues::every_provider().len(),
        forall|i: int|
            0 <= i < report.catalogs@.len() ==> (#[trigger] report.catalogs@[i])@
                == catalog.snapshot(venues::every_provider()[i]).status,
{
    let stream = health.readiness();
    let catalogs = catalog.statuses();
    let refreshed = all_refreshed(&catalogs);
    let every = venues::all_providers();
    proof {
        assert forall|provider: Provider| refreshed && #[trigger] catalog.snapshot(
            provider,
        ).status.enabled implies catalog.snapshot(provider).status.last_success_at_ms is Some by {
            assert(every@.contains(provider));
            let k = choose|k: int| 0 <= k < every@.len() && every@[k] == provider;
            let status = catalogs@[k];
            assert(status@ == catalog.snapshot(provider).status);
        }
        if !refreshed {
            let k = choose|k: int|
                0 <= k < catalogs@.len() && (#[trigger] catalogs@[k]).enabled
                    && catalogs@[k].last_success_at_ms is None;
            let status = catalogs@[k];
            assert(catalog.snapshot(venues::every_provider()[k]).status.enabled);
        }
    }
    let ready = stream.ready && refreshed;
    Readiness {
        ready,
        status: if ready {
            200
        } else {
            503
        },
        endpoints: stream.endpoints,
        catalogs,
    }
}

impl Readiness {
    /// The document of the report.
    pub open spec fn document(&self) -> JsonView {
        JsonView::Object(
            wire::no_fields()
                .with("ready"@, JsonView::Bool(self.ready))
                .with("status"@, JsonView::Text(health::readiness_word(self.ready)))
                .with(
                    "endpoints"@,
                    wire::healths_document(health::health_views(self.endpoints@)),
                )
                .with("catalogs"@, wire::statuses_document(self.catalogs@)),
        )
    }

    /// The document of the report.
    pub fn to_json(&self) -> (value: Json)
        ensures
            value@ == self.document(),
    {
        let mut object = ObjectBuilder::new();
        object.flag("ready", self.ready);
        object.text("status", if self.ready { "ready" } else { "degraded" });
        object.put("endpoints", wire::healths_json(&self.endpoints));
        object.put("catalogs", wire::statuses_json(&self.catalogs));
        object.finish()
    }
}

/// The document that says that the process lives.
pub fn liveness() -> (value: Json)
    ensures
        value@ == JsonView::Object(wire::no_fields().with("status"@, JsonView::Text("live"@))),
{
    let mut object = ObjectBuilder::new();
    object.text("status", "live");
    object.finish()
}

/// What is said of a venue.
pub open spec fn descriptor(provider: Provider, enabled: bool) -> JsonView {
    JsonView::Object(
        wire::no_fields()
            .with("provider"@, JsonView::Text(domain::provider_name(provider)))
            .with("enabled"@, JsonView::Bool(enabled))
            .with("markets"@, JsonView::List(seq![JsonView::Text("linear_perpetual"@)]))
            .with(
                "channels"@,
                JsonView::List(seq![JsonView::Text("ticker"@), JsonView::Text("candle_1m"@)]),
            ),
    )
}

fn descriptor_json(provider: Provider, enabled: bool) -> (value: Json)
    ensures
        value@ == descriptor(provider, enabled),
{
    let mut object = ObjectBuilder::new();
    object.text("provider", provider.name());
    object.flag("enabled", enabled);
    let markets = vec![Json::Text("linear_perpetual".to_owned())];
    proof {
        assert(json::views(markets@) =~= seq![JsonView::Text("linear_perpetual"@)]);
    }
    object.put("markets", wire::list(markets));
    let channels = vec![Json::Text("ticker".to_owned()), Json::Text("candle_1m".to_owned())];
    proof {
        assert(json::views(channels@) =~= seq![
            JsonView::Text("ticker"@),
            JsonView::Text("candle_1m"@),
        ]);
    }
    object.put("channels", wire::list(channels));
    object.finish()
}

/// What is said of all venues, in the order of venues.
pub fn providers(enabled: &ProviderSet) -> (value: Json)
    ensures
        value@ == JsonView::List(
            Seq::new(
                venues::every_provider().len(),
                |i: int|
                    descriptor(
                        venues::every_provider()[i],
                        enabled@.contains(venues::every_provider()[i]),
                    ),
            ),
        ),
{
    let every = venues::all_providers();
    let mut items: Vec<Json> = Vec::new();
    let mut i: usize = 0;
    while i < every.len()
        invariant
            i <= every@.len(),
            every@ == venues::every_provider(),
            items@.len() == i,
            forall|k: int|
                0 <= k < i ==> (#[trigger] items@[k])@ == descriptor(
                    every@[k],
                    enabled@.contains(every@[k]),
                ),
        decreases every.len() - i,
    {
        items.push(descriptor_json(every[i], enabled.contains(every[i])));
        i += 1;
    }
    proof {
        assert(json::views(items@) =~= Seq::new(
            venues::every_provider().len(),
            |i: int|
                descriptor(
                    venues::every_provider()[i],
                    enabled@.contains(venues::every_provider()[i]),
                ),
        ));
    }
    wire::list(items)
}

/// The origin that a request names.
#[derive(Debug, Clone, Copy)]
pub enum Origin<'a> {
    /// It names none.
    Absent,
    /// It names one that is no text.
    Unreadable,
    Named(&'a str),
}

/// Whether a stream may be opened from an origin: from none, or where it, or every one, is allowed.
pub fn origin_allowed(allowed: &Vec<String>, origin: Origin<'_>) -> (answer: bool)
    ensures
        answer == match origin {
            Origin::Absent => true,
            Origin::Unreadable => false,
            Origin::Named(origin) => {
                let listed = providers::text_views(allowed@);
                listed.contains("*"@) || listed.contains(origin@)
            },
        },
{
    match origin {
        Origin::Absent => true,
        Origin::Unreadable => false,
        Origin::Named(origin) => providers::has_text(allowed, "*") || providers::has_text(
            allowed,
            origin,
        ),
    }
}

// ---------------------------------------------------------------------------------------------
// Laws
// ---------------------------------------------------------------------------------------------

/// A request for candles that passes is one that the catalog and the limits on history admit.
pub proof fn law_planned_candles_are_offered_and_bounded(query: CandleQuery, catalog: Catalog)
    requires
        candles_plan(query, catalog) is Ok,
    ensures
        ({
            let request = candles_plan(query, catalog)->Ok_0;
            &&& history::request_problem(request) is None
            &&& request.provider == query.provider
            &&& catalog.enabled().contains(query.provider)
            &&& catalog::named(
                catalog.snapshot(query.provider).instruments,
                request.symbol,
            ) is Some
        }),
{
}

} // verus!
