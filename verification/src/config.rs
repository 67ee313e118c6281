//! Settings of the gateway and what must hold of them.
use vstd::prelude::*;

use crate::catalog::CatalogSources;
use crate::domain;
use crate::domain::Provider;
use crate::gateway::limits;
use crate::gateway::ProviderLimits;
use crate::history::fetch::HistorySources;
use crate::keyset;
use crate::providers;
use crate::providers::binance;
use crate::providers::Complaints;
use crate::text;
use crate::venues::ProviderSet;
use crate::weburl;
use crate::weburl::{UrlView, WebUrl};

verus! {

/// How log lines are written.
#[derive(Debug, Clone, Copy, PartialEq, Eq, Structural)]
pub enum LogFormat {
    Json,
    Pretty,
}

/// A choice of venues.
#[derive(Debug, Clone, Copy, PartialEq, Eq, Structural)]
pub enum ProviderSelection {
    All,
    Nothing,
    Bybit,
    Binance,
    Okx,
    Kucoin,
    Mexc,
    Bingx,
}

/// The choice of one venue.
pub open spec fn selection_of(provider: Provider) -> ProviderSelection {
    match provider {
        Provider::Bybit => ProviderSelection::Bybit,
        Provider::Binance => ProviderSelection::Binance,
        Provider::Okx => ProviderSelection::Okx,
        Provider::Kucoin => ProviderSelection::Kucoin,
        Provider::Mexc => ProviderSelection::Mexc,
        Provider::Bingx => ProviderSelection::Bingx,
    }
}

impl ProviderSelection {
    /// The venue of the choice of one venue.
    pub fn provider(self) -> (provider: Option<Provider>)
        ensures
            match provider {
                Some(chosen) => self == selection_of(chosen),
                None => self == ProviderSelection::All || self == ProviderSelection::Nothing,
            },
    {
        match self {
            ProviderSelection::All | ProviderSelection::Nothing => None,
            ProviderSelection::Bybit => Some(Provider::Bybit),
            ProviderSelection::Binance => Some(Provider::Binance),
            ProviderSelection::Okx => Some(Provider::Okx),
            ProviderSelection::Kucoin => Some(Provider::Kucoin),
            ProviderSelection::Mexc => Some(Provider::Mexc),
            ProviderSelection::Bingx => Some(Provider::Bingx),
        }
    }
}

/// The settings of the gateway.
#[derive(Debug, Clone)]
pub struct Settings {
    /// The address and port to listen on.
    pub bind: String,
    pub log_format: LogFormat,
    pub downstream_buffer: usize,
    pub max_downstream_clients: usize,
    pub max_client_subscriptions: usize,
    /// Optional ceiling applied on top of every provider's declared capacity.
    ///
    /// Unset means each provider uses its own declared capacity. A value only ever tightens a
    /// limit: it cannot raise one past what the provider declared, because that declaration can be
    /// a venue rule.
    pub max_provider_subscriptions: Option<usize>,
    pub max_command_bytes: usize,
    pub max_history_requests: usize,
    pub allowed_origins: Vec<String>,
    pub upstream_backoff_min_ms: u64,
    pub upstream_backoff_max_ms: u64,
    pub stable_connection_seconds: u64,
    pub shutdown_grace_seconds: u64,
    pub catalog_refresh_seconds: u64,
    pub bybit_ws_url: String,
    pub binance_ws_url: String,
    pub okx_public_ws_url: String,
    pub okx_business_ws_url: String,
    pub mexc_ws_url: String,
    pub bingx_ws_url: String,
    pub bybit_rest_url: String,
    pub binance_futures_rest_url: String,
    pub okx_rest_url: String,
    pub kucoin_futures_rest_url: String,
    pub mexc_futures_rest_url: String,
    pub bingx_swap_rest_url: String,
    pub providers: Vec<ProviderSelection>,
}

/// The settings that hold where nothing else is said.
pub open spec fn is_default(settings: Settings) -> bool {
    &&& settings.bind@ == "127.0.0.1:8080"@
    &&& settings.log_format == LogFormat::Json
    &&& settings.downstream_buffer == 4096
    &&& settings.max_downstream_clients == 64
    &&& settings.max_client_subscriptions == 512
    &&& settings.max_provider_subscriptions is None
    &&& settings.max_command_bytes == 65_536
    &&& settings.max_history_requests == 8
    &&& settings.allowed_origins@.len() == 0
    &&& settings.upstream_backoff_min_ms == 500
    &&& settings.upstream_backoff_max_ms == 30_000
    &&& settings.stable_connection_seconds == 60
    &&& settings.shutdown_grace_seconds == 10
    &&& settings.catalog_refresh_seconds == 21_600
    &&& settings.bybit_ws_url@ == "wss://stream.bybit.com/v5/public/linear"@
    &&& settings.binance_ws_url@ == "wss://fstream.binance.com/market/ws"@
    &&& settings.okx_public_ws_url@ == "wss://ws.okx.com:8443/ws/v5/public"@
    &&& settings.okx_business_ws_url@ == "wss://ws.okx.com:8443/ws/v5/business"@
    &&& settings.mexc_ws_url@ == "wss://contract.mexc.com/edge"@
    &&& settings.bingx_ws_url@ == "wss://open-api-swap.bingx.com/swap-market"@
    &&& settings.bybit_rest_url@ == "https://api.bybit.com/"@
    &&& settings.binance_futures_rest_url@ == "https://fapi.binance.com/"@
    &&& settings.okx_rest_url@ == "https://www.okx.com/"@
    &&& settings.kucoin_futures_rest_url@ == "https://api-futures.kucoin.com/"@
    &&& settings.mexc_futures_rest_url@ == "https://api.mexc.com/"@
    &&& settings.bingx_swap_rest_url@ == "https://open-api.bingx.com/"@
    &&& settings.providers@ == seq![ProviderSelection::All]
}

impl Default for Settings {
    /// The settings that hold where nothing else is said.
    fn default() -> (settings: Self)
        ensures
            is_default(settings),
    {
        let settings = Settings {
            bind: "127.0.0.1:8080".to_owned(),
            log_format: LogFormat::Json,
            downstream_buffer: 4096,
            max_downstream_clients: 64,
            max_client_subscriptions: 512,
            max_provider_subscriptions: None,
            max_command_bytes: 65_536,
            max_history_requests: 8,
            allowed_origins: Vec::new(),
            upstream_backoff_min_ms: 500,
            upstream_backoff_max_ms: 30_000,
            stable_connection_seconds: 60,
            shutdown_grace_seconds: 10,
            catalog_refresh_seconds: 21_600,
            bybit_ws_url: "wss://stream.bybit.com/v5/public/linear".to_owned(),
            binance_ws_url: "wss://fstream.binance.com/market/ws".to_owned(),
            okx_public_ws_url: "wss://ws.okx.com:8443/ws/v5/public".to_owned(),
            okx_business_ws_url: "wss://ws.okx.com:8443/ws/v5/business".to_owned(),
            mexc_ws_url: "wss://contract.mexc.com/edge".to_owned(),
            bingx_ws_url: "wss://open-api-swap.bingx.com/swap-market".to_owned(),
            bybit_rest_url: "https://api.bybit.com/".to_owned(),
            binance_futures_rest_url: "https://fapi.binance.com/".to_owned(),
            okx_rest_url: "https://www.okx.com/".to_owned(),
            kucoin_futures_rest_url: "https://api-futures.kucoin.com/".to_owned(),
            mexc_futures_rest_url: "https://api.mexc.com/".to_owned(),
            bingx_swap_rest_url: "https://open-api.bingx.com/".to_owned(),
            providers: vec![ProviderSelection::All],
        };
        proof {
            assert(settings.providers@ =~= seq![ProviderSelection::All]);
        }
        settings
    }
}

// ---------------------------------------------------------------------------------------------
// Validation
// ---------------------------------------------------------------------------------------------

/// Why a URL is none of a websocket.
pub open spec fn websocket_problem(name: Seq<char>, url: UrlView) -> Option<Seq<char>> {
    providers::unless(
        url.scheme == "ws"@ || url.scheme == "wss"@,
        name + " URL must use ws or wss"@,
    )
}

/// Why a URL is no REST root.
pub open spec fn root_problem(name: Seq<char>, url: UrlView) -> Option<Seq<char>> {
    providers::unless(
        url.scheme == "http"@ || url.scheme == "https"@,
        name + " URL must use http or https"@,
    ).or_next(
        providers::unless(
            !url.has_query && !url.has_fragment && text::finishes_with(url.path, "/"@),
            name + " URL must be a root URL ending in / without a query or fragment"@,
        ),
    )
}

/// Why a text is no URL of a websocket.
pub open spec fn websocket_text_problem(name: Seq<char>, value: Seq<char>) -> Option<Seq<char>> {
    match weburl::url_of(value) {
        Ok(url) => websocket_problem(name, url),
        Err(message) => Some(name + " URL is invalid: "@ + message),
    }
}

/// Why a text is no REST root.
pub open spec fn root_text_problem(name: Seq<char>, value: Seq<char>) -> Option<Seq<char>> {
    match weburl::url_of(value) {
        Ok(url) => root_problem(name, url),
        Err(message) => Some(name + " URL is invalid: "@ + message),
    }
}

/// Check the URL of a websocket.
///
/// # Errors
///
/// Another scheme is refused.
pub fn check_websocket(name: &str, url: &WebUrl) -> (r: Result<(), String>)
    ensures
        match r {
            Ok(()) => websocket_problem(name@, url@) is None,
            Err(message) => websocket_problem(name@, url@) == Some(message@),
        },
{
    if text::same(url.scheme.as_str(), "ws") || text::same(url.scheme.as_str(), "wss") {
        Ok(())
    } else {
        Err(text::cat2(name, " URL must use ws or wss"))
    }
}

/// Check a REST root.
///
/// # Errors
///
/// Another scheme, a query, a fragment and a path that does not end in a slash are refused.
pub fn check_root(name: &str, url: &WebUrl) -> (r: Result<(), String>)
    ensures
        match r {
            Ok(()) => root_problem(name@, url@) is None,
            Err(message) => root_problem(name@, url@) == Some(message@),
        },
{
    if !text::same(url.scheme.as_str(), "http") && !text::same(url.scheme.as_str(), "https") {
        return Err(text::cat2(name, " URL must use http or https"));
    }
    if url.has_query || url.has_fragment || !text::ends_with(url.path.as_str(), "/") {
        return Err(
            text::cat2(name, " URL must be a root URL ending in / without a query or fragment"),
        );
    }
    Ok(())
}

fn check_websocket_text(name: &str, value: &str) -> (r: Result<(), String>)
    ensures
        match r {
            Ok(()) => websocket_text_problem(name@, value@) is None,
            Err(message) => websocket_text_problem(name@, value@) == Some(message@),
        },
{
    match weburl::parse(value) {
        Ok(url) => check_websocket(name, &url),
        Err(message) => Err(text::cat3(name, " URL is invalid: ", message.as_str())),
    }
}

fn check_root_text(name: &str, value: &str) -> (r: Result<(), String>)
    ensures
        match r {
            Ok(()) => root_text_problem(name@, value@) is None,
            Err(message) => root_text_problem(name@, value@) == Some(message@),
        },
{
    match weburl::parse(value) {
        Ok(url) => check_root(name, &url),
        Err(message) => Err(text::cat3(name, " URL is invalid: ", message.as_str())),
    }
}

/// Why a limit or a duration is refused.
pub open spec fn limits_problem(settings: Settings) -> Option<Seq<char>> {
    providers::unless(
        settings.downstream_buffer > 0,
        "downstream buffer must be greater than zero"@,
    )
        .or_next(
        providers::unless(
            settings.max_downstream_clients > 0,
            "max downstream clients must be greater than zero"@,
        ),
    )
        .or_next(
        providers::unless(
            settings.max_client_subscriptions > 0,
            "max client subscriptions must be greater than zero"@,
        ),
    )
        .or_next(
        providers::unless(
            settings.max_provider_subscriptions != Some(0usize),
            "max provider subscriptions must be greater than zero"@,
        ),
    )
        .or_next(
        providers::unless(
            settings.max_command_bytes > 0,
            "max command bytes must be greater than zero"@,
        ),
    )
        .or_next(
        providers::unless(
            settings.max_history_requests > 0,
            "max history requests must be greater than zero"@,
        ),
    )
        .or_next(
        providers::unless(
            0 < settings.upstream_backoff_min_ms <= settings.upstream_backoff_max_ms,
            "upstream reconnect backoff range is invalid"@,
        ),
    )
        .or_next(
        providers::unless(
            settings.stable_connection_seconds > 0 && settings.shutdown_grace_seconds > 0
                && settings.catalog_refresh_seconds > 0,
            "connection stability, shutdown, and catalog refresh durations must be positive"@,
        ),
    )
}

/// Why a URL is refused.
pub open spec fn urls_problem(settings: Settings) -> Option<Seq<char>> {
    websocket_text_problem("Bybit websocket"@, settings.bybit_ws_url@)
        .or_next(websocket_text_problem("Binance websocket"@, settings.binance_ws_url@))
        .or_next(websocket_text_problem("OKX public websocket"@, settings.okx_public_ws_url@))
        .or_next(websocket_text_problem("OKX business websocket"@, settings.okx_business_ws_url@))
        .or_next(websocket_text_problem("MEXC websocket"@, settings.mexc_ws_url@))
        .or_next(websocket_text_problem("BingX websocket"@, settings.bingx_ws_url@))
        .or_next(root_text_problem("Bybit REST"@, settings.bybit_rest_url@))
        .or_next(root_text_problem("Binance Futures REST"@, settings.binance_futures_rest_url@))
        .or_next(root_text_problem("OKX REST"@, settings.okx_rest_url@))
        .or_next(root_text_problem("KuCoin Futures REST"@, settings.kucoin_futures_rest_url@))
        .or_next(root_text_problem("MEXC Futures REST"@, settings.mexc_futures_rest_url@))
        .or_next(root_text_problem("BingX Swap REST"@, settings.bingx_swap_rest_url@))
}

/// Why the choice of venues or an origin is refused.
pub open spec fn choices_problem(settings: Settings) -> Option<Seq<char>> {
    let chosen = settings.providers@;
    providers::unless(chosen.len() > 0, "providers must contain at least one selection"@)
        .or_next(
        providers::unless(
            chosen.len() == 1 || !(chosen.contains(ProviderSelection::All) || chosen.contains(
                ProviderSelection::Nothing,
            )),
            "all and none provider selections cannot be combined"@,
        ),
    )
        .or_next(
        providers::unless(
            forall|i: int|
                0 <= i < settings.allowed_origins@.len() ==> (
                #[trigger] settings.allowed_origins@[i])@.len() > 0,
            "allowed origins must not contain an empty value"@,
        ),
    )
}

/// Why settings are refused.
pub open spec fn settings_problem(settings: Settings) -> Option<Seq<char>> {
    limits_problem(settings).or_next(urls_problem(settings)).or_next(choices_problem(settings))
}

/// Whether a list of choices has one.
fn has_choice(list: &Vec<ProviderSelection>, wanted: ProviderSelection) -> (answer: bool)
    ensures
        answer == list@.contains(wanted),
{
    let mut i: usize = 0;
    while i < list.len()
        invariant
            i <= list@.len(),
            forall|k: int| 0 <= k < i ==> #[trigger] list@[k] != wanted,
        decreases list.len() - i,
    {
        if list[i] == wanted {
            return true;
        }
        i += 1;
    }
    false
}

/// The venues that choices come to.
pub open spec fn chosen_providers(chosen: Seq<ProviderSelection>) -> Set<Provider> {
    if chosen.contains(ProviderSelection::Nothing) {
        Set::empty()
    } else if chosen.contains(ProviderSelection::All) {
        Set::full()
    } else {
        Set::new(|provider: Provider| chosen.contains(selection_of(provider)))
    }
}

/// Seconds in milliseconds.
fn millis_of(seconds: u64) -> (millis: u128)
    ensures
        millis == seconds * 1000,
{
    (seconds as u128) * 1000
}

/// A limit under a ceiling, where there is one.
pub open spec fn tightest(limit: usize, ceiling: Option<usize>) -> usize {
    match ceiling {
        Some(ceiling) => if limit <= ceiling {
            limit
        } else {
            ceiling
        },
        None => limit,
    }
}

/// How many subscriptions a venue is known to carry: Binance the streams of one command, and every
/// other venue any number.
pub open spec fn known_capacity(provider: Provider) -> usize {
    match provider {
        Provider::Binance => binance::MAX_STREAMS_PER_COMMAND,
        _ => usize::MAX,
    }
}

/// What the enabled venues are known to carry, each of them with an entry of its own.
pub fn declared_limits(enabled: &ProviderSet) -> (limits: ProviderLimits)
    ensures
        limits@.dom() == enabled@,
        forall|p: Provider| #[trigger] enabled@.contains(p) ==> limits@[p] == known_capacity(p),
        limits.default_limit() == usize::MAX,
{
    let mut declared: Vec<(Provider, usize)> = Vec::new();
    let mut rank: usize = 0;
    proof {
        assert(limits::declared(declared@).dom() =~= Set::empty());
    }
    while rank < limits::PROVIDER_COUNT
        invariant
            rank <= limits::PROVIDER_COUNT,
            forall|p: Provider| #[trigger]
                limits::declared(declared@).contains_key(p) <==> enabled@.contains(p)
                    && keyset::provider_rank(p) < rank,
            forall|p: Provider| #[trigger]
                limits::declared(declared@).contains_key(p) ==> limits::declared(declared@)[p]
                    == known_capacity(p),
        decreases limits::PROVIDER_COUNT - rank,
    {
        let provider = limits::provider_at(rank);
        let ghost before = declared@;
        proof {
            assert forall|p: Provider| keyset::provider_rank(p) == rank implies p == provider by {}
        }
        if enabled.contains(provider) {
            let capacity = if provider == Provider::Binance {
                binance::MAX_STREAMS_PER_COMMAND
            } else {
                usize::MAX
            };
            declared.push((provider, capacity));
            proof {
                assert(declared@.drop_last() =~= before);
                assert(declared@.last() == (provider, capacity));
                assert(limits::declared(declared@) == limits::declared(before).insert(
                    provider,
                    capacity,
                ));
            }
        }
        rank += 1;
    }
    let limits = ProviderLimits::new(declared, usize::MAX);
    proof {
        assert forall|p: Provider| keyset::provider_rank(p) < limits::PROVIDER_COUNT by {}
        assert(limits@.dom() =~= enabled@);
    }
    limits
}

impl Settings {
    fn check_limits(&self) -> (r: Result<(), String>)
        ensures
            match r {
                Ok(()) => limits_problem(*self) is None,
                Err(message) => limits_problem(*self) == Some(message@),
            },
    {
        if self.downstream_buffer == 0 {
            return Err("downstream buffer must be greater than zero".to_owned());
        }
        if self.max_downstream_clients == 0 {
            return Err("max downstream clients must be greater than zero".to_owned());
        }
        if self.max_client_subscriptions == 0 {
            return Err("max client subscriptions must be greater than zero".to_owned());
        }
        if let Some(limit) = self.max_provider_subscriptions {
            if limit == 0 {
                return Err("max provider subscriptions must be greater than zero".to_owned());
            }
        }
        if self.max_command_bytes == 0 {
            return Err("max command bytes must be greater than zero".to_owned());
        }
        if self.max_history_requests == 0 {
            return Err("max history requests must be greater than zero".to_owned());
        }
        if self.upstream_backoff_min_ms == 0 || self.upstream_backoff_max_ms
            < self.upstream_backoff_min_ms {
            return Err("upstream reconnect backoff range is invalid".to_owned());
        }
        if self.stable_connection_seconds == 0 || self.shutdown_grace_seconds == 0
            || self.catalog_refresh_seconds == 0 {
            return Err(
                "connection stability, shutdown, and catalog refresh durations must be positive".to_owned(),
            );
        }
        Ok(())
    }

    fn check_urls(&self) -> (r: Result<(), String>)
        ensures
            match r {
                Ok(()) => urls_problem(*self) is None,
                Err(message) => urls_problem(*self) == Some(message@),
            },
    {
        check_websocket_text("Bybit websocket", self.bybit_ws_url.as_str())?;
        check_websocket_text("Binance websocket", self.binance_ws_url.as_str())?;
        check_websocket_text("OKX public websocket", self.okx_public_ws_url.as_str())?;
        check_websocket_text("OKX business websocket", self.okx_business_ws_url.as_str())?;
        check_websocket_text("MEXC websocket", self.mexc_ws_url.as_str())?;
        check_websocket_text("BingX websocket", self.bingx_ws_url.as_str())?;
        check_root_text("Bybit REST", self.bybit_rest_url.as_str())?;
        check_root_text("Binance Futures REST", self.binance_futures_rest_url.as_str())?;
        check_root_text("OKX REST", self.okx_rest_url.as_str())?;
        check_root_text("KuCoin Futures REST", self.kucoin_futures_rest_url.as_str())?;
        check_root_text("MEXC Futures REST", self.mexc_futures_rest_url.as_str())?;
        check_root_text("BingX Swap REST", self.bingx_swap_rest_url.as_str())
    }

    fn check_choices(&self) -> (r: Result<(), String>)
        ensures
            match r {
                Ok(()) => choices_problem(*self) is None,
                Err(message) => choices_problem(*self) == Some(message@),
            },
    {
        if self.providers.len() == 0 {
            return Err("providers must contain at least one selection".to_owned());
        }
        let has_all = has_choice(&self.providers, ProviderSelection::All);
        let has_none = has_choice(&self.providers, ProviderSelection::Nothing);
        if (has_all || has_none) && self.providers.len() != 1 {
            return Err("all and none provider selections cannot be combined".to_owned());
        }
        if self.has_blank_origin() {
            return Err("allowed origins must not contain an empty value".to_owned());
        }
        Ok(())
    }

    fn has_blank_origin(&self) -> (answer: bool)
        ensures
            answer == !(forall|i: int|
                0 <= i < self.allowed_origins@.len() ==> (
                #[trigger] self.allowed_origins@[i])@.len() > 0),
    {
        let mut i: usize = 0;
        while i < self.allowed_origins.len()
            invariant
                i <= self.allowed_origins@.len(),
                forall|k: int|
                    0 <= k < i ==> (#[trigger] self.allowed_origins@[k])@.len() > 0,
            decreases self.allowed_origins.len() - i,
        {
            if self.allowed_origins[i].as_str().is_empty() {
                return true;
            }
            i += 1;
        }
        false
    }

    /// Validate the settings.
    ///
    /// # Errors
    ///
    /// Returns a message when a buffer or limit is zero, when the reconnect range is inverted, when
    /// a URL does not fit its purpose, or when the choice of venues or an origin is malformed.
    pub fn validate(&self) -> (r: Result<(), String>)
        ensures
            match r {
                Ok(()) => settings_problem(*self) is None,
                Err(message) => settings_problem(*self) == Some(message@),
            },
    {
        self.check_limits()?;
        self.check_urls()?;
        self.check_choices()
    }

    /// The shortest wait before connecting again, in milliseconds.
    pub fn backoff_min(&self) -> (millis: u64)
        ensures
            millis == self.upstream_backoff_min_ms,
    {
        self.upstream_backoff_min_ms
    }

    /// The longest wait before connecting again, in milliseconds.
    pub fn backoff_max(&self) -> (millis: u64)
        ensures
            millis == self.upstream_backoff_max_ms,
    {
        self.upstream_backoff_max_ms
    }

    /// How long a connection must last to count as stable, in milliseconds.
    pub fn stable_connection_duration(&self) -> (millis: u128)
        ensures
            millis == self.stable_connection_seconds * 1000,
    {
        millis_of(self.stable_connection_seconds)
    }

    /// How long background tasks may take to stop, in milliseconds.
    pub fn shutdown_grace(&self) -> (millis: u128)
        ensures
            millis == self.shutdown_grace_seconds * 1000,
    {
        millis_of(self.shutdown_grace_seconds)
    }

    /// How long to wait between catalog refreshes, in milliseconds.
    pub fn catalog_refresh_interval(&self) -> (millis: u128)
        ensures
            millis == self.catalog_refresh_seconds * 1000,
    {
        millis_of(self.catalog_refresh_seconds)
    }

    /// What each venue may carry: what was declared for it, and no more than the ceiling where there
    /// is one.
    pub fn provider_limits(&self, declared: ProviderLimits) -> (limits: ProviderLimits)
        ensures
            limits@.dom() == declared@.dom(),
            limits.default_limit() == tightest(
                declared.default_limit(),
                self.max_provider_subscriptions,
            ),
            forall|p: Provider| #[trigger]
                limits.limit_of(p) == tightest(
                    declared.limit_of(p),
                    self.max_provider_subscriptions,
                ),
    {
        match self.max_provider_subscriptions {
            Some(ceiling) => declared.tightened(ceiling),
            None => declared,
        }
    }

    /// The venues that are enabled.
    pub fn enabled_providers(&self) -> (set: ProviderSet)
        ensures
            set@ == chosen_providers(self.providers@),
    {
        if has_choice(&self.providers, ProviderSelection::Nothing) {
            return ProviderSet::new();
        }
        if has_choice(&self.providers, ProviderSelection::All) {
            return ProviderSet::all();
        }
        let mut set = ProviderSet::new();
        let mut i: usize = 0;
        while i < self.providers.len()
            invariant
                i <= self.providers@.len(),
                forall|provider: Provider| #[trigger]
                    set@.contains(provider) <==> self.providers@.take(i as int).contains(
                        selection_of(provider),
                    ),
            decreases self.providers.len() - i,
        {
            let selection = self.providers[i];
            let ghost before = set@;
            if let Some(provider) = selection.provider() {
                set.insert(provider);
            }
            proof {
                let shorter = self.providers@.take(i as int);
                let longer = self.providers@.take(i + 1);
                assert(longer =~= shorter.push(selection));
                assert forall|provider: Provider| #[trigger]
                    set@.contains(provider) <==> longer.contains(selection_of(provider)) by {
                    assert(before.contains(provider) <==> shorter.contains(selection_of(provider)));
                    if shorter.contains(selection_of(provider)) {
                        let k = choose|k: int|
                            0 <= k < shorter.len() && shorter[k] == selection_of(provider);
                        assert(longer[k] == selection_of(provider));
                    }
                    if selection == selection_of(provider) {
                        assert(longer[i as int] == selection);
                    }
                }
            }
            i += 1;
        }
        proof {
            assert(self.providers@.take(i as int) =~= self.providers@);
            assert(set@ =~= chosen_providers(self.providers@));
        }
        set
    }

    /// The REST root of a venue.
    pub open spec fn root(&self, provider: Provider) -> Seq<char> {
        match provider {
            Provider::Bybit => self.bybit_rest_url@,
            Provider::Binance => self.binance_futures_rest_url@,
            Provider::Okx => self.okx_rest_url@,
            Provider::Kucoin => self.kucoin_futures_rest_url@,
            Provider::Mexc => self.mexc_futures_rest_url@,
            Provider::Bingx => self.bingx_swap_rest_url@,
        }
    }

    /// The REST roots for candle history.
    pub fn history_sources(&self) -> (sources: HistorySources)
        ensures
            forall|provider: Provider| #[trigger]
                sources.root(provider) == self.root(provider),
    {
        HistorySources {
            bybit: self.bybit_rest_url.clone(),
            binance: self.binance_futures_rest_url.clone(),
            okx: self.okx_rest_url.clone(),
            kucoin: self.kucoin_futures_rest_url.clone(),
            mexc: self.mexc_futures_rest_url.clone(),
            bingx: self.bingx_swap_rest_url.clone(),
        }
    }

    /// The catalog endpoints, under the REST roots.
    ///
    /// # Errors
    ///
    /// A root that is no base of a URL is refused.
    pub fn catalog_sources(&self) -> (r: Result<CatalogSources, String>)
        ensures
            match r {
                Ok(sources) => {
                    &&& sources_problem(*self) is None
                    &&& sources.enabled_providers@ == chosen_providers(self.providers@)
                    &&& forall|provider: Provider|
                        catalog_endpoint(self.root(provider), provider) == Ok::<
                            Seq<char>,
                            Seq<char>,
                        >(#[trigger] sources.url(provider))
                },
                Err(message) => sources_problem(*self) == Some(message@),
            },
    {
        let bybit = provider_endpoint(self.bybit_rest_url.as_str(), Provider::Bybit)?;
        let binance = provider_endpoint(self.binance_futures_rest_url.as_str(), Provider::Binance)?;
        let okx = provider_endpoint(self.okx_rest_url.as_str(), Provider::Okx)?;
        let kucoin = provider_endpoint(self.kucoin_futures_rest_url.as_str(), Provider::Kucoin)?;
        let mexc = provider_endpoint(self.mexc_futures_rest_url.as_str(), Provider::Mexc)?;
        let bingx = provider_endpoint(self.bingx_swap_rest_url.as_str(), Provider::Bingx)?;
        Ok(
            CatalogSources {
                bybit,
                binance,
                okx,
                kucoin,
                mexc,
                bingx,
                enabled_providers: self.enabled_providers(),
            },
        )
    }
}

/// Why there is no catalog endpoint for a venue.
pub open spec fn endpoint_problem(settings: Settings, provider: Provider) -> Option<Seq<char>> {
    match catalog_endpoint(settings.root(provider), provider) {
        Ok(_) => None,
        Err(message) => Some(message),
    }
}

/// Why there are no catalog endpoints.
pub open spec fn sources_problem(settings: Settings) -> Option<Seq<char>> {
    endpoint_problem(settings, Provider::Bybit)
        .or_next(endpoint_problem(settings, Provider::Binance))
        .or_next(endpoint_problem(settings, Provider::Okx))
        .or_next(endpoint_problem(settings, Provider::Kucoin))
        .or_next(endpoint_problem(settings, Provider::Mexc))
        .or_next(endpoint_problem(settings, Provider::Bingx))
}

/// Where the catalog of a venue stands under its REST root.
pub open spec fn catalog_path(provider: Provider) -> Seq<char> {
    match provider {
        Provider::Bybit => "v5/market/instruments-info"@,
        Provider::Binance => "fapi/v1/exchangeInfo"@,
        Provider::Okx => "api/v5/public/instruments"@,
        Provider::Kucoin => "api/v1/contracts/active"@,
        Provider::Mexc => "api/v1/contract/detail/country"@,
        Provider::Bingx => "openApi/swap/v2/quote/contracts"@,
    }
}

/// The catalog endpoint of a venue under its REST root.
pub open spec fn catalog_endpoint(root: Seq<char>, provider: Provider) -> Result<
    Seq<char>,
    Seq<char>,
> {
    match weburl::joined_url(root, catalog_path(provider)) {
        Ok(url) => Ok(url.text),
        Err(_) => Err(
            "build "@ + domain::provider_name(provider) + " REST endpoint from "@ + root,
        ),
    }
}

/// The catalog endpoint of a venue under its REST root.
///
/// # Errors
///
/// A root that is no base of a URL is refused.
pub fn provider_endpoint(root: &str, provider: Provider) -> (r: Result<String, String>)
    ensures
        match r {
            Ok(url) => catalog_endpoint(root@, provider) == Ok::<Seq<char>, Seq<char>>(url@),
            Err(message) => catalog_endpoint(root@, provider) == Err::<Seq<char>, Seq<char>>(
                message@,
            ),
        },
{
    let path = match provider {
        Provider::Bybit => "v5/market/instruments-info",
        Provider::Binance => "fapi/v1/exchangeInfo",
        Provider::Okx => "api/v5/public/instruments",
        Provider::Kucoin => "api/v1/contracts/active",
        Provider::Mexc => "api/v1/contract/detail/country",
        Provider::Bingx => "openApi/swap/v2/quote/contracts",
    };
    match weburl::join(root, path) {
        Ok(url) => Ok(url.text),
        Err(_) => Err(text::cat4("build ", provider.name(), " REST endpoint from ", root)),
    }
}

// ---------------------------------------------------------------------------------------------
// Laws
// ---------------------------------------------------------------------------------------------

/// Settings that pass have positive limits and an ordered range of waits, so that what is built
/// from them can work.
pub proof fn law_valid_settings_are_usable(settings: Settings)
    requires
        settings_problem(settings) is None,
    ensures
        settings.downstream_buffer > 0,
        settings.max_downstream_clients > 0,
        settings.max_client_subscriptions > 0,
        settings.max_provider_subscriptions matches Some(limit) ==> limit > 0,
        settings.max_command_bytes > 0,
        settings.max_history_requests > 0,
        0 < settings.upstream_backoff_min_ms <= settings.upstream_backoff_max_ms,
        settings.providers@.len() > 0,
{
}

/// All venues and none of them are chosen on their own, and any other choice is just what it
/// names.
pub proof fn law_choices_are_exact(settings: Settings, provider: Provider)
    requires
        settings_problem(settings) is None,
    ensures
        settings.providers@ == seq![ProviderSelection::All] ==> chosen_providers(
            settings.providers@,
        ).contains(provider),
        settings.providers@ == seq![ProviderSelection::Nothing] ==> !chosen_providers(
            settings.providers@,
        ).contains(provider),
        settings.providers@ != seq![ProviderSelection::All] ==> (chosen_providers(
            settings.providers@,
        ).contains(provider) <==> settings.providers@.contains(selection_of(provider))),
{
    let chosen = settings.providers@;
    if chosen == seq![ProviderSelection::All] {
        assert(chosen[0] == ProviderSelection::All);
    } else if chosen.contains(ProviderSelection::All) {
        assert(chosen =~= seq![ProviderSelection::All]);
    } else if chosen.contains(ProviderSelection::Nothing) {
        assert(chosen =~= seq![ProviderSelection::Nothing]);
        assert(chosen[0] == ProviderSelection::Nothing);
        if chosen.contains(selection_of(provider)) {
            let k = choose|k: int| 0 <= k < chosen.len() && chosen[k] == selection_of(provider);
        }
    } else {
        assert(chosen != seq![ProviderSelection::Nothing]) by {
            if chosen == seq![ProviderSelection::Nothing] {
                assert(chosen[0] == ProviderSelection::Nothing);
            }
        }
    }
}

} // verus!
