use market_stream_gateway::config::{declared_limits, LogFormat, ProviderSelection, Settings};
use market_stream_gateway::domain::Provider;
use market_stream_gateway::gateway::ProviderLimits;
use market_stream_gateway::venues::ProviderSet;

fn refusal(change: &dyn Fn(&mut Settings)) -> String {
    let mut settings = Settings::default();
    change(&mut settings);
    settings.validate().unwrap_err()
}

#[test]
fn defaults_are_safe_for_local_use() {
    let settings = Settings::default();
    assert_eq!(settings.bind, "127.0.0.1:8080");
    assert_eq!(settings.downstream_buffer, 4096);
    // Unset by default: each provider contributes its own declared capacity
    // instead of one global ceiling.
    assert_eq!(settings.max_provider_subscriptions, None);
    assert!(settings.validate().is_ok());
    assert_eq!(
        url::Url::parse(&settings.binance_ws_url).unwrap().path(),
        "/market/ws"
    );
    assert_eq!(settings.enabled_providers().to_vec().len(), 6);
    assert_eq!(settings.log_format, LogFormat::Json);
}

#[test]
fn invalid_limits_are_rejected() {
    let settings = Settings {
        downstream_buffer: 0,
        ..Settings::default()
    };
    assert!(settings.validate().is_err());
    let zero_provider_limit = Settings {
        max_provider_subscriptions: Some(0),
        ..Settings::default()
    };
    assert!(zero_provider_limit.validate().is_err());
}

#[test]
fn provider_subscription_override_is_accepted_above_the_previous_hard_ceiling() {
    let settings = Settings {
        max_provider_subscriptions: Some(400),
        ..Settings::default()
    };
    assert_eq!(settings.max_provider_subscriptions, Some(400));
    assert!(settings.validate().is_ok());
}

#[test]
fn provider_selection_supports_subsets_and_explicit_none() {
    let subset = Settings {
        providers: vec![ProviderSelection::Bybit, ProviderSelection::Okx],
        ..Settings::default()
    };
    assert_eq!(
        subset.enabled_providers().to_vec(),
        vec![Provider::Bybit, Provider::Okx]
    );

    let none = Settings {
        providers: vec![ProviderSelection::Nothing],
        ..Settings::default()
    };
    assert!(none.enabled_providers().to_vec().is_empty());

    let invalid = Settings {
        providers: vec![ProviderSelection::All, ProviderSelection::Bybit],
        ..Settings::default()
    };
    assert!(invalid.validate().is_err());
}

#[test]
fn every_refusal_has_its_words() {
    assert_eq!(
        refusal(&|s| s.downstream_buffer = 0),
        "downstream buffer must be greater than zero"
    );
    assert_eq!(
        refusal(&|s| s.max_downstream_clients = 0),
        "max downstream clients must be greater than zero"
    );
    assert_eq!(
        refusal(&|s| s.max_client_subscriptions = 0),
        "max client subscriptions must be greater than zero"
    );
    assert_eq!(
        refusal(&|s| s.max_provider_subscriptions = Some(0)),
        "max provider subscriptions must be greater than zero"
    );
    assert_eq!(
        refusal(&|s| s.max_command_bytes = 0),
        "max command bytes must be greater than zero"
    );
    assert_eq!(
        refusal(&|s| s.max_history_requests = 0),
        "max history requests must be greater than zero"
    );
    assert_eq!(
        refusal(&|s| s.upstream_backoff_max_ms = 499),
        "upstream reconnect backoff range is invalid"
    );
    assert_eq!(
        refusal(&|s| s.catalog_refresh_seconds = 0),
        "connection stability, shutdown, and catalog refresh durations must be positive"
    );
    assert_eq!(
        refusal(&|s| s.mexc_ws_url = "https://contract.mexc.com/edge".to_owned()),
        "MEXC websocket URL must use ws or wss"
    );
    assert_eq!(
        refusal(&|s| s.okx_rest_url = "ftp://www.okx.com/".to_owned()),
        "OKX REST URL must use http or https"
    );
    let root = "Bybit REST URL must be a root URL ending in / without a query or fragment";
    assert_eq!(
        refusal(&|s| s.bybit_rest_url = "https://api.bybit.com/v5".to_owned()),
        root
    );
    assert_eq!(
        refusal(&|s| s.bybit_rest_url = "https://api.bybit.com/?a".to_owned()),
        root
    );
    assert_eq!(
        refusal(&|s| s.bybit_rest_url = "https://api.bybit.com/#a".to_owned()),
        root
    );
    assert_eq!(
        refusal(&|s| s.bybit_ws_url = "stream".to_owned()),
        "Bybit websocket URL is invalid: relative URL without a base"
    );
    assert_eq!(
        refusal(&|s| s.providers = Vec::new()),
        "providers must contain at least one selection"
    );
    assert_eq!(
        refusal(&|s| s.providers = vec![ProviderSelection::Nothing, ProviderSelection::Okx]),
        "all and none provider selections cannot be combined"
    );
    assert_eq!(
        refusal(&|s| s.allowed_origins = vec!["*".to_owned(), String::new()]),
        "allowed origins must not contain an empty value"
    );
}

#[test]
fn durations_are_in_milliseconds() {
    let settings = Settings::default();
    assert_eq!(settings.backoff_min(), 500);
    assert_eq!(settings.backoff_max(), 30_000);
    assert_eq!(settings.stable_connection_duration(), 60_000);
    assert_eq!(settings.shutdown_grace(), 10_000);
    assert_eq!(settings.catalog_refresh_interval(), 21_600_000);
    let long = Settings {
        shutdown_grace_seconds: u64::MAX,
        ..Settings::default()
    };
    assert_eq!(long.shutdown_grace(), u128::from(u64::MAX) * 1000);
}

#[test]
fn every_enabled_venue_declares_a_limit() {
    let all = declared_limits(&ProviderSet::all());
    assert_eq!(all.entries().len(), 6);
    assert_eq!(all.limit_for(Provider::Binance), 200);
    assert_eq!(all.limit_for(Provider::Bybit), usize::MAX);
    assert_eq!(all.limit_for(Provider::Bingx), usize::MAX);
    assert_eq!(all.minimum(), 200);
    let others = declared_limits(&ProviderSet::from_list(&[Provider::Okx, Provider::Kucoin]));
    assert_eq!(
        others.entries(),
        vec![(Provider::Okx, usize::MAX), (Provider::Kucoin, usize::MAX)]
    );
    assert_eq!(others.minimum(), usize::MAX);
    let limits = Settings {
        max_provider_subscriptions: Some(50),
        ..Settings::default()
    }
    .provider_limits(others);
    assert_eq!(
        limits.entries(),
        vec![(Provider::Okx, 50), (Provider::Kucoin, 50)]
    );
}

#[test]
fn endpoints_stand_under_their_roots() {
    let settings = Settings {
        okx_rest_url: "https://eu.example/okx/".to_owned(),
        ..Settings::default()
    };
    let sources = settings.catalog_sources().unwrap();
    assert_eq!(
        sources.endpoint(Provider::Okx),
        "https://eu.example/okx/api/v5/public/instruments"
    );
    assert_eq!(
        sources.endpoint(Provider::Mexc),
        "https://api.mexc.com/api/v1/contract/detail/country"
    );
    assert!(sources.is_enabled(Provider::Bingx));
    assert_eq!(
        settings.history_sources().root_of(Provider::Okx),
        "https://eu.example/okx/"
    );
    let bad = Settings {
        kucoin_futures_rest_url: "x".to_owned(),
        ..Settings::default()
    };
    assert_eq!(
        bad.catalog_sources().unwrap_err(),
        "build kucoin REST endpoint from x"
    );
}

#[test]
fn ceilings_only_tighten_declared_limits() {
    let declared = || ProviderLimits::new(vec![(Provider::Bingx, 200)], 1_000);
    let open = Settings::default();
    assert_eq!(open.provider_limits(declared()).limit_for(Provider::Bingx), 200);
    assert_eq!(open.provider_limits(declared()).limit_for(Provider::Okx), 1_000);
    let tight = Settings {
        max_provider_subscriptions: Some(400),
        ..Settings::default()
    };
    assert_eq!(tight.provider_limits(declared()).limit_for(Provider::Bingx), 200);
    assert_eq!(tight.provider_limits(declared()).limit_for(Provider::Okx), 400);
}
