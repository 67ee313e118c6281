use market_stream_gateway::catalog::fetch::CatalogFetch;
use market_stream_gateway::catalog::payload::{
    check_answer, parse_binance_catalog, parse_bybit_page, parse_catalog, parse_kucoin_catalog,
    parse_okx_catalog,
};
use market_stream_gateway::catalog::{
    CandleFinalitySupport, CandleVolumeSupport, Catalog, CatalogError, CatalogFilter,
    CatalogSources, Listing,
};
use market_stream_gateway::domain::{Channel, MarketKind, Provider, SubscriptionKey};
use market_stream_gateway::venues::ProviderSet;
use market_stream_gateway::wire;

fn bybit_item(symbol: &str, contract_type: &str, status: &str) -> String {
    format!(
        r#"{{"symbol":"{symbol}","contractType":"{contract_type}","status":"{status}","baseCoin":"{}","quoteCoin":"USDT","settleCoin":"USDT","launchTime":"1584230400000","deliveryTime":"0","priceFilter":{{"tickSize":"0.10"}},"lotSizeFilter":{{"qtyStep":"0.001"}},"leverageFilter":{{"maxLeverage":"100.00"}}}}"#,
        symbol.strip_suffix("USDT").unwrap_or("BTC")
    )
}

fn bybit_payload(items: &[String], next_cursor: &str) -> String {
    format!(
        r#"{{"retCode":0,"retMsg":"OK","result":{{"category":"linear","nextPageCursor":"{next_cursor}","list":[{}]}}}}"#,
        items.join(",")
    )
}

fn kucoin_item(symbol: &str, status: &str, is_inverse: bool, expiry: &str) -> String {
    format!(
        r#"{{"symbol":"{symbol}","type":"FFWCSX","status":"{status}","baseCurrency":"{}","quoteCurrency":"{}","settleCurrency":"{}","firstOpenDate":1585555200000,"expireDate":{expiry},"tickSize":0.1,"lotSize":1,"multiplier":{},"maxLeverage":125,"isInverse":{is_inverse}}}"#,
        if symbol.starts_with("XBT") { "XBT" } else { "OLD" },
        if is_inverse { "USD" } else { "USDT" },
        if is_inverse { "XBT" } else { "USDT" },
        if is_inverse { "-1.0" } else { "0.001" },
    )
}

fn binance_item(symbol: &str, filters: &str) -> String {
    format!(
        r#"{{"symbol":"{symbol}","contractType":"PERPETUAL","status":"TRADING","baseAsset":"ETH","quoteAsset":"USDT","marginAsset":"USDT","onboardDate":1,"filters":[{filters}]}}"#
    )
}

const FILTERS: &str = r#"{"filterType":"PRICE_FILTER","tickSize":"0.01"},{"filterType":"LOT_SIZE","stepSize":"0.001"}"#;

fn bybit_catalog() -> Catalog {
    Catalog::new(CatalogSources {
        bybit: "http://127.0.0.1:9/".to_owned(),
        enabled_providers: ProviderSet::from_list(&[Provider::Bybit]),
        ..CatalogSources::default()
    })
}

/// Let a retrieval ask until it is complete, and answer from what it asks for.
fn fetch_bybit(answer: &dyn Fn(&str) -> String) -> Result<Listing, CatalogError> {
    let mut fetch = CatalogFetch::begin(Provider::Bybit, "http://127.0.0.1:9/");
    while !fetch.is_done() {
        let url = fetch.next_url()?;
        fetch = fetch.take_answer(&answer(&url))?;
    }
    Ok(fetch.finish())
}

#[test]
fn parses_bybit_linear_perpetuals_only() {
    let body = bybit_payload(
        &[
            bybit_item("BTCUSDT", "LinearPerpetual", "Trading"),
            bybit_item("ETHUSDT-30DEC30", "LinearFutures", "Trading"),
            bybit_item("SOLUSDT", "LinearPerpetual", "Settling"),
        ],
        "next-token",
    );

    let page = parse_bybit_page(&body).unwrap();

    assert_eq!(page.next_page_cursor, "next-token");
    assert_eq!(page.instruments.len(), 1);
    let instrument = &page.instruments[0];
    assert_eq!(instrument.instrument_id, "bybit:linear_perpetual:BTCUSDT");
    assert_eq!(instrument.base_asset, "BTC");
    assert_eq!(instrument.tick_size.as_str(), "0.10");
    assert_eq!(instrument.quantity_step.as_str(), "0.001");
    assert_eq!(instrument.max_leverage.as_ref().unwrap().as_str(), "100.00");
    assert_eq!(instrument.listing_time_ms, Some(1_584_230_400_000));
    assert_eq!(instrument.expiry_time_ms, None);
}

#[test]
fn parses_binance_filters_instead_of_precision_hints() {
    let body = r#"{"symbols":[
        {"symbol":"BTCUSDT","contractType":"PERPETUAL","status":"TRADING","baseAsset":"BTC",
         "quoteAsset":"USDT","marginAsset":"USDT","onboardDate":1567965300000,
         "deliveryDate":4133404800000,"pricePrecision":2,"quantityPrecision":3,
         "filters":[{"filterType":"PRICE_FILTER","tickSize":"0.10"},
                    {"filterType":"LOT_SIZE","stepSize":"0.001"},
                    {"filterType":"MARKET_LOT_SIZE","stepSize":"0.001"}]},
        {"symbol":"BTCUSDT_300925","contractType":"CURRENT_QUARTER","status":"TRADING",
         "baseAsset":"BTC","quoteAsset":"USDT","marginAsset":"USDT","filters":[]},
        {"symbol":"OLDUSDT","contractType":"PERPETUAL","status":"CLOSE","baseAsset":"OLD",
         "quoteAsset":"USDT","marginAsset":"USDT","filters":[]}]}"#;

    let instruments = parse_binance_catalog(body).unwrap();

    assert_eq!(instruments.len(), 1);
    let instrument = instruments.get("BTCUSDT").unwrap();
    assert_eq!(instrument.tick_size.as_str(), "0.10");
    assert_eq!(instrument.quantity_step.as_str(), "0.001");
    assert_eq!(instrument.settle_asset, "USDT");
    assert_eq!(instrument.expiry_time_ms, None);
}

#[test]
fn preserves_current_non_ascii_binance_symbols_exactly() {
    let body = r#"{"symbols":[{"symbol":"币安人生USDT","contractType":"PERPETUAL",
        "status":"TRADING","baseAsset":"币安人生","quoteAsset":"USDT","marginAsset":"USDT",
        "onboardDate":1,"filters":[{"filterType":"PRICE_FILTER","tickSize":"0.00001"},
        {"filterType":"LOT_SIZE","stepSize":"1"}]}]}"#;

    let instruments = parse_binance_catalog(body).unwrap();

    assert_eq!(instruments.len(), 1);
    let instrument = instruments.get("币安人生USDT").unwrap();
    assert_eq!(instrument.base_asset, "币安人生");
    assert_eq!(
        instrument.instrument_id,
        "binance:linear_perpetual:币安人生USDT"
    );
}

#[test]
fn parses_okx_swap_assets_and_contract_units() {
    let body = r#"{"code":"0","msg":"","data":[
        {"instId":"BTC-USDT-SWAP","instType":"SWAP","state":"live","baseCcy":"","quoteCcy":"",
         "settleCcy":"USDT","ctType":"linear","ctVal":"0.01","ctValCcy":"BTC","tickSz":"0.1",
         "lotSz":"0.01","lever":"100","listTime":"1573557408000","expTime":"",
         "uly":"BTC-USDT","instFamily":"BTC-USDT"},
        {"instId":"BTC-USD-SWAP","instType":"SWAP","state":"live","settleCcy":"BTC",
         "ctType":"inverse","ctVal":"100","tickSz":"0.1","lotSz":"1","uly":"BTC-USD"},
        {"instId":"BTC-USDT-300925","instType":"FUTURES","state":"live","settleCcy":"USDT",
         "ctType":"linear","ctVal":"0.01","tickSz":"0.1","lotSz":"1","uly":"BTC-USDT"}]}"#;

    let instruments = parse_okx_catalog(body).unwrap();

    assert_eq!(instruments.len(), 1);
    let instrument = instruments.get("BTC-USDT-SWAP").unwrap();
    assert_eq!(instrument.base_asset, "BTC");
    assert_eq!(instrument.quote_asset, "USDT");
    assert_eq!(instrument.settle_asset, "USDT");
    assert_eq!(instrument.contract_size.as_ref().unwrap().as_str(), "0.01");
    assert_eq!(instrument.contract_size_asset.as_deref(), Some("BTC"));
}

#[test]
fn parses_only_live_kucoin_linear_perpetuals_with_quality_limits() {
    let body = format!(
        r#"{{"code":"200000","data":[{},{},{},{}]}}"#,
        kucoin_item("XBTUSDTM", "Open", false, "null"),
        kucoin_item("XBTUSDM", "Open", true, "null"),
        kucoin_item("WLUSDTM", "Open", false, "1785567600000"),
        kucoin_item("OLDUSDTM", "Closed", false, "null"),
    );

    let instruments = parse_kucoin_catalog(&body).unwrap();

    assert_eq!(instruments.len(), 1);
    let instrument = instruments.get("XBTUSDTM").unwrap();
    assert_eq!(instrument.base_asset, "XBT");
    assert_eq!(instrument.contract_size.as_ref().unwrap().as_str(), "0.001");
    assert_eq!(
        instrument.capabilities.candle_1m_finality,
        CandleFinalitySupport::Unknown
    );
    assert_eq!(
        instrument.capabilities.candle_1m_volume,
        CandleVolumeSupport::Unavailable
    );
}

#[test]
fn catalog_queries_and_validates_exact_venue_symbols() {
    let parsed = parse_binance_catalog(&format!(
        r#"{{"symbols":[{}]}}"#,
        binance_item("ETHUSDT", FILTERS)
    ))
    .unwrap();
    let mut catalog = Catalog::new(CatalogSources {
        enabled_providers: ProviderSet::from_list(&[Provider::Binance]),
        ..CatalogSources::default()
    });
    catalog
        .refresh_provider(Provider::Binance, 1, 2, Ok(parsed))
        .unwrap();

    assert_eq!(catalog.list().len(), 1);
    assert!(catalog
        .get(Provider::Binance, MarketKind::LinearPerpetual, "ethusdt")
        .is_some());
    assert!(catalog
        .get_by_id("binance:linear_perpetual:ETHUSDT")
        .is_some());
    assert_eq!(
        catalog
            .filter(&CatalogFilter {
                quote_asset: Some("usdt".to_owned()),
                ..CatalogFilter::default()
            })
            .len(),
        1
    );
    let subscription = SubscriptionKey::new(
        Provider::Binance,
        MarketKind::LinearPerpetual,
        "ethusdt",
        Channel::Ticker,
    )
    .unwrap();
    assert!(catalog.validate_subscription(&subscription).is_ok());

    let unknown = SubscriptionKey::new(
        Provider::Binance,
        MarketKind::LinearPerpetual,
        "missingusdt",
        Channel::Ticker,
    )
    .unwrap();
    assert!(matches!(
        catalog.validate_subscription(&unknown),
        Err(CatalogError::InstrumentUnavailable { .. })
    ));
}

#[test]
fn bybit_refresh_paginates_and_replaces_one_complete_snapshot() {
    let calls = std::cell::Cell::new(0);
    let listing = fetch_bybit(&|url| {
        calls.set(calls.get() + 1);
        if url.contains("cursor=page-two") {
            bybit_payload(
                &[bybit_item("ETHUSDT", "LinearPerpetual", "Trading")],
                "",
            )
        } else {
            assert_eq!(url, "http://127.0.0.1:9/?category=linear&limit=1000");
            bybit_payload(
                &[bybit_item("BTCUSDT", "LinearPerpetual", "Trading")],
                "page-two",
            )
        }
    });
    let mut catalog = bybit_catalog();
    let outcome = catalog
        .refresh_provider(Provider::Bybit, 5, 6, listing)
        .unwrap();

    assert_eq!(calls.get(), 2);
    assert_eq!(outcome.instrument_count, 2);
    assert_eq!(outcome.refreshed_at_ms, 6);
    assert_eq!(catalog.list().len(), 2);
    assert!(catalog
        .get(Provider::Bybit, MarketKind::LinearPerpetual, "BTCUSDT")
        .is_some());
    assert!(catalog
        .get(Provider::Bybit, MarketKind::LinearPerpetual, "ETHUSDT")
        .is_some());
    assert_eq!(catalog.status(Provider::Bybit).instrument_count, 2);
    assert!(catalog.status(Provider::Bybit).last_error.is_none());
}

#[test]
fn bybit_refresh_rejects_repeated_cursors_and_cross_page_duplicates() {
    let cycle_error = fetch_bybit(&|url| {
        let symbol = if url.contains("cursor=") {
            "ETHUSDT"
        } else {
            "BTCUSDT"
        };
        bybit_payload(
            &[bybit_item(symbol, "LinearPerpetual", "Trading")],
            "repeat",
        )
    })
    .unwrap_err();
    assert_eq!(
        cycle_error,
        CatalogError::RepeatedCursor {
            provider: Provider::Bybit,
            cursor: "repeat".to_owned()
        }
    );

    let duplicate_error = fetch_bybit(&|url| {
        let next = if url.contains("cursor=") {
            ""
        } else {
            "page-two"
        };
        bybit_payload(
            &[bybit_item("BTCUSDT", "LinearPerpetual", "Trading")],
            next,
        )
    })
    .unwrap_err();
    assert_eq!(
        duplicate_error,
        CatalogError::DuplicateInstrument {
            provider: Provider::Bybit,
            symbol: "BTCUSDT".to_owned()
        }
    );
}

#[test]
fn bybit_pagination_is_bounded() {
    let pages = std::cell::Cell::new(0);
    let error = fetch_bybit(&|_| {
        pages.set(pages.get() + 1);
        format!(
            r#"{{"retCode":0,"result":{{"category":"linear","nextPageCursor":"c{}","list":[]}}}}"#,
            pages.get()
        )
    })
    .unwrap_err();
    assert_eq!(pages.get(), 10_000);
    assert_eq!(
        error.message(),
        "bybit catalog exceeded the 10000-page pagination safety limit"
    );
}

#[test]
fn failed_refresh_retains_last_good_provider_snapshot() {
    let mut catalog = bybit_catalog();
    let listing = fetch_bybit(&|_| {
        bybit_payload(
            &[bybit_item("BTCUSDT", "LinearPerpetual", "Trading")],
            "",
        )
    });
    catalog
        .refresh_provider(Provider::Bybit, 1, 2, listing)
        .unwrap();
    let last_success = catalog.status(Provider::Bybit).last_success_at_ms;
    let failed = check_answer(Provider::Bybit, 503, b"temporary failure").unwrap_err();
    let error = catalog
        .refresh_provider(Provider::Bybit, 3, 4, Err(failed))
        .unwrap_err();

    assert_eq!(
        error,
        CatalogError::HttpStatus {
            provider: Provider::Bybit,
            status: 503
        }
    );
    assert_eq!(catalog.list().len(), 1);
    let status = catalog.status(Provider::Bybit);
    assert_eq!(status.instrument_count, 1);
    assert_eq!(status.last_success_at_ms, last_success);
    assert_eq!(status.last_attempt_at_ms, Some(3));
    assert_eq!(
        status.last_error.as_deref(),
        Some("bybit catalog endpoint returned HTTP 503")
    );
}

#[test]
fn refresh_rejects_oversized_and_non_utf8_responses() {
    let oversized_error = check_answer(Provider::Bybit, 200, &vec![b' '; 8_388_609]).unwrap_err();
    assert!(matches!(
        oversized_error,
        CatalogError::InvalidPayload {
            provider: Provider::Bybit,
            message
        } if message.contains("byte limit")
    ));
    let invalid_error = check_answer(Provider::Bybit, 200, &[0xff]).unwrap_err();
    assert_eq!(
        invalid_error,
        CatalogError::InvalidPayload {
            provider: Provider::Bybit,
            message: "response body is not UTF-8".to_owned()
        }
    );
    assert_eq!(check_answer(Provider::Bybit, 204, b"x").unwrap(), "x");
}

#[test]
fn refreshes_do_not_touch_other_venues() {
    let mut catalog = Catalog::new(CatalogSources::default());
    let body = format!(r#"{{"symbols":[{}]}}"#, binance_item("ETHUSDT", FILTERS));
    catalog
        .refresh_provider(Provider::Binance, 1, 2, parse_binance_catalog(&body))
        .unwrap();
    let before = catalog.status(Provider::Binance);
    let empty = catalog
        .refresh_provider(Provider::Okx, 3, 4, Ok(Listing::new(Provider::Okx)))
        .unwrap_err();
    assert_eq!(empty, CatalogError::EmptySnapshot(Provider::Okx));
    assert_eq!(
        empty.message(),
        "okx catalog returned no live linear perpetual instruments"
    );
    assert_eq!(catalog.status(Provider::Binance), before);
    assert_eq!(catalog.statuses().len(), 6);
    assert!(catalog.enabled_providers().contains(Provider::Bingx));
}

#[test]
fn disabled_venues_are_neither_refreshed_nor_subscribed() {
    let mut catalog = bybit_catalog();
    let error = catalog
        .refresh_provider(Provider::Okx, 1, 2, Ok(Listing::new(Provider::Okx)))
        .unwrap_err();
    assert_eq!(error, CatalogError::ProviderDisabled(Provider::Okx));
    assert_eq!(catalog.status(Provider::Okx).last_attempt_at_ms, None);
    let key = SubscriptionKey::new(
        Provider::Okx,
        MarketKind::LinearPerpetual,
        "BTC-USDT-SWAP",
        Channel::Ticker,
    )
    .unwrap();
    assert_eq!(
        catalog.validate_subscription(&key).unwrap_err().message(),
        "okx instrument catalog is disabled"
    );
    let missing = SubscriptionKey::new(
        Provider::Bybit,
        MarketKind::LinearPerpetual,
        "BTCUSDT",
        Channel::Ticker,
    )
    .unwrap();
    assert_eq!(
        catalog.validate_subscription(&missing).unwrap_err().message(),
        "instrument is not available: bybit:linear_perpetual:BTCUSDT"
    );
}

#[test]
fn listings_are_in_the_order_of_symbols() {
    let body = format!(
        r#"{{"symbols":[{},{},{}]}}"#,
        binance_item("SOLUSDT", FILTERS),
        binance_item("ADAUSDT", FILTERS),
        binance_item("ETHUSDT", FILTERS)
    );
    let listing = parse_binance_catalog(&body).unwrap();
    let symbols: Vec<&str> = (0..listing.len())
        .map(|i| listing.at(i).symbol.as_str())
        .collect();
    assert_eq!(symbols, vec!["ADAUSDT", "ETHUSDT", "SOLUSDT"]);
    let twice = format!(
        r#"{{"symbols":[{},{}]}}"#,
        binance_item("ETHUSDT", FILTERS),
        binance_item("ETHUSDT", FILTERS)
    );
    assert_eq!(
        parse_binance_catalog(&twice).unwrap_err().message(),
        "binance catalog returned duplicate instrument ETHUSDT"
    );
}

#[test]
fn malformed_instruments_are_refused_with_the_reason() {
    let refusal = |item: String| {
        parse_binance_catalog(&format!(r#"{{"symbols":[{item}]}}"#))
            .unwrap_err()
            .message()
    };
    assert_eq!(
        refusal(binance_item("ETHUSDT", r#"{"filterType":"LOT_SIZE","stepSize":"1"}"#)),
        "binance catalog payload is invalid: expected exactly one PRICE_FILTER, got 0"
    );
    assert_eq!(
        refusal(binance_item(
            "ETHUSDT",
            r#"{"filterType":"PRICE_FILTER"},{"filterType":"LOT_SIZE","stepSize":"1"}"#
        )),
        "binance catalog payload is invalid: PRICE_FILTER is missing tickSize"
    );
    assert_eq!(
        refusal(binance_item(
            "ETHUSDT",
            r#"{"filterType":"PRICE_FILTER","tickSize":"0"},{"filterType":"LOT_SIZE","stepSize":"1"}"#
        )),
        "binance catalog payload is invalid: PRICE_FILTER.tickSize must be greater than zero"
    );
    assert_eq!(
        refusal(binance_item(
            "ETHUSDT",
            r#"{"filterType":"PRICE_FILTER","tickSize":"x"},{"filterType":"LOT_SIZE","stepSize":"1"}"#
        )),
        "binance catalog payload is invalid: PRICE_FILTER.tickSize is not a decimal: x"
    );
    assert_eq!(
        refusal(binance_item("ethusdt", FILTERS)),
        "binance catalog payload is invalid: symbol is not in its exact canonical form: ethusdt"
    );
    assert_eq!(
        refusal(binance_item("ETHUSDT", FILTERS).replace(r#""ETH""#, r#""E TH""#)),
        "binance catalog payload is invalid: baseAsset must be a non-empty venue asset identifier"
    );
    assert!(parse_binance_catalog("{").unwrap_err().message().starts_with(
        "binance catalog payload is invalid: invalid JSON: "
    ));
    assert!(parse_binance_catalog(r#"{"symbols":[{}]}"#).is_err());
}

#[test]
fn scientific_sizes_are_kept_in_plain_notation() {
    let body = format!(
        r#"{{"symbols":[{}]}}"#,
        binance_item(
            "ETHUSDT",
            r#"{"filterType":"PRICE_FILTER","tickSize":"1e-3"},{"filterType":"LOT_SIZE","stepSize":"2"}"#
        )
    );
    let listing = parse_binance_catalog(&body).unwrap();
    assert_eq!(listing.at(0).tick_size.as_str(), "0.001");
}

#[test]
fn okx_assets_come_from_the_underlying() {
    let item = |uly: &str| {
        format!(
            r#"{{"code":"0","data":[{{"instId":"BTC-USDT-SWAP","instType":"SWAP","state":"live","settleCcy":"USDT","ctType":"linear","ctVal":1,"tickSz":"0.1","lotSz":1,"uly":"{uly}"}}]}}"#
        )
    };
    let listing = parse_okx_catalog(&item("BTC-USDT")).unwrap();
    assert_eq!(listing.at(0).contract_size_asset.as_deref(), Some("BTC"));
    assert_eq!(
        parse_okx_catalog(&item("BTCUSDT")).unwrap_err().message(),
        "okx catalog payload is invalid: could not derive assets from underlying BTCUSDT"
    );
    assert_eq!(
        parse_okx_catalog(&item("A-B-C")).unwrap_err().message(),
        "okx catalog payload is invalid: underlying must contain exactly two assets: A-B-C"
    );
    assert_eq!(
        parse_okx_catalog(r#"{"code":"5","msg":"no","data":[]}"#)
            .unwrap_err()
            .message(),
        "okx catalog payload is invalid: endpoint returned code 5: no"
    );
}

#[test]
fn kucoin_answers_hold_one_instrument_or_many() {
    let one = format!(
        r#"{{"code":"200000","data":{}}}"#,
        kucoin_item("XBTUSDTM", "Open", false, "null")
    );
    assert_eq!(parse_kucoin_catalog(&one).unwrap().len(), 1);
    assert_eq!(
        parse_kucoin_catalog(r#"{"code":"200000"}"#).unwrap_err().message(),
        "kucoin catalog payload is invalid: missing data"
    );
    assert_eq!(
        parse_kucoin_catalog(r#"{"code":"400"}"#).unwrap_err().message(),
        "kucoin catalog payload is invalid: endpoint returned code 400"
    );
    assert!(parse_kucoin_catalog(r#"{"code":"200000","data":7}"#).is_err());
    let timed = format!(
        r#"{{"code":"200000","data":{}}}"#,
        kucoin_item("XBTUSDTM", "Open", false, r#""soon""#)
    );
    assert_eq!(
        parse_kucoin_catalog(&timed).unwrap_err().message(),
        "kucoin catalog payload is invalid: expireDate must be an unsigned millisecond timestamp"
    );
}

#[test]
fn bybit_answers_are_checked() {
    let refusal = |body: &str| parse_bybit_page(body).unwrap_err().message();
    assert_eq!(
        refusal(r#"{"retCode":-1,"retMsg":"no","result":null}"#),
        "bybit catalog payload is invalid: endpoint returned code -1: no"
    );
    assert_eq!(
        refusal(r#"{"retCode":0}"#),
        "bybit catalog payload is invalid: missing result"
    );
    assert_eq!(
        refusal(r#"{"retCode":0,"result":{"category":"inverse","list":[]}}"#),
        "bybit catalog payload is invalid: expected linear category, got inverse"
    );
}

#[test]
fn venues_without_a_known_format_are_refused() {
    assert!(parse_catalog(Provider::Mexc, "{}").is_err());
    let fetch = CatalogFetch::begin(Provider::Okx, "https://www.okx.com/api?x=1");
    assert_eq!(
        fetch.next_url().unwrap(),
        "https://www.okx.com/api?instType=SWAP"
    );
    let fetch = CatalogFetch::begin(Provider::Okx, "no url");
    assert_eq!(
        fetch.next_url().unwrap_err().message(),
        "okx catalog request failed: catalog endpoint is not a URL"
    );
}

#[test]
fn instruments_are_shown_as_documents() {
    let body = format!(r#"{{"symbols":[{}]}}"#, binance_item("ETHUSDT", FILTERS));
    let listing = parse_binance_catalog(&body).unwrap();
    let json: serde_json::Value =
        serde_json::from_str(&wire::written(&wire::instrument_json(listing.at(0)))).unwrap();
    assert_eq!(json["instrument_id"], "binance:linear_perpetual:ETHUSDT");
    assert_eq!(json["status"], "live");
    assert_eq!(json["venue_status"], "TRADING");
    assert_eq!(json["listing_time_ms"], 1);
    assert!(json.get("contract_size").is_none());
    assert_eq!(json["capabilities"]["candle_1m"], true);
    assert_eq!(json["capabilities"]["candle_1m_finality"], "authoritative");
    let catalog = bybit_catalog();
    let json: serde_json::Value =
        serde_json::from_str(&wire::written(&wire::statuses_json(&catalog.statuses()))).unwrap();
    assert_eq!(json[0]["provider"], "bybit");
    assert_eq!(json[0]["enabled"], true);
    assert_eq!(json[1]["enabled"], false);
    assert!(json[0]["last_error"].is_null());
}

#[test]
fn the_values_of_records_may_stand_in_arrays() {
    let body = r#"[0,"OK",["linear","next",[["BTCUSDT","LinearPerpetual","Trading","BTC","USDT","USDT",
        "1584230400000","0",["0.10"],["0.001"],["100.00"]]]]]"#;
    let page = parse_bybit_page(body).unwrap();
    assert_eq!(page.next_page_cursor, "next");
    assert_eq!(page.instruments.len(), 1);
    assert_eq!(page.instruments[0].tick_size.as_str(), "0.10");
    assert_eq!(page.instruments[0].quantity_step.as_str(), "0.001");

    let body = r#"[[["ETHUSDT","PERPETUAL","TRADING","ETH","USDT","USDT",1,
        [["PRICE_FILTER","0.01",null],["LOT_SIZE",null,"0.001"]]]]]"#;
    let listing = parse_binance_catalog(body).unwrap();
    assert_eq!(listing.get("ETHUSDT").unwrap().tick_size.as_str(), "0.01");

    // The last field of an OKX instrument may be left out.
    let body = r#"["0","",[["BTC-USDT-SWAP","SWAP","live","BTC","USDT","USDT","linear","0.01","BTC",
        "0.1","0.01",null,null,null,"BTC-USDT"]]]"#;
    let listing = parse_okx_catalog(body).unwrap();
    assert_eq!(listing.get("BTC-USDT-SWAP").unwrap().quantity_step.as_str(), "0.01");

    // One KuCoin instrument as an array, and a list of such.
    let item = r#"["XBTUSDTM","FFWCSX","Open","XBT","USDT","USDT",null,null,0.1,1,0.001,null,false]"#;
    for data in [item.to_owned(), format!("[{item}]")] {
        let body = format!(r#"["200000",{data}]"#);
        let listing = parse_kucoin_catalog(&body).unwrap();
        assert_eq!(listing.len(), 1);
        assert_eq!(listing.get("XBTUSDTM").unwrap().tick_size.as_str(), "0.1");
    }
    assert!(parse_binance_catalog("[[],1]").is_err());
}

#[test]
fn a_field_that_comes_twice_makes_no_catalog() {
    let item = binance_item("ETHUSDT", FILTERS);
    let twice = item.replacen(
        r#""symbol":"ETHUSDT""#,
        r#""symbol":"ETHUSDT","symbol":"ETHUSDT""#,
        1,
    );
    let filter_twice = item.replacen(
        r#""tickSize":"0.01""#,
        r#""tickSize":"0.01","tickSize":"0.01""#,
        1,
    );
    assert!(parse_binance_catalog(&format!(r#"{{"symbols":[{item}]}}"#)).is_ok());
    assert!(parse_binance_catalog(&format!(r#"{{"symbols":[{twice}]}}"#)).is_err());
    assert!(parse_binance_catalog(&format!(r#"{{"symbols":[{filter_twice}]}}"#)).is_err());
    assert!(parse_binance_catalog(&format!(r#"{{"symbols":[],"symbols":[{item}]}}"#)).is_err());

    assert!(parse_okx_catalog(r#"{"code":"0","msg":"","data":[]}"#).is_ok());
    assert!(parse_okx_catalog(r#"{"code":"0","msg":"","msg":"","data":[]}"#).is_err());

    let item = bybit_item("BTCUSDT", "LinearPerpetual", "Trading");
    let twice = item.replacen(
        r#""tickSize":"0.10""#,
        r#""tickSize":"0.10","tickSize":"0.10""#,
        1,
    );
    assert!(parse_bybit_page(&bybit_payload(&[item], "")).is_ok());
    assert!(parse_bybit_page(&bybit_payload(&[twice], "")).is_err());

    let item = kucoin_item("XBTUSDTM", "Open", false, "null");
    let twice = item.replacen(r#""lotSize":1"#, r#""lotSize":1,"lotSize":1"#, 1);
    for (data, count) in [(format!("[{item}]"), 1), (item.clone(), 1)] {
        let listing = parse_kucoin_catalog(&format!(r#"{{"code":"200000","data":{data}}}"#));
        assert_eq!(listing.unwrap().len(), count);
    }
    for data in [format!("[{twice}]"), twice] {
        let error =
            parse_kucoin_catalog(&format!(r#"{{"code":"200000","data":{data}}}"#)).unwrap_err();
        assert!(matches!(error, CatalogError::InvalidPayload { .. }));
    }
}

#[test]
fn fields_that_no_record_has_are_read_over() {
    let deep = format!("{}{}", "[".repeat(500), "]".repeat(500));
    let item = binance_item("ETHUSDT", FILTERS);
    let listing = parse_binance_catalog(&format!(
        r#"{{"note":1,"note":{{"a":"\ud800"}},"deep":{deep},"symbols":[{item}],"note":"\ud800"}}"#
    ))
    .unwrap();
    assert_eq!(listing.len(), 1);
    // A document that holds one is no JSON all the same.
    assert!(parse_binance_catalog(r#"{"note":nope,"symbols":[]}"#).is_err());
    assert!(parse_binance_catalog(r#"{"symbols":[]} x"#).is_err());
    assert!(parse_binance_catalog(r#"{"symbols":[],}"#).is_err());
    assert_eq!(parse_binance_catalog(" {\"symbols\" : [ ] } ").unwrap().len(), 0);
    // What is put aside before it is told what it is has to be read whole.
    let item = kucoin_item("XBTUSDTM", "Open", false, "null");
    let odd = item.replacen('{', r#"{"note":"\ud800","#, 1);
    assert!(parse_kucoin_catalog(&format!(r#"{{"code":"200000","note":"\ud800","data":[{item}]}}"#))
        .is_ok());
    assert!(parse_kucoin_catalog(&format!(r#"{{"code":"200000","data":[{odd}]}}"#)).is_err());
}
