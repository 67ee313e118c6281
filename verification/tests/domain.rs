use market_stream_gateway::domain::{
    normalize_symbol, Candle, CandleFinality, Channel, DataQuality, DecimalValue, DomainError,
    MarketEvent, MarketKind, MarketPayload, ObservedDecimal, Provider, ProviderEvent,
    SourceSequence, Subscription, SubscriptionKey, Ticker, SCHEMA_VERSION,
};
use market_stream_gateway::text;
use market_stream_gateway::wire;

fn document(text: &str) -> serde_json::Value {
    serde_json::from_str(text).unwrap()
}

fn ticker_event() -> MarketEvent {
    MarketEvent {
        schema_version: SCHEMA_VERSION,
        stream_epoch: 0,
        delivery_sequence: 7,
        connection_epoch: 0,
        instrument_id: "binance:linear_perpetual:BTCUSDT".to_owned(),
        provider: Provider::Binance,
        market: MarketKind::LinearPerpetual,
        symbol: "BTCUSDT".to_owned(),
        exchange_time_ms: Some(1_700_000_000_001),
        gateway_received_time_ms: 1_700_000_000_002,
        source_sequence: None,
        payload: MarketPayload::Ticker(Ticker {
            last: Some(ObservedDecimal::new("42000.10", 1_700_000_000_001).unwrap()),
            mark: Some(ObservedDecimal::new("41999.90", 1_700_000_000_000).unwrap()),
            ..Ticker::default()
        }),
    }
}

fn candle() -> Candle {
    Candle {
        interval: "1m".to_owned(),
        start_time_ms: 60_000,
        end_time_ms: 120_000,
        open: DecimalValue::new("1").unwrap(),
        high: DecimalValue::new("3").unwrap(),
        low: DecimalValue::new("0.5").unwrap(),
        close: DecimalValue::new("2").unwrap(),
        base_volume: Some(DecimalValue::new("10").unwrap()),
        quote_volume: None,
        contract_volume: None,
        finality: CandleFinality::Unknown,
        data_quality: vec![DataQuality::ProviderVolumeUntrusted],
    }
}

#[test]
fn subscription_keys_are_normalized_and_deduplicated() {
    let keys = Subscription {
        provider: Provider::Okx,
        market: MarketKind::LinearPerpetual,
        symbol: " btc-usdt-swap ".to_owned(),
        channels: vec![Channel::Ticker, Channel::Ticker, Channel::Candle1m],
    }
    .into_keys()
    .unwrap();

    assert_eq!(keys.len(), 2);
    assert_eq!(keys[0].symbol, "BTC-USDT-SWAP");
    assert_eq!(
        keys[0].instrument_id(),
        "okx:linear_perpetual:BTC-USDT-SWAP"
    );
}

#[test]
fn symbols_are_strictly_validated() {
    assert_eq!(normalize_symbol("ethusdt").unwrap(), "ETHUSDT");
    assert!(matches!(
        normalize_symbol("BTC/USDT"),
        Err(DomainError::InvalidSymbol(_))
    ));
}

#[test]
fn decimal_values_remain_json_strings() {
    let value = DecimalValue::new("0.0000000100").unwrap();
    assert_eq!(value.as_str(), "0.0000000100");
    let mut event = ticker_event();
    event.payload = MarketPayload::Ticker(Ticker {
        last: Some(ObservedDecimal {
            value,
            observed_at_ms: 1,
        }),
        ..Ticker::default()
    });
    let json = document(&wire::event_text(&event));
    assert_eq!(
        json["data"]["last"]["value"],
        serde_json::Value::String("0.0000000100".to_owned())
    );
    assert!(DecimalValue::new("NaN").is_err());
}

#[test]
fn event_contract_is_provider_neutral() {
    let json = document(&wire::event_text(&ticker_event()));
    assert_eq!(json["schema_version"], 1);
    assert_eq!(json["type"], "ticker");
    assert_eq!(json["provider"], "binance");
    assert_eq!(json["data"]["last"]["value"], "42000.10");
    assert!(json["data"].get("bid").is_none());
}

#[test]
fn event_text_is_exact() {
    assert_eq!(
        wire::event_text(&ticker_event()),
        concat_lines(&[
            r#"{"schema_version":1,"stream_epoch":"00000000-0000-0000-0000-000000000000","#,
            r#""delivery_sequence":7,"connection_epoch":"00000000-0000-0000-0000-000000000000","#,
            r#""instrument_id":"binance:linear_perpetual:BTCUSDT","provider":"binance","#,
            r#""market":"linear_perpetual","symbol":"BTCUSDT","#,
            r#""exchange_time_ms":1700000000001,"gateway_received_time_ms":1700000000002,"#,
            r#""type":"ticker","data":{"last":{"value":"42000.10","#,
            r#""observed_at_ms":1700000000001},"mark":{"value":"41999.90","#,
            r#""observed_at_ms":1700000000000}}}"#,
        ])
    );
}

fn concat_lines(lines: &[&str]) -> String {
    lines.concat()
}

#[test]
fn candle_events_leave_out_what_is_unknown() {
    let mut event = ticker_event();
    event.source_sequence = Some(SourceSequence {
        first: None,
        last: Some("9".to_owned()),
        previous: None,
    });
    event.payload = MarketPayload::Candle(candle());
    let json = document(&wire::event_text(&event));
    assert_eq!(json["type"], "candle");
    assert_eq!(json["source_sequence"]["last"], "9");
    assert!(json["source_sequence"].get("first").is_none());
    assert_eq!(json["data"]["interval"], "1m");
    assert_eq!(json["data"]["base_volume"], "10");
    assert!(json["data"].get("quote_volume").is_none());
    assert_eq!(json["data"]["finality"], "unknown");
    assert_eq!(json["data"]["data_quality"][0], "provider_volume_untrusted");
}

#[test]
fn identifiers_are_written_in_five_groups() {
    assert_eq!(
        wire::uuid_text(0x0198_fc9f_bba2_7f31_a567_0011_2233_4455),
        "0198fc9f-bba2-7f31-a567-001122334455"
    );
}

#[test]
fn normalizing_twice_is_normalizing_once() {
    for symbol in [" btcusdt ", "btc-usdt-swap", "a.b_c", "\u{5e01}usdt"] {
        let once = normalize_symbol(symbol).unwrap();
        assert_eq!(normalize_symbol(&once).unwrap(), once);
    }
}

#[test]
fn symbols_have_limits() {
    assert!(normalize_symbol("").is_err());
    assert!(normalize_symbol("   ").is_err());
    assert!(normalize_symbol(&"A".repeat(64)).is_ok());
    assert!(normalize_symbol(&"A".repeat(65)).is_err());
    assert_eq!(
        normalize_symbol("a b").unwrap_err().message(),
        "invalid venue symbol: a b"
    );
    assert_eq!(
        normalize_symbol("\u{3000}ethusdt\u{3000}").unwrap(),
        "ETHUSDT"
    );
}

#[test]
fn subscriptions_need_a_channel() {
    let error = Subscription {
        provider: Provider::Bybit,
        market: MarketKind::LinearPerpetual,
        symbol: "BTCUSDT".to_owned(),
        channels: Vec::new(),
    }
    .into_keys()
    .unwrap_err();
    assert_eq!(error, DomainError::NoChannels);
    assert_eq!(
        error.message(),
        "subscription must contain at least one channel"
    );
}

#[test]
fn keys_are_canonical() {
    let key = SubscriptionKey::new(
        Provider::Bybit,
        MarketKind::LinearPerpetual,
        " ethusdt",
        Channel::Ticker,
    )
    .unwrap();
    assert_eq!(key.symbol, "ETHUSDT");
    let again = SubscriptionKey::new(key.provider, key.market, &key.symbol, key.channel).unwrap();
    assert_eq!(again, key);
}

#[test]
fn decimals_are_refused_with_their_text() {
    let error = DecimalValue::new("1,5").unwrap_err();
    assert_eq!(error, DomainError::InvalidDecimal("1,5".to_owned()));
    assert_eq!(error.message(), "invalid decimal value: 1,5");
    assert!(ObservedDecimal::new("x", 1).is_err());
}

#[test]
fn events_are_validated_before_they_are_published() {
    let event = |payload: MarketPayload| ProviderEvent {
        connection_epoch: 1,
        provider: Provider::Bybit,
        market: MarketKind::LinearPerpetual,
        symbol: "BTCUSDT".to_owned(),
        exchange_time_ms: None,
        gateway_received_time_ms: 2,
        source_sequence: None,
        payload,
    };
    let empty = event(MarketPayload::Ticker(Ticker::default()));
    assert_eq!(empty.validate(), Err(DomainError::TickerWithoutPrice));
    let mut long = candle();
    long.end_time_ms += 1;
    let long = event(MarketPayload::Candle(long));
    assert_eq!(long.validate(), Err(DomainError::InvalidCandleWindow));
    let good = event(MarketPayload::Candle(candle()));
    assert!(good.validate().is_ok());
    assert_eq!(good.subscription_key().channel, Channel::Candle1m);
    let numbered = good.into_market_event(5, 9);
    assert_eq!(numbered.stream_epoch, 5);
    assert_eq!(numbered.delivery_sequence, 9);
    assert_eq!(numbered.instrument_id, "bybit:linear_perpetual:BTCUSDT");
    assert_eq!(numbered.subscription_key().symbol, "BTCUSDT");
}

#[test]
fn white_space_is_that_of_unicode() {
    for code in 0..=0x0010_FFFFu32 {
        if let Some(character) = char::from_u32(code) {
            assert_eq!(text::white(character), character.is_whitespace(), "{code:#x}");
        }
    }
}
