use market_stream_gateway::domain::{
    Candle, CandleFinality, DataQuality, DecimalValue, Provider, CANDLE_INTERVAL_MS,
};
use market_stream_gateway::history::fetch::{HistorySources, Retrieval};
use market_stream_gateway::history::payload::{
    check_answer, parse_binance, parse_bingx, parse_bingx_server_time, parse_bybit, parse_kucoin,
    parse_mexc, parse_mexc_server_time, parse_okx,
};
use market_stream_gateway::history::{
    finish_result, HistoryError, HistoryRequest, MAX_HISTORY_RANGE_MS,
};
use market_stream_gateway::wire;

const START: u64 = 1_800_000_000_000;

fn test_candle(start_time_ms: u64, close: &str) -> Candle {
    Candle {
        interval: "1m".to_owned(),
        start_time_ms,
        end_time_ms: start_time_ms + CANDLE_INTERVAL_MS,
        open: DecimalValue::new("1").unwrap(),
        high: DecimalValue::new("3").unwrap(),
        low: DecimalValue::new("0.5").unwrap(),
        close: DecimalValue::new(close).unwrap(),
        base_volume: None,
        quote_volume: None,
        contract_volume: None,
        finality: CandleFinality::Closed,
        data_quality: Vec::new(),
    }
}

#[test]
fn validates_exact_symbols_and_bounded_half_open_ranges() {
    assert!(HistoryRequest::new(Provider::Bybit, "BTCUSDT", START, START + 60_000, 1).is_ok());
    assert!(HistoryRequest::new(Provider::Okx, "BTC-USDT-SWAP", START, START + 60_000, 1).is_ok());
    assert!(HistoryRequest::new(Provider::Kucoin, "XBTUSDTM", START, START + 60_000, 1).is_ok());
    assert!(HistoryRequest::new(Provider::Binance, "btcusdt", START, START + 60_000, 1).is_err());
    assert!(HistoryRequest::new(
        Provider::Binance,
        "\u{5e01}\u{5b89}\u{4eba}\u{751f}USDT",
        START,
        START + 60_000,
        1,
    )
    .is_ok());
    assert!(HistoryRequest::new(
        Provider::Binance,
        "\u{5e01}\u{5b89}-\u{4eba}\u{751f}USDT",
        START,
        START + 60_000,
        1,
    )
    .is_err());
    assert!(HistoryRequest::new(Provider::Okx, "BTCUSDT", START, START + 60_000, 1).is_err());
    assert!(
        HistoryRequest::new(Provider::Bybit, "BTCUSDT", START + 1, START + 60_000, 1).is_err()
    );
    assert!(HistoryRequest::new(
        Provider::Bybit,
        "BTCUSDT",
        START,
        START + MAX_HISTORY_RANGE_MS + CANDLE_INTERVAL_MS,
        1,
    )
    .is_err());
}

#[test]
fn parses_bybit_reverse_rows_with_documented_linear_volume_units() {
    let body = format!(
        r#"{{"retCode":0,"retMsg":"OK","result":{{"symbol":"BTCUSDT","category":"linear","list":[["{}","2.0000","3.0","1.5","2.5","4.000","10.0000"],["{}","1.0000","2.0","0.5","2.0","3.000","5.0000"]]}},"time":{}}}"#,
        START + 60_000,
        START,
        START + 120_000,
    );
    let candles = parse_bybit(&body, "BTCUSDT").unwrap();
    assert_eq!(candles.len(), 2);
    assert_eq!(candles[0].base_volume.as_ref().unwrap().as_str(), "4.000");
    assert_eq!(
        candles[0].quote_volume.as_ref().unwrap().as_str(),
        "10.0000"
    );
    assert_eq!(candles[0].finality, CandleFinality::Closed);
    assert_eq!(candles[1].open.as_str(), "1.0000");
}

#[test]
fn parses_binance_close_time_and_usdm_volume_units_losslessly() {
    let body = format!(
        r#"[[{},"1.00000000","2.00000000","0.50000000","1.50000000","12.34000000",{},"18.510000000000000001",7,"1","2","0"]]"#,
        START,
        START + 59_999,
    );
    let candle = parse_binance(&body, START + 60_000).unwrap().remove(0);
    assert_eq!(candle.open.as_str(), "1.00000000");
    assert_eq!(
        candle.quote_volume.as_ref().unwrap().as_str(),
        "18.510000000000000001"
    );
    assert!(candle.contract_volume.is_none());
    assert_eq!(candle.finality, CandleFinality::Closed);
}

#[test]
fn rejects_binance_non_one_minute_close_time() {
    let body = format!(
        r#"[[{},"1","2","0.5","1.5","12",{},"18",7,"1","2","0"]]"#,
        START,
        START + 60_000,
    );
    assert!(parse_binance(&body, START + 120_000).is_err());
}

#[test]
fn parses_okx_confirm_and_all_three_documented_swap_volume_units() {
    let body = format!(
        r#"{{"code":"0","msg":"","data":[["{START}","1.0","2.0","0.5","1.5","123","0.0123","18.4500","1"]]}}"#,
    );
    let candle = parse_okx(&body).unwrap().remove(0);
    assert_eq!(candle.contract_volume.as_ref().unwrap().as_str(), "123");
    assert_eq!(candle.base_volume.as_ref().unwrap().as_str(), "0.0123");
    assert_eq!(candle.quote_volume.as_ref().unwrap().as_str(), "18.4500");
    assert_eq!(candle.finality, CandleFinality::Closed);
}

#[test]
fn kucoin_preserves_numeric_lexemes_but_omits_untrusted_volume_and_finality() {
    let body = format!(
        r#"{{"code":"200000","data":[[{START},1.0000000000000000001,2.0000000000000000002,0.5000000000000000003,1.5000000000000000004,602,69424.9528]]}}"#,
    );
    let candle = parse_kucoin(&body).unwrap().remove(0);
    assert_eq!(candle.open.as_str(), "1.0000000000000000001");
    assert_eq!(candle.close.as_str(), "1.5000000000000000004");
    assert!(candle.base_volume.is_none());
    assert!(candle.quote_volume.is_none());
    assert!(candle.contract_volume.is_none());
    assert_eq!(candle.finality, CandleFinality::Unknown);
    assert_eq!(
        candle.data_quality,
        vec![DataQuality::ProviderVolumeUntrusted]
    );
}

#[test]
fn parses_mexc_parallel_arrays_and_server_time_finality() {
    let start_seconds = START / 1_000;
    let body = format!(
        r#"{{"success":true,"code":0,"data":{{"time":[{start_seconds}],"open":[0.1400],"close":[0.1420],"high":[0.1430],"low":[0.1390],"vol":[12],"amount":[1.140119803232E7],"realOpen":[0.1400],"realClose":[0.1420],"realHigh":[0.1430],"realLow":[0.1390]}}}}"#,
    );

    let candle = parse_mexc(&body, START + CANDLE_INTERVAL_MS)
        .unwrap()
        .remove(0);

    assert_eq!(candle.open.as_str(), "0.1400");
    assert_eq!(candle.contract_volume.as_ref().unwrap().as_str(), "12");
    assert_eq!(
        candle.quote_volume.as_ref().unwrap().as_str(),
        "11401198.03232"
    );
    assert_eq!(candle.finality, CandleFinality::Closed);
    assert_eq!(
        parse_mexc_server_time(r#"{"success":true,"code":0,"data":1785558988408}"#).unwrap(),
        1_785_558_988_408
    );
}

#[test]
fn parses_bingx_object_rows_and_distinguishes_open_interval() {
    let body = format!(
        r#"{{"code":0,"msg":"","data":[{{"open":"0.1419","close":"0.1420","high":"0.1421","low":"0.1418","volume":"6835","time":{}}},{{"open":"0.1420","close":"0.1422","high":"0.1423","low":"0.1419","volume":"123","time":{}}}]}}"#,
        START,
        START + CANDLE_INTERVAL_MS,
    );

    let candles = parse_bingx(&body, START + 90_000).unwrap();

    assert_eq!(candles[0].finality, CandleFinality::Closed);
    assert_eq!(candles[1].finality, CandleFinality::Open);
    assert_eq!(candles[0].base_volume.as_ref().unwrap().as_str(), "6835");
    assert!(candles[0].quote_volume.is_none());
    let documented = format!(
        r#"{{"code":0,"msg":"","data":[[{START},"0.1419","0.1421","0.1418","0.1420","6835",{},"970.57",12,"3000","426.0"]]}}"#,
        START + CANDLE_INTERVAL_MS - 1,
    );
    let documented = parse_bingx(&documented, START + CANDLE_INTERVAL_MS)
        .unwrap()
        .remove(0);
    assert_eq!(documented.base_volume.as_ref().unwrap().as_str(), "6835");
    assert_eq!(documented.quote_volume.as_ref().unwrap().as_str(), "970.57");
    assert_eq!(
        parse_bingx_server_time(r#"{"code":0,"msg":"","data":{"serverTime":1785558987873}}"#)
            .unwrap(),
        1_785_558_987_873
    );
}

#[test]
fn surfaces_provider_response_codes() {
    assert!(matches!(
        parse_bybit(
            r#"{"retCode":10001,"retMsg":"bad symbol","result":{},"time":1}"#,
            "BTCUSDT"
        ),
        Err(HistoryError::ProviderRejected {
            provider: Provider::Bybit,
            code,
            ..
        }) if code == "10001"
    ));
    assert!(matches!(
        parse_okx(r#"{"code":"51000","msg":"bad instId","data":[]}"#),
        Err(HistoryError::ProviderRejected {
            provider: Provider::Okx,
            code,
            ..
        }) if code == "51000"
    ));
    assert!(matches!(
        parse_kucoin(r#"{"code":"400100","msg":"bad symbol","data":[]}"#),
        Err(HistoryError::ProviderRejected {
            provider: Provider::Kucoin,
            code,
            ..
        }) if code == "400100"
    ));
}

#[test]
fn ordering_deduplication_and_exclusive_end_are_deterministic() {
    let request =
        HistoryRequest::new(Provider::Bybit, "BTCUSDT", START, START + 120_000, 10).unwrap();
    let first = test_candle(START, "1");
    let second = test_candle(START + 60_000, "2");
    let outside = test_candle(START + 120_000, "3");
    let result = finish_result(
        &request,
        vec![second.clone(), first.clone(), second, outside],
    )
    .unwrap();
    assert_eq!(result.candles.len(), 2);
    assert_eq!(result.candles[0].candle, first);
    assert_eq!(result.candles[1].candle.start_time_ms, START + 60_000);
}

#[test]
fn conflicting_duplicates_are_refused_and_the_earliest_candles_are_kept() {
    let request =
        HistoryRequest::new(Provider::Bybit, "BTCUSDT", START, START + 180_000, 2).unwrap();
    let conflict = finish_result(
        &request,
        vec![test_candle(START, "1"), test_candle(START, "2")],
    );
    assert!(matches!(
        conflict,
        Err(HistoryError::InvalidPayload { provider: Provider::Bybit, .. })
    ));
    let result = finish_result(
        &request,
        vec![
            test_candle(START + 120_000, "3"),
            test_candle(START + 60_000, "2"),
            test_candle(START, "1"),
        ],
    )
    .unwrap();
    assert_eq!(result.candles.len(), 2);
    assert_eq!(result.candles[1].candle.start_time_ms, START + 60_000);
}

#[test]
fn kucoin_paginates_ranges_larger_than_five_hundred_minutes() {
    let end = START + 501 * CANDLE_INTERVAL_MS;
    let request = HistoryRequest::new(Provider::Kucoin, "XBTUSDTM", START, end, 10).unwrap();
    let sources = HistorySources {
        kucoin: "http://127.0.0.1:9/".to_owned(),
        ..HistorySources::default()
    };
    let mut retrieval = Retrieval::begin(request, &sources);
    let mut observed = Vec::new();
    while let Some(url) = retrieval.next_url().unwrap() {
        let url = url::Url::parse(&url).unwrap();
        assert_eq!(url.path(), "/api/v1/kline/query");
        let pairs: std::collections::BTreeMap<String, String> =
            url.query_pairs().into_owned().collect();
        let body = format!(
            r#"{{"code":"200000","data":[[{},1.0,2.0,0.5,1.5,10,15.0]]}}"#,
            pairs["from"]
        );
        observed.push(pairs);
        retrieval.take_answer(&body).unwrap();
    }
    let result = retrieval.finish().unwrap();

    assert_eq!(result.candles.len(), 2);
    assert_eq!(result.candles[0].candle.start_time_ms, START);
    assert_eq!(
        result.candles[1].candle.start_time_ms,
        START + 500 * CANDLE_INTERVAL_MS
    );
    assert_eq!(observed.len(), 2);
    assert_eq!(observed[0]["from"], START.to_string());
    assert_eq!(
        observed[0]["to"],
        (START + 500 * CANDLE_INTERVAL_MS - 1).to_string()
    );
    assert_eq!(
        observed[1]["from"],
        (START + 500 * CANDLE_INTERVAL_MS).to_string()
    );
    assert_eq!(observed[1]["to"], (end - 1).to_string());
}

#[test]
fn venues_with_a_clock_are_asked_for_it_first() {
    let request =
        HistoryRequest::new(Provider::Binance, "BTCUSDT", START, START + 60_000, 1).unwrap();
    let mut retrieval = Retrieval::begin(request, &HistorySources::default());
    assert_eq!(retrieval.provider(), Provider::Binance);
    assert_eq!(
        retrieval.next_url().unwrap().as_deref(),
        Some("https://fapi.binance.com/fapi/v1/time")
    );
    retrieval
        .take_answer(&format!(r#"{{"serverTime":{}}}"#, START + 60_000))
        .unwrap();
    let url = retrieval.next_url().unwrap().unwrap();
    assert!(url.starts_with("https://fapi.binance.com/fapi/v1/klines?symbol=BTCUSDT&interval=1m"));
    let body = format!(
        r#"[[{},"1","2","0.5","1.5","12",{},"18",7,"1","2","0"]]"#,
        START,
        START + 59_999
    );
    retrieval.take_answer(&body).unwrap();
    assert_eq!(retrieval.next_url().unwrap(), None);
    let result = retrieval.finish().unwrap();
    assert_eq!(result.candles.len(), 1);
    let json: serde_json::Value =
        serde_json::from_str(&wire::written(&wire::history_json(&result))).unwrap();
    assert_eq!(json["provider"], "binance");
    assert_eq!(json["candles"][0]["symbol"], "BTCUSDT");
    assert_eq!(json["candles"][0]["start_time_ms"], START);
    assert_eq!(json["candles"][0]["finality"], "closed");
}

#[test]
fn failed_answers_are_reported_with_what_the_venue_said() {
    let error = check_answer(Provider::Okx, 503, b"busy").unwrap_err();
    assert_eq!(
        error.message(),
        "okx history endpoint returned HTTP 503: busy"
    );
    let error = check_answer(Provider::Bybit, 400, br#"{"retCode":10001,"retMsg":"bad"}"#);
    assert!(matches!(
        error,
        Err(HistoryError::ProviderRejected { code, .. }) if code == "10001"
    ));
    assert!(check_answer(Provider::Bybit, 200, &[0xff]).is_err());
    assert!(check_answer(Provider::Bybit, 200, &vec![b' '; 4_194_305]).is_err());
    assert_eq!(check_answer(Provider::Bybit, 200, b"[]").unwrap(), "[]");
}

#[test]
fn the_values_of_an_answer_may_stand_in_an_array() {
    let seconds = START / 1_000;
    let body = format!(
        r#"[true,0,[[{seconds}],[0.1400],[0.1420],[0.1430],[0.1390],[12],[7]]]"#
    );
    let candle = parse_mexc(&body, START + CANDLE_INTERVAL_MS)
        .unwrap()
        .remove(0);
    assert_eq!(candle.open.as_str(), "0.1400");
    assert_eq!(candle.low.as_str(), "0.1390");
    assert_eq!(parse_mexc_server_time("[true,0,5]").unwrap(), 5);
    assert_eq!(parse_bingx_server_time(r#"[0,"",[9]]"#).unwrap(), 9);
    assert!(parse_bingx("[0,\"\",[]]", START).unwrap().is_empty());
    // A refusal needs no more than its code and words.
    assert!(matches!(
        parse_okx(r#"["51000","bad instId"]"#),
        Err(HistoryError::ProviderRejected { code, .. }) if code == "51000"
    ));
    assert!(parse_okx(r#"["0",[]]"#).is_err());
}

#[test]
fn a_field_that_comes_twice_makes_no_answer() {
    assert!(parse_okx(r#"{"code":"0","msg":"","data":[]}"#).unwrap().is_empty());
    assert!(parse_okx(r#"{"code":"0","msg":"","data":[],"data":[]}"#).is_err());
    assert!(parse_okx(r#"{"code":"0","code":"0","msg":"","data":[]}"#).is_err());
    // The header has no such field, and it is enough for a refusal.
    assert!(matches!(
        parse_okx(r#"{"code":"51000","msg":"bad","data":[],"data":[]}"#),
        Err(HistoryError::ProviderRejected { code, .. }) if code == "51000"
    ));
    assert!(parse_kucoin(r#"{"code":"200000","data":[],"data":[]}"#).is_err());
    assert!(parse_bybit(
        r#"{"retCode":0,"retMsg":"OK","result":{"symbol":"A","category":"linear","list":[],"list":[]},"time":1}"#,
        "A"
    )
    .is_err());
    assert!(parse_mexc_server_time(r#"{"success":true,"code":0,"data":5,"data":5}"#).is_err());
    assert!(parse_bingx_server_time(r#"{"code":0,"data":{"serverTime":9,"serverTime":9}}"#).is_err());
    let row = format!(
        r#"{{"open":"1","close":"1","high":"1","low":"1","volume":"1","time":{START},"note":1,"note":2}}"#
    );
    let body = format!(r#"{{"code":0,"data":[{row}],"note":"\ud800"}}"#);
    assert_eq!(parse_bingx(&body, START).unwrap().len(), 1);
    let twice = row.replacen(r#""low":"1""#, r#""low":"1","low":"1""#, 1);
    let error = parse_bingx(&format!(r#"{{"code":0,"data":[{twice}]}}"#), START).unwrap_err();
    assert!(error.message().contains("invalid object candle row: "));
    // The rows of a refusal are not looked at.
    assert!(matches!(
        parse_bingx(&format!(r#"{{"code":7,"msg":"no","data":[{twice},3]}}"#), START),
        Err(HistoryError::ProviderRejected { code, .. }) if code == "7"
    ));
}

#[test]
fn cells_are_kept_as_the_venue_writes_them() {
    let seconds = START / 1_000;
    let body = |amount: &str| {
        format!(
            r#"{{"success":true,"code":0,"data":{{"time":["{seconds}"],"open":[1.50],"close":[1],"high":[2],"low":["\u0031"],"vol":[ 12 ],"amount":[{amount}]}}}}"#
        )
    };
    let candle = parse_mexc(&body("1E7"), START).unwrap().remove(0);
    assert_eq!(candle.open.as_str(), "1.50");
    assert_eq!(candle.low.as_str(), "1");
    assert_eq!(candle.contract_volume.as_ref().unwrap().as_str(), "12");
    assert_eq!(candle.quote_volume.as_ref().unwrap().as_str(), "10000000");
    let error = parse_mexc(&body("1E999"), START).unwrap_err();
    assert!(error.message().contains("1E999"), "{}", error.message());
    let error = parse_mexc(&body(r#"{"a": 1}"#), START).unwrap_err();
    assert!(error.message().contains(r#"{"a": 1}"#), "{}", error.message());
    let error = parse_mexc(&body(r#""\ud800""#), START).unwrap_err();
    assert!(error.message().contains("invalid quote volume: "), "{}", error.message());

    // A cell that no candle needs may hold anything.
    let row = |odd: &str| {
        format!(
            r#"[[{START},"1","2","0.5","1.5","12",{},"18",7,"1",{odd},"0"]]"#,
            START + 59_999
        )
    };
    for odd in [r#""\ud800""#, "null", r#"{"a":1,"a":2}"#] {
        assert_eq!(parse_binance(&row(odd), START).unwrap().len(), 1, "{odd}");
    }
    assert!(parse_binance(&row("nope"), START).is_err());
    assert!(parse_binance("{}", START).is_err());
    assert!(parse_binance("[1]", START).is_err());
    assert!(parse_binance("[] x", START).is_err());
}

#[test]
fn bingx_rows_are_objects_or_arrays() {
    for (row, words) in [
        ("3", "candle row must be an object or array"),
        (r#""[1]""#, "candle row must be an object or array"),
        ("null", "candle row must be an object or array"),
        ("[1]", "candle row has 1 fields; expected 11"),
        ("{}", "invalid object candle row: "),
    ] {
        let error = parse_bingx(&format!(r#"{{"code":0,"data":[ {row} ]}}"#), START).unwrap_err();
        assert!(error.message().contains(words), "{row}: {}", error.message());
    }
}
