//! What the documents that go out say.
use vstd::prelude::*;

use crate::api::rest;
use crate::api::rest::Readiness;
use crate::catalog::{
    CandleFinalitySupport, CandleVolumeSupport, CatalogStatusView, InstrumentCapabilities,
    InstrumentView,
};
use crate::domain::{
    CandleFinality, CandleView, Channel, KeyView, MarketEventView, PayloadView, Provider,
    SequenceView,
};
use crate::health::{ConnectionState, HealthView};
use crate::history::{HistoryCandle, HistoryResult};
use crate::json;
use crate::json::JsonView;
use crate::protocol;
use crate::protocol::{ControlView, ErrorCode};
use crate::wire;

verus! {

/// The name of a venue.
pub open spec fn venue(provider: Provider) -> Seq<char> {
    match provider {
        Provider::Bybit => "bybit"@,
        Provider::Binance => "binance"@,
        Provider::Okx => "okx"@,
        Provider::Kucoin => "kucoin"@,
        Provider::Mexc => "mexc"@,
        Provider::Bingx => "bingx"@,
    }
}

/// A text, where there is one.
pub open spec fn some_text(text: Option<Seq<char>>) -> Option<JsonView> {
    match text {
        Some(text) => Some(JsonView::Text(text)),
        None => None,
    }
}

/// A number, where there is one.
pub open spec fn some_number(n: Option<u64>) -> Option<JsonView> {
    match n {
        Some(n) => Some(json::unsigned_document(n)),
        None => None,
    }
}

/// A number or nothing.
pub open spec fn number_or_null(n: Option<u64>) -> JsonView {
    match n {
        Some(n) => json::unsigned_document(n),
        None => JsonView::Null,
    }
}

/// The last member is found where no earlier one has its name.
proof fn lemma_added(
    fields: Seq<(Seq<char>, JsonView)>,
    name: Seq<char>,
    value: JsonView,
    wanted: Seq<char>,
)
    ensures
        json::named(fields.push((name, value)), wanted) == match json::named(fields, wanted) {
            Some(found) => Some(found),
            None => if name == wanted {
                Some(value)
            } else {
                None
            },
        },
    decreases fields.len(),
{
    let longer = fields.push((name, value));
    if fields.len() > 0 {
        assert(longer.skip(1) =~= fields.skip(1).push((name, value)));
        lemma_added(fields.skip(1), name, value, wanted);
    } else {
        assert(longer.skip(1) =~= Seq::<(Seq<char>, JsonView)>::empty());
        reveal_with_fuel(json::named, 2);
    }
}

proof fn lemma_may_add(
    fields: Seq<(Seq<char>, JsonView)>,
    name: Seq<char>,
    value: Option<JsonView>,
    wanted: Seq<char>,
)
    ensures
        json::named(
            match value {
                Some(value) => fields.push((name, value)),
                None => fields,
            },
            wanted,
        ) == match json::named(fields, wanted) {
            Some(found) => Some(found),
            None => if name == wanted {
                value
            } else {
                None
            },
        },
{
    if let Some(value) = value {
        lemma_added(fields, name, value, wanted);
    }
}

/// Of several members with one name, the first one counts: every earlier one has another name.
pub proof fn law_the_first_member_counts(
    members: Seq<(Seq<char>, JsonView)>,
    name: Seq<char>,
    i: int,
)
    requires
        0 <= i < members.len(),
        members[i].0 == name,
        forall|k: int| 0 <= k < i ==> (#[trigger] members[k]).0 != name,
    ensures
        json::member_of(JsonView::Object(members), name) == Some(members[i].1),
    decreases i,
{
    if i > 0 {
        assert(members[0].0 != name);
        assert(members.skip(1)[i - 1] == members[i]);
        assert forall|k: int| 0 <= k < i - 1 implies (#[trigger] members.skip(1)[k]).0 != name by {
            assert(members.skip(1)[k] == members[k + 1]);
        }
        law_the_first_member_counts(members.skip(1), name, i - 1);
    }
}

/// A name that no member has is not found.
pub proof fn law_absent_members_are_not_found(members: Seq<(Seq<char>, JsonView)>, name: Seq<char>)
    requires
        forall|k: int| 0 <= k < members.len() ==> (#[trigger] members[k]).0 != name,
    ensures
        json::member_of(JsonView::Object(members), name) is None,
    decreases members.len(),
{
    if members.len() > 0 {
        assert(members[0].0 != name);
        assert forall|k: int| 0 <= k < members.skip(1).len() implies (#[trigger] members.skip(
            1,
        )[k]).0 != name by {
            assert(members.skip(1)[k] == members[k + 1]);
        }
        law_absent_members_are_not_found(members.skip(1), name);
    }
}

/// The document of a number has just that number, in decimal digits.
pub proof fn law_numbers_are_written_in_digits(n: u64)
    ensures
        match json::unsigned_document(n) {
            JsonView::Number(number) => number.unsigned == Some(n) && number.text
                == crate::text::digits(n as nat),
            _ => false,
        },
{
}

/// The name of a finality.
pub open spec fn finality(finality: CandleFinality) -> Seq<char> {
    match finality {
        CandleFinality::Open => "open"@,
        CandleFinality::Closed => "closed"@,
        CandleFinality::Unknown => "unknown"@,
    }
}

/// The remarks on the data of a candle, where there are any.
pub open spec fn quality(candle: CandleView) -> Option<JsonView> {
    if candle.data_quality.len() == 0 {
        None
    } else {
        Some(
            JsonView::List(
                Seq::new(
                    candle.data_quality.len(),
                    |i: int| JsonView::Text("provider_volume_untrusted"@),
                ),
            ),
        )
    }
}

proof fn lemma_key(key: KeyView, wanted: Seq<char>)
    ensures
        json::member_of(wire::key_document(key), wanted) == if wanted == "provider"@ {
            Some(JsonView::Text(venue(key.provider)))
        } else if wanted == "market"@ {
            Some(JsonView::Text("linear_perpetual"@))
        } else if wanted == "symbol"@ {
            Some(JsonView::Text(key.symbol))
        } else if wanted == "channel"@ {
            Some(JsonView::Text(match key.channel {
                Channel::Ticker => "ticker"@,
                Channel::Candle1m => "candle_1m"@,
            }))
        } else {
            None
        },
{
    let part0 = Seq::<(Seq<char>, JsonView)>::empty().push(("provider"@, JsonView::Text(venue(key.provider))));
    lemma_added(Seq::<(Seq<char>, JsonView)>::empty(), "provider"@, JsonView::Text(venue(key.provider)), wanted);
    let part1 = part0.push(("market"@, JsonView::Text("linear_perpetual"@)));
    lemma_added(part0, "market"@, JsonView::Text("linear_perpetual"@), wanted);
    let part2 = part1.push(("symbol"@, JsonView::Text(key.symbol)));
    lemma_added(part1, "symbol"@, JsonView::Text(key.symbol), wanted);
    let part3 = part2.push(("channel"@, JsonView::Text(match key.channel {
                Channel::Ticker => "ticker"@,
                Channel::Candle1m => "candle_1m"@,
            })));
    lemma_added(part2, "channel"@, JsonView::Text(match key.channel {
                Channel::Ticker => "ticker"@,
                Channel::Candle1m => "candle_1m"@,
            }), wanted);
    assert(wire::key_document(key) == JsonView::Object(part3));
}

/// The document of a key names its venue, its market, its symbol and its channel.
pub proof fn law_keys_are_told(key: KeyView)
    ensures
        ({
            let shown = wire::key_document(key);
            &&& json::member_of(shown, "provider"@) == Some(JsonView::Text(venue(key.provider)))
            &&& json::member_of(shown, "market"@) == Some(JsonView::Text("linear_perpetual"@))
            &&& json::member_of(shown, "symbol"@) == Some(JsonView::Text(key.symbol))
            &&& json::member_of(shown, "channel"@) == Some(JsonView::Text(match key.channel {
                Channel::Ticker => "ticker"@,
                Channel::Candle1m => "candle_1m"@,
            }))
        }),
{
    lemma_key(key, "provider"@);
    lemma_key(key, "market"@);
    lemma_key(key, "symbol"@);
    lemma_key(key, "channel"@);
    reveal_strlit("provider");
    reveal_strlit("market");
    reveal_strlit("symbol");
    reveal_strlit("channel");
    assert("provider"@.len() == 8);
    assert("market"@.len() == 6);
    assert("symbol"@.len() == 6);
    assert("channel"@.len() == 7);
    assert("symbol"@[0] == 's' && "market"@[0] == 'm');
}

proof fn lemma_candle(candle: CandleView, wanted: Seq<char>)
    ensures
        json::member_of(JsonView::Object(
            wire::with_candle(Seq::<(Seq<char>, JsonView)>::empty(), candle),
        ), wanted) == if wanted == "interval"@ {
            Some(JsonView::Text(candle.interval))
        } else if wanted == "start_time_ms"@ {
            Some(json::unsigned_document(candle.start_time_ms))
        } else if wanted == "end_time_ms"@ {
            Some(json::unsigned_document(candle.end_time_ms))
        } else if wanted == "open"@ {
            Some(JsonView::Text(candle.open))
        } else if wanted == "high"@ {
            Some(JsonView::Text(candle.high))
        } else if wanted == "low"@ {
            Some(JsonView::Text(candle.low))
        } else if wanted == "close"@ {
            Some(JsonView::Text(candle.close))
        } else if wanted == "base_volume"@ && (some_text(candle.base_volume)) is Some {
            some_text(candle.base_volume)
        } else if wanted == "quote_volume"@ && (some_text(candle.quote_volume)) is Some {
            some_text(candle.quote_volume)
        } else if wanted == "contract_volume"@ && (some_text(candle.contract_volume)) is Some {
            some_text(candle.contract_volume)
        } else if wanted == "finality"@ {
            Some(JsonView::Text(finality(candle.finality)))
        } else if wanted == "data_quality"@ && (quality(candle)) is Some {
            quality(candle)
        } else {
            None
        },
{
    let part0 = Seq::<(Seq<char>, JsonView)>::empty().push(("interval"@, JsonView::Text(candle.interval)));
    lemma_added(Seq::<(Seq<char>, JsonView)>::empty(), "interval"@, JsonView::Text(candle.interval), wanted);
    let part1 = part0.push(("start_time_ms"@, json::unsigned_document(candle.start_time_ms)));
    lemma_added(part0, "start_time_ms"@, json::unsigned_document(candle.start_time_ms), wanted);
    let part2 = part1.push(("end_time_ms"@, json::unsigned_document(candle.end_time_ms)));
    lemma_added(part1, "end_time_ms"@, json::unsigned_document(candle.end_time_ms), wanted);
    let part3 = part2.push(("open"@, JsonView::Text(candle.open)));
    lemma_added(part2, "open"@, JsonView::Text(candle.open), wanted);
    let part4 = part3.push(("high"@, JsonView::Text(candle.high)));
    lemma_added(part3, "high"@, JsonView::Text(candle.high), wanted);
    let part5 = part4.push(("low"@, JsonView::Text(candle.low)));
    lemma_added(part4, "low"@, JsonView::Text(candle.low), wanted);
    let part6 = part5.push(("close"@, JsonView::Text(candle.close)));
    lemma_added(part5, "close"@, JsonView::Text(candle.close), wanted);
    let part7 = match some_text(candle.base_volume) {
        Some(value) => part6.push(("base_volume"@, value)),
        None => part6,
    };
    lemma_may_add(part6, "base_volume"@, some_text(candle.base_volume), wanted);
    let part8 = match some_text(candle.quote_volume) {
        Some(value) => part7.push(("quote_volume"@, value)),
        None => part7,
    };
    lemma_may_add(part7, "quote_volume"@, some_text(candle.quote_volume), wanted);
    let part9 = match some_text(candle.contract_volume) {
        Some(value) => part8.push(("contract_volume"@, value)),
        None => part8,
    };
    lemma_may_add(part8, "contract_volume"@, some_text(candle.contract_volume), wanted);
    let part10 = part9.push(("finality"@, JsonView::Text(finality(candle.finality))));
    lemma_added(part9, "finality"@, JsonView::Text(finality(candle.finality)), wanted);
    let part11 = match quality(candle) {
        Some(value) => part10.push(("data_quality"@, value)),
        None => part10,
    };
    lemma_may_add(part10, "data_quality"@, quality(candle), wanted);
    assert(JsonView::Object(
            wire::with_candle(Seq::<(Seq<char>, JsonView)>::empty(), candle),
        ) == JsonView::Object(part11));
}

/// The document of a candle has its bounds and each price under its own name. Volumes that are not known
/// are left out.
pub proof fn law_candles_are_told(candle: CandleView)
    ensures
        ({
            let shown = JsonView::Object(
            wire::with_candle(Seq::<(Seq<char>, JsonView)>::empty(), candle),
        );
            &&& json::member_of(shown, "interval"@) == Some(JsonView::Text(candle.interval))
            &&& json::member_of(shown, "start_time_ms"@) == Some(json::unsigned_document(candle.start_time_ms))
            &&& json::member_of(shown, "end_time_ms"@) == Some(json::unsigned_document(candle.end_time_ms))
            &&& json::member_of(shown, "open"@) == Some(JsonView::Text(candle.open))
            &&& json::member_of(shown, "high"@) == Some(JsonView::Text(candle.high))
            &&& json::member_of(shown, "low"@) == Some(JsonView::Text(candle.low))
            &&& json::member_of(shown, "close"@) == Some(JsonView::Text(candle.close))
            &&& json::member_of(shown, "base_volume"@) == some_text(candle.base_volume)
            &&& json::member_of(shown, "quote_volume"@) == some_text(candle.quote_volume)
            &&& json::member_of(shown, "contract_volume"@) == some_text(candle.contract_volume)
            &&& json::member_of(shown, "finality"@) == Some(JsonView::Text(finality(candle.finality)))
            &&& json::member_of(shown, "data_quality"@) == quality(candle)
        }),
{
    lemma_candle(candle, "interval"@);
    lemma_candle(candle, "start_time_ms"@);
    lemma_candle(candle, "end_time_ms"@);
    lemma_candle(candle, "open"@);
    lemma_candle(candle, "high"@);
    lemma_candle(candle, "low"@);
    lemma_candle(candle, "close"@);
    lemma_candle(candle, "base_volume"@);
    lemma_candle(candle, "quote_volume"@);
    lemma_candle(candle, "contract_volume"@);
    lemma_candle(candle, "finality"@);
    lemma_candle(candle, "data_quality"@);
    reveal_strlit("interval");
    reveal_strlit("start_time_ms");
    reveal_strlit("end_time_ms");
    reveal_strlit("open");
    reveal_strlit("high");
    reveal_strlit("low");
    reveal_strlit("close");
    reveal_strlit("base_volume");
    reveal_strlit("quote_volume");
    reveal_strlit("contract_volume");
    reveal_strlit("finality");
    reveal_strlit("data_quality");
    assert("interval"@.len() == 8);
    assert("start_time_ms"@.len() == 13);
    assert("end_time_ms"@.len() == 11);
    assert("open"@.len() == 4);
    assert("high"@.len() == 4);
    assert("low"@.len() == 3);
    assert("close"@.len() == 5);
    assert("base_volume"@.len() == 11);
    assert("quote_volume"@.len() == 12);
    assert("contract_volume"@.len() == 15);
    assert("finality"@.len() == 8);
    assert("data_quality"@.len() == 12);
    assert("high"@[0] == 'h' && "open"@[0] == 'o');
    assert("base_volume"@[0] == 'b' && "end_time_ms"@[0] == 'e');
    assert("finality"@[0] == 'f' && "interval"@[0] == 'i');
    assert("data_quality"@[0] == 'd' && "quote_volume"@[0] == 'q');
}

proof fn lemma_history_candle(item: HistoryCandle, wanted: Seq<char>)
    ensures
        json::member_of(wire::history_candle_document(item), wanted) == if wanted == "provider"@ {
            Some(JsonView::Text(venue(item.provider)))
        } else if wanted == "market"@ {
            Some(JsonView::Text("linear_perpetual"@))
        } else if wanted == "symbol"@ {
            Some(JsonView::Text(item.symbol@))
        } else if wanted == "interval"@ {
            Some(JsonView::Text(item.candle@.interval))
        } else if wanted == "start_time_ms"@ {
            Some(json::unsigned_document(item.candle@.start_time_ms))
        } else if wanted == "end_time_ms"@ {
            Some(json::unsigned_document(item.candle@.end_time_ms))
        } else if wanted == "open"@ {
            Some(JsonView::Text(item.candle@.open))
        } else if wanted == "high"@ {
            Some(JsonView::Text(item.candle@.high))
        } else if wanted == "low"@ {
            Some(JsonView::Text(item.candle@.low))
        } else if wanted == "close"@ {
            Some(JsonView::Text(item.candle@.close))
        } else if wanted == "base_volume"@ && (some_text(item.candle@.base_volume)) is Some {
            some_text(item.candle@.base_volume)
        } else if wanted == "quote_volume"@ && (some_text(item.candle@.quote_volume)) is Some {
            some_text(item.candle@.quote_volume)
        } else if wanted == "contract_volume"@ && (some_text(item.candle@.contract_volume)) is Some {
            some_text(item.candle@.contract_volume)
        } else if wanted == "finality"@ {
            Some(JsonView::Text(finality(item.candle@.finality)))
        } else if wanted == "data_quality"@ && (quality(item.candle@)) is Some {
            quality(item.candle@)
        } else {
            None
        },
{
    let part0 = Seq::<(Seq<char>, JsonView)>::empty().push(("provider"@, JsonView::Text(venue(item.provider))));
    lemma_added(Seq::<(Seq<char>, JsonView)>::empty(), "provider"@, JsonView::Text(venue(item.provider)), wanted);
    let part1 = part0.push(("market"@, JsonView::Text("linear_perpetual"@)));
    lemma_added(part0, "market"@, JsonView::Text("linear_perpetual"@), wanted);
    let part2 = part1.push(("symbol"@, JsonView::Text(item.symbol@)));
    lemma_added(part1, "symbol"@, JsonView::Text(item.symbol@), wanted);
    let part3 = part2.push(("interval"@, JsonView::Text(item.candle@.interval)));
    lemma_added(part2, "interval"@, JsonView::Text(item.candle@.interval), wanted);
    let part4 = part3.push(("start_time_ms"@, json::unsigned_document(item.candle@.start_time_ms)));
    lemma_added(part3, "start_time_ms"@, json::unsigned_document(item.candle@.start_time_ms), wanted);
    let part5 = part4.push(("end_time_ms"@, json::unsigned_document(item.candle@.end_time_ms)));
    lemma_added(part4, "end_time_ms"@, json::unsigned_document(item.candle@.end_time_ms), wanted);
    let part6 = part5.push(("open"@, JsonView::Text(item.candle@.open)));
    lemma_added(part5, "open"@, JsonView::Text(item.candle@.open), wanted);
    let part7 = part6.push(("high"@, JsonView::Text(item.candle@.high)));
    lemma_added(part6, "high"@, JsonView::Text(item.candle@.high), wanted);
    let part8 = part7.push(("low"@, JsonView::Text(item.candle@.low)));
    lemma_added(part7, "low"@, JsonView::Text(item.candle@.low), wanted);
    let part9 = part8.push(("close"@, JsonView::Text(item.candle@.close)));
    lemma_added(part8, "close"@, JsonView::Text(item.candle@.close), wanted);
    let part10 = match some_text(item.candle@.base_volume) {
        Some(value) => part9.push(("base_volume"@, value)),
        None => part9,
    };
    lemma_may_add(part9, "base_volume"@, some_text(item.candle@.base_volume), wanted);
    let part11 = match some_text(item.candle@.quote_volume) {
        Some(value) => part10.push(("quote_volume"@, value)),
        None => part10,
    };
    lemma_may_add(part10, "quote_volume"@, some_text(item.candle@.quote_volume), wanted);
    let part12 = match some_text(item.candle@.contract_volume) {
        Some(value) => part11.push(("contract_volume"@, value)),
        None => part11,
    };
    lemma_may_add(part11, "contract_volume"@, some_text(item.candle@.contract_volume), wanted);
    let part13 = part12.push(("finality"@, JsonView::Text(finality(item.candle@.finality))));
    lemma_added(part12, "finality"@, JsonView::Text(finality(item.candle@.finality)), wanted);
    let part14 = match quality(item.candle@) {
        Some(value) => part13.push(("data_quality"@, value)),
        None => part13,
    };
    lemma_may_add(part13, "data_quality"@, quality(item.candle@), wanted);
    assert(wire::history_candle_document(item) == JsonView::Object(part14));
}

/// The document of a candle of a history names the instrument, and has each price under its own name.
pub proof fn law_history_candles_are_told(item: HistoryCandle)
    ensures
        ({
            let shown = wire::history_candle_document(item);
            &&& json::member_of(shown, "provider"@) == Some(JsonView::Text(venue(item.provider)))
            &&& json::member_of(shown, "market"@) == Some(JsonView::Text("linear_perpetual"@))
            &&& json::member_of(shown, "symbol"@) == Some(JsonView::Text(item.symbol@))
            &&& json::member_of(shown, "interval"@) == Some(JsonView::Text(item.candle@.interval))
            &&& json::member_of(shown, "start_time_ms"@) == Some(json::unsigned_document(item.candle@.start_time_ms))
            &&& json::member_of(shown, "end_time_ms"@) == Some(json::unsigned_document(item.candle@.end_time_ms))
            &&& json::member_of(shown, "open"@) == Some(JsonView::Text(item.candle@.open))
            &&& json::member_of(shown, "high"@) == Some(JsonView::Text(item.candle@.high))
            &&& json::member_of(shown, "low"@) == Some(JsonView::Text(item.candle@.low))
            &&& json::member_of(shown, "close"@) == Some(JsonView::Text(item.candle@.close))
            &&& json::member_of(shown, "base_volume"@) == some_text(item.candle@.base_volume)
            &&& json::member_of(shown, "quote_volume"@) == some_text(item.candle@.quote_volume)
            &&& json::member_of(shown, "contract_volume"@) == some_text(item.candle@.contract_volume)
            &&& json::member_of(shown, "finality"@) == Some(JsonView::Text(finality(item.candle@.finality)))
            &&& json::member_of(shown, "data_quality"@) == quality(item.candle@)
        }),
{
    lemma_history_candle(item, "provider"@);
    lemma_history_candle(item, "market"@);
    lemma_history_candle(item, "symbol"@);
    lemma_history_candle(item, "interval"@);
    lemma_history_candle(item, "start_time_ms"@);
    lemma_history_candle(item, "end_time_ms"@);
    lemma_history_candle(item, "open"@);
    lemma_history_candle(item, "high"@);
    lemma_history_candle(item, "low"@);
    lemma_history_candle(item, "close"@);
    lemma_history_candle(item, "base_volume"@);
    lemma_history_candle(item, "quote_volume"@);
    lemma_history_candle(item, "contract_volume"@);
    lemma_history_candle(item, "finality"@);
    lemma_history_candle(item, "data_quality"@);
    reveal_strlit("provider");
    reveal_strlit("market");
    reveal_strlit("symbol");
    reveal_strlit("interval");
    reveal_strlit("start_time_ms");
    reveal_strlit("end_time_ms");
    reveal_strlit("open");
    reveal_strlit("high");
    reveal_strlit("low");
    reveal_strlit("close");
    reveal_strlit("base_volume");
    reveal_strlit("quote_volume");
    reveal_strlit("contract_volume");
    reveal_strlit("finality");
    reveal_strlit("data_quality");
    assert("provider"@.len() == 8);
    assert("market"@.len() == 6);
    assert("symbol"@.len() == 6);
    assert("interval"@.len() == 8);
    assert("start_time_ms"@.len() == 13);
    assert("end_time_ms"@.len() == 11);
    assert("open"@.len() == 4);
    assert("high"@.len() == 4);
    assert("low"@.len() == 3);
    assert("close"@.len() == 5);
    assert("base_volume"@.len() == 11);
    assert("quote_volume"@.len() == 12);
    assert("contract_volume"@.len() == 15);
    assert("finality"@.len() == 8);
    assert("data_quality"@.len() == 12);
    assert("symbol"@[0] == 's' && "market"@[0] == 'm');
    assert("interval"@[0] == 'i' && "provider"@[0] == 'p');
    assert("high"@[0] == 'h' && "open"@[0] == 'o');
    assert("base_volume"@[0] == 'b' && "end_time_ms"@[0] == 'e');
    assert("finality"@[0] == 'f' && "provider"@[0] == 'p');
    assert("finality"@[0] == 'f' && "interval"@[0] == 'i');
    assert("data_quality"@[0] == 'd' && "quote_volume"@[0] == 'q');
}

proof fn lemma_sequence(sequence: SequenceView, wanted: Seq<char>)
    ensures
        json::member_of(wire::sequence_document(sequence), wanted) == if wanted == "first"@ && (some_text(sequence.first)) is Some {
            some_text(sequence.first)
        } else if wanted == "last"@ && (some_text(sequence.last)) is Some {
            some_text(sequence.last)
        } else if wanted == "previous"@ && (some_text(sequence.previous)) is Some {
            some_text(sequence.previous)
        } else {
            None
        },
{
    let part0 = match some_text(sequence.first) {
        Some(value) => Seq::<(Seq<char>, JsonView)>::empty().push(("first"@, value)),
        None => Seq::<(Seq<char>, JsonView)>::empty(),
    };
    lemma_may_add(Seq::<(Seq<char>, JsonView)>::empty(), "first"@, some_text(sequence.first), wanted);
    let part1 = match some_text(sequence.last) {
        Some(value) => part0.push(("last"@, value)),
        None => part0,
    };
    lemma_may_add(part0, "last"@, some_text(sequence.last), wanted);
    let part2 = match some_text(sequence.previous) {
        Some(value) => part1.push(("previous"@, value)),
        None => part1,
    };
    lemma_may_add(part1, "previous"@, some_text(sequence.previous), wanted);
    assert(wire::sequence_document(sequence) == JsonView::Object(part2));
}

/// The document of a sequence has what the venue tells of it.
pub proof fn law_sequences_are_told(sequence: SequenceView)
    ensures
        ({
            let shown = wire::sequence_document(sequence);
            &&& json::member_of(shown, "first"@) == some_text(sequence.first)
            &&& json::member_of(shown, "last"@) == some_text(sequence.last)
            &&& json::member_of(shown, "previous"@) == some_text(sequence.previous)
        }),
{
    lemma_sequence(sequence, "first"@);
    lemma_sequence(sequence, "last"@);
    lemma_sequence(sequence, "previous"@);
    reveal_strlit("first");
    reveal_strlit("last");
    reveal_strlit("previous");
    assert("first"@.len() == 5);
    assert("last"@.len() == 4);
    assert("previous"@.len() == 8);
}

/// The document of a sequence, where there is one.
pub open spec fn some_sequence(sequence: Option<SequenceView>) -> Option<JsonView> {
    match sequence {
        Some(sequence) => Some(wire::sequence_document(sequence)),
        None => None,
    }
}

proof fn lemma_event(event: MarketEventView, wanted: Seq<char>)
    ensures
        json::member_of(wire::event_document(event), wanted) == if wanted == "schema_version"@ {
            Some(json::unsigned_document(event.schema_version as u64))
        } else if wanted == "stream_epoch"@ {
            Some(JsonView::Text(wire::uuid(event.stream_epoch)))
        } else if wanted == "delivery_sequence"@ {
            Some(json::unsigned_document(event.delivery_sequence))
        } else if wanted == "connection_epoch"@ {
            Some(JsonView::Text(wire::uuid(event.connection_epoch)))
        } else if wanted == "instrument_id"@ {
            Some(JsonView::Text(event.instrument_id))
        } else if wanted == "provider"@ {
            Some(JsonView::Text(venue(event.provider)))
        } else if wanted == "market"@ {
            Some(JsonView::Text("linear_perpetual"@))
        } else if wanted == "symbol"@ {
            Some(JsonView::Text(event.symbol))
        } else if wanted == "exchange_time_ms"@ && (some_number(event.exchange_time_ms)) is Some {
            some_number(event.exchange_time_ms)
        } else if wanted == "gateway_received_time_ms"@ {
            Some(json::unsigned_document(event.gateway_received_time_ms))
        } else if wanted == "source_sequence"@ && (some_sequence(event.source_sequence)) is Some {
            some_sequence(event.source_sequence)
        } else if wanted == "type"@ {
            Some(JsonView::Text(match event.payload {
                PayloadView::Ticker(_) => "ticker"@,
                PayloadView::Candle(_) => "candle"@,
            }))
        } else if wanted == "data"@ {
            Some(match event.payload {
                PayloadView::Ticker(ticker) => wire::ticker_document(ticker),
                PayloadView::Candle(candle) => JsonView::Object(
                    wire::with_candle(Seq::<(Seq<char>, JsonView)>::empty(), candle),
                ),
            })
        } else {
            None
        },
{
    let part0 = Seq::<(Seq<char>, JsonView)>::empty().push(("schema_version"@, json::unsigned_document(event.schema_version as u64)));
    lemma_added(Seq::<(Seq<char>, JsonView)>::empty(), "schema_version"@, json::unsigned_document(event.schema_version as u64), wanted);
    let part1 = part0.push(("stream_epoch"@, JsonView::Text(wire::uuid(event.stream_epoch))));
    lemma_added(part0, "stream_epoch"@, JsonView::Text(wire::uuid(event.stream_epoch)), wanted);
    let part2 = part1.push(("delivery_sequence"@, json::unsigned_document(event.delivery_sequence)));
    lemma_added(part1, "delivery_sequence"@, json::unsigned_document(event.delivery_sequence), wanted);
    let part3 = part2.push(("connection_epoch"@, JsonView::Text(wire::uuid(event.connection_epoch))));
    lemma_added(part2, "connection_epoch"@, JsonView::Text(wire::uuid(event.connection_epoch)), wanted);
    let part4 = part3.push(("instrument_id"@, JsonView::Text(event.instrument_id)));
    lemma_added(part3, "instrument_id"@, JsonView::Text(event.instrument_id), wanted);
    let part5 = part4.push(("provider"@, JsonView::Text(venue(event.provider))));
    lemma_added(part4, "provider"@, JsonView::Text(venue(event.provider)), wanted);
    let part6 = part5.push(("market"@, JsonView::Text("linear_perpetual"@)));
    lemma_added(part5, "market"@, JsonView::Text("linear_perpetual"@), wanted);
    let part7 = part6.push(("symbol"@, JsonView::Text(event.symbol)));
    lemma_added(part6, "symbol"@, JsonView::Text(event.symbol), wanted);
    let part8 = match some_number(event.exchange_time_ms) {
        Some(value) => part7.push(("exchange_time_ms"@, value)),
        None => part7,
    };
    lemma_may_add(part7, "exchange_time_ms"@, some_number(event.exchange_time_ms), wanted);
    let part9 = part8.push(("gateway_received_time_ms"@, json::unsigned_document(event.gateway_received_time_ms)));
    lemma_added(part8, "gateway_received_time_ms"@, json::unsigned_document(event.gateway_received_time_ms), wanted);
    let part10 = match some_sequence(event.source_sequence) {
        Some(value) => part9.push(("source_sequence"@, value)),
        None => part9,
    };
    lemma_may_add(part9, "source_sequence"@, some_sequence(event.source_sequence), wanted);
    let part11 = part10.push(("type"@, JsonView::Text(match event.payload {
                PayloadView::Ticker(_) => "ticker"@,
                PayloadView::Candle(_) => "candle"@,
            })));
    lemma_added(part10, "type"@, JsonView::Text(match event.payload {
                PayloadView::Ticker(_) => "ticker"@,
                PayloadView::Candle(_) => "candle"@,
            }), wanted);
    let part12 = part11.push(("data"@, match event.payload {
                PayloadView::Ticker(ticker) => wire::ticker_document(ticker),
                PayloadView::Candle(candle) => JsonView::Object(
                    wire::with_candle(Seq::<(Seq<char>, JsonView)>::empty(), candle),
                ),
            }));
    lemma_added(part11, "data"@, match event.payload {
                PayloadView::Ticker(ticker) => wire::ticker_document(ticker),
                PayloadView::Candle(candle) => JsonView::Object(
                    wire::with_candle(Seq::<(Seq<char>, JsonView)>::empty(), candle),
                ),
            }, wanted);
    assert(wire::event_document(event) == JsonView::Object(part12));
}

/// The document of an event has each part of its envelope under its own name, and its data under the name
/// of their kind.
pub proof fn law_events_are_told(event: MarketEventView)
    ensures
        ({
            let shown = wire::event_document(event);
            &&& json::member_of(shown, "schema_version"@) == Some(json::unsigned_document(event.schema_version as u64))
            &&& json::member_of(shown, "stream_epoch"@) == Some(JsonView::Text(wire::uuid(event.stream_epoch)))
            &&& json::member_of(shown, "delivery_sequence"@) == Some(json::unsigned_document(event.delivery_sequence))
            &&& json::member_of(shown, "connection_epoch"@) == Some(JsonView::Text(wire::uuid(event.connection_epoch)))
            &&& json::member_of(shown, "instrument_id"@) == Some(JsonView::Text(event.instrument_id))
            &&& json::member_of(shown, "provider"@) == Some(JsonView::Text(venue(event.provider)))
            &&& json::member_of(shown, "market"@) == Some(JsonView::Text("linear_perpetual"@))
            &&& json::member_of(shown, "symbol"@) == Some(JsonView::Text(event.symbol))
            &&& json::member_of(shown, "exchange_time_ms"@) == some_number(event.exchange_time_ms)
            &&& json::member_of(shown, "gateway_received_time_ms"@) == Some(json::unsigned_document(event.gateway_received_time_ms))
            &&& json::member_of(shown, "source_sequence"@) == some_sequence(event.source_sequence)
            &&& json::member_of(shown, "type"@) == Some(JsonView::Text(match event.payload {
                PayloadView::Ticker(_) => "ticker"@,
                PayloadView::Candle(_) => "candle"@,
            }))
            &&& json::member_of(shown, "data"@) == Some(match event.payload {
                PayloadView::Ticker(ticker) => wire::ticker_document(ticker),
                PayloadView::Candle(candle) => JsonView::Object(
                    wire::with_candle(Seq::<(Seq<char>, JsonView)>::empty(), candle),
                ),
            })
        }),
{
    lemma_event(event, "schema_version"@);
    lemma_event(event, "stream_epoch"@);
    lemma_event(event, "delivery_sequence"@);
    lemma_event(event, "connection_epoch"@);
    lemma_event(event, "instrument_id"@);
    lemma_event(event, "provider"@);
    lemma_event(event, "market"@);
    lemma_event(event, "symbol"@);
    lemma_event(event, "exchange_time_ms"@);
    lemma_event(event, "gateway_received_time_ms"@);
    lemma_event(event, "source_sequence"@);
    lemma_event(event, "type"@);
    lemma_event(event, "data"@);
    reveal_strlit("schema_version");
    reveal_strlit("stream_epoch");
    reveal_strlit("delivery_sequence");
    reveal_strlit("connection_epoch");
    reveal_strlit("instrument_id");
    reveal_strlit("provider");
    reveal_strlit("market");
    reveal_strlit("symbol");
    reveal_strlit("exchange_time_ms");
    reveal_strlit("gateway_received_time_ms");
    reveal_strlit("source_sequence");
    reveal_strlit("type");
    reveal_strlit("data");
    assert("schema_version"@.len() == 14);
    assert("stream_epoch"@.len() == 12);
    assert("delivery_sequence"@.len() == 17);
    assert("connection_epoch"@.len() == 16);
    assert("instrument_id"@.len() == 13);
    assert("provider"@.len() == 8);
    assert("market"@.len() == 6);
    assert("symbol"@.len() == 6);
    assert("exchange_time_ms"@.len() == 16);
    assert("gateway_received_time_ms"@.len() == 24);
    assert("source_sequence"@.len() == 15);
    assert("type"@.len() == 4);
    assert("data"@.len() == 4);
    assert("symbol"@[0] == 's' && "market"@[0] == 'm');
    assert("exchange_time_ms"@[0] == 'e' && "connection_epoch"@[0] == 'c');
    assert("data"@[0] == 'd' && "type"@[0] == 't');
}

proof fn lemma_history(result: HistoryResult, wanted: Seq<char>)
    ensures
        json::member_of(wire::history_document(result), wanted) == if wanted == "provider"@ {
            Some(JsonView::Text(venue(result.provider)))
        } else if wanted == "market"@ {
            Some(JsonView::Text("linear_perpetual"@))
        } else if wanted == "symbol"@ {
            Some(JsonView::Text(result.symbol@))
        } else if wanted == "start_time_ms"@ {
            Some(json::unsigned_document(result.start_time_ms))
        } else if wanted == "end_time_ms"@ {
            Some(json::unsigned_document(result.end_time_ms))
        } else if wanted == "candles"@ {
            Some(JsonView::List(
                Seq::new(
                    result.candles@.len(),
                    |i: int| wire::history_candle_document(result.candles@[i]),
                ),
            ))
        } else {
            None
        },
{
    let part0 = Seq::<(Seq<char>, JsonView)>::empty().push(("provider"@, JsonView::Text(venue(result.provider))));
    lemma_added(Seq::<(Seq<char>, JsonView)>::empty(), "provider"@, JsonView::Text(venue(result.provider)), wanted);
    let part1 = part0.push(("market"@, JsonView::Text("linear_perpetual"@)));
    lemma_added(part0, "market"@, JsonView::Text("linear_perpetual"@), wanted);
    let part2 = part1.push(("symbol"@, JsonView::Text(result.symbol@)));
    lemma_added(part1, "symbol"@, JsonView::Text(result.symbol@), wanted);
    let part3 = part2.push(("start_time_ms"@, json::unsigned_document(result.start_time_ms)));
    lemma_added(part2, "start_time_ms"@, json::unsigned_document(result.start_time_ms), wanted);
    let part4 = part3.push(("end_time_ms"@, json::unsigned_document(result.end_time_ms)));
    lemma_added(part3, "end_time_ms"@, json::unsigned_document(result.end_time_ms), wanted);
    let part5 = part4.push(("candles"@, JsonView::List(
                Seq::new(
                    result.candles@.len(),
                    |i: int| wire::history_candle_document(result.candles@[i]),
                ),
            )));
    lemma_added(part4, "candles"@, JsonView::List(
                Seq::new(
                    result.candles@.len(),
                    |i: int| wire::history_candle_document(result.candles@[i]),
                ),
            ), wanted);
    assert(wire::history_document(result) == JsonView::Object(part5));
}

/// The document of a history names the instrument and the bounds that were asked for, and has every candle
/// in its order.
pub proof fn law_histories_are_told(result: HistoryResult)
    ensures
        ({
            let shown = wire::history_document(result);
            &&& json::member_of(shown, "provider"@) == Some(JsonView::Text(venue(result.provider)))
            &&& json::member_of(shown, "market"@) == Some(JsonView::Text("linear_perpetual"@))
            &&& json::member_of(shown, "symbol"@) == Some(JsonView::Text(result.symbol@))
            &&& json::member_of(shown, "start_time_ms"@) == Some(json::unsigned_document(result.start_time_ms))
            &&& json::member_of(shown, "end_time_ms"@) == Some(json::unsigned_document(result.end_time_ms))
            &&& json::member_of(shown, "candles"@) == Some(JsonView::List(
                Seq::new(
                    result.candles@.len(),
                    |i: int| wire::history_candle_document(result.candles@[i]),
                ),
            ))
        }),
{
    lemma_history(result, "provider"@);
    lemma_history(result, "market"@);
    lemma_history(result, "symbol"@);
    lemma_history(result, "start_time_ms"@);
    lemma_history(result, "end_time_ms"@);
    lemma_history(result, "candles"@);
    reveal_strlit("provider");
    reveal_strlit("market");
    reveal_strlit("symbol");
    reveal_strlit("start_time_ms");
    reveal_strlit("end_time_ms");
    reveal_strlit("candles");
    assert("provider"@.len() == 8);
    assert("market"@.len() == 6);
    assert("symbol"@.len() == 6);
    assert("start_time_ms"@.len() == 13);
    assert("end_time_ms"@.len() == 11);
    assert("candles"@.len() == 7);
    assert("symbol"@[0] == 's' && "market"@[0] == 'm');
}

proof fn lemma_capabilities(features: InstrumentCapabilities, wanted: Seq<char>)
    ensures
        json::member_of(wire::capabilities_document(features), wanted) == if wanted == "ticker"@ {
            Some(JsonView::Bool(features.ticker))
        } else if wanted == "candle_1m"@ {
            Some(JsonView::Bool(features.candle_1m))
        } else if wanted == "candle_1m_finality"@ {
            Some(JsonView::Text(match features.candle_1m_finality {
                CandleFinalitySupport::Authoritative => "authoritative"@,
                CandleFinalitySupport::Unknown => "unknown"@,
            }))
        } else if wanted == "candle_1m_volume"@ {
            Some(JsonView::Text(match features.candle_1m_volume {
                CandleVolumeSupport::Available => "available"@,
                CandleVolumeSupport::Unavailable => "unavailable"@,
            }))
        } else {
            None
        },
{
    let part0 = Seq::<(Seq<char>, JsonView)>::empty().push(("ticker"@, JsonView::Bool(features.ticker)));
    lemma_added(Seq::<(Seq<char>, JsonView)>::empty(), "ticker"@, JsonView::Bool(features.ticker), wanted);
    let part1 = part0.push(("candle_1m"@, JsonView::Bool(features.candle_1m)));
    lemma_added(part0, "candle_1m"@, JsonView::Bool(features.candle_1m), wanted);
    let part2 = part1.push(("candle_1m_finality"@, JsonView::Text(match features.candle_1m_finality {
                CandleFinalitySupport::Authoritative => "authoritative"@,
                CandleFinalitySupport::Unknown => "unknown"@,
            })));
    lemma_added(part1, "candle_1m_finality"@, JsonView::Text(match features.candle_1m_finality {
                CandleFinalitySupport::Authoritative => "authoritative"@,
                CandleFinalitySupport::Unknown => "unknown"@,
            }), wanted);
    let part3 = part2.push(("candle_1m_volume"@, JsonView::Text(match features.candle_1m_volume {
                CandleVolumeSupport::Available => "available"@,
                CandleVolumeSupport::Unavailable => "unavailable"@,
            })));
    lemma_added(part2, "candle_1m_volume"@, JsonView::Text(match features.candle_1m_volume {
                CandleVolumeSupport::Available => "available"@,
                CandleVolumeSupport::Unavailable => "unavailable"@,
            }), wanted);
    assert(wire::capabilities_document(features) == JsonView::Object(part3));
}

/// The document of what streams can do says it under their own names.
pub proof fn law_capabilities_are_told(features: InstrumentCapabilities)
    ensures
        ({
            let shown = wire::capabilities_document(features);
            &&& json::member_of(shown, "ticker"@) == Some(JsonView::Bool(features.ticker))
            &&& json::member_of(shown, "candle_1m"@) == Some(JsonView::Bool(features.candle_1m))
            &&& json::member_of(shown, "candle_1m_finality"@) == Some(JsonView::Text(match features.candle_1m_finality {
                CandleFinalitySupport::Authoritative => "authoritative"@,
                CandleFinalitySupport::Unknown => "unknown"@,
            }))
            &&& json::member_of(shown, "candle_1m_volume"@) == Some(JsonView::Text(match features.candle_1m_volume {
                CandleVolumeSupport::Available => "available"@,
                CandleVolumeSupport::Unavailable => "unavailable"@,
            }))
        }),
{
    lemma_capabilities(features, "ticker"@);
    lemma_capabilities(features, "candle_1m"@);
    lemma_capabilities(features, "candle_1m_finality"@);
    lemma_capabilities(features, "candle_1m_volume"@);
    reveal_strlit("ticker");
    reveal_strlit("candle_1m");
    reveal_strlit("candle_1m_finality");
    reveal_strlit("candle_1m_volume");
    assert("ticker"@.len() == 6);
    assert("candle_1m"@.len() == 9);
    assert("candle_1m_finality"@.len() == 18);
    assert("candle_1m_volume"@.len() == 16);
}

proof fn lemma_instrument(instrument: InstrumentView, wanted: Seq<char>)
    ensures
        json::member_of(wire::instrument_document(instrument), wanted) == if wanted == "instrument_id"@ {
            Some(JsonView::Text(instrument.instrument_id))
        } else if wanted == "symbol"@ {
            Some(JsonView::Text(instrument.symbol))
        } else if wanted == "provider"@ {
            Some(JsonView::Text(venue(instrument.provider)))
        } else if wanted == "market"@ {
            Some(JsonView::Text("linear_perpetual"@))
        } else if wanted == "base_asset"@ {
            Some(JsonView::Text(instrument.base_asset))
        } else if wanted == "quote_asset"@ {
            Some(JsonView::Text(instrument.quote_asset))
        } else if wanted == "settle_asset"@ {
            Some(JsonView::Text(instrument.settle_asset))
        } else if wanted == "status"@ {
            Some(JsonView::Text("live"@))
        } else if wanted == "venue_status"@ {
            Some(JsonView::Text(instrument.venue_status))
        } else if wanted == "tick_size"@ {
            Some(JsonView::Text(instrument.tick_size))
        } else if wanted == "quantity_step"@ {
            Some(JsonView::Text(instrument.quantity_step))
        } else if wanted == "contract_size"@ && (some_text(instrument.contract_size)) is Some {
            some_text(instrument.contract_size)
        } else if wanted == "contract_size_asset"@ && (some_text(instrument.contract_size_asset)) is Some {
            some_text(instrument.contract_size_asset)
        } else if wanted == "max_leverage"@ && (some_text(instrument.max_leverage)) is Some {
            some_text(instrument.max_leverage)
        } else if wanted == "listing_time_ms"@ && (some_number(instrument.listing_time_ms)) is Some {
            some_number(instrument.listing_time_ms)
        } else if wanted == "expiry_time_ms"@ && (some_number(instrument.expiry_time_ms)) is Some {
            some_number(instrument.expiry_time_ms)
        } else if wanted == "capabilities"@ {
            Some(wire::capabilities_document(instrument.capabilities))
        } else {
            None
        },
{
    let part0 = Seq::<(Seq<char>, JsonView)>::empty().push(("instrument_id"@, JsonView::Text(instrument.instrument_id)));
    lemma_added(Seq::<(Seq<char>, JsonView)>::empty(), "instrument_id"@, JsonView::Text(instrument.instrument_id), wanted);
    let part1 = part0.push(("symbol"@, JsonView::Text(instrument.symbol)));
    lemma_added(part0, "symbol"@, JsonView::Text(instrument.symbol), wanted);
    let part2 = part1.push(("provider"@, JsonView::Text(venue(instrument.provider))));
    lemma_added(part1, "provider"@, JsonView::Text(venue(instrument.provider)), wanted);
    let part3 = part2.push(("market"@, JsonView::Text("linear_perpetual"@)));
    lemma_added(part2, "market"@, JsonView::Text("linear_perpetual"@), wanted);
    let part4 = part3.push(("base_asset"@, JsonView::Text(instrument.base_asset)));
    lemma_added(part3, "base_asset"@, JsonView::Text(instrument.base_asset), wanted);
    let part5 = part4.push(("quote_asset"@, JsonView::Text(instrument.quote_asset)));
    lemma_added(part4, "quote_asset"@, JsonView::Text(instrument.quote_asset), wanted);
    let part6 = part5.push(("settle_asset"@, JsonView::Text(instrument.settle_asset)));
    lemma_added(part5, "settle_asset"@, JsonView::Text(instrument.settle_asset), wanted);
    let part7 = part6.push(("status"@, JsonView::Text("live"@)));
    lemma_added(part6, "status"@, JsonView::Text("live"@), wanted);
    let part8 = part7.push(("venue_status"@, JsonView::Text(instrument.venue_status)));
    lemma_added(part7, "venue_status"@, JsonView::Text(instrument.venue_status), wanted);
    let part9 = part8.push(("tick_size"@, JsonView::Text(instrument.tick_size)));
    lemma_added(part8, "tick_size"@, JsonView::Text(instrument.tick_size), wanted);
    let part10 = part9.push(("quantity_step"@, JsonView::Text(instrument.quantity_step)));
    lemma_added(part9, "quantity_step"@, JsonView::Text(instrument.quantity_step), wanted);
    let part11 = match some_text(instrument.contract_size) {
        Some(value) => part10.push(("contract_size"@, value)),
        None => part10,
    };
    lemma_may_add(part10, "contract_size"@, some_text(instrument.contract_size), wanted);
    let part12 = match some_text(instrument.contract_size_asset) {
        Some(value) => part11.push(("contract_size_asset"@, value)),
        None => part11,
    };
    lemma_may_add(part11, "contract_size_asset"@, some_text(instrument.contract_size_asset), wanted);
    let part13 = match some_text(instrument.max_leverage) {
        Some(value) => part12.push(("max_leverage"@, value)),
        None => part12,
    };
    lemma_may_add(part12, "max_leverage"@, some_text(instrument.max_leverage), wanted);
    let part14 = match some_number(instrument.listing_time_ms) {
        Some(value) => part13.push(("listing_time_ms"@, value)),
        None => part13,
    };
    lemma_may_add(part13, "listing_time_ms"@, some_number(instrument.listing_time_ms), wanted);
    let part15 = match some_number(instrument.expiry_time_ms) {
        Some(value) => part14.push(("expiry_time_ms"@, value)),
        None => part14,
    };
    lemma_may_add(part14, "expiry_time_ms"@, some_number(instrument.expiry_time_ms), wanted);
    let part16 = part15.push(("capabilities"@, wire::capabilities_document(instrument.capabilities)));
    lemma_added(part15, "capabilities"@, wire::capabilities_document(instrument.capabilities), wanted);
    assert(wire::instrument_document(instrument) == JsonView::Object(part16));
}

/// The document of an instrument has each field under its own name. What is not known is left out.
pub proof fn law_instruments_are_told(instrument: InstrumentView)
    ensures
        ({
            let shown = wire::instrument_document(instrument);
            &&& json::member_of(shown, "instrument_id"@) == Some(JsonView::Text(instrument.instrument_id))
            &&& json::member_of(shown, "symbol"@) == Some(JsonView::Text(instrument.symbol))
            &&& json::member_of(shown, "provider"@) == Some(JsonView::Text(venue(instrument.provider)))
            &&& json::member_of(shown, "market"@) == Some(JsonView::Text("linear_perpetual"@))
            &&& json::member_of(shown, "base_asset"@) == Some(JsonView::Text(instrument.base_asset))
            &&& json::member_of(shown, "quote_asset"@) == Some(JsonView::Text(instrument.quote_asset))
            &&& json::member_of(shown, "settle_asset"@) == Some(JsonView::Text(instrument.settle_asset))
            &&& json::member_of(shown, "status"@) == Some(JsonView::Text("live"@))
            &&& json::member_of(shown, "venue_status"@) == Some(JsonView::Text(instrument.venue_status))
            &&& json::member_of(shown, "tick_size"@) == Some(JsonView::Text(instrument.tick_size))
            &&& json::member_of(shown, "quantity_step"@) == Some(JsonView::Text(instrument.quantity_step))
            &&& json::member_of(shown, "contract_size"@) == some_text(instrument.contract_size)
            &&& json::member_of(shown, "contract_size_asset"@) == some_text(instrument.contract_size_asset)
            &&& json::member_of(shown, "max_leverage"@) == some_text(instrument.max_leverage)
            &&& json::member_of(shown, "listing_time_ms"@) == some_number(instrument.listing_time_ms)
            &&& json::member_of(shown, "expiry_time_ms"@) == some_number(instrument.expiry_time_ms)
            &&& json::member_of(shown, "capabilities"@) == Some(wire::capabilities_document(instrument.capabilities))
        }),
{
    lemma_instrument(instrument, "instrument_id"@);
    lemma_instrument(instrument, "symbol"@);
    lemma_instrument(instrument, "provider"@);
    lemma_instrument(instrument, "market"@);
    lemma_instrument(instrument, "base_asset"@);
    lemma_instrument(instrument, "quote_asset"@);
    lemma_instrument(instrument, "settle_asset"@);
    lemma_instrument(instrument, "status"@);
    lemma_instrument(instrument, "venue_status"@);
    lemma_instrument(instrument, "tick_size"@);
    lemma_instrument(instrument, "quantity_step"@);
    lemma_instrument(instrument, "contract_size"@);
    lemma_instrument(instrument, "contract_size_asset"@);
    lemma_instrument(instrument, "max_leverage"@);
    lemma_instrument(instrument, "listing_time_ms"@);
    lemma_instrument(instrument, "expiry_time_ms"@);
    lemma_instrument(instrument, "capabilities"@);
    reveal_strlit("instrument_id");
    reveal_strlit("symbol");
    reveal_strlit("provider");
    reveal_strlit("market");
    reveal_strlit("base_asset");
    reveal_strlit("quote_asset");
    reveal_strlit("settle_asset");
    reveal_strlit("status");
    reveal_strlit("venue_status");
    reveal_strlit("tick_size");
    reveal_strlit("quantity_step");
    reveal_strlit("contract_size");
    reveal_strlit("contract_size_asset");
    reveal_strlit("max_leverage");
    reveal_strlit("listing_time_ms");
    reveal_strlit("expiry_time_ms");
    reveal_strlit("capabilities");
    assert("instrument_id"@.len() == 13);
    assert("symbol"@.len() == 6);
    assert("provider"@.len() == 8);
    assert("market"@.len() == 6);
    assert("base_asset"@.len() == 10);
    assert("quote_asset"@.len() == 11);
    assert("settle_asset"@.len() == 12);
    assert("status"@.len() == 6);
    assert("venue_status"@.len() == 12);
    assert("tick_size"@.len() == 9);
    assert("quantity_step"@.len() == 13);
    assert("contract_size"@.len() == 13);
    assert("contract_size_asset"@.len() == 19);
    assert("max_leverage"@.len() == 12);
    assert("listing_time_ms"@.len() == 15);
    assert("expiry_time_ms"@.len() == 14);
    assert("capabilities"@.len() == 12);
    assert("market"@[0] == 'm' && "symbol"@[0] == 's');
    assert("status"@[1] == 't' && "symbol"@[1] == 'y');
    assert("status"@[0] == 's' && "market"@[0] == 'm');
    assert("venue_status"@[0] == 'v' && "settle_asset"@[0] == 's');
    assert("quantity_step"@[0] == 'q' && "instrument_id"@[0] == 'i');
    assert("contract_size"@[0] == 'c' && "instrument_id"@[0] == 'i');
    assert("contract_size"@[0] == 'c' && "quantity_step"@[0] == 'q');
    assert("max_leverage"@[0] == 'm' && "settle_asset"@[0] == 's');
    assert("max_leverage"@[0] == 'm' && "venue_status"@[0] == 'v');
    assert("capabilities"@[0] == 'c' && "settle_asset"@[0] == 's');
    assert("capabilities"@[0] == 'c' && "venue_status"@[0] == 'v');
    assert("capabilities"@[0] == 'c' && "max_leverage"@[0] == 'm');
}

proof fn lemma_status(status: CatalogStatusView, wanted: Seq<char>)
    ensures
        json::member_of(wire::status_document(status), wanted) == if wanted == "provider"@ {
            Some(JsonView::Text(venue(status.provider)))
        } else if wanted == "enabled"@ {
            Some(JsonView::Bool(status.enabled))
        } else if wanted == "instrument_count"@ {
            Some(json::unsigned_document(status.instrument_count as u64))
        } else if wanted == "last_attempt_at_ms"@ {
            Some(number_or_null(status.last_attempt_at_ms))
        } else if wanted == "last_success_at_ms"@ {
            Some(number_or_null(status.last_success_at_ms))
        } else if wanted == "last_error"@ {
            Some(match status.last_error {
                Some(text) => JsonView::Text(text),
                None => JsonView::Null,
            })
        } else {
            None
        },
{
    let part0 = Seq::<(Seq<char>, JsonView)>::empty().push(("provider"@, JsonView::Text(venue(status.provider))));
    lemma_added(Seq::<(Seq<char>, JsonView)>::empty(), "provider"@, JsonView::Text(venue(status.provider)), wanted);
    let part1 = part0.push(("enabled"@, JsonView::Bool(status.enabled)));
    lemma_added(part0, "enabled"@, JsonView::Bool(status.enabled), wanted);
    let part2 = part1.push(("instrument_count"@, json::unsigned_document(status.instrument_count as u64)));
    lemma_added(part1, "instrument_count"@, json::unsigned_document(status.instrument_count as u64), wanted);
    let part3 = part2.push(("last_attempt_at_ms"@, number_or_null(status.last_attempt_at_ms)));
    lemma_added(part2, "last_attempt_at_ms"@, number_or_null(status.last_attempt_at_ms), wanted);
    let part4 = part3.push(("last_success_at_ms"@, number_or_null(status.last_success_at_ms)));
    lemma_added(part3, "last_success_at_ms"@, number_or_null(status.last_success_at_ms), wanted);
    let part5 = part4.push(("last_error"@, match status.last_error {
                Some(text) => JsonView::Text(text),
                None => JsonView::Null,
            }));
    lemma_added(part4, "last_error"@, match status.last_error {
                Some(text) => JsonView::Text(text),
                None => JsonView::Null,
            }, wanted);
    assert(wire::status_document(status) == JsonView::Object(part5));
}

/// The document of the state of a catalog has each field under its own name, and nothing where it is not
/// known.
pub proof fn law_catalog_states_are_told(status: CatalogStatusView)
    ensures
        ({
            let shown = wire::status_document(status);
            &&& json::member_of(shown, "provider"@) == Some(JsonView::Text(venue(status.provider)))
            &&& json::member_of(shown, "enabled"@) == Some(JsonView::Bool(status.enabled))
            &&& json::member_of(shown, "instrument_count"@) == Some(json::unsigned_document(status.instrument_count as u64))
            &&& json::member_of(shown, "last_attempt_at_ms"@) == Some(number_or_null(status.last_attempt_at_ms))
            &&& json::member_of(shown, "last_success_at_ms"@) == Some(number_or_null(status.last_success_at_ms))
            &&& json::member_of(shown, "last_error"@) == Some(match status.last_error {
                Some(text) => JsonView::Text(text),
                None => JsonView::Null,
            })
        }),
{
    lemma_status(status, "provider"@);
    lemma_status(status, "enabled"@);
    lemma_status(status, "instrument_count"@);
    lemma_status(status, "last_attempt_at_ms"@);
    lemma_status(status, "last_success_at_ms"@);
    lemma_status(status, "last_error"@);
    reveal_strlit("provider");
    reveal_strlit("enabled");
    reveal_strlit("instrument_count");
    reveal_strlit("last_attempt_at_ms");
    reveal_strlit("last_success_at_ms");
    reveal_strlit("last_error");
    assert("provider"@.len() == 8);
    assert("enabled"@.len() == 7);
    assert("instrument_count"@.len() == 16);
    assert("last_attempt_at_ms"@.len() == 18);
    assert("last_success_at_ms"@.len() == 18);
    assert("last_error"@.len() == 10);
    assert("last_success_at_ms"@[5] == 's' && "last_attempt_at_ms"@[5] == 'a');
}

proof fn lemma_health(health: HealthView, wanted: Seq<char>)
    ensures
        json::member_of(wire::health_document(health), wanted) == if wanted == "provider"@ {
            Some(JsonView::Text(venue(health.provider)))
        } else if wanted == "endpoint"@ {
            Some(JsonView::Text(health.endpoint))
        } else if wanted == "state"@ {
            Some(JsonView::Text(match health.state {
                ConnectionState::Idle => "idle"@,
                ConnectionState::Connecting => "connecting"@,
                ConnectionState::Live => "live"@,
                ConnectionState::Backoff => "backoff"@,
                ConnectionState::Stopped => "stopped"@,
            }))
        } else if wanted == "desired_subscriptions"@ {
            Some(json::unsigned_document(health.desired_subscriptions as u64))
        } else if wanted == "reconnects"@ {
            Some(json::unsigned_document(health.reconnects))
        } else if wanted == "connection_epoch"@ && (match health.connection_epoch {
                Some(epoch) => Some(JsonView::Text(wire::uuid(epoch))),
                None => None,
            }) is Some {
            match health.connection_epoch {
                Some(epoch) => Some(JsonView::Text(wire::uuid(epoch))),
                None => None,
            }
        } else if wanted == "connected_at_ms"@ && (some_number(health.connected_at_ms)) is Some {
            some_number(health.connected_at_ms)
        } else if wanted == "last_event_at_ms"@ && (some_number(health.last_event_at_ms)) is Some {
            some_number(health.last_event_at_ms)
        } else if wanted == "last_error"@ && (some_text(health.last_error)) is Some {
            some_text(health.last_error)
        } else {
            None
        },
{
    let part0 = Seq::<(Seq<char>, JsonView)>::empty().push(("provider"@, JsonView::Text(venue(health.provider))));
    lemma_added(Seq::<(Seq<char>, JsonView)>::empty(), "provider"@, JsonView::Text(venue(health.provider)), wanted);
    let part1 = part0.push(("endpoint"@, JsonView::Text(health.endpoint)));
    lemma_added(part0, "endpoint"@, JsonView::Text(health.endpoint), wanted);
    let part2 = part1.push(("state"@, JsonView::Text(match health.state {
                ConnectionState::Idle => "idle"@,
                ConnectionState::Connecting => "connecting"@,
                ConnectionState::Live => "live"@,
                ConnectionState::Backoff => "backoff"@,
                ConnectionState::Stopped => "stopped"@,
            })));
    lemma_added(part1, "state"@, JsonView::Text(match health.state {
                ConnectionState::Idle => "idle"@,
                ConnectionState::Connecting => "connecting"@,
                ConnectionState::Live => "live"@,
                ConnectionState::Backoff => "backoff"@,
                ConnectionState::Stopped => "stopped"@,
            }), wanted);
    let part3 = part2.push(("desired_subscriptions"@, json::unsigned_document(health.desired_subscriptions as u64)));
    lemma_added(part2, "desired_subscriptions"@, json::unsigned_document(health.desired_subscriptions as u64), wanted);
    let part4 = part3.push(("reconnects"@, json::unsigned_document(health.reconnects)));
    lemma_added(part3, "reconnects"@, json::unsigned_document(health.reconnects), wanted);
    let part5 = match match health.connection_epoch {
                Some(epoch) => Some(JsonView::Text(wire::uuid(epoch))),
                None => None,
            } {
        Some(value) => part4.push(("connection_epoch"@, value)),
        None => part4,
    };
    lemma_may_add(part4, "connection_epoch"@, match health.connection_epoch {
                Some(epoch) => Some(JsonView::Text(wire::uuid(epoch))),
                None => None,
            }, wanted);
    let part6 = match some_number(health.connected_at_ms) {
        Some(value) => part5.push(("connected_at_ms"@, value)),
        None => part5,
    };
    lemma_may_add(part5, "connected_at_ms"@, some_number(health.connected_at_ms), wanted);
    let part7 = match some_number(health.last_event_at_ms) {
        Some(value) => part6.push(("last_event_at_ms"@, value)),
        None => part6,
    };
    lemma_may_add(part6, "last_event_at_ms"@, some_number(health.last_event_at_ms), wanted);
    let part8 = match some_text(health.last_error) {
        Some(value) => part7.push(("last_error"@, value)),
        None => part7,
    };
    lemma_may_add(part7, "last_error"@, some_text(health.last_error), wanted);
    assert(wire::health_document(health) == JsonView::Object(part8));
}

/// The document of the health of a connection has each field under its own name. What is not known is left
/// out.
pub proof fn law_health_is_told(health: HealthView)
    ensures
        ({
            let shown = wire::health_document(health);
            &&& json::member_of(shown, "provider"@) == Some(JsonView::Text(venue(health.provider)))
            &&& json::member_of(shown, "endpoint"@) == Some(JsonView::Text(health.endpoint))
            &&& json::member_of(shown, "state"@) == Some(JsonView::Text(match health.state {
                ConnectionState::Idle => "idle"@,
                ConnectionState::Connecting => "connecting"@,
                ConnectionState::Live => "live"@,
                ConnectionState::Backoff => "backoff"@,
                ConnectionState::Stopped => "stopped"@,
            }))
            &&& json::member_of(shown, "desired_subscriptions"@) == Some(json::unsigned_document(health.desired_subscriptions as u64))
            &&& json::member_of(shown, "reconnects"@) == Some(json::unsigned_document(health.reconnects))
            &&& json::member_of(shown, "connection_epoch"@) == match health.connection_epoch {
                Some(epoch) => Some(JsonView::Text(wire::uuid(epoch))),
                None => None,
            }
            &&& json::member_of(shown, "connected_at_ms"@) == some_number(health.connected_at_ms)
            &&& json::member_of(shown, "last_event_at_ms"@) == some_number(health.last_event_at_ms)
            &&& json::member_of(shown, "last_error"@) == some_text(health.last_error)
        }),
{
    lemma_health(health, "provider"@);
    lemma_health(health, "endpoint"@);
    lemma_health(health, "state"@);
    lemma_health(health, "desired_subscriptions"@);
    lemma_health(health, "reconnects"@);
    lemma_health(health, "connection_epoch"@);
    lemma_health(health, "connected_at_ms"@);
    lemma_health(health, "last_event_at_ms"@);
    lemma_health(health, "last_error"@);
    reveal_strlit("provider");
    reveal_strlit("endpoint");
    reveal_strlit("state");
    reveal_strlit("desired_subscriptions");
    reveal_strlit("reconnects");
    reveal_strlit("connection_epoch");
    reveal_strlit("connected_at_ms");
    reveal_strlit("last_event_at_ms");
    reveal_strlit("last_error");
    assert("provider"@.len() == 8);
    assert("endpoint"@.len() == 8);
    assert("state"@.len() == 5);
    assert("desired_subscriptions"@.len() == 21);
    assert("reconnects"@.len() == 10);
    assert("connection_epoch"@.len() == 16);
    assert("connected_at_ms"@.len() == 15);
    assert("last_event_at_ms"@.len() == 16);
    assert("last_error"@.len() == 10);
    assert("endpoint"@[0] == 'e' && "provider"@[0] == 'p');
    assert("last_event_at_ms"@[0] == 'l' && "connection_epoch"@[0] == 'c');
    assert("last_error"@[0] == 'l' && "reconnects"@[0] == 'r');
}

/// The limits of venues, each under the name of its venue.
pub open spec fn limits_document(limits: Seq<(Provider, usize)>) -> JsonView {
    JsonView::Object(
        Seq::new(
            limits.len(),
            |i: int| (venue(limits[i].0), json::unsigned_document(limits[i].1 as u64)),
        ),
    )
}

/// The health of the connections, in their order.
pub open spec fn endpoints_document(readiness: Readiness) -> JsonView {
    JsonView::List(
        Seq::new(
            readiness.endpoints@.len(),
            |i: int| wire::health_document(readiness.endpoints@[i]@),
        ),
    )
}

/// The states of the catalogs, in their order.
pub open spec fn catalogs_document(readiness: Readiness) -> JsonView {
    JsonView::List(
        Seq::new(
            readiness.catalogs@.len(),
            |i: int| wire::status_document(readiness.catalogs@[i]@),
        ),
    )
}

proof fn lemma_hello(schema_version: u16, stream_epoch: Seq<char>, max_subscriptions: usize, max_provider_subscriptions: usize, limits: Seq<(Provider, usize)>, wanted: Seq<char>)
    ensures
        json::member_of(protocol::control_document(
                ControlView::Hello {
                    schema_version,
                    stream_epoch,
                    max_subscriptions,
                    max_provider_subscriptions,
                    provider_subscription_limits: limits,
                },
            ), wanted) == if wanted == "type"@ {
            Some(JsonView::Text("hello"@))
        } else if wanted == "schema_version"@ {
            Some(json::unsigned_document(schema_version as u64))
        } else if wanted == "stream_epoch"@ {
            Some(JsonView::Text(stream_epoch))
        } else if wanted == "max_subscriptions"@ {
            Some(json::unsigned_document(max_subscriptions as u64))
        } else if wanted == "max_provider_subscriptions"@ {
            Some(json::unsigned_document(max_provider_subscriptions as u64))
        } else if wanted == "provider_subscription_limits"@ {
            Some(limits_document(limits))
        } else {
            None
        },
{
    let part0 = Seq::<(Seq<char>, JsonView)>::empty().push(("type"@, JsonView::Text("hello"@)));
    lemma_added(Seq::<(Seq<char>, JsonView)>::empty(), "type"@, JsonView::Text("hello"@), wanted);
    let part1 = part0.push(("schema_version"@, json::unsigned_document(schema_version as u64)));
    lemma_added(part0, "schema_version"@, json::unsigned_document(schema_version as u64), wanted);
    let part2 = part1.push(("stream_epoch"@, JsonView::Text(stream_epoch)));
    lemma_added(part1, "stream_epoch"@, JsonView::Text(stream_epoch), wanted);
    let part3 = part2.push(("max_subscriptions"@, json::unsigned_document(max_subscriptions as u64)));
    lemma_added(part2, "max_subscriptions"@, json::unsigned_document(max_subscriptions as u64), wanted);
    let part4 = part3.push(("max_provider_subscriptions"@, json::unsigned_document(max_provider_subscriptions as u64)));
    lemma_added(part3, "max_provider_subscriptions"@, json::unsigned_document(max_provider_subscriptions as u64), wanted);
    let part5 = part4.push(("provider_subscription_limits"@, limits_document(limits)));
    lemma_added(part4, "provider_subscription_limits"@, limits_document(limits), wanted);
    assert(protocol::limit_fields(limits) =~= limits_document(limits)->Object_0);
    assert(protocol::control_document(
                ControlView::Hello {
                    schema_version,
                    stream_epoch,
                    max_subscriptions,
                    max_provider_subscriptions,
                    provider_subscription_limits: limits,
                },
            ) == JsonView::Object(part5));
}

/// The document of a greeting has the epoch of the stream and every limit under its own name.
pub proof fn law_greetings_are_told(schema_version: u16, stream_epoch: Seq<char>, max_subscriptions: usize, max_provider_subscriptions: usize, limits: Seq<(Provider, usize)>)
    ensures
        ({
            let shown = protocol::control_document(
                ControlView::Hello {
                    schema_version,
                    stream_epoch,
                    max_subscriptions,
                    max_provider_subscriptions,
                    provider_subscription_limits: limits,
                },
            );
            &&& json::member_of(shown, "type"@) == Some(JsonView::Text("hello"@))
            &&& json::member_of(shown, "schema_version"@) == Some(json::unsigned_document(schema_version as u64))
            &&& json::member_of(shown, "stream_epoch"@) == Some(JsonView::Text(stream_epoch))
            &&& json::member_of(shown, "max_subscriptions"@) == Some(json::unsigned_document(max_subscriptions as u64))
            &&& json::member_of(shown, "max_provider_subscriptions"@) == Some(json::unsigned_document(max_provider_subscriptions as u64))
            &&& json::member_of(shown, "provider_subscription_limits"@) == Some(limits_document(limits))
        }),
{
    lemma_hello(schema_version, stream_epoch, max_subscriptions, max_provider_subscriptions, limits, "type"@);
    lemma_hello(schema_version, stream_epoch, max_subscriptions, max_provider_subscriptions, limits, "schema_version"@);
    lemma_hello(schema_version, stream_epoch, max_subscriptions, max_provider_subscriptions, limits, "stream_epoch"@);
    lemma_hello(schema_version, stream_epoch, max_subscriptions, max_provider_subscriptions, limits, "max_subscriptions"@);
    lemma_hello(schema_version, stream_epoch, max_subscriptions, max_provider_subscriptions, limits, "max_provider_subscriptions"@);
    lemma_hello(schema_version, stream_epoch, max_subscriptions, max_provider_subscriptions, limits, "provider_subscription_limits"@);
    reveal_strlit("type");
    reveal_strlit("schema_version");
    reveal_strlit("stream_epoch");
    reveal_strlit("max_subscriptions");
    reveal_strlit("max_provider_subscriptions");
    reveal_strlit("provider_subscription_limits");
    assert("type"@.len() == 4);
    assert("schema_version"@.len() == 14);
    assert("stream_epoch"@.len() == 12);
    assert("max_subscriptions"@.len() == 17);
    assert("max_provider_subscriptions"@.len() == 26);
    assert("provider_subscription_limits"@.len() == 28);
}

proof fn lemma_ack(schema_version: u16, request_id: Seq<char>, operation: Seq<char>, subscriptions: Seq<KeyView>, wanted: Seq<char>)
    ensures
        json::member_of(protocol::control_document(
                ControlView::Ack { schema_version, request_id, operation, subscriptions },
            ), wanted) == if wanted == "type"@ {
            Some(JsonView::Text("ack"@))
        } else if wanted == "schema_version"@ {
            Some(json::unsigned_document(schema_version as u64))
        } else if wanted == "request_id"@ {
            Some(JsonView::Text(request_id))
        } else if wanted == "operation"@ {
            Some(JsonView::Text(operation))
        } else if wanted == "subscriptions"@ {
            Some(JsonView::List(
                Seq::new(subscriptions.len(), |i: int| wire::key_document(subscriptions[i])),
            ))
        } else {
            None
        },
{
    let part0 = Seq::<(Seq<char>, JsonView)>::empty().push(("type"@, JsonView::Text("ack"@)));
    lemma_added(Seq::<(Seq<char>, JsonView)>::empty(), "type"@, JsonView::Text("ack"@), wanted);
    let part1 = part0.push(("schema_version"@, json::unsigned_document(schema_version as u64)));
    lemma_added(part0, "schema_version"@, json::unsigned_document(schema_version as u64), wanted);
    let part2 = part1.push(("request_id"@, JsonView::Text(request_id)));
    lemma_added(part1, "request_id"@, JsonView::Text(request_id), wanted);
    let part3 = part2.push(("operation"@, JsonView::Text(operation)));
    lemma_added(part2, "operation"@, JsonView::Text(operation), wanted);
    let part4 = part3.push(("subscriptions"@, JsonView::List(
                Seq::new(subscriptions.len(), |i: int| wire::key_document(subscriptions[i])),
            )));
    lemma_added(part3, "subscriptions"@, JsonView::List(
                Seq::new(subscriptions.len(), |i: int| wire::key_document(subscriptions[i])),
            ), wanted);
    assert(protocol::control_document(
                ControlView::Ack { schema_version, request_id, operation, subscriptions },
            ) == JsonView::Object(part4));
}

/// The document of an acknowledgement has the identifier of the request, the operation and its keys, in
/// their order.
pub proof fn law_acknowledgements_are_told(schema_version: u16, request_id: Seq<char>, operation: Seq<char>, subscriptions: Seq<KeyView>)
    ensures
        ({
            let shown = protocol::control_document(
                ControlView::Ack { schema_version, request_id, operation, subscriptions },
            );
            &&& json::member_of(shown, "type"@) == Some(JsonView::Text("ack"@))
            &&& json::member_of(shown, "schema_version"@) == Some(json::unsigned_document(schema_version as u64))
            &&& json::member_of(shown, "request_id"@) == Some(JsonView::Text(request_id))
            &&& json::member_of(shown, "operation"@) == Some(JsonView::Text(operation))
            &&& json::member_of(shown, "subscriptions"@) == Some(JsonView::List(
                Seq::new(subscriptions.len(), |i: int| wire::key_document(subscriptions[i])),
            ))
        }),
{
    lemma_ack(schema_version, request_id, operation, subscriptions, "type"@);
    lemma_ack(schema_version, request_id, operation, subscriptions, "schema_version"@);
    lemma_ack(schema_version, request_id, operation, subscriptions, "request_id"@);
    lemma_ack(schema_version, request_id, operation, subscriptions, "operation"@);
    lemma_ack(schema_version, request_id, operation, subscriptions, "subscriptions"@);
    reveal_strlit("type");
    reveal_strlit("schema_version");
    reveal_strlit("request_id");
    reveal_strlit("operation");
    reveal_strlit("subscriptions");
    assert("type"@.len() == 4);
    assert("schema_version"@.len() == 14);
    assert("request_id"@.len() == 10);
    assert("operation"@.len() == 9);
    assert("subscriptions"@.len() == 13);
}

proof fn lemma_error(schema_version: u16, request_id: Option<Seq<char>>, code: ErrorCode, message: Seq<char>, wanted: Seq<char>)
    ensures
        json::member_of(protocol::control_document(
                ControlView::Error { schema_version, request_id, code, message },
            ), wanted) == if wanted == "type"@ {
            Some(JsonView::Text("error"@))
        } else if wanted == "schema_version"@ {
            Some(json::unsigned_document(schema_version as u64))
        } else if wanted == "request_id"@ && (some_text(request_id)) is Some {
            some_text(request_id)
        } else if wanted == "code"@ {
            Some(JsonView::Text(match code {
                ErrorCode::InvalidJson => "invalid_json"@,
                ErrorCode::InvalidCommand => "invalid_command"@,
                ErrorCode::LimitExceeded => "limit_exceeded"@,
                ErrorCode::UnsupportedSubscription => "unsupported_subscription"@,
                ErrorCode::Lagged => "lagged"@,
                ErrorCode::Internal => "internal"@,
            }))
        } else if wanted == "message"@ {
            Some(JsonView::Text(message))
        } else {
            None
        },
{
    let part0 = Seq::<(Seq<char>, JsonView)>::empty().push(("type"@, JsonView::Text("error"@)));
    lemma_added(Seq::<(Seq<char>, JsonView)>::empty(), "type"@, JsonView::Text("error"@), wanted);
    let part1 = part0.push(("schema_version"@, json::unsigned_document(schema_version as u64)));
    lemma_added(part0, "schema_version"@, json::unsigned_document(schema_version as u64), wanted);
    let part2 = match some_text(request_id) {
        Some(value) => part1.push(("request_id"@, value)),
        None => part1,
    };
    lemma_may_add(part1, "request_id"@, some_text(request_id), wanted);
    let part3 = part2.push(("code"@, JsonView::Text(match code {
                ErrorCode::InvalidJson => "invalid_json"@,
                ErrorCode::InvalidCommand => "invalid_command"@,
                ErrorCode::LimitExceeded => "limit_exceeded"@,
                ErrorCode::UnsupportedSubscription => "unsupported_subscription"@,
                ErrorCode::Lagged => "lagged"@,
                ErrorCode::Internal => "internal"@,
            })));
    lemma_added(part2, "code"@, JsonView::Text(match code {
                ErrorCode::InvalidJson => "invalid_json"@,
                ErrorCode::InvalidCommand => "invalid_command"@,
                ErrorCode::LimitExceeded => "limit_exceeded"@,
                ErrorCode::UnsupportedSubscription => "unsupported_subscription"@,
                ErrorCode::Lagged => "lagged"@,
                ErrorCode::Internal => "internal"@,
            }), wanted);
    let part4 = part3.push(("message"@, JsonView::Text(message)));
    lemma_added(part3, "message"@, JsonView::Text(message), wanted);
    assert(protocol::control_document(
                ControlView::Error { schema_version, request_id, code, message },
            ) == JsonView::Object(part4));
}

/// The document of an error has the identifier of the request, where there is one, the name of the code
/// and the message.
pub proof fn law_errors_are_told(schema_version: u16, request_id: Option<Seq<char>>, code: ErrorCode, message: Seq<char>)
    ensures
        ({
            let shown = protocol::control_document(
                ControlView::Error { schema_version, request_id, code, message },
            );
            &&& json::member_of(shown, "type"@) == Some(JsonView::Text("error"@))
            &&& json::member_of(shown, "schema_version"@) == Some(json::unsigned_document(schema_version as u64))
            &&& json::member_of(shown, "request_id"@) == some_text(request_id)
            &&& json::member_of(shown, "code"@) == Some(JsonView::Text(match code {
                ErrorCode::InvalidJson => "invalid_json"@,
                ErrorCode::InvalidCommand => "invalid_command"@,
                ErrorCode::LimitExceeded => "limit_exceeded"@,
                ErrorCode::UnsupportedSubscription => "unsupported_subscription"@,
                ErrorCode::Lagged => "lagged"@,
                ErrorCode::Internal => "internal"@,
            }))
            &&& json::member_of(shown, "message"@) == Some(JsonView::Text(message))
        }),
{
    lemma_error(schema_version, request_id, code, message, "type"@);
    lemma_error(schema_version, request_id, code, message, "schema_version"@);
    lemma_error(schema_version, request_id, code, message, "request_id"@);
    lemma_error(schema_version, request_id, code, message, "code"@);
    lemma_error(schema_version, request_id, code, message, "message"@);
    reveal_strlit("type");
    reveal_strlit("schema_version");
    reveal_strlit("request_id");
    reveal_strlit("code");
    reveal_strlit("message");
    assert("type"@.len() == 4);
    assert("schema_version"@.len() == 14);
    assert("request_id"@.len() == 10);
    assert("code"@.len() == 4);
    assert("message"@.len() == 7);
    assert("code"@[0] == 'c' && "type"@[0] == 't');
}

proof fn lemma_pong(schema_version: u16, request_id: Seq<char>, wanted: Seq<char>)
    ensures
        json::member_of(protocol::control_document(ControlView::Pong { schema_version, request_id }), wanted) == if wanted == "type"@ {
            Some(JsonView::Text("pong"@))
        } else if wanted == "schema_version"@ {
            Some(json::unsigned_document(schema_version as u64))
        } else if wanted == "request_id"@ {
            Some(JsonView::Text(request_id))
        } else {
            None
        },
{
    let part0 = Seq::<(Seq<char>, JsonView)>::empty().push(("type"@, JsonView::Text("pong"@)));
    lemma_added(Seq::<(Seq<char>, JsonView)>::empty(), "type"@, JsonView::Text("pong"@), wanted);
    let part1 = part0.push(("schema_version"@, json::unsigned_document(schema_version as u64)));
    lemma_added(part0, "schema_version"@, json::unsigned_document(schema_version as u64), wanted);
    let part2 = part1.push(("request_id"@, JsonView::Text(request_id)));
    lemma_added(part1, "request_id"@, JsonView::Text(request_id), wanted);
    assert(protocol::control_document(ControlView::Pong { schema_version, request_id }) == JsonView::Object(part2));
}

/// The document of an answer to a ping has the identifier of the request.
pub proof fn law_pongs_are_told(schema_version: u16, request_id: Seq<char>)
    ensures
        ({
            let shown = protocol::control_document(ControlView::Pong { schema_version, request_id });
            &&& json::member_of(shown, "type"@) == Some(JsonView::Text("pong"@))
            &&& json::member_of(shown, "schema_version"@) == Some(json::unsigned_document(schema_version as u64))
            &&& json::member_of(shown, "request_id"@) == Some(JsonView::Text(request_id))
        }),
{
    lemma_pong(schema_version, request_id, "type"@);
    lemma_pong(schema_version, request_id, "schema_version"@);
    lemma_pong(schema_version, request_id, "request_id"@);
    reveal_strlit("type");
    reveal_strlit("schema_version");
    reveal_strlit("request_id");
    assert("type"@.len() == 4);
    assert("schema_version"@.len() == 14);
    assert("request_id"@.len() == 10);
}

proof fn lemma_gap(schema_version: u16, dropped_messages: u64, message: Seq<char>, wanted: Seq<char>)
    ensures
        json::member_of(protocol::control_document(ControlView::Gap { schema_version, dropped_messages, message }), wanted) == if wanted == "type"@ {
            Some(JsonView::Text("gap"@))
        } else if wanted == "schema_version"@ {
            Some(json::unsigned_document(schema_version as u64))
        } else if wanted == "dropped_messages"@ {
            Some(json::unsigned_document(dropped_messages))
        } else if wanted == "message"@ {
            Some(JsonView::Text(message))
        } else {
            None
        },
{
    let part0 = Seq::<(Seq<char>, JsonView)>::empty().push(("type"@, JsonView::Text("gap"@)));
    lemma_added(Seq::<(Seq<char>, JsonView)>::empty(), "type"@, JsonView::Text("gap"@), wanted);
    let part1 = part0.push(("schema_version"@, json::unsigned_document(schema_version as u64)));
    lemma_added(part0, "schema_version"@, json::unsigned_document(schema_version as u64), wanted);
    let part2 = part1.push(("dropped_messages"@, json::unsigned_document(dropped_messages)));
    lemma_added(part1, "dropped_messages"@, json::unsigned_document(dropped_messages), wanted);
    let part3 = part2.push(("message"@, JsonView::Text(message)));
    lemma_added(part2, "message"@, JsonView::Text(message), wanted);
    assert(protocol::control_document(ControlView::Gap { schema_version, dropped_messages, message }) == JsonView::Object(part3));
}

/// The document of a gap has the number of messages that were lost.
pub proof fn law_gaps_are_told(schema_version: u16, dropped_messages: u64, message: Seq<char>)
    ensures
        ({
            let shown = protocol::control_document(ControlView::Gap { schema_version, dropped_messages, message });
            &&& json::member_of(shown, "type"@) == Some(JsonView::Text("gap"@))
            &&& json::member_of(shown, "schema_version"@) == Some(json::unsigned_document(schema_version as u64))
            &&& json::member_of(shown, "dropped_messages"@) == Some(json::unsigned_document(dropped_messages))
            &&& json::member_of(shown, "message"@) == Some(JsonView::Text(message))
        }),
{
    lemma_gap(schema_version, dropped_messages, message, "type"@);
    lemma_gap(schema_version, dropped_messages, message, "schema_version"@);
    lemma_gap(schema_version, dropped_messages, message, "dropped_messages"@);
    lemma_gap(schema_version, dropped_messages, message, "message"@);
    reveal_strlit("type");
    reveal_strlit("schema_version");
    reveal_strlit("dropped_messages");
    reveal_strlit("message");
    assert("type"@.len() == 4);
    assert("schema_version"@.len() == 14);
    assert("dropped_messages"@.len() == 16);
    assert("message"@.len() == 7);
}

proof fn lemma_descriptor(provider: Provider, enabled: bool, wanted: Seq<char>)
    ensures
        json::member_of(rest::descriptor(provider, enabled), wanted) == if wanted == "provider"@ {
            Some(JsonView::Text(venue(provider)))
        } else if wanted == "enabled"@ {
            Some(JsonView::Bool(enabled))
        } else if wanted == "markets"@ {
            Some(JsonView::List(seq![JsonView::Text("linear_perpetual"@)]))
        } else if wanted == "channels"@ {
            Some(JsonView::List(
                seq![JsonView::Text("ticker"@), JsonView::Text("candle_1m"@)],
            ))
        } else {
            None
        },
{
    let part0 = Seq::<(Seq<char>, JsonView)>::empty().push(("provider"@, JsonView::Text(venue(provider))));
    lemma_added(Seq::<(Seq<char>, JsonView)>::empty(), "provider"@, JsonView::Text(venue(provider)), wanted);
    let part1 = part0.push(("enabled"@, JsonView::Bool(enabled)));
    lemma_added(part0, "enabled"@, JsonView::Bool(enabled), wanted);
    let part2 = part1.push(("markets"@, JsonView::List(seq![JsonView::Text("linear_perpetual"@)])));
    lemma_added(part1, "markets"@, JsonView::List(seq![JsonView::Text("linear_perpetual"@)]), wanted);
    let part3 = part2.push(("channels"@, JsonView::List(
                seq![JsonView::Text("ticker"@), JsonView::Text("candle_1m"@)],
            )));
    lemma_added(part2, "channels"@, JsonView::List(
                seq![JsonView::Text("ticker"@), JsonView::Text("candle_1m"@)],
            ), wanted);
    assert(rest::descriptor(provider, enabled) == JsonView::Object(part3));
}

/// The document of a venue says whether it is enabled, and what it offers.
pub proof fn law_venues_are_told(provider: Provider, enabled: bool)
    ensures
        ({
            let shown = rest::descriptor(provider, enabled);
            &&& json::member_of(shown, "provider"@) == Some(JsonView::Text(venue(provider)))
            &&& json::member_of(shown, "enabled"@) == Some(JsonView::Bool(enabled))
            &&& json::member_of(shown, "markets"@) == Some(JsonView::List(seq![JsonView::Text("linear_perpetual"@)]))
            &&& json::member_of(shown, "channels"@) == Some(JsonView::List(
                seq![JsonView::Text("ticker"@), JsonView::Text("candle_1m"@)],
            ))
        }),
{
    lemma_descriptor(provider, enabled, "provider"@);
    lemma_descriptor(provider, enabled, "enabled"@);
    lemma_descriptor(provider, enabled, "markets"@);
    lemma_descriptor(provider, enabled, "channels"@);
    reveal_strlit("provider");
    reveal_strlit("enabled");
    reveal_strlit("markets");
    reveal_strlit("channels");
    assert("provider"@.len() == 8);
    assert("enabled"@.len() == 7);
    assert("markets"@.len() == 7);
    assert("channels"@.len() == 8);
    assert("markets"@[0] == 'm' && "enabled"@[0] == 'e');
    assert("channels"@[0] == 'c' && "provider"@[0] == 'p');
}

proof fn lemma_readiness(readiness: Readiness, wanted: Seq<char>)
    ensures
        json::member_of(readiness.document(), wanted) == if wanted == "ready"@ {
            Some(JsonView::Bool(readiness.ready))
        } else if wanted == "status"@ {
            Some(JsonView::Text(if readiness.ready {
                "ready"@
            } else {
                "degraded"@
            }))
        } else if wanted == "endpoints"@ {
            Some(endpoints_document(readiness))
        } else if wanted == "catalogs"@ {
            Some(catalogs_document(readiness))
        } else {
            None
        },
{
    let part0 = Seq::<(Seq<char>, JsonView)>::empty().push(("ready"@, JsonView::Bool(readiness.ready)));
    lemma_added(Seq::<(Seq<char>, JsonView)>::empty(), "ready"@, JsonView::Bool(readiness.ready), wanted);
    let part1 = part0.push(("status"@, JsonView::Text(if readiness.ready {
                "ready"@
            } else {
                "degraded"@
            })));
    lemma_added(part0, "status"@, JsonView::Text(if readiness.ready {
                "ready"@
            } else {
                "degraded"@
            }), wanted);
    let part2 = part1.push(("endpoints"@, endpoints_document(readiness)));
    lemma_added(part1, "endpoints"@, endpoints_document(readiness), wanted);
    let part3 = part2.push(("catalogs"@, catalogs_document(readiness)));
    lemma_added(part2, "catalogs"@, catalogs_document(readiness), wanted);
    assert(wire::healths_document(
        crate::health::health_views(readiness.endpoints@),
    )->List_0 =~= endpoints_document(readiness)->List_0);
    assert(wire::statuses_document(readiness.catalogs@)->List_0 =~= catalogs_document(
        readiness,
    )->List_0);
    assert(readiness.document() == JsonView::Object(part3));
}

/// The document of the readiness says whether everything is ready, with the health of the connections and
/// the states of the catalogs.
pub proof fn law_readiness_is_told(readiness: Readiness)
    ensures
        ({
            let shown = readiness.document();
            &&& json::member_of(shown, "ready"@) == Some(JsonView::Bool(readiness.ready))
            &&& json::member_of(shown, "status"@) == Some(JsonView::Text(if readiness.ready {
                "ready"@
            } else {
                "degraded"@
            }))
            &&& json::member_of(shown, "endpoints"@) == Some(endpoints_document(readiness))
            &&& json::member_of(shown, "catalogs"@) == Some(catalogs_document(readiness))
        }),
{
    lemma_readiness(readiness, "ready"@);
    lemma_readiness(readiness, "status"@);
    lemma_readiness(readiness, "endpoints"@);
    lemma_readiness(readiness, "catalogs"@);
    reveal_strlit("ready");
    reveal_strlit("status");
    reveal_strlit("endpoints");
    reveal_strlit("catalogs");
    assert("ready"@.len() == 5);
    assert("status"@.len() == 6);
    assert("endpoints"@.len() == 9);
    assert("catalogs"@.len() == 8);
}

} // verus!
