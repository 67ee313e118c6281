//! The JSON documents in which clients receive what the gateway knows.
use vstd::prelude::*;

use crate::catalog::{
    CandleFinalitySupport, CandleVolumeSupport, CatalogStatusView, Instrument,
    InstrumentCapabilities, InstrumentView, ProviderCatalogStatus,
};
use crate::domain;
use crate::domain::{
    Candle, CandleFinality, CandleView, DecimalValue, KeyView, MarketEvent, MarketEventView,
    MarketPayload, ObservedDecimal, ObservedView, PayloadView, SequenceView, SourceSequence,
    SubscriptionKey, Ticker, TickerView,
};
use crate::health;
use crate::health::{ConnectionState, EndpointHealth, HealthView};
use crate::history::{HistoryCandle, HistoryResult};
use crate::json;
use crate::json::{Json, JsonView, Member};
use crate::text;

verus! {

// ---------------------------------------------------------------------------------------------
// Objects
// ---------------------------------------------------------------------------------------------

/// The members of an object.
pub type Fields = Seq<(Seq<char>, JsonView)>;

/// Members that are put together one by one.
pub trait ObjectFields: Sized {
    /// One more member.
    spec fn with(self, name: Seq<char>, value: JsonView) -> Self;

    /// One more member where there is a value for it.
    spec fn with_some(self, name: Seq<char>, value: Option<JsonView>) -> Self;
}

impl ObjectFields for Fields {
    open spec fn with(self, name: Seq<char>, value: JsonView) -> Self {
        self.push((name, value))
    }

    open spec fn with_some(self, name: Seq<char>, value: Option<JsonView>) -> Self {
        match value {
            Some(value) => self.push((name, value)),
            None => self,
        }
    }
}

/// No members.
pub open spec fn no_fields() -> Fields {
    Seq::empty()
}

/// An optional text as a document.
pub open spec fn some_text(value: Option<Seq<char>>) -> Option<JsonView> {
    match value {
        Some(text) => Some(JsonView::Text(text)),
        None => None,
    }
}

/// An optional number as a document.
pub open spec fn some_unsigned(value: Option<u64>) -> Option<JsonView> {
    match value {
        Some(n) => Some(json::unsigned_document(n)),
        None => None,
    }
}

/// An optional document, with null for nothing.
pub open spec fn or_null(value: Option<JsonView>) -> JsonView {
    match value {
        Some(value) => value,
        None => JsonView::Null,
    }
}

/// The values of a run of members.
pub open spec fn member_views(members: Seq<Member>) -> Fields {
    Seq::new(members.len(), |i: int| (members[i].name@, members[i].value@))
}

/// An object under construction.
pub struct ObjectBuilder {
    members: Vec<Member>,
}

impl View for ObjectBuilder {
    type V = Fields;

    closed spec fn view(&self) -> Fields {
        member_views(self.members@)
    }
}

impl ObjectBuilder {
    /// An object without members.
    pub fn new() -> (builder: ObjectBuilder)
        ensures
            builder@ == no_fields(),
    {
        let builder = ObjectBuilder { members: Vec::new() };
        proof {
            assert(builder@ =~= no_fields());
        }
        builder
    }

    /// One more member.
    pub fn put(&mut self, name: &str, value: Json)
        ensures
            final(self)@ == old(self)@.with(name@, value@),
    {
        let ghost before = self@;
        let ghost fresh = (name@, value@);
        self.members.push(Member { name: name.to_owned(), value });
        proof {
            assert(self@ =~= before.push(fresh));
        }
    }

    /// One more text.
    pub fn text(&mut self, name: &str, value: &str)
        ensures
            final(self)@ == old(self)@.with(name@, JsonView::Text(value@)),
    {
        self.put(name, Json::Text(value.to_owned()));
    }

    /// One more number.
    pub fn unsigned(&mut self, name: &str, value: u64)
        ensures
            final(self)@ == old(self)@.with(name@, json::unsigned_document(value)),
    {
        self.put(name, Json::unsigned(value));
    }

    /// One more truth value.
    pub fn flag(&mut self, name: &str, value: bool)
        ensures
            final(self)@ == old(self)@.with(name@, JsonView::Bool(value)),
    {
        self.put(name, Json::Bool(value));
    }

    /// One more text where there is one.
    pub fn some_text(&mut self, name: &str, value: &Option<String>)
        ensures
            final(self)@ == old(self)@.with_some(name@, some_text(domain::text_view(*value))),
    {
        if let Some(text) = value {
            self.text(name, text.as_str());
        }
    }

    /// One more number where there is one.
    pub fn some_unsigned(&mut self, name: &str, value: Option<u64>)
        ensures
            final(self)@ == old(self)@.with_some(name@, some_unsigned(value)),
    {
        if let Some(n) = value {
            self.unsigned(name, n);
        }
    }

    /// One more decimal where there is one.
    pub fn some_decimal(&mut self, name: &str, value: &Option<DecimalValue>)
        ensures
            final(self)@ == old(self)@.with_some(name@, some_text(domain::decimal_view(*value))),
    {
        if let Some(decimal) = value {
            self.text(name, decimal.as_str());
        }
    }

    /// The object.
    pub fn finish(self) -> (value: Json)
        ensures
            value@ == JsonView::Object(self@),
    {
        let value = Json::Object(self.members);
        proof {
            assert(value@->Object_0 =~= self@);
        }
        value
    }
}

/// The text of a document.
pub fn written(value: &Json) -> (text: String)
    ensures
        text@ == json::text_of(value@),
{
    json::write(value)
}

/// A list of documents.
pub fn list(items: Vec<Json>) -> (value: Json)
    ensures
        value@ == JsonView::List(json::views(items@)),
{
    let value = Json::List(items);
    proof {
        assert(value@->List_0 =~= json::views(items@));
    }
    value
}

// ---------------------------------------------------------------------------------------------
// Identifiers
// ---------------------------------------------------------------------------------------------

/// A universally unique identifier: thirty-two hexadecimal digits in five groups.
pub open spec fn uuid(n: u128) -> Seq<char> {
    let digits = text::hex_digits(n as nat, 32);
    digits.subrange(0, 8) + "-"@ + digits.subrange(8, 12) + "-"@ + digits.subrange(12, 16) + "-"@
        + digits.subrange(16, 20) + "-"@ + digits.subrange(20, 32)
}

/// The text of a universally unique identifier.
pub fn uuid_text(n: u128) -> (s: String)
    ensures
        s@ == uuid(n),
{
    let digits = text::hex_text(n, 32);
    proof {
        text::lemma_hex_length(n as nat, 32);
    }
    let digits = digits.as_str();
    let start = text::cat6(
        digits.substring_char(0, 8),
        "-",
        digits.substring_char(8, 12),
        "-",
        digits.substring_char(12, 16),
        "-",
    );
    text::cat4(
        start.as_str(),
        digits.substring_char(16, 20),
        "-",
        digits.substring_char(20, 32),
    )
}

/// A subscription key.
pub open spec fn key_document(key: KeyView) -> JsonView {
    JsonView::Object(
        no_fields()
            .with("provider"@, JsonView::Text(domain::provider_name(key.provider)))
            .with("market"@, JsonView::Text(domain::market_name(key.market)))
            .with("symbol"@, JsonView::Text(key.symbol))
            .with("channel"@, JsonView::Text(domain::channel_name(key.channel))),
    )
}

/// A subscription key as a document.
pub fn key_json(key: &SubscriptionKey) -> (value: Json)
    ensures
        value@ == key_document(key@),
{
    let mut object = ObjectBuilder::new();
    object.text("provider", key.provider.name());
    object.text("market", key.market.name());
    object.text("symbol", key.symbol.as_str());
    object.text("channel", key.channel.name());
    object.finish()
}

// ---------------------------------------------------------------------------------------------
// Market events
// ---------------------------------------------------------------------------------------------

/// An observed decimal.
pub open spec fn observed_document(observed: ObservedView) -> JsonView {
    JsonView::Object(
        no_fields()
            .with("value"@, JsonView::Text(observed.value))
            .with("observed_at_ms"@, json::unsigned_document(observed.observed_at_ms)),
    )
}

/// An optional observed decimal.
pub open spec fn some_observed(observed: Option<ObservedView>) -> Option<JsonView> {
    match observed {
        Some(observed) => Some(observed_document(observed)),
        None => None,
    }
}

/// A ticker. What is not known is left out.
pub open spec fn ticker_document(ticker: TickerView) -> JsonView {
    JsonView::Object(
        no_fields()
            .with_some("last"@, some_observed(ticker.last))
            .with_some("mark"@, some_observed(ticker.mark))
            .with_some("index"@, some_observed(ticker.index))
            .with_some("bid"@, some_observed(ticker.bid))
            .with_some("ask"@, some_observed(ticker.ask))
            .with_some("funding_rate"@, some_observed(ticker.funding_rate))
            .with_some("next_funding_time_ms"@, some_unsigned(ticker.next_funding_time_ms)),
    )
}

/// The word for a finality.
pub open spec fn finality_name(finality: CandleFinality) -> Seq<char> {
    match finality {
        CandleFinality::Open => "open"@,
        CandleFinality::Closed => "closed"@,
        CandleFinality::Unknown => "unknown"@,
    }
}

/// The remarks on the quality of data: there is one kind.
pub open spec fn quality_documents(count: nat) -> Option<JsonView> {
    if count == 0 {
        None
    } else {
        Some(
            JsonView::List(
                Seq::new(count, |i: int| JsonView::Text("provider_volume_untrusted"@)),
            ),
        )
    }
}

/// The members of a candle after other ones. What is not known is left out.
pub open spec fn with_candle(fields: Fields, candle: CandleView) -> Fields {
    fields
        .with("interval"@, JsonView::Text(candle.interval))
        .with("start_time_ms"@, json::unsigned_document(candle.start_time_ms))
        .with("end_time_ms"@, json::unsigned_document(candle.end_time_ms))
        .with("open"@, JsonView::Text(candle.open))
        .with("high"@, JsonView::Text(candle.high))
        .with("low"@, JsonView::Text(candle.low))
        .with("close"@, JsonView::Text(candle.close))
        .with_some("base_volume"@, some_text(candle.base_volume))
        .with_some("quote_volume"@, some_text(candle.quote_volume))
        .with_some("contract_volume"@, some_text(candle.contract_volume))
        .with("finality"@, JsonView::Text(finality_name(candle.finality)))
        .with_some("data_quality"@, quality_documents(candle.data_quality.len()))
}

/// The venue's own numbering.
pub open spec fn sequence_document(sequence: SequenceView) -> JsonView {
    JsonView::Object(
        no_fields()
            .with_some("first"@, some_text(sequence.first))
            .with_some("last"@, some_text(sequence.last))
            .with_some("previous"@, some_text(sequence.previous)),
    )
}

/// The optional numbering of a venue.
pub open spec fn some_sequence(sequence: Option<SequenceView>) -> Option<JsonView> {
    match sequence {
        Some(sequence) => Some(sequence_document(sequence)),
        None => None,
    }
}

/// A market event: the envelope, then the kind of its payload and the payload.
pub open spec fn event_document(event: MarketEventView) -> JsonView {
    let envelope = no_fields()
        .with("schema_version"@, json::unsigned_document(event.schema_version as u64))
        .with("stream_epoch"@, JsonView::Text(uuid(event.stream_epoch)))
        .with("delivery_sequence"@, json::unsigned_document(event.delivery_sequence))
        .with("connection_epoch"@, JsonView::Text(uuid(event.connection_epoch)))
        .with("instrument_id"@, JsonView::Text(event.instrument_id))
        .with("provider"@, JsonView::Text(domain::provider_name(event.provider)))
        .with("market"@, JsonView::Text(domain::market_name(event.market)))
        .with("symbol"@, JsonView::Text(event.symbol))
        .with_some("exchange_time_ms"@, some_unsigned(event.exchange_time_ms))
        .with("gateway_received_time_ms"@, json::unsigned_document(event.gateway_received_time_ms))
        .with_some("source_sequence"@, some_sequence(event.source_sequence));
    JsonView::Object(
        match event.payload {
            PayloadView::Ticker(ticker) => envelope
                .with("type"@, JsonView::Text("ticker"@))
                .with("data"@, ticker_document(ticker)),
            PayloadView::Candle(candle) => envelope
                .with("type"@, JsonView::Text("candle"@))
                .with("data"@, JsonView::Object(with_candle(no_fields(), candle))),
        },
    )
}

fn put_observed(object: &mut ObjectBuilder, name: &str, observed: &Option<ObservedDecimal>)
    ensures
        final(object)@ == old(object)@.with_some(
            name@,
            some_observed(domain::observed_view(*observed)),
        ),
{
    if let Some(observed) = observed {
        let mut inner = ObjectBuilder::new();
        inner.text("value", observed.value.as_str());
        inner.unsigned("observed_at_ms", observed.observed_at_ms);
        object.put(name, inner.finish());
    }
}

fn ticker_json(ticker: &Ticker) -> (value: Json)
    ensures
        value@ == ticker_document(ticker@),
{
    let mut object = ObjectBuilder::new();
    put_observed(&mut object, "last", &ticker.last);
    put_observed(&mut object, "mark", &ticker.mark);
    put_observed(&mut object, "index", &ticker.index);
    put_observed(&mut object, "bid", &ticker.bid);
    put_observed(&mut object, "ask", &ticker.ask);
    put_observed(&mut object, "funding_rate", &ticker.funding_rate);
    object.some_unsigned("next_funding_time_ms", ticker.next_funding_time_ms);
    object.finish()
}

fn put_quality(object: &mut ObjectBuilder, count: usize)
    ensures
        final(object)@ == old(object)@.with_some("data_quality"@, quality_documents(count as nat)),
{
    if count == 0 {
        return;
    }
    let mut items: Vec<Json> = Vec::new();
    let mut i: usize = 0;
    while i < count
        invariant
            i <= count,
            items@.len() == i,
            forall|k: int|
                0 <= k < i ==> (#[trigger] items@[k])@ == JsonView::Text(
                    "provider_volume_untrusted"@,
                ),
        decreases count - i,
    {
        items.push(Json::Text("provider_volume_untrusted".to_owned()));
        i += 1;
    }
    proof {
        assert(json::views(items@) =~= Seq::new(
            count as nat,
            |i: int| JsonView::Text("provider_volume_untrusted"@),
        ));
    }
    object.put("data_quality", list(items));
}

fn put_candle(object: &mut ObjectBuilder, candle: &Candle)
    ensures
        final(object)@ == with_candle(old(object)@, candle@),
{
    object.text("interval", candle.interval.as_str());
    object.unsigned("start_time_ms", candle.start_time_ms);
    object.unsigned("end_time_ms", candle.end_time_ms);
    object.text("open", candle.open.as_str());
    object.text("high", candle.high.as_str());
    object.text("low", candle.low.as_str());
    object.text("close", candle.close.as_str());
    object.some_decimal("base_volume", &candle.base_volume);
    object.some_decimal("quote_volume", &candle.quote_volume);
    object.some_decimal("contract_volume", &candle.contract_volume);
    let finality = match candle.finality {
        CandleFinality::Open => "open",
        CandleFinality::Closed => "closed",
        CandleFinality::Unknown => "unknown",
    };
    object.text("finality", finality);
    put_quality(object, candle.data_quality.len());
}

fn put_sequence(object: &mut ObjectBuilder, sequence: &Option<SourceSequence>)
    ensures
        final(object)@ == old(object)@.with_some(
            "source_sequence"@,
            some_sequence(domain::sequence_view(*sequence)),
        ),
{
    if let Some(sequence) = sequence {
        let mut inner = ObjectBuilder::new();
        inner.some_text("first", &sequence.first);
        inner.some_text("last", &sequence.last);
        inner.some_text("previous", &sequence.previous);
        object.put("source_sequence", inner.finish());
    }
}

/// A market event as a document.
pub fn event_json(event: &MarketEvent) -> (value: Json)
    ensures
        value@ == event_document(event@),
{
    let mut object = ObjectBuilder::new();
    object.unsigned("schema_version", event.schema_version as u64);
    object.text("stream_epoch", uuid_text(event.stream_epoch).as_str());
    object.unsigned("delivery_sequence", event.delivery_sequence);
    object.text("connection_epoch", uuid_text(event.connection_epoch).as_str());
    object.text("instrument_id", event.instrument_id.as_str());
    object.text("provider", event.provider.name());
    object.text("market", event.market.name());
    object.text("symbol", event.symbol.as_str());
    object.some_unsigned("exchange_time_ms", event.exchange_time_ms);
    object.unsigned("gateway_received_time_ms", event.gateway_received_time_ms);
    put_sequence(&mut object, &event.source_sequence);
    match &event.payload {
        MarketPayload::Ticker(ticker) => {
            object.text("type", "ticker");
            object.put("data", ticker_json(ticker));
        },
        MarketPayload::Candle(candle) => {
            object.text("type", "candle");
            let mut data = ObjectBuilder::new();
            put_candle(&mut data, candle);
            object.put("data", data.finish());
        },
    }
    object.finish()
}

/// The text of a market event.
pub fn event_text(event: &MarketEvent) -> (text: String)
    ensures
        text@ == json::text_of(event_document(event@)),
{
    json::write(&event_json(event))
}

// ---------------------------------------------------------------------------------------------
// History
// ---------------------------------------------------------------------------------------------

/// A candle of history: what it is a candle of, then its own members.
pub open spec fn history_candle_document(candle: HistoryCandle) -> JsonView {
    JsonView::Object(
        with_candle(
            no_fields()
                .with("provider"@, JsonView::Text(domain::provider_name(candle.provider)))
                .with("market"@, JsonView::Text(domain::market_name(candle.market)))
                .with("symbol"@, JsonView::Text(candle.symbol@)),
            candle.candle@,
        ),
    )
}

/// The result of a history request.
pub open spec fn history_document(result: HistoryResult) -> JsonView {
    JsonView::Object(
        no_fields()
            .with("provider"@, JsonView::Text(domain::provider_name(result.provider)))
            .with("market"@, JsonView::Text(domain::market_name(result.market)))
            .with("symbol"@, JsonView::Text(result.symbol@))
            .with("start_time_ms"@, json::unsigned_document(result.start_time_ms))
            .with("end_time_ms"@, json::unsigned_document(result.end_time_ms))
            .with(
                "candles"@,
                JsonView::List(
                    Seq::new(
                        result.candles@.len(),
                        |i: int| history_candle_document(result.candles@[i]),
                    ),
                ),
            ),
    )
}

fn history_candle_json(candle: &HistoryCandle) -> (value: Json)
    ensures
        value@ == history_candle_document(*candle),
{
    let mut object = ObjectBuilder::new();
    object.text("provider", candle.provider.name());
    object.text("market", candle.market.name());
    object.text("symbol", candle.symbol.as_str());
    put_candle(&mut object, &candle.candle);
    object.finish()
}

/// The result of a history request as a document.
pub fn history_json(result: &HistoryResult) -> (value: Json)
    ensures
        value@ == history_document(*result),
{
    let mut object = ObjectBuilder::new();
    object.text("provider", result.provider.name());
    object.text("market", result.market.name());
    object.text("symbol", result.symbol.as_str());
    object.unsigned("start_time_ms", result.start_time_ms);
    object.unsigned("end_time_ms", result.end_time_ms);
    let mut items: Vec<Json> = Vec::new();
    let mut i: usize = 0;
    while i < result.candles.len()
        invariant
            i <= result.candles@.len(),
            items@.len() == i,
            forall|k: int|
                0 <= k < i ==> (#[trigger] items@[k])@ == history_candle_document(
                    result.candles@[k],
                ),
        decreases result.candles.len() - i,
    {
        items.push(history_candle_json(&result.candles[i]));
        i += 1;
    }
    proof {
        assert(json::views(items@) =~= Seq::new(
            result.candles@.len(),
            |i: int| history_candle_document(result.candles@[i]),
        ));
    }
    object.put("candles", list(items));
    object.finish()
}

// ---------------------------------------------------------------------------------------------
// Catalog
// ---------------------------------------------------------------------------------------------

/// The features of an instrument.
pub open spec fn capabilities_document(features: InstrumentCapabilities) -> JsonView {
    JsonView::Object(
        no_fields()
            .with("ticker"@, JsonView::Bool(features.ticker))
            .with("candle_1m"@, JsonView::Bool(features.candle_1m))
            .with(
                "candle_1m_finality"@,
                JsonView::Text(
                    match features.candle_1m_finality {
                        CandleFinalitySupport::Authoritative => "authoritative"@,
                        CandleFinalitySupport::Unknown => "unknown"@,
                    },
                ),
            )
            .with(
                "candle_1m_volume"@,
                JsonView::Text(
                    match features.candle_1m_volume {
                        CandleVolumeSupport::Available => "available"@,
                        CandleVolumeSupport::Unavailable => "unavailable"@,
                    },
                ),
            ),
    )
}

/// An instrument. What is not known is left out.
pub open spec fn instrument_document(instrument: InstrumentView) -> JsonView {
    JsonView::Object(
        no_fields()
            .with("instrument_id"@, JsonView::Text(instrument.instrument_id))
            .with("symbol"@, JsonView::Text(instrument.symbol))
            .with("provider"@, JsonView::Text(domain::provider_name(instrument.provider)))
            .with("market"@, JsonView::Text(domain::market_name(instrument.market)))
            .with("base_asset"@, JsonView::Text(instrument.base_asset))
            .with("quote_asset"@, JsonView::Text(instrument.quote_asset))
            .with("settle_asset"@, JsonView::Text(instrument.settle_asset))
            .with("status"@, JsonView::Text("live"@))
            .with("venue_status"@, JsonView::Text(instrument.venue_status))
            .with("tick_size"@, JsonView::Text(instrument.tick_size))
            .with("quantity_step"@, JsonView::Text(instrument.quantity_step))
            .with_some("contract_size"@, some_text(instrument.contract_size))
            .with_some("contract_size_asset"@, some_text(instrument.contract_size_asset))
            .with_some("max_leverage"@, some_text(instrument.max_leverage))
            .with_some("listing_time_ms"@, some_unsigned(instrument.listing_time_ms))
            .with_some("expiry_time_ms"@, some_unsigned(instrument.expiry_time_ms))
            .with("capabilities"@, capabilities_document(instrument.capabilities)),
    )
}

/// The refresh state of a venue, with null for what is not known.
pub open spec fn status_document(status: CatalogStatusView) -> JsonView {
    JsonView::Object(
        no_fields()
            .with("provider"@, JsonView::Text(domain::provider_name(status.provider)))
            .with("enabled"@, JsonView::Bool(status.enabled))
            .with("instrument_count"@, json::unsigned_document(status.instrument_count as u64))
            .with("last_attempt_at_ms"@, or_null(some_unsigned(status.last_attempt_at_ms)))
            .with("last_success_at_ms"@, or_null(some_unsigned(status.last_success_at_ms)))
            .with("last_error"@, or_null(some_text(status.last_error))),
    )
}

fn capabilities_json(features: InstrumentCapabilities) -> (value: Json)
    ensures
        value@ == capabilities_document(features),
{
    let mut object = ObjectBuilder::new();
    object.flag("ticker", features.ticker);
    object.flag("candle_1m", features.candle_1m);
    let finality = match features.candle_1m_finality {
        CandleFinalitySupport::Authoritative => "authoritative",
        CandleFinalitySupport::Unknown => "unknown",
    };
    object.text("candle_1m_finality", finality);
    let volume = match features.candle_1m_volume {
        CandleVolumeSupport::Available => "available",
        CandleVolumeSupport::Unavailable => "unavailable",
    };
    object.text("candle_1m_volume", volume);
    object.finish()
}

/// An instrument as a document.
pub fn instrument_json(instrument: &Instrument) -> (value: Json)
    ensures
        value@ == instrument_document(instrument@),
{
    let mut object = ObjectBuilder::new();
    object.text("instrument_id", instrument.instrument_id.as_str());
    object.text("symbol", instrument.symbol.as_str());
    object.text("provider", instrument.provider.name());
    object.text("market", instrument.market.name());
    object.text("base_asset", instrument.base_asset.as_str());
    object.text("quote_asset", instrument.quote_asset.as_str());
    object.text("settle_asset", instrument.settle_asset.as_str());
    object.text("status", "live");
    object.text("venue_status", instrument.venue_status.as_str());
    object.text("tick_size", instrument.tick_size.as_str());
    object.text("quantity_step", instrument.quantity_step.as_str());
    object.some_decimal("contract_size", &instrument.contract_size);
    object.some_text("contract_size_asset", &instrument.contract_size_asset);
    object.some_decimal("max_leverage", &instrument.max_leverage);
    object.some_unsigned("listing_time_ms", instrument.listing_time_ms);
    object.some_unsigned("expiry_time_ms", instrument.expiry_time_ms);
    object.put("capabilities", capabilities_json(instrument.capabilities));
    object.finish()
}

/// Instruments as a document.
pub fn instruments_json(instruments: &Vec<Instrument>) -> (value: Json)
    ensures
        value@ == JsonView::List(
            Seq::new(
                instruments@.len(),
                |i: int| instrument_document(instruments@[i]@),
            ),
        ),
{
    let mut items: Vec<Json> = Vec::new();
    let mut i: usize = 0;
    while i < instruments.len()
        invariant
            i <= instruments@.len(),
            items@.len() == i,
            forall|k: int|
                0 <= k < i ==> (#[trigger] items@[k])@ == instrument_document(instruments@[k]@),
        decreases instruments.len() - i,
    {
        items.push(instrument_json(&instruments[i]));
        i += 1;
    }
    proof {
        assert(json::views(items@) =~= Seq::new(
            instruments@.len(),
            |i: int| instrument_document(instruments@[i]@),
        ));
    }
    list(items)
}

fn unsigned_or_null(value: Option<u64>) -> (document: Json)
    ensures
        document@ == or_null(some_unsigned(value)),
{
    match value {
        Some(n) => Json::unsigned(n),
        None => Json::Null,
    }
}

/// The refresh state of a venue as a document.
pub fn status_json(status: &ProviderCatalogStatus) -> (value: Json)
    ensures
        value@ == status_document(status@),
{
    let mut object = ObjectBuilder::new();
    object.text("provider", status.provider.name());
    object.flag("enabled", status.enabled);
    object.unsigned("instrument_count", status.instrument_count as u64);
    object.put("last_attempt_at_ms", unsigned_or_null(status.last_attempt_at_ms));
    object.put("last_success_at_ms", unsigned_or_null(status.last_success_at_ms));
    let last_error = match &status.last_error {
        Some(error) => Json::Text(error.clone()),
        None => Json::Null,
    };
    object.put("last_error", last_error);
    object.finish()
}

/// The refresh states of venues.
pub open spec fn statuses_document(statuses: Seq<ProviderCatalogStatus>) -> JsonView {
    JsonView::List(Seq::new(statuses.len(), |i: int| status_document(statuses[i]@)))
}

/// The refresh states of venues as a document.
pub fn statuses_json(statuses: &Vec<ProviderCatalogStatus>) -> (value: Json)
    ensures
        value@ == statuses_document(statuses@),
{
    let mut items: Vec<Json> = Vec::new();
    let mut i: usize = 0;
    while i < statuses.len()
        invariant
            i <= statuses@.len(),
            items@.len() == i,
            forall|k: int|
                0 <= k < i ==> (#[trigger] items@[k])@ == status_document(statuses@[k]@),
        decreases statuses.len() - i,
    {
        items.push(status_json(&statuses[i]));
        i += 1;
    }
    proof {
        assert(json::views(items@) =~= Seq::new(
            statuses@.len(),
            |i: int| status_document(statuses@[i]@),
        ));
    }
    list(items)
}

// ---------------------------------------------------------------------------------------------
// Health
// ---------------------------------------------------------------------------------------------

/// The word for the state of a connection.
pub open spec fn state_name(state: ConnectionState) -> Seq<char> {
    match state {
        ConnectionState::Idle => "idle"@,
        ConnectionState::Connecting => "connecting"@,
        ConnectionState::Live => "live"@,
        ConnectionState::Backoff => "backoff"@,
        ConnectionState::Stopped => "stopped"@,
    }
}

/// The state of an endpoint. What is not known is left out.
pub open spec fn health_document(health: HealthView) -> JsonView {
    JsonView::Object(
        no_fields()
            .with("provider"@, JsonView::Text(domain::provider_name(health.provider)))
            .with("endpoint"@, JsonView::Text(health.endpoint))
            .with("state"@, JsonView::Text(state_name(health.state)))
            .with(
                "desired_subscriptions"@,
                json::unsigned_document(health.desired_subscriptions as u64),
            )
            .with("reconnects"@, json::unsigned_document(health.reconnects))
            .with_some(
                "connection_epoch"@,
                match health.connection_epoch {
                    Some(epoch) => Some(JsonView::Text(uuid(epoch))),
                    None => None,
                },
            )
            .with_some("connected_at_ms"@, some_unsigned(health.connected_at_ms))
            .with_some("last_event_at_ms"@, some_unsigned(health.last_event_at_ms))
            .with_some("last_error"@, some_text(health.last_error)),
    )
}

fn health_json(health: &EndpointHealth) -> (value: Json)
    ensures
        value@ == health_document(health@),
{
    let mut object = ObjectBuilder::new();
    object.text("provider", health.provider.name());
    object.text("endpoint", health.endpoint.as_str());
    let state = match health.state {
        ConnectionState::Idle => "idle",
        ConnectionState::Connecting => "connecting",
        ConnectionState::Live => "live",
        ConnectionState::Backoff => "backoff",
        ConnectionState::Stopped => "stopped",
    };
    object.text("state", state);
    object.unsigned("desired_subscriptions", health.desired_subscriptions as u64);
    object.unsigned("reconnects", health.reconnects);
    if let Some(epoch) = health.connection_epoch {
        object.text("connection_epoch", uuid_text(epoch).as_str());
    }
    object.some_unsigned("connected_at_ms", health.connected_at_ms);
    object.some_unsigned("last_event_at_ms", health.last_event_at_ms);
    object.some_text("last_error", &health.last_error);
    object.finish()
}

/// The states of endpoints.
pub open spec fn healths_document(list: Seq<HealthView>) -> JsonView {
    JsonView::List(Seq::new(list.len(), |i: int| health_document(list[i])))
}

/// The states of endpoints as a document.
pub fn healths_json(endpoints: &Vec<EndpointHealth>) -> (value: Json)
    ensures
        value@ == healths_document(health::health_views(endpoints@)),
{
    let ghost all = health::health_views(endpoints@);
    let mut items: Vec<Json> = Vec::new();
    let mut i: usize = 0;
    while i < endpoints.len()
        invariant
            i <= endpoints@.len(),
            items@.len() == i,
            all == health::health_views(endpoints@),
            forall|k: int| 0 <= k < i ==> (#[trigger] items@[k])@ == health_document(all[k]),
        decreases endpoints.len() - i,
    {
        items.push(health_json(&endpoints[i]));
        i += 1;
    }
    proof {
        assert(json::views(items@) =~= Seq::new(
            all.len(),
            |i: int| health_document(all[i]),
        ));
    }
    list(items)
}

// ---------------------------------------------------------------------------------------------
// Laws
// ---------------------------------------------------------------------------------------------

/// A member at the end of an object is found where no other of its name comes before it.
proof fn lemma_last_member(fields: Fields, name: Seq<char>, value: JsonView, wanted: Seq<char>)
    ensures
        json::named(fields.with(name, value), wanted) == match json::named(fields, wanted) {
            Some(found) => Some(found),
            None => if name == wanted {
                Some(value)
            } else {
                None
            },
        },
    decreases fields.len(),
{
    let longer = fields.with(name, value);
    reveal_with_fuel(json::named, 2);
    if fields.len() > 0 {
        assert(longer[0] == fields[0]);
        assert(longer.skip(1) =~= fields.skip(1).with(name, value));
        lemma_last_member(fields.skip(1), name, value, wanted);
    } else {
        assert(longer.skip(1) =~= no_fields());
    }
}

/// A member that may be at the end of an object is found where no other of its name comes before
/// it.
proof fn lemma_last_some(fields: Fields, name: Seq<char>, value: Option<JsonView>, wanted: Seq<char>)
    ensures
        json::named(fields.with_some(name, value), wanted) == match json::named(fields, wanted) {
            Some(found) => Some(found),
            None => if name == wanted {
                value
            } else {
                None
            },
        },
{
    if let Some(value) = value {
        lemma_last_member(fields, name, value, wanted);
    }
}

/// What a ticker's document has under a name.
proof fn lemma_ticker_member(ticker: TickerView, wanted: Seq<char>)
    ensures
        json::member_of(ticker_document(ticker), wanted) == if wanted == "last"@
            && ticker.last is Some {
            some_observed(ticker.last)
        } else if wanted == "mark"@ && ticker.mark is Some {
            some_observed(ticker.mark)
        } else if wanted == "index"@ && ticker.index is Some {
            some_observed(ticker.index)
        } else if wanted == "bid"@ && ticker.bid is Some {
            some_observed(ticker.bid)
        } else if wanted == "ask"@ && ticker.ask is Some {
            some_observed(ticker.ask)
        } else if wanted == "funding_rate"@ && ticker.funding_rate is Some {
            some_observed(ticker.funding_rate)
        } else if wanted == "next_funding_time_ms"@ {
            some_unsigned(ticker.next_funding_time_ms)
        } else {
            None
        },
{
    let f0 = no_fields();
    let f1 = f0.with_some("last"@, some_observed(ticker.last));
    let f2 = f1.with_some("mark"@, some_observed(ticker.mark));
    let f3 = f2.with_some("index"@, some_observed(ticker.index));
    let f4 = f3.with_some("bid"@, some_observed(ticker.bid));
    let f5 = f4.with_some("ask"@, some_observed(ticker.ask));
    let f6 = f5.with_some("funding_rate"@, some_observed(ticker.funding_rate));
    lemma_last_some(f0, "last"@, some_observed(ticker.last), wanted);
    lemma_last_some(f1, "mark"@, some_observed(ticker.mark), wanted);
    lemma_last_some(f2, "index"@, some_observed(ticker.index), wanted);
    lemma_last_some(f3, "bid"@, some_observed(ticker.bid), wanted);
    lemma_last_some(f4, "ask"@, some_observed(ticker.ask), wanted);
    lemma_last_some(f5, "funding_rate"@, some_observed(ticker.funding_rate), wanted);
    lemma_last_some(
        f6,
        "next_funding_time_ms"@,
        some_unsigned(ticker.next_funding_time_ms),
        wanted,
    );
}

/// What is known of a ticker stands in its document under the name of the field, and what is not
/// known does not stand there.
pub proof fn law_tickers_say_just_what_is_known(ticker: TickerView)
    ensures
        ({
            let shown = ticker_document(ticker);
            &&& json::member_of(shown, "last"@) == some_observed(ticker.last)
            &&& json::member_of(shown, "mark"@) == some_observed(ticker.mark)
            &&& json::member_of(shown, "index"@) == some_observed(ticker.index)
            &&& json::member_of(shown, "bid"@) == some_observed(ticker.bid)
            &&& json::member_of(shown, "ask"@) == some_observed(ticker.ask)
            &&& json::member_of(shown, "funding_rate"@) == some_observed(ticker.funding_rate)
            &&& json::member_of(shown, "next_funding_time_ms"@) == some_unsigned(
                ticker.next_funding_time_ms,
            )
        }),
{
    lemma_ticker_member(ticker, "last"@);
    lemma_ticker_member(ticker, "mark"@);
    lemma_ticker_member(ticker, "index"@);
    lemma_ticker_member(ticker, "bid"@);
    lemma_ticker_member(ticker, "ask"@);
    lemma_ticker_member(ticker, "funding_rate"@);
    lemma_ticker_member(ticker, "next_funding_time_ms"@);
    reveal_strlit("last");
    reveal_strlit("mark");
    reveal_strlit("index");
    reveal_strlit("bid");
    reveal_strlit("ask");
    reveal_strlit("funding_rate");
    reveal_strlit("next_funding_time_ms");
    assert("last"@[0] != "mark"@[0]);
    assert("bid"@[0] != "ask"@[0]);
    assert("last"@.len() == 4 && "index"@.len() == 5 && "bid"@.len() == 3);
    assert("funding_rate"@.len() == 12 && "next_funding_time_ms"@.len() == 20);
}

/// A decimal is written as a text of just its characters, beside the time of its observation.
pub proof fn law_decimals_are_written_as_texts(observed: ObservedView)
    ensures
        json::member_text(observed_document(observed), "value"@) == Some(observed.value),
        json::member_unsigned(observed_document(observed), "observed_at_ms"@) == Some(
            observed.observed_at_ms,
        ),
{
    let time = json::unsigned_document(observed.observed_at_ms);
    let first = no_fields().with("value"@, JsonView::Text(observed.value));
    lemma_last_member(no_fields(), "value"@, JsonView::Text(observed.value), "value"@);
    lemma_last_member(no_fields(), "value"@, JsonView::Text(observed.value), "observed_at_ms"@);
    lemma_last_member(first, "observed_at_ms"@, time, "value"@);
    lemma_last_member(first, "observed_at_ms"@, time, "observed_at_ms"@);
    reveal_strlit("value");
    reveal_strlit("observed_at_ms");
    assert("value"@.len() != "observed_at_ms"@.len());
}

} // verus!
