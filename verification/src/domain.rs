//! Instruments, subscriptions and normalized market events.
use vstd::prelude::*;

use crate::decimal;
use crate::text;

verus! {

/// Version of the event schema carried by every message.
pub const SCHEMA_VERSION: u16 = 1;

/// The length of one candle.
pub const CANDLE_INTERVAL_MS: u64 = 60_000;

/// The longest venue symbol, in bytes.
pub const MAX_SYMBOL_BYTES: usize = 64;

/// A venue whose public market data the gateway streams.
#[derive(Debug, Clone, Copy, PartialEq, Eq, Structural, Hash, PartialOrd, Ord)]
pub enum Provider {
    Bybit,
    Binance,
    Okx,
    Kucoin,
    Mexc,
    Bingx,
}

/// The kind of market that an instrument belongs to.
#[derive(Debug, Clone, Copy, PartialEq, Eq, Structural, Hash, PartialOrd, Ord)]
pub enum MarketKind {
    LinearPerpetual,
}

/// A stream of market data of one instrument.
#[derive(Debug, Clone, Copy, PartialEq, Eq, Structural, Hash, PartialOrd, Ord)]
pub enum Channel {
    Ticker,
    Candle1m,
}

/// Whether a candle can still change.
#[derive(Debug, Clone, Copy, PartialEq, Eq, Structural)]
pub enum CandleFinality {
    Open,
    Closed,
    Unknown,
}

/// A reservation about the data of a candle.
#[derive(Debug, Clone, Copy, PartialEq, Eq, Structural)]
pub enum DataQuality {
    ProviderVolumeUntrusted,
}

/// One channel of one instrument of one venue.
#[derive(Debug, PartialEq, Eq, Hash, PartialOrd, Ord)]
pub struct SubscriptionKey {
    pub provider: Provider,
    pub market: MarketKind,
    pub symbol: String,
    pub channel: Channel,
}

/// A client's wish for channels of one instrument.
#[derive(Debug, PartialEq, Eq)]
pub struct Subscription {
    pub provider: Provider,
    pub market: MarketKind,
    pub symbol: String,
    pub channels: Vec<Channel>,
}

/// A finite decimal in the exact text in which the venue sent it.
#[derive(Debug, PartialEq, Eq)]
pub struct DecimalValue(String);

/// A decimal with the time at which it was observed.
#[derive(Debug, PartialEq, Eq)]
pub struct ObservedDecimal {
    pub value: DecimalValue,
    pub observed_at_ms: u64,
}

/// The latest prices of an instrument.
#[derive(Debug, PartialEq, Eq)]
pub struct Ticker {
    pub last: Option<ObservedDecimal>,
    pub mark: Option<ObservedDecimal>,
    pub index: Option<ObservedDecimal>,
    pub bid: Option<ObservedDecimal>,
    pub ask: Option<ObservedDecimal>,
    pub funding_rate: Option<ObservedDecimal>,
    pub next_funding_time_ms: Option<u64>,
}

/// One candle. The end of its window is exclusive.
#[derive(Debug, PartialEq, Eq)]
pub struct Candle {
    pub interval: String,
    pub start_time_ms: u64,
    pub end_time_ms: u64,
    pub open: DecimalValue,
    pub high: DecimalValue,
    pub low: DecimalValue,
    pub close: DecimalValue,
    pub base_volume: Option<DecimalValue>,
    pub quote_volume: Option<DecimalValue>,
    pub contract_volume: Option<DecimalValue>,
    pub finality: CandleFinality,
    pub data_quality: Vec<DataQuality>,
}

/// The venue's own numbering of an update.
#[derive(Debug, PartialEq, Eq)]
pub struct SourceSequence {
    pub first: Option<String>,
    pub last: Option<String>,
    pub previous: Option<String>,
}

/// What a market event carries.
#[derive(Debug, PartialEq, Eq)]
pub enum MarketPayload {
    Ticker(Ticker),
    Candle(Candle),
}

/// A normalized update of one venue connection, before the gateway has numbered it.
#[derive(Debug, PartialEq, Eq)]
pub struct ProviderEvent {
    pub connection_epoch: u128,
    pub provider: Provider,
    pub market: MarketKind,
    pub symbol: String,
    pub exchange_time_ms: Option<u64>,
    pub gateway_received_time_ms: u64,
    pub source_sequence: Option<SourceSequence>,
    pub payload: MarketPayload,
}

/// A normalized update as clients receive it.
#[derive(Debug, PartialEq, Eq)]
pub struct MarketEvent {
    pub schema_version: u16,
    pub stream_epoch: u128,
    pub delivery_sequence: u64,
    pub connection_epoch: u128,
    pub instrument_id: String,
    pub provider: Provider,
    pub market: MarketKind,
    pub symbol: String,
    pub exchange_time_ms: Option<u64>,
    pub gateway_received_time_ms: u64,
    pub source_sequence: Option<SourceSequence>,
    pub payload: MarketPayload,
}

/// Why a value is not part of the domain.
#[derive(Debug, Clone, PartialEq, Eq)]
pub enum DomainError {
    InvalidSymbol(String),
    NoChannels,
    InvalidDecimal(String),
    TickerWithoutPrice,
    InvalidCandleWindow,
}

// ---------------------------------------------------------------------------------------------
// Mathematical values
// ---------------------------------------------------------------------------------------------

/// The mathematical value of a subscription key.
pub struct KeyView {
    pub provider: Provider,
    pub market: MarketKind,
    pub symbol: Seq<char>,
    pub channel: Channel,
}

/// The mathematical value of a subscription.
pub struct SubscriptionView {
    pub provider: Provider,
    pub market: MarketKind,
    pub symbol: Seq<char>,
    pub channels: Seq<Channel>,
}

/// The mathematical value of an observed decimal.
pub struct ObservedView {
    pub value: Seq<char>,
    pub observed_at_ms: u64,
}

/// The mathematical value of a ticker.
pub struct TickerView {
    pub last: Option<ObservedView>,
    pub mark: Option<ObservedView>,
    pub index: Option<ObservedView>,
    pub bid: Option<ObservedView>,
    pub ask: Option<ObservedView>,
    pub funding_rate: Option<ObservedView>,
    pub next_funding_time_ms: Option<u64>,
}

/// The mathematical value of a candle.
pub struct CandleView {
    pub interval: Seq<char>,
    pub start_time_ms: u64,
    pub end_time_ms: u64,
    pub open: Seq<char>,
    pub high: Seq<char>,
    pub low: Seq<char>,
    pub close: Seq<char>,
    pub base_volume: Option<Seq<char>>,
    pub quote_volume: Option<Seq<char>>,
    pub contract_volume: Option<Seq<char>>,
    pub finality: CandleFinality,
    pub data_quality: Seq<DataQuality>,
}

/// The mathematical value of a source sequence.
pub struct SequenceView {
    pub first: Option<Seq<char>>,
    pub last: Option<Seq<char>>,
    pub previous: Option<Seq<char>>,
}

/// The mathematical value of a payload.
pub enum PayloadView {
    Ticker(TickerView),
    Candle(CandleView),
}

/// The mathematical value of a venue update.
pub struct ProviderEventView {
    pub connection_epoch: u128,
    pub provider: Provider,
    pub market: MarketKind,
    pub symbol: Seq<char>,
    pub exchange_time_ms: Option<u64>,
    pub gateway_received_time_ms: u64,
    pub source_sequence: Option<SequenceView>,
    pub payload: PayloadView,
}

/// The mathematical value of a market event.
pub struct MarketEventView {
    pub schema_version: u16,
    pub stream_epoch: u128,
    pub delivery_sequence: u64,
    pub connection_epoch: u128,
    pub instrument_id: Seq<char>,
    pub provider: Provider,
    pub market: MarketKind,
    pub symbol: Seq<char>,
    pub exchange_time_ms: Option<u64>,
    pub gateway_received_time_ms: u64,
    pub source_sequence: Option<SequenceView>,
    pub payload: PayloadView,
}

/// The mathematical value of a domain error.
pub enum DomainErrorView {
    InvalidSymbol(Seq<char>),
    NoChannels,
    InvalidDecimal(Seq<char>),
    TickerWithoutPrice,
    InvalidCandleWindow,
}

/// The characters of an optional text.
pub open spec fn text_view(value: Option<String>) -> Option<Seq<char>> {
    match value {
        Some(text) => Some(text@),
        None => None,
    }
}

/// The text of an optional decimal.
pub open spec fn decimal_view(value: Option<DecimalValue>) -> Option<Seq<char>> {
    match value {
        Some(decimal) => Some(decimal@),
        None => None,
    }
}

/// The value of an optional observation.
pub open spec fn observed_view(value: Option<ObservedDecimal>) -> Option<ObservedView> {
    match value {
        Some(observed) => Some(observed@),
        None => None,
    }
}

/// The value of an optional source sequence.
pub open spec fn sequence_view(value: Option<SourceSequence>) -> Option<SequenceView> {
    match value {
        Some(sequence) => Some(sequence@),
        None => None,
    }
}

impl View for SubscriptionKey {
    type V = KeyView;

    open spec fn view(&self) -> KeyView {
        KeyView {
            provider: self.provider,
            market: self.market,
            symbol: self.symbol@,
            channel: self.channel,
        }
    }
}

impl View for Subscription {
    type V = SubscriptionView;

    open spec fn view(&self) -> SubscriptionView {
        SubscriptionView {
            provider: self.provider,
            market: self.market,
            symbol: self.symbol@,
            channels: self.channels@,
        }
    }
}

impl View for DecimalValue {
    type V = Seq<char>;

    closed spec fn view(&self) -> Seq<char> {
        self.0@
    }
}

impl View for ObservedDecimal {
    type V = ObservedView;

    open spec fn view(&self) -> ObservedView {
        ObservedView { value: self.value@, observed_at_ms: self.observed_at_ms }
    }
}

impl View for Ticker {
    type V = TickerView;

    open spec fn view(&self) -> TickerView {
        TickerView {
            last: observed_view(self.last),
            mark: observed_view(self.mark),
            index: observed_view(self.index),
            bid: observed_view(self.bid),
            ask: observed_view(self.ask),
            funding_rate: observed_view(self.funding_rate),
            next_funding_time_ms: self.next_funding_time_ms,
        }
    }
}

impl View for Candle {
    type V = CandleView;

    open spec fn view(&self) -> CandleView {
        CandleView {
            interval: self.interval@,
            start_time_ms: self.start_time_ms,
            end_time_ms: self.end_time_ms,
            open: self.open@,
            high: self.high@,
            low: self.low@,
            close: self.close@,
            base_volume: decimal_view(self.base_volume),
            quote_volume: decimal_view(self.quote_volume),
            contract_volume: decimal_view(self.contract_volume),
            finality: self.finality,
            data_quality: self.data_quality@,
        }
    }
}

impl View for SourceSequence {
    type V = SequenceView;

    open spec fn view(&self) -> SequenceView {
        SequenceView {
            first: text_view(self.first),
            last: text_view(self.last),
            previous: text_view(self.previous),
        }
    }
}

impl View for MarketPayload {
    type V = PayloadView;

    open spec fn view(&self) -> PayloadView {
        match self {
            MarketPayload::Ticker(ticker) => PayloadView::Ticker(ticker@),
            MarketPayload::Candle(candle) => PayloadView::Candle(candle@),
        }
    }
}

impl View for ProviderEvent {
    type V = ProviderEventView;

    open spec fn view(&self) -> ProviderEventView {
        ProviderEventView {
            connection_epoch: self.connection_epoch,
            provider: self.provider,
            market: self.market,
            symbol: self.symbol@,
            exchange_time_ms: self.exchange_time_ms,
            gateway_received_time_ms: self.gateway_received_time_ms,
            source_sequence: sequence_view(self.source_sequence),
            payload: self.payload@,
        }
    }
}

impl View for MarketEvent {
    type V = MarketEventView;

    open spec fn view(&self) -> MarketEventView {
        MarketEventView {
            schema_version: self.schema_version,
            stream_epoch: self.stream_epoch,
            delivery_sequence: self.delivery_sequence,
            connection_epoch: self.connection_epoch,
            instrument_id: self.instrument_id@,
            provider: self.provider,
            market: self.market,
            symbol: self.symbol@,
            exchange_time_ms: self.exchange_time_ms,
            gateway_received_time_ms: self.gateway_received_time_ms,
            source_sequence: sequence_view(self.source_sequence),
            payload: self.payload@,
        }
    }
}

impl View for DomainError {
    type V = DomainErrorView;

    open spec fn view(&self) -> DomainErrorView {
        match self {
            DomainError::InvalidSymbol(symbol) => DomainErrorView::InvalidSymbol(symbol@),
            DomainError::NoChannels => DomainErrorView::NoChannels,
            DomainError::InvalidDecimal(value) => DomainErrorView::InvalidDecimal(value@),
            DomainError::TickerWithoutPrice => DomainErrorView::TickerWithoutPrice,
            DomainError::InvalidCandleWindow => DomainErrorView::InvalidCandleWindow,
        }
    }
}

// ---------------------------------------------------------------------------------------------
// What the operations mean
// ---------------------------------------------------------------------------------------------

/// The name of a venue.
pub open spec fn provider_name(provider: Provider) -> Seq<char> {
    match provider {
        Provider::Bybit => "bybit"@,
        Provider::Binance => "binance"@,
        Provider::Okx => "okx"@,
        Provider::Kucoin => "kucoin"@,
        Provider::Mexc => "mexc"@,
        Provider::Bingx => "bingx"@,
    }
}

/// The name of a market kind.
pub open spec fn market_name(market: MarketKind) -> Seq<char> {
    "linear_perpetual"@
}

/// The name of a channel.
pub open spec fn channel_name(channel: Channel) -> Seq<char> {
    match channel {
        Channel::Ticker => "ticker"@,
        Channel::Candle1m => "candle_1m"@,
    }
}

/// The identifier of an instrument: venue, market kind and symbol with colons between them.
pub open spec fn instrument_identifier(
    provider: Provider,
    market: MarketKind,
    symbol: Seq<char>,
) -> Seq<char> {
    provider_name(provider) + ":"@ + market_name(market) + ":"@ + symbol
}

/// The alphabet of venue symbols.
pub open spec fn in_symbol_alphabet(c: char) -> bool {
    text::is_alphanumeric(c) || c == '-' || c == '_' || c == '.'
}

/// Whether a text, taken as it is, is a venue symbol in any letter case.
pub open spec fn is_symbol(s: Seq<char>) -> bool {
    &&& s.len() > 0
    &&& text::byte_length(s) <= MAX_SYMBOL_BYTES
    &&& forall|i: int| 0 <= i < s.len() ==> in_symbol_alphabet(#[trigger] s[i])
}

/// The identity of a venue symbol: without surrounding white space and in upper case.
pub open spec fn symbol_identity(s: Seq<char>) -> Result<Seq<char>, DomainErrorView> {
    let symbol = text::trimmed(s);
    if is_symbol(symbol) {
        Ok(text::uppered(symbol))
    } else {
        Err(DomainErrorView::InvalidSymbol(symbol))
    }
}

/// Whether a text is a finite decimal.
pub open spec fn is_decimal(s: Seq<char>) -> bool {
    decimal::decimal_of(s) is Some
}

/// Whether a ticker has at least one price.
pub open spec fn has_some_price(ticker: TickerView) -> bool {
    ticker.last is Some || ticker.mark is Some || ticker.index is Some || ticker.bid is Some
        || ticker.ask is Some
}

/// A ticker of which nothing is known yet.
pub open spec fn empty_ticker() -> TickerView {
    TickerView {
        last: None,
        mark: None,
        index: None,
        bid: None,
        ask: None,
        funding_rate: None,
        next_funding_time_ms: None,
    }
}

/// Whether the window of a candle is one minute.
pub open spec fn covers_one_minute(candle: CandleView) -> bool {
    &&& candle.interval == "1m"@
    &&& candle.end_time_ms == candle.start_time_ms + CANDLE_INTERVAL_MS
}

/// Why a payload is not fit for delivery.
pub open spec fn payload_problem(payload: PayloadView) -> Option<DomainErrorView> {
    match payload {
        PayloadView::Ticker(ticker) => if has_some_price(ticker) {
            None
        } else {
            Some(DomainErrorView::TickerWithoutPrice)
        },
        PayloadView::Candle(candle) => if covers_one_minute(candle) {
            None
        } else {
            Some(DomainErrorView::InvalidCandleWindow)
        },
    }
}

/// The channel that a payload belongs to.
pub open spec fn payload_channel(payload: PayloadView) -> Channel {
    match payload {
        PayloadView::Ticker(_) => Channel::Ticker,
        PayloadView::Candle(_) => Channel::Candle1m,
    }
}

/// The key under which a venue update is delivered.
pub open spec fn event_key(event: ProviderEventView) -> KeyView {
    KeyView {
        provider: event.provider,
        market: event.market,
        symbol: event.symbol,
        channel: payload_channel(event.payload),
    }
}

/// The market event that a numbered venue update becomes.
pub open spec fn numbered(
    event: ProviderEventView,
    stream_epoch: u128,
    delivery_sequence: u64,
) -> MarketEventView {
    MarketEventView {
        schema_version: SCHEMA_VERSION,
        stream_epoch,
        delivery_sequence,
        connection_epoch: event.connection_epoch,
        instrument_id: instrument_identifier(event.provider, event.market, event.symbol),
        provider: event.provider,
        market: event.market,
        symbol: event.symbol,
        exchange_time_ms: event.exchange_time_ms,
        gateway_received_time_ms: event.gateway_received_time_ms,
        source_sequence: event.source_sequence,
        payload: event.payload,
    }
}

/// The channel keys that a subscription asks for: each requested channel once, tickers first.
pub open spec fn expanded(subscription: SubscriptionView) -> Result<Seq<KeyView>, DomainErrorView> {
    if subscription.channels.len() == 0 {
        Err(DomainErrorView::NoChannels)
    } else {
        match symbol_identity(subscription.symbol) {
            Err(error) => Err(error),
            Ok(symbol) => {
                let key = |channel: Channel|
                    KeyView {
                        provider: subscription.provider,
                        market: subscription.market,
                        symbol,
                        channel,
                    };
                let tickers = if subscription.channels.contains(Channel::Ticker) {
                    seq![key(Channel::Ticker)]
                } else {
                    Seq::empty()
                };
                let candles = if subscription.channels.contains(Channel::Candle1m) {
                    seq![key(Channel::Candle1m)]
                } else {
                    Seq::empty()
                };
                Ok(tickers + candles)
            },
        }
    }
}

/// The words for a domain error.
pub open spec fn domain_message(error: DomainErrorView) -> Seq<char> {
    match error {
        DomainErrorView::InvalidSymbol(symbol) => "invalid venue symbol: "@ + symbol,
        DomainErrorView::NoChannels => "subscription must contain at least one channel"@,
        DomainErrorView::InvalidDecimal(value) => "invalid decimal value: "@ + value,
        DomainErrorView::TickerWithoutPrice => "ticker must contain at least one price"@,
        DomainErrorView::InvalidCandleWindow => "candle must cover exactly one minute"@,
    }
}

// ---------------------------------------------------------------------------------------------
// Operations
// ---------------------------------------------------------------------------------------------

impl Provider {
    /// The name of the venue.
    pub fn name(self) -> (name: &'static str)
        ensures
            name@ == provider_name(self),
    {
        match self {
            Provider::Bybit => "bybit",
            Provider::Binance => "binance",
            Provider::Okx => "okx",
            Provider::Kucoin => "kucoin",
            Provider::Mexc => "mexc",
            Provider::Bingx => "bingx",
        }
    }
}

impl MarketKind {
    /// The name of the market kind.
    pub fn name(self) -> (name: &'static str)
        ensures
            name@ == market_name(self),
    {
        "linear_perpetual"
    }
}

impl Channel {
    /// The name of the channel.
    pub fn name(self) -> (name: &'static str)
        ensures
            name@ == channel_name(self),
    {
        match self {
            Channel::Ticker => "ticker",
            Channel::Candle1m => "candle_1m",
        }
    }
}

impl DomainError {
    /// The error in words.
    pub fn message(&self) -> (message: String)
        ensures
            message@ == domain_message(self@),
    {
        match self {
            DomainError::InvalidSymbol(symbol) => text::cat2(
                "invalid venue symbol: ",
                symbol.as_str(),
            ),
            DomainError::NoChannels => "subscription must contain at least one channel".to_owned(),
            DomainError::InvalidDecimal(value) => text::cat2(
                "invalid decimal value: ",
                value.as_str(),
            ),
            DomainError::TickerWithoutPrice => "ticker must contain at least one price".to_owned(),
            DomainError::InvalidCandleWindow => "candle must cover exactly one minute".to_owned(),
        }
    }
}

/// Normalize a venue symbol for identity and subscription matching.
///
/// # Errors
///
/// Returns [`DomainError::InvalidSymbol`] when the symbol is empty, longer than 64 bytes, or
/// contains characters outside the supported venue-symbol alphabet: letters and digits of any
/// script, the hyphen, the underscore and the full stop.
pub fn normalize_symbol(symbol: &str) -> (r: Result<String, DomainError>)
    ensures
        match r {
            Ok(identity) => symbol_identity(symbol@) == Ok::<Seq<char>, DomainErrorView>(
                identity@,
            ),
            Err(error) => symbol_identity(symbol@) == Err::<Seq<char>, DomainErrorView>(error@),
        },
{
    let trimmed = text::trim(symbol);
    if trimmed.is_empty() || text::length(trimmed) > MAX_SYMBOL_BYTES {
        return Err(DomainError::InvalidSymbol(trimmed.to_owned()));
    }
    let list = text::characters(trimmed);
    let mut i: usize = 0;
    while i < list.len()
        invariant
            trimmed@ == text::trimmed(symbol@),
            list@ == trimmed@,
            i <= list@.len(),
            forall|k: int| 0 <= k < i ==> in_symbol_alphabet(#[trigger] trimmed@[k]),
        decreases list.len() - i,
    {
        let c = list[i];
        if !(text::alphanumeric(c) || c == '-' || c == '_' || c == '.') {
            proof {
                assert(!in_symbol_alphabet(trimmed@[i as int]));
            }
            return Err(DomainError::InvalidSymbol(trimmed.to_owned()));
        }
        i += 1;
    }
    Ok(text::to_upper(trimmed))
}

/// The identifier of an instrument.
fn instrument_id_of(provider: Provider, market: MarketKind, symbol: &str) -> (id: String)
    ensures
        id@ == instrument_identifier(provider, market, symbol@),
{
    text::cat5(provider.name(), ":", market.name(), ":", symbol)
}

impl Clone for SubscriptionKey {
    fn clone(&self) -> (copy: Self)
        ensures
            copy@ == self@,
    {
        SubscriptionKey {
            provider: self.provider,
            market: self.market,
            symbol: self.symbol.clone(),
            channel: self.channel,
        }
    }
}

impl SubscriptionKey {
    /// Build a key after normalizing and validating the venue symbol.
    ///
    /// # Errors
    ///
    /// Returns [`DomainError::InvalidSymbol`] when the symbol is empty, too long, or contains
    /// unsupported characters.
    pub fn new(provider: Provider, market: MarketKind, symbol: &str, channel: Channel) -> (r:
        Result<Self, DomainError>)
        ensures
            match r {
                Ok(key) => symbol_identity(symbol@) is Ok && key@ == (KeyView {
                    provider,
                    market,
                    symbol: symbol_identity(symbol@)->Ok_0,
                    channel,
                }),
                Err(error) => symbol_identity(symbol@) == Err::<Seq<char>, DomainErrorView>(error@),
            },
    {
        let symbol = normalize_symbol(symbol)?;
        Ok(SubscriptionKey { provider, market, symbol, channel })
    }

    /// The identifier of the instrument that the key is about.
    pub fn instrument_id(&self) -> (id: String)
        ensures
            id@ == instrument_identifier(self@.provider, self@.market, self@.symbol),
    {
        instrument_id_of(self.provider, self.market, self.symbol.as_str())
    }
}

/// The values of a run of keys.
pub open spec fn key_views(keys: Seq<SubscriptionKey>) -> Seq<KeyView> {
    Seq::new(keys.len(), |i: int| keys[i]@)
}

/// Whether a channel occurs in a list.
fn has_channel(channels: &Vec<Channel>, channel: Channel) -> (found: bool)
    ensures
        found == channels@.contains(channel),
{
    let mut i: usize = 0;
    while i < channels.len()
        invariant
            i <= channels@.len(),
            forall|k: int| 0 <= k < i ==> channels@[k] != channel,
        decreases channels.len() - i,
    {
        if channels[i] == channel {
            return true;
        }
        i += 1;
    }
    false
}

fn copied_channels(list: &Vec<Channel>) -> (copy: Vec<Channel>)
    ensures
        copy@ == list@,
{
    let mut copy: Vec<Channel> = Vec::new();
    let mut i: usize = 0;
    while i < list.len()
        invariant
            i <= list@.len(),
            copy@ == list@.take(i as int),
        decreases list.len() - i,
    {
        copy.push(list[i]);
        proof {
            assert(list@.take(i + 1) =~= list@.take(i as int).push(list@[i as int]));
        }
        i += 1;
    }
    proof {
        assert(list@.take(i as int) =~= list@);
    }
    copy
}

impl Clone for Subscription {
    fn clone(&self) -> (copy: Self)
        ensures
            copy@ == self@,
    {
        Subscription {
            provider: self.provider,
            market: self.market,
            symbol: self.symbol.clone(),
            channels: copied_channels(&self.channels),
        }
    }
}

impl Subscription {
    /// Expand a client subscription into normalized, unique channel keys.
    ///
    /// # Errors
    ///
    /// Returns an error when no channels were requested or the venue symbol is invalid.
    pub fn into_keys(self) -> (r: Result<Vec<SubscriptionKey>, DomainError>)
        ensures
            match r {
                Ok(keys) => expanded(self@) == Ok::<Seq<KeyView>, DomainErrorView>(
                    key_views(keys@),
                ),
                Err(error) => expanded(self@) == Err::<Seq<KeyView>, DomainErrorView>(error@),
            },
    {
        if self.channels.len() == 0 {
            return Err(DomainError::NoChannels);
        }
        let symbol = normalize_symbol(self.symbol.as_str())?;
        let mut keys: Vec<SubscriptionKey> = Vec::new();
        if has_channel(&self.channels, Channel::Ticker) {
            keys.push(
                SubscriptionKey {
                    provider: self.provider,
                    market: self.market,
                    symbol: symbol.clone(),
                    channel: Channel::Ticker,
                },
            );
        }
        if has_channel(&self.channels, Channel::Candle1m) {
            keys.push(
                SubscriptionKey {
                    provider: self.provider,
                    market: self.market,
                    symbol,
                    channel: Channel::Candle1m,
                },
            );
        }
        proof {
            let wanted = expanded(self@)->Ok_0;
            assert(key_views(keys@) =~= wanted);
        }
        Ok(keys)
    }
}

impl DecimalValue {
    /// A decimal value always holds a finite decimal.
    #[verifier::type_invariant]
    spec fn holds_decimal(&self) -> bool {
        is_decimal(self.0@)
    }

    /// Validate a decimal and retain its original lossless string representation.
    ///
    /// # Errors
    ///
    /// Returns [`DomainError::InvalidDecimal`] when the value is not a finite decimal.
    pub fn new(value: &str) -> (r: Result<Self, DomainError>)
        ensures
            match r {
                Ok(decimal) => is_decimal(value@) && decimal@ == value@,
                Err(error) => !is_decimal(value@) && error@ == DomainErrorView::InvalidDecimal(
                    value@,
                ),
            },
    {
        match decimal::read(value) {
            Some(_) => Ok(DecimalValue(value.to_owned())),
            None => Err(DomainError::InvalidDecimal(value.to_owned())),
        }
    }

    /// The text of the decimal.
    pub fn as_str(&self) -> (s: &str)
        ensures
            s@ == self@,
            is_decimal(self@),
    {
        proof {
            use_type_invariant(self);
        }
        self.0.as_str()
    }
}

impl Clone for DecimalValue {
    fn clone(&self) -> (copy: Self)
        ensures
            copy@ == self@,
    {
        proof {
            use_type_invariant(self);
        }
        DecimalValue(self.0.clone())
    }
}

impl ObservedDecimal {
    /// Build a timestamped decimal observation.
    ///
    /// # Errors
    ///
    /// Returns [`DomainError::InvalidDecimal`] when the value is not a finite decimal.
    pub fn new(value: &str, observed_at_ms: u64) -> (r: Result<Self, DomainError>)
        ensures
            match r {
                Ok(observed) => is_decimal(value@) && observed@ == (ObservedView {
                    value: value@,
                    observed_at_ms,
                }),
                Err(error) => !is_decimal(value@) && error@ == DomainErrorView::InvalidDecimal(
                    value@,
                ),
            },
    {
        let value = DecimalValue::new(value)?;
        Ok(ObservedDecimal { value, observed_at_ms })
    }
}

impl Clone for ObservedDecimal {
    fn clone(&self) -> (copy: Self)
        ensures
            copy@ == self@,
    {
        ObservedDecimal { value: self.value.clone(), observed_at_ms: self.observed_at_ms }
    }
}

/// A copy of an optional observation.
fn copied_observed(value: &Option<ObservedDecimal>) -> (copy: Option<ObservedDecimal>)
    ensures
        observed_view(copy) == observed_view(*value),
{
    match value {
        Some(observed) => Some(observed.clone()),
        None => None,
    }
}

/// A copy of an optional decimal.
pub fn copied_decimal(value: &Option<DecimalValue>) -> (copy: Option<DecimalValue>)
    ensures
        decimal_view(copy) == decimal_view(*value),
{
    match value {
        Some(decimal) => Some(decimal.clone()),
        None => None,
    }
}

/// A copy of an optional text.
pub fn copied_text(value: &Option<String>) -> (copy: Option<String>)
    ensures
        text_view(copy) == text_view(*value),
{
    match value {
        Some(text) => Some(text.clone()),
        None => None,
    }
}

impl Default for Ticker {
    /// A ticker of which nothing is known yet.
    fn default() -> (ticker: Self)
        ensures
            ticker@ == empty_ticker(),
    {
        Ticker {
            last: None,
            mark: None,
            index: None,
            bid: None,
            ask: None,
            funding_rate: None,
            next_funding_time_ms: None,
        }
    }
}

impl Clone for Ticker {
    fn clone(&self) -> (copy: Self)
        ensures
            copy@ == self@,
    {
        Ticker {
            last: copied_observed(&self.last),
            mark: copied_observed(&self.mark),
            index: copied_observed(&self.index),
            bid: copied_observed(&self.bid),
            ask: copied_observed(&self.ask),
            funding_rate: copied_observed(&self.funding_rate),
            next_funding_time_ms: self.next_funding_time_ms,
        }
    }
}

impl Ticker {
    /// Whether the ticker has at least one price.
    pub fn has_price(&self) -> (answer: bool)
        ensures
            answer == has_some_price(self@),
    {
        self.last.is_some() || self.mark.is_some() || self.index.is_some() || self.bid.is_some()
            || self.ask.is_some()
    }
}

/// A copy of a list of reservations.
fn copied_quality(list: &Vec<DataQuality>) -> (copy: Vec<DataQuality>)
    ensures
        copy@ == list@,
{
    let mut copy: Vec<DataQuality> = Vec::new();
    let mut i: usize = 0;
    while i < list.len()
        invariant
            i <= list@.len(),
            copy@ == list@.take(i as int),
        decreases list.len() - i,
    {
        copy.push(list[i]);
        proof {
            assert(list@.take(i + 1) == list@.take(i as int).push(list@[i as int]));
        }
        i += 1;
    }
    proof {
        assert(list@.take(i as int) == list@);
    }
    copy
}

impl Clone for Candle {
    fn clone(&self) -> (copy: Self)
        ensures
            copy@ == self@,
    {
        Candle {
            interval: self.interval.clone(),
            start_time_ms: self.start_time_ms,
            end_time_ms: self.end_time_ms,
            open: self.open.clone(),
            high: self.high.clone(),
            low: self.low.clone(),
            close: self.close.clone(),
            base_volume: copied_decimal(&self.base_volume),
            quote_volume: copied_decimal(&self.quote_volume),
            contract_volume: copied_decimal(&self.contract_volume),
            finality: self.finality,
            data_quality: copied_quality(&self.data_quality),
        }
    }
}

/// Whether two optional decimals are written alike.
fn same_optional_decimal(a: &Option<DecimalValue>, b: &Option<DecimalValue>) -> (equal: bool)
    ensures
        equal == (decimal_view(*a) == decimal_view(*b)),
{
    match (a, b) {
        (Some(left), Some(right)) => text::same(left.as_str(), right.as_str()),
        (None, None) => true,
        _ => false,
    }
}

/// Whether two lists of reservations are the same.
fn same_quality(a: &Vec<DataQuality>, b: &Vec<DataQuality>) -> (equal: bool)
    ensures
        equal == (a@ == b@),
{
    if a.len() != b.len() {
        return false;
    }
    let mut i: usize = 0;
    while i < a.len()
        invariant
            a@.len() == b@.len(),
            i <= a@.len(),
            forall|k: int| 0 <= k < i ==> a@[k] == b@[k],
        decreases a.len() - i,
    {
        if a[i] != b[i] {
            return false;
        }
        i += 1;
    }
    proof {
        assert(a@ =~= b@);
    }
    true
}

impl Candle {
    /// Check that the candle covers exactly one minute.
    ///
    /// # Errors
    ///
    /// Returns [`DomainError::InvalidCandleWindow`] when it does not.
    pub fn validate(&self) -> (r: Result<(), DomainError>)
        ensures
            match r {
                Ok(_) => covers_one_minute(self@),
                Err(error) => !covers_one_minute(self@) && error@
                    == DomainErrorView::InvalidCandleWindow,
            },
    {
        if text::same(self.interval.as_str(), "1m") && self.start_time_ms <= u64::MAX
            - CANDLE_INTERVAL_MS && self.end_time_ms == self.start_time_ms + CANDLE_INTERVAL_MS {
            Ok(())
        } else {
            Err(DomainError::InvalidCandleWindow)
        }
    }

    /// Whether two candles agree in every field.
    pub fn same(&self, other: &Candle) -> (equal: bool)
        ensures
            equal == (self@ == other@),
    {
        let equal = text::same(self.interval.as_str(), other.interval.as_str())
            && self.start_time_ms == other.start_time_ms && self.end_time_ms == other.end_time_ms
            && text::same(self.open.as_str(), other.open.as_str()) && text::same(
            self.high.as_str(),
            other.high.as_str(),
        ) && text::same(self.low.as_str(), other.low.as_str()) && text::same(
            self.close.as_str(),
            other.close.as_str(),
        ) && same_optional_decimal(&self.base_volume, &other.base_volume)
            && same_optional_decimal(&self.quote_volume, &other.quote_volume)
            && same_optional_decimal(&self.contract_volume, &other.contract_volume)
            && self.finality == other.finality && same_quality(
            &self.data_quality,
            &other.data_quality,
        );
        equal
    }
}

impl Default for SourceSequence {
    /// A sequence of which nothing is known.
    fn default() -> (sequence: Self)
        ensures
            sequence@ == (SequenceView { first: None, last: None, previous: None }),
    {
        SourceSequence { first: None, last: None, previous: None }
    }
}

impl Clone for SourceSequence {
    fn clone(&self) -> (copy: Self)
        ensures
            copy@ == self@,
    {
        SourceSequence {
            first: copied_text(&self.first),
            last: copied_text(&self.last),
            previous: copied_text(&self.previous),
        }
    }
}

/// A copy of an optional source sequence.
fn copied_sequence(value: &Option<SourceSequence>) -> (copy: Option<SourceSequence>)
    ensures
        sequence_view(copy) == sequence_view(*value),
{
    match value {
        Some(sequence) => Some(sequence.clone()),
        None => None,
    }
}

impl Clone for MarketPayload {
    fn clone(&self) -> (copy: Self)
        ensures
            copy@ == self@,
    {
        match self {
            MarketPayload::Ticker(ticker) => MarketPayload::Ticker(ticker.clone()),
            MarketPayload::Candle(candle) => MarketPayload::Candle(candle.clone()),
        }
    }
}

impl MarketPayload {
    /// The channel that the payload belongs to.
    pub fn channel(&self) -> (channel: Channel)
        ensures
            channel == payload_channel(self@),
    {
        match self {
            MarketPayload::Ticker(_) => Channel::Ticker,
            MarketPayload::Candle(_) => Channel::Candle1m,
        }
    }

    /// Check that the payload is fit for delivery.
    ///
    /// # Errors
    ///
    /// A ticker needs at least one price, and a candle must cover exactly one minute.
    pub fn validate(&self) -> (r: Result<(), DomainError>)
        ensures
            match r {
                Ok(_) => payload_problem(self@) is None,
                Err(error) => payload_problem(self@) == Some(error@),
            },
    {
        match self {
            MarketPayload::Ticker(ticker) => if ticker.has_price() {
                Ok(())
            } else {
                Err(DomainError::TickerWithoutPrice)
            },
            MarketPayload::Candle(candle) => candle.validate(),
        }
    }
}

impl Clone for ProviderEvent {
    fn clone(&self) -> (copy: Self)
        ensures
            copy@ == self@,
    {
        ProviderEvent {
            connection_epoch: self.connection_epoch,
            provider: self.provider,
            market: self.market,
            symbol: self.symbol.clone(),
            exchange_time_ms: self.exchange_time_ms,
            gateway_received_time_ms: self.gateway_received_time_ms,
            source_sequence: copied_sequence(&self.source_sequence),
            payload: self.payload.clone(),
        }
    }
}

impl ProviderEvent {
    /// The key under which the update is delivered.
    pub fn subscription_key(&self) -> (key: SubscriptionKey)
        ensures
            key@ == event_key(self@),
    {
        SubscriptionKey {
            provider: self.provider,
            market: self.market,
            symbol: self.symbol.clone(),
            channel: self.payload.channel(),
        }
    }

    /// Check that the update is fit for delivery.
    ///
    /// # Errors
    ///
    /// A ticker needs at least one price, and a candle must cover exactly one minute.
    pub fn validate(&self) -> (r: Result<(), DomainError>)
        ensures
            match r {
                Ok(_) => payload_problem(self@.payload) is None,
                Err(error) => payload_problem(self@.payload) == Some(error@),
            },
    {
        self.payload.validate()
    }

    /// Number the update for delivery.
    pub fn into_market_event(self, stream_epoch: u128, delivery_sequence: u64) -> (event:
        MarketEvent)
        ensures
            event@ == numbered(self@, stream_epoch, delivery_sequence),
    {
        let instrument_id = instrument_id_of(self.provider, self.market, self.symbol.as_str());
        MarketEvent {
            schema_version: SCHEMA_VERSION,
            stream_epoch,
            delivery_sequence,
            connection_epoch: self.connection_epoch,
            instrument_id,
            provider: self.provider,
            market: self.market,
            symbol: self.symbol,
            exchange_time_ms: self.exchange_time_ms,
            gateway_received_time_ms: self.gateway_received_time_ms,
            source_sequence: self.source_sequence,
            payload: self.payload,
        }
    }
}

impl Clone for MarketEvent {
    fn clone(&self) -> (copy: Self)
        ensures
            copy@ == self@,
    {
        MarketEvent {
            schema_version: self.schema_version,
            stream_epoch: self.stream_epoch,
            delivery_sequence: self.delivery_sequence,
            connection_epoch: self.connection_epoch,
            instrument_id: self.instrument_id.clone(),
            provider: self.provider,
            market: self.market,
            symbol: self.symbol.clone(),
            exchange_time_ms: self.exchange_time_ms,
            gateway_received_time_ms: self.gateway_received_time_ms,
            source_sequence: copied_sequence(&self.source_sequence),
            payload: self.payload.clone(),
        }
    }
}

impl MarketEvent {
    /// The key under which the event is delivered.
    pub fn subscription_key(&self) -> (key: SubscriptionKey)
        ensures
            key@ == (KeyView {
                provider: self@.provider,
                market: self@.market,
                symbol: self@.symbol,
                channel: payload_channel(self@.payload),
            }),
    {
        SubscriptionKey {
            provider: self.provider,
            market: self.market,
            symbol: self.symbol.clone(),
            channel: self.payload.channel(),
        }
    }
}

// ---------------------------------------------------------------------------------------------
// Laws
// ---------------------------------------------------------------------------------------------

/// Letters in upper case take as many bytes.
proof fn lemma_uppered_length(s: Seq<char>)
    ensures
        text::byte_length(text::uppered(s)) == text::byte_length(s),
    decreases s.len(),
{
    let t = text::uppered(s);
    if s.len() > 0 {
        assert(t.drop_first() =~= text::uppered(s.drop_first()));
        lemma_uppered_length(s.drop_first());
        assert(vstd::utf8::encode_scalar(t[0] as u32).len() == vstd::utf8::encode_scalar(
            s[0] as u32,
        ).len());
    } else {
        assert(t =~= s);
    }
}

/// A text without white space at its end has none after it was taken off the start.
proof fn lemma_trailing(s: Seq<char>)
    ensures
        ({
            let t = text::without_trailing_white(s);
            &&& t.len() > 0 ==> t[0] == s[0] && !text::is_white(t.last())
            &&& t.len() <= s.len()
        }),
    decreases s.len(),
{
    if s.len() > 0 && text::is_white(s.last()) {
        lemma_trailing(s.drop_last());
    }
}

/// The text that is left begins with no white space.
proof fn lemma_leading(s: Seq<char>)
    ensures
        ({
            let t = text::without_leading_white(s);
            t.len() > 0 ==> !text::is_white(t[0])
        }),
    decreases s.len(),
{
    if s.len() > 0 && text::is_white(s[0]) {
        lemma_leading(s.skip(1));
    }
}

/// The identity of a symbol is its own identity: to normalize twice is to normalize once.
pub proof fn law_normalizing_twice_is_normalizing_once(s: Seq<char>)
    requires
        symbol_identity(s) is Ok,
    ensures
        symbol_identity(symbol_identity(s)->Ok_0) == symbol_identity(s),
{
    let plain = text::trimmed(s);
    let symbol = text::uppered(plain);
    lemma_leading(s);
    lemma_trailing(text::without_leading_white(s));
    assert(!text::is_white(symbol[0]));
    assert(!text::is_white(symbol.last()));
    assert(text::trimmed(symbol) == symbol);
    lemma_uppered_length(plain);
    assert forall|i: int| 0 <= i < symbol.len() implies in_symbol_alphabet(
        #[trigger] symbol[i],
    ) by {
        assert(in_symbol_alphabet(plain[i]));
    }
    assert(text::uppered(symbol) =~= symbol);
}

/// A symbol that is its own identity has no white space at either end.
pub proof fn lemma_canonical_is_trimmed(s: Seq<char>)
    requires
        symbol_identity(s) == Ok::<Seq<char>, DomainErrorView>(s),
    ensures
        text::trimmed(s) == s,
{
    let plain = text::trimmed(s);
    lemma_leading(s);
    lemma_trailing(text::without_leading_white(s));
    assert(s == text::uppered(plain));
    assert(!text::is_white(s[0]));
    assert(!text::is_white(s.last()));
}

/// A key that was made from a symbol is made again from its own symbol.
pub proof fn law_keys_are_canonical(subscription: SubscriptionView, key: KeyView)
    requires
        expanded(subscription) is Ok,
        expanded(subscription)->Ok_0.contains(key),
    ensures
        symbol_identity(key.symbol) == Ok::<Seq<char>, DomainErrorView>(key.symbol),
        key.provider == subscription.provider,
        subscription.channels.contains(key.channel),
{
    law_normalizing_twice_is_normalizing_once(subscription.symbol);
}

} // verus!
