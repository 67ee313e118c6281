//! Provider-neutral catalog of linear perpetual instruments.
//!
//! Every venue is refreshed on its own. A successful refresh replaces the complete snapshot of
//! that venue, and a failed one leaves its last good snapshot as it is.
pub mod fetch;
pub mod payload;

use vstd::prelude::*;

use crate::domain;
use crate::domain::{
    Channel, DecimalValue, KeyView, MarketKind, Provider, SubscriptionKey,
};
use crate::keyset;
use crate::text;
use crate::venues;
use crate::venues::ProviderSet;

verus! {

pub const BYBIT_CATALOG_URL: &'static str = "https://api.bybit.com/v5/market/instruments-info";

pub const BINANCE_CATALOG_URL: &'static str = "https://fapi.binance.com/fapi/v1/exchangeInfo";

pub const OKX_CATALOG_URL: &'static str = "https://www.okx.com/api/v5/public/instruments";

pub const KUCOIN_CATALOG_URL: &'static str =
    "https://api-futures.kucoin.com/api/v1/contracts/active";

pub const MEXC_CATALOG_URL: &'static str = "https://api.mexc.com/api/v1/contract/detail/country";

pub const BINGX_CATALOG_URL: &'static str =
    "https://open-api.bingx.com/openApi/swap/v2/quote/contracts";

/// The number of venues.
pub const VENUES: usize = 6;

// ---------------------------------------------------------------------------------------------
// Instruments
// ---------------------------------------------------------------------------------------------

/// Normalized lifecycle state. Catalog snapshots contain live instruments only.
#[derive(Debug, Clone, Copy, PartialEq, Eq, Structural)]
pub enum InstrumentStatus {
    Live,
}

/// Whether a streamed one-minute candle has an authoritative closed/open state.
#[derive(Debug, Clone, Copy, PartialEq, Eq, Structural)]
pub enum CandleFinalitySupport {
    Authoritative,
    Unknown,
}

/// Whether the provider exposes usable one-minute candle volume.
#[derive(Debug, Clone, Copy, PartialEq, Eq, Structural)]
pub enum CandleVolumeSupport {
    Available,
    Unavailable,
}

/// Stream features and their provider-specific data-quality constraints.
#[derive(Debug, Clone, Copy, PartialEq, Eq, Structural)]
pub struct InstrumentCapabilities {
    pub ticker: bool,
    pub candle_1m: bool,
    pub candle_1m_finality: CandleFinalitySupport,
    pub candle_1m_volume: CandleVolumeSupport,
}

impl InstrumentCapabilities {
    /// Whether a channel is among the features.
    pub open spec fn offers(self, channel: Channel) -> bool {
        match channel {
            Channel::Ticker => self.ticker,
            Channel::Candle1m => self.candle_1m,
        }
    }

    /// Whether a channel is among the features.
    pub fn supports(self, channel: Channel) -> (answer: bool)
        ensures
            answer == self.offers(channel),
    {
        match channel {
            Channel::Ticker => self.ticker,
            Channel::Candle1m => self.candle_1m,
        }
    }
}

/// What the streams of a venue can do. Only three venues say when a candle is closed, and KuCoin's
/// candle volume is not to be relied on.
pub open spec fn venue_capabilities(provider: Provider) -> InstrumentCapabilities {
    InstrumentCapabilities {
        ticker: true,
        candle_1m: true,
        candle_1m_finality: match provider {
            Provider::Bybit | Provider::Binance | Provider::Okx =>
                CandleFinalitySupport::Authoritative,
            _ => CandleFinalitySupport::Unknown,
        },
        candle_1m_volume: match provider {
            Provider::Kucoin => CandleVolumeSupport::Unavailable,
            _ => CandleVolumeSupport::Available,
        },
    }
}

/// What the streams of a venue can do.
pub fn capabilities(provider: Provider) -> (features: InstrumentCapabilities)
    ensures
        features == venue_capabilities(provider),
{
    InstrumentCapabilities {
        ticker: true,
        candle_1m: true,
        candle_1m_finality: match provider {
            Provider::Bybit | Provider::Binance | Provider::Okx =>
                CandleFinalitySupport::Authoritative,
            _ => CandleFinalitySupport::Unknown,
        },
        candle_1m_volume: match provider {
            Provider::Kucoin => CandleVolumeSupport::Unavailable,
            _ => CandleVolumeSupport::Available,
        },
    }
}

/// Provider-neutral metadata for one exact venue instrument.
#[derive(Debug, PartialEq, Eq)]
pub struct Instrument {
    pub instrument_id: String,
    /// Exact symbol used by the provider's public APIs.
    pub symbol: String,
    pub provider: Provider,
    pub market: MarketKind,
    /// Exact base-asset identifier reported by the venue.
    pub base_asset: String,
    /// Exact quote-asset identifier reported by the venue.
    pub quote_asset: String,
    /// Exact settlement-asset identifier reported by the venue.
    pub settle_asset: String,
    pub status: InstrumentStatus,
    /// Unmodified provider lifecycle label, such as `Trading`, `TRADING`, `live`, or `Open`.
    pub venue_status: String,
    pub tick_size: DecimalValue,
    pub quantity_step: DecimalValue,
    pub contract_size: Option<DecimalValue>,
    pub contract_size_asset: Option<String>,
    pub max_leverage: Option<DecimalValue>,
    pub listing_time_ms: Option<u64>,
    pub expiry_time_ms: Option<u64>,
    pub capabilities: InstrumentCapabilities,
}

/// The mathematical value of an instrument.
pub struct InstrumentView {
    pub instrument_id: Seq<char>,
    pub symbol: Seq<char>,
    pub provider: Provider,
    pub market: MarketKind,
    pub base_asset: Seq<char>,
    pub quote_asset: Seq<char>,
    pub settle_asset: Seq<char>,
    pub status: InstrumentStatus,
    pub venue_status: Seq<char>,
    pub tick_size: Seq<char>,
    pub quantity_step: Seq<char>,
    pub contract_size: Option<Seq<char>>,
    pub contract_size_asset: Option<Seq<char>>,
    pub max_leverage: Option<Seq<char>>,
    pub listing_time_ms: Option<u64>,
    pub expiry_time_ms: Option<u64>,
    pub capabilities: InstrumentCapabilities,
}

impl View for Instrument {
    type V = InstrumentView;

    open spec fn view(&self) -> InstrumentView {
        InstrumentView {
            instrument_id: self.instrument_id@,
            symbol: self.symbol@,
            provider: self.provider,
            market: self.market,
            base_asset: self.base_asset@,
            quote_asset: self.quote_asset@,
            settle_asset: self.settle_asset@,
            status: self.status,
            venue_status: self.venue_status@,
            tick_size: self.tick_size@,
            quantity_step: self.quantity_step@,
            contract_size: domain::decimal_view(self.contract_size),
            contract_size_asset: domain::text_view(self.contract_size_asset),
            max_leverage: domain::decimal_view(self.max_leverage),
            listing_time_ms: self.listing_time_ms,
            expiry_time_ms: self.expiry_time_ms,
            capabilities: self.capabilities,
        }
    }
}

impl Clone for Instrument {
    fn clone(&self) -> (copy: Self)
        ensures
            copy@ == self@,
    {
        Instrument {
            instrument_id: self.instrument_id.clone(),
            symbol: self.symbol.clone(),
            provider: self.provider,
            market: self.market,
            base_asset: self.base_asset.clone(),
            quote_asset: self.quote_asset.clone(),
            settle_asset: self.settle_asset.clone(),
            status: self.status,
            venue_status: self.venue_status.clone(),
            tick_size: self.tick_size.clone(),
            quantity_step: self.quantity_step.clone(),
            contract_size: domain::copied_decimal(&self.contract_size),
            contract_size_asset: domain::copied_text(&self.contract_size_asset),
            max_leverage: domain::copied_decimal(&self.max_leverage),
            listing_time_ms: self.listing_time_ms,
            expiry_time_ms: self.expiry_time_ms,
            capabilities: self.capabilities,
        }
    }
}

/// The values of a run of instruments.
pub open spec fn instrument_views(list: Seq<Instrument>) -> Seq<InstrumentView> {
    Seq::new(list.len(), |i: int| list[i]@)
}

// ---------------------------------------------------------------------------------------------
// Errors
// ---------------------------------------------------------------------------------------------

/// Catalog fetch, parse, and subscription-validation failures.
#[derive(Debug, Clone, PartialEq, Eq)]
pub enum CatalogError {
    ProviderDisabled(Provider),
    Request { provider: Provider, message: String },
    HttpStatus { provider: Provider, status: u16 },
    InvalidPayload { provider: Provider, message: String },
    DuplicateInstrument { provider: Provider, symbol: String },
    RepeatedCursor { provider: Provider, cursor: String },
    PaginationLimit { provider: Provider, limit: usize },
    EmptySnapshot(Provider),
    InstrumentUnavailable { provider: Provider, market: MarketKind, symbol: String },
    UnsupportedChannel {
        provider: Provider,
        market: MarketKind,
        symbol: String,
        channel: Channel,
    },
}

/// The mathematical value of a catalog error.
pub enum CatalogErrorView {
    ProviderDisabled(Provider),
    Request { provider: Provider, message: Seq<char> },
    HttpStatus { provider: Provider, status: u16 },
    InvalidPayload { provider: Provider, message: Seq<char> },
    DuplicateInstrument { provider: Provider, symbol: Seq<char> },
    RepeatedCursor { provider: Provider, cursor: Seq<char> },
    PaginationLimit { provider: Provider, limit: usize },
    EmptySnapshot(Provider),
    InstrumentUnavailable { provider: Provider, market: MarketKind, symbol: Seq<char> },
    UnsupportedChannel {
        provider: Provider,
        market: MarketKind,
        symbol: Seq<char>,
        channel: Channel,
    },
}

impl View for CatalogError {
    type V = CatalogErrorView;

    open spec fn view(&self) -> CatalogErrorView {
        match self {
            CatalogError::ProviderDisabled(provider) => CatalogErrorView::ProviderDisabled(
                *provider,
            ),
            CatalogError::Request { provider, message } => CatalogErrorView::Request {
                provider: *provider,
                message: message@,
            },
            CatalogError::HttpStatus { provider, status } => CatalogErrorView::HttpStatus {
                provider: *provider,
                status: *status,
            },
            CatalogError::InvalidPayload { provider, message } => CatalogErrorView::InvalidPayload {
                provider: *provider,
                message: message@,
            },
            CatalogError::DuplicateInstrument { provider, symbol } =>
                CatalogErrorView::DuplicateInstrument { provider: *provider, symbol: symbol@ },
            CatalogError::RepeatedCursor { provider, cursor } => CatalogErrorView::RepeatedCursor {
                provider: *provider,
                cursor: cursor@,
            },
            CatalogError::PaginationLimit { provider, limit } =>
                CatalogErrorView::PaginationLimit { provider: *provider, limit: *limit },
            CatalogError::EmptySnapshot(provider) => CatalogErrorView::EmptySnapshot(*provider),
            CatalogError::InstrumentUnavailable { provider, market, symbol } =>
                CatalogErrorView::InstrumentUnavailable {
                provider: *provider,
                market: *market,
                symbol: symbol@,
            },
            CatalogError::UnsupportedChannel { provider, market, symbol, channel } =>
                CatalogErrorView::UnsupportedChannel {
                provider: *provider,
                market: *market,
                symbol: symbol@,
                channel: *channel,
            },
        }
    }
}

/// The words for a catalog error.
pub open spec fn catalog_message(error: CatalogErrorView) -> Seq<char> {
    match error {
        CatalogErrorView::ProviderDisabled(provider) => domain::provider_name(provider)
            + " instrument catalog is disabled"@,
        CatalogErrorView::Request { provider, message } => domain::provider_name(provider)
            + " catalog request failed: "@ + message,
        CatalogErrorView::HttpStatus { provider, status } => domain::provider_name(provider)
            + " catalog endpoint returned HTTP "@ + text::digits(status as nat),
        CatalogErrorView::InvalidPayload { provider, message } => domain::provider_name(provider)
            + " catalog payload is invalid: "@ + message,
        CatalogErrorView::DuplicateInstrument { provider, symbol } => domain::provider_name(
            provider,
        ) + " catalog returned duplicate instrument "@ + symbol,
        CatalogErrorView::RepeatedCursor { provider, cursor } => domain::provider_name(provider)
            + " catalog pagination repeated cursor "@ + cursor,
        CatalogErrorView::PaginationLimit { provider, limit } => domain::provider_name(provider)
            + " catalog exceeded the "@ + text::digits(limit as nat)
            + "-page pagination safety limit"@,
        CatalogErrorView::EmptySnapshot(provider) => domain::provider_name(provider)
            + " catalog returned no live linear perpetual instruments"@,
        CatalogErrorView::InstrumentUnavailable { provider, market, symbol } =>
            "instrument is not available: "@ + domain::instrument_identifier(
            provider,
            market,
            symbol,
        ),
        CatalogErrorView::UnsupportedChannel { provider, market, symbol, channel } =>
            domain::channel_name(channel) + " is not available for "@
            + domain::instrument_identifier(provider, market, symbol),
    }
}

/// The identifier of an instrument.
pub fn identifier(provider: Provider, market: MarketKind, symbol: &str) -> (id: String)
    ensures
        id@ == domain::instrument_identifier(provider, market, symbol@),
{
    text::cat5(provider.name(), ":", market.name(), ":", symbol)
}

impl CatalogError {
    /// The words for the error.
    pub fn message(&self) -> (message: String)
        ensures
            message@ == catalog_message(self@),
    {
        match self {
            CatalogError::ProviderDisabled(provider) => text::cat2(
                provider.name(),
                " instrument catalog is disabled",
            ),
            CatalogError::Request { provider, message } => text::cat3(
                provider.name(),
                " catalog request failed: ",
                message.as_str(),
            ),
            CatalogError::HttpStatus { provider, status } => text::cat3(
                provider.name(),
                " catalog endpoint returned HTTP ",
                text::unsigned_text(*status as u64).as_str(),
            ),
            CatalogError::InvalidPayload { provider, message } => text::cat3(
                provider.name(),
                " catalog payload is invalid: ",
                message.as_str(),
            ),
            CatalogError::DuplicateInstrument { provider, symbol } => text::cat3(
                provider.name(),
                " catalog returned duplicate instrument ",
                symbol.as_str(),
            ),
            CatalogError::RepeatedCursor { provider, cursor } => text::cat3(
                provider.name(),
                " catalog pagination repeated cursor ",
                cursor.as_str(),
            ),
            CatalogError::PaginationLimit { provider, limit } => text::cat4(
                provider.name(),
                " catalog exceeded the ",
                text::unsigned_text(*limit as u64).as_str(),
                "-page pagination safety limit",
            ),
            CatalogError::EmptySnapshot(provider) => text::cat2(
                provider.name(),
                " catalog returned no live linear perpetual instruments",
            ),
            CatalogError::InstrumentUnavailable { provider, market, symbol } => text::cat2(
                "instrument is not available: ",
                identifier(*provider, *market, symbol.as_str()).as_str(),
            ),
            CatalogError::UnsupportedChannel { provider, market, symbol, channel } => text::cat3(
                channel.name(),
                " is not available for ",
                identifier(*provider, *market, symbol.as_str()).as_str(),
            ),
        }
    }
}

// ---------------------------------------------------------------------------------------------
// Listings
// ---------------------------------------------------------------------------------------------

/// The first instrument with a symbol.
pub open spec fn with_symbol(list: Seq<InstrumentView>, symbol: Seq<char>) -> Option<InstrumentView>
    decreases list.len(),
{
    if list.len() == 0 {
        None
    } else if with_symbol(list.drop_last(), symbol) is Some {
        with_symbol(list.drop_last(), symbol)
    } else if list.last().symbol == symbol {
        Some(list.last())
    } else {
        None
    }
}

/// The first instrument with an identifier.
pub open spec fn with_id(list: Seq<InstrumentView>, id: Seq<char>) -> Option<InstrumentView>
    decreases list.len(),
{
    if list.len() == 0 {
        None
    } else if with_id(list.drop_last(), id) is Some {
        with_id(list.drop_last(), id)
    } else if list.last().instrument_id == id {
        Some(list.last())
    } else {
        None
    }
}

/// The number of instruments at the start of a list whose symbols precede a symbol.
pub open spec fn place(list: Seq<InstrumentView>, symbol: Seq<char>) -> int
    decreases list.len(),
{
    if list.len() > 0 && text::precedes(list[0].symbol, symbol) {
        1 + place(list.skip(1), symbol)
    } else {
        0
    }
}

/// A list with one more instrument, in the order of symbols.
pub open spec fn added(list: Seq<InstrumentView>, instrument: InstrumentView) -> Seq<InstrumentView> {
    list.insert(place(list, instrument.symbol), instrument)
}

/// A list with one more instrument; an instrument that it has already is refused.
pub open spec fn added_once(list: Seq<InstrumentView>, instrument: InstrumentView) -> Result<
    Seq<InstrumentView>,
    CatalogErrorView,
> {
    if with_symbol(list, instrument.symbol) is Some {
        Err(
            CatalogErrorView::DuplicateInstrument {
                provider: instrument.provider,
                symbol: instrument.symbol,
            },
        )
    } else {
        Ok(added(list, instrument))
    }
}

/// Whether an instrument is one of a venue, under its canonical symbol and proper identifier.
pub open spec fn belongs(provider: Provider, instrument: InstrumentView) -> bool {
    &&& instrument.provider == provider
    &&& domain::symbol_identity(instrument.symbol) == Ok::<Seq<char>, domain::DomainErrorView>(
        instrument.symbol,
    )
    &&& instrument.instrument_id == domain::instrument_identifier(
        provider,
        instrument.market,
        instrument.symbol,
    )
}

/// Whether a list holds instruments of a venue in the order of symbols, none of them twice.
pub open spec fn is_listing(provider: Provider, list: Seq<InstrumentView>) -> bool {
    &&& forall|i: int, j: int|
        0 <= i < j < list.len() ==> text::precedes(
            (#[trigger] list[i]).symbol,
            (#[trigger] list[j]).symbol,
        )
    &&& forall|i: int| 0 <= i < list.len() ==> belongs(provider, #[trigger] list[i])
}

/// What is found is in the list, and what is in the list is found.
proof fn lemma_with_symbol(list: Seq<InstrumentView>, symbol: Seq<char>)
    ensures
        match with_symbol(list, symbol) {
            Some(instrument) => list.contains(instrument) && instrument.symbol == symbol,
            None => forall|i: int| 0 <= i < list.len() ==> (#[trigger] list[i]).symbol != symbol,
        },
    decreases list.len(),
{
    if list.len() > 0 {
        let shorter = list.drop_last();
        lemma_with_symbol(shorter, symbol);
        match with_symbol(shorter, symbol) {
            Some(instrument) => {
                let i = choose|i: int| 0 <= i < shorter.len() && shorter[i] == instrument;
                assert(list[i] == instrument);
            },
            None => {
                assert forall|i: int|
                    0 <= i < list.len() && with_symbol(list, symbol) is None implies (
                #[trigger] list[i]).symbol != symbol by {
                    if i < shorter.len() {
                        assert(shorter[i] == list[i]);
                    }
                }
                assert(list[list.len() - 1] == list.last());
            },
        }
    }
}

/// Symbols before the place of a symbol precede it, and the one at its place does not.
pub proof fn lemma_place(list: Seq<InstrumentView>, symbol: Seq<char>)
    ensures
        0 <= place(list, symbol) <= list.len(),
        forall|i: int|
            0 <= i < place(list, symbol) ==> text::precedes((#[trigger] list[i]).symbol, symbol),
        place(list, symbol) < list.len() ==> !text::precedes(
            list[place(list, symbol)].symbol,
            symbol,
        ),
    decreases list.len(),
{
    if list.len() > 0 && text::precedes(list[0].symbol, symbol) {
        let rest = list.skip(1);
        lemma_place(rest, symbol);
        assert forall|i: int| 0 <= i < place(list, symbol) implies text::precedes(
            (#[trigger] list[i]).symbol,
            symbol,
        ) by {
            if i > 0 {
                assert(rest[i - 1] == list[i]);
            }
        }
        if place(list, symbol) < list.len() {
            assert(rest[place(rest, symbol)] == list[place(list, symbol)]);
        }
    }
}

/// A listing with one more instrument of the venue is a listing.
proof fn lemma_added(provider: Provider, list: Seq<InstrumentView>, instrument: InstrumentView)
    requires
        is_listing(provider, list),
        belongs(provider, instrument),
        with_symbol(list, instrument.symbol) is None,
    ensures
        is_listing(provider, added(list, instrument)),
{
    let symbol = instrument.symbol;
    let at = place(list, symbol);
    let longer = added(list, instrument);
    lemma_place(list, symbol);
    lemma_with_symbol(list, symbol);
    assert forall|k: int| at <= k < list.len() implies text::precedes(
        symbol,
        (#[trigger] list[k]).symbol,
    ) by {
        keyset::lemma_precedes_total(symbol, list[at].symbol);
        if k > at {
            keyset::lemma_precedes_transitive(symbol, list[at].symbol, list[k].symbol);
        }
    }
    assert forall|i: int| 0 <= i < longer.len() implies #[trigger] longer[i] == (if i < at {
        list[i]
    } else if i == at {
        instrument
    } else {
        list[i - 1]
    }) by {}
    assert forall|i: int, j: int| 0 <= i < j < longer.len() implies text::precedes(
        (#[trigger] longer[i]).symbol,
        (#[trigger] longer[j]).symbol,
    ) by {
        if j == at {
            assert(text::precedes(list[i].symbol, symbol));
        } else if i == at {
            assert(text::precedes(symbol, list[j - 1].symbol));
        } else {
            let a = if i < at { i } else { i - 1 };
            let b = if j < at { j } else { j - 1 };
            assert(text::precedes(list[a].symbol, list[b].symbol));
        }
    }
}

/// The live instruments of one venue, in the order of symbols.
#[derive(Debug)]
pub struct Listing {
    provider: Provider,
    instruments: Vec<Instrument>,
}

impl View for Listing {
    type V = Seq<InstrumentView>;

    closed spec fn view(&self) -> Seq<InstrumentView> {
        instrument_views(self.instruments@)
    }
}

impl Listing {
    /// The venue whose instruments these are.
    pub closed spec fn venue(&self) -> Provider {
        self.provider
    }

    /// The instruments are those of the venue, in order, none of them twice.
    #[verifier::type_invariant]
    spec fn ordered(&self) -> bool {
        is_listing(self.provider, self@)
    }

    /// The listing without instruments.
    pub fn new(provider: Provider) -> (listing: Listing)
        ensures
            listing.venue() == provider,
            listing@ == Seq::<InstrumentView>::empty(),
    {
        let instruments: Vec<Instrument> = Vec::new();
        proof {
            assert(instrument_views(instruments@) =~= Seq::empty());
        }
        Listing { provider, instruments }
    }

    /// The venue whose instruments these are.
    pub fn provider(&self) -> (provider: Provider)
        ensures
            provider == self.venue(),
    {
        self.provider
    }

    /// The number of instruments.
    pub fn len(&self) -> (n: usize)
        ensures
            n == self@.len(),
            is_listing(self.venue(), self@),
    {
        proof {
            use_type_invariant(self);
        }
        self.instruments.len()
    }

    /// An instrument by its place.
    pub fn at(&self, i: usize) -> (instrument: &Instrument)
        requires
            i < self@.len(),
        ensures
            instrument@ == self@[i as int],
    {
        &self.instruments[i]
    }

    /// The instrument with a symbol.
    pub fn get(&self, symbol: &str) -> (instrument: Option<&Instrument>)
        ensures
            match instrument {
                Some(found) => with_symbol(self@, symbol@) == Some(found@),
                None => with_symbol(self@, symbol@) is None,
            },
    {
        let ghost all = self@;
        let mut i: usize = 0;
        while i < self.instruments.len()
            invariant
                i <= self.instruments@.len(),
                all == instrument_views(self.instruments@),
                with_symbol(all.take(i as int), symbol@) is None,
            decreases self.instruments.len() - i,
        {
            proof {
                let longer = all.take(i + 1);
                assert(longer.drop_last() =~= all.take(i as int));
                assert(longer.last() == all[i as int]);
                if all[i as int].symbol == symbol@ {
                    lemma_found_stays(all, i + 1, symbol@);
                }
            }
            if text::same(self.instruments[i].symbol.as_str(), symbol) {
                return Some(&self.instruments[i]);
            }
            i += 1;
        }
        proof {
            assert(all.take(i as int) =~= all);
        }
        None
    }

    /// Put an instrument into the listing.
    ///
    /// # Errors
    ///
    /// An instrument that the listing has already is refused.
    pub fn insert_unique(&mut self, instrument: Instrument) -> (r: Result<(), CatalogError>)
        requires
            belongs(old(self).venue(), instrument@),
        ensures
            final(self).venue() == old(self).venue(),
            match r {
                Ok(()) => added_once(old(self)@, instrument@) == Ok::<
                    Seq<InstrumentView>,
                    CatalogErrorView,
                >(final(self)@),
                Err(error) => {
                    &&& added_once(old(self)@, instrument@) == Err::<
                        Seq<InstrumentView>,
                        CatalogErrorView,
                    >(error@)
                    &&& final(self)@ == old(self)@
                },
            },
    {
        proof {
            use_type_invariant(&*self);
        }
        if self.get(instrument.symbol.as_str()).is_some() {
            return Err(
                CatalogError::DuplicateInstrument {
                    provider: instrument.provider,
                    symbol: instrument.symbol,
                },
            );
        }
        let ghost all = self@;
        let mut at: usize = 0;
        proof {
            assert(all.skip(0) =~= all);
        }
        while at < self.instruments.len() && text::before(
            self.instruments[at].symbol.as_str(),
            instrument.symbol.as_str(),
        )
            invariant
                at <= self.instruments@.len(),
                all == instrument_views(self.instruments@),
                place(all, instrument@.symbol) == at + place(
                    all.skip(at as int),
                    instrument@.symbol,
                ),
            decreases self.instruments.len() - at,
        {
            proof {
                assert(all.skip(at as int)[0] == all[at as int]);
                assert(all.skip(at as int).skip(1) =~= all.skip(at + 1));
            }
            at += 1;
        }
        proof {
            if at < self.instruments@.len() {
                assert(all.skip(at as int)[0] == all[at as int]);
            }
            assert(place(all, instrument@.symbol) == at);
            lemma_added(self.provider, all, instrument@);
        }
        let ghost fresh = instrument@;
        let mut instruments: Vec<Instrument> = Vec::new();
        proof {
            assert(instrument_views(instruments@) =~= Seq::empty());
        }
        core::mem::swap(&mut instruments, &mut self.instruments);
        instruments.insert(at, instrument);
        proof {
            assert(instrument_views(instruments@) =~= added(all, fresh));
        }
        self.instruments = instruments;
        Ok(())
    }
}

/// What is found in a prefix of a list is found in the list.
proof fn lemma_found_stays(list: Seq<InstrumentView>, count: int, symbol: Seq<char>)
    requires
        0 <= count <= list.len(),
        with_symbol(list.take(count), symbol) is Some,
    ensures
        with_symbol(list, symbol) == with_symbol(list.take(count), symbol),
    decreases list.len(),
{
    if count < list.len() {
        assert(list.drop_last().take(count) =~= list.take(count));
        lemma_found_stays(list.drop_last(), count, symbol);
    } else {
        assert(list.take(count) =~= list);
    }
}

// ---------------------------------------------------------------------------------------------
// Sources, filters and refresh states
// ---------------------------------------------------------------------------------------------

/// Public REST endpoints and provider enablement for catalog refreshes.
#[derive(Debug, Clone)]
pub struct CatalogSources {
    pub bybit: String,
    pub binance: String,
    pub okx: String,
    pub kucoin: String,
    pub mexc: String,
    pub bingx: String,
    pub enabled_providers: ProviderSet,
}

/// The official catalog endpoint of a venue.
pub open spec fn official_endpoint(provider: Provider) -> Seq<char> {
    match provider {
        Provider::Bybit => BYBIT_CATALOG_URL@,
        Provider::Binance => BINANCE_CATALOG_URL@,
        Provider::Okx => OKX_CATALOG_URL@,
        Provider::Kucoin => KUCOIN_CATALOG_URL@,
        Provider::Mexc => MEXC_CATALOG_URL@,
        Provider::Bingx => BINGX_CATALOG_URL@,
    }
}

impl CatalogSources {
    /// The catalog endpoint of a venue.
    pub open spec fn url(&self, provider: Provider) -> Seq<char> {
        match provider {
            Provider::Bybit => self.bybit@,
            Provider::Binance => self.binance@,
            Provider::Okx => self.okx@,
            Provider::Kucoin => self.kucoin@,
            Provider::Mexc => self.mexc@,
            Provider::Bingx => self.bingx@,
        }
    }

    /// The catalog endpoint of a venue.
    pub fn endpoint(&self, provider: Provider) -> (url: &str)
        ensures
            url@ == self.url(provider),
    {
        match provider {
            Provider::Bybit => self.bybit.as_str(),
            Provider::Binance => self.binance.as_str(),
            Provider::Okx => self.okx.as_str(),
            Provider::Kucoin => self.kucoin.as_str(),
            Provider::Mexc => self.mexc.as_str(),
            Provider::Bingx => self.bingx.as_str(),
        }
    }

    /// Whether a venue is enabled.
    pub fn is_enabled(&self, provider: Provider) -> (answer: bool)
        ensures
            answer == self.enabled_providers@.contains(provider),
    {
        self.enabled_providers.contains(provider)
    }
}

impl Default for CatalogSources {
    /// The official endpoints, with every venue enabled.
    fn default() -> (sources: Self)
        ensures
            sources.enabled_providers@ == Set::<Provider>::full(),
            forall|provider: Provider| #[trigger]
                sources.url(provider) == official_endpoint(provider),
    {
        CatalogSources {
            bybit: BYBIT_CATALOG_URL.to_owned(),
            binance: BINANCE_CATALOG_URL.to_owned(),
            okx: OKX_CATALOG_URL.to_owned(),
            kucoin: KUCOIN_CATALOG_URL.to_owned(),
            mexc: MEXC_CATALOG_URL.to_owned(),
            bingx: BINGX_CATALOG_URL.to_owned(),
            enabled_providers: ProviderSet::all(),
        }
    }
}

/// Current refresh state for one provider.
#[derive(Debug, PartialEq, Eq)]
pub struct ProviderCatalogStatus {
    pub provider: Provider,
    pub enabled: bool,
    pub instrument_count: usize,
    pub last_attempt_at_ms: Option<u64>,
    pub last_success_at_ms: Option<u64>,
    pub last_error: Option<String>,
}

/// The mathematical value of a refresh state.
pub struct CatalogStatusView {
    pub provider: Provider,
    pub enabled: bool,
    pub instrument_count: nat,
    pub last_attempt_at_ms: Option<u64>,
    pub last_success_at_ms: Option<u64>,
    pub last_error: Option<Seq<char>>,
}

impl View for ProviderCatalogStatus {
    type V = CatalogStatusView;

    open spec fn view(&self) -> CatalogStatusView {
        CatalogStatusView {
            provider: self.provider,
            enabled: self.enabled,
            instrument_count: self.instrument_count as nat,
            last_attempt_at_ms: self.last_attempt_at_ms,
            last_success_at_ms: self.last_success_at_ms,
            last_error: domain::text_view(self.last_error),
        }
    }
}

impl Clone for ProviderCatalogStatus {
    fn clone(&self) -> (copy: Self)
        ensures
            copy@ == self@,
    {
        ProviderCatalogStatus {
            provider: self.provider,
            enabled: self.enabled,
            instrument_count: self.instrument_count,
            last_attempt_at_ms: self.last_attempt_at_ms,
            last_success_at_ms: self.last_success_at_ms,
            last_error: domain::copied_text(&self.last_error),
        }
    }
}

/// Successful refresh summary.
#[derive(Debug, Clone, Copy, PartialEq, Eq, Structural)]
pub struct RefreshOutcome {
    pub provider: Provider,
    pub instrument_count: usize,
    pub refreshed_at_ms: u64,
}

/// Optional exact-match filters for catalog listings.
#[derive(Debug, Clone, PartialEq, Eq)]
pub struct CatalogFilter {
    pub provider: Option<Provider>,
    pub market: Option<MarketKind>,
    pub symbol: Option<String>,
    pub base_asset: Option<String>,
    pub quote_asset: Option<String>,
    pub settle_asset: Option<String>,
}

/// Whether a text is the wanted one, in any case of the ASCII letters. Every text is wanted where
/// none is named.
pub open spec fn is_wanted(wanted: Option<String>, actual: Seq<char>) -> bool {
    match wanted {
        Some(wanted) => text::lowered(wanted@) == text::lowered(actual),
        None => true,
    }
}

/// Whether a text is the wanted one.
fn matches_optional(wanted: &Option<String>, actual: &str) -> (answer: bool)
    ensures
        answer == is_wanted(*wanted, actual@),
{
    match wanted {
        Some(wanted) => text::same(
            text::to_lower(wanted.as_str()).as_str(),
            text::to_lower(actual).as_str(),
        ),
        None => true,
    }
}

impl Default for CatalogFilter {
    /// The filter that lets everything pass.
    fn default() -> (filter: Self)
        ensures
            forall|instrument: InstrumentView| #[trigger] filter.passes(instrument),
    {
        CatalogFilter {
            provider: None,
            market: None,
            symbol: None,
            base_asset: None,
            quote_asset: None,
            settle_asset: None,
        }
    }
}

impl CatalogFilter {
    /// Whether an instrument passes the filter.
    pub open spec fn passes(&self, instrument: InstrumentView) -> bool {
        &&& self.provider is Some ==> self.provider == Some(instrument.provider)
        &&& self.market is Some ==> self.market == Some(instrument.market)
        &&& is_wanted(self.symbol, instrument.symbol)
        &&& is_wanted(self.base_asset, instrument.base_asset)
        &&& is_wanted(self.quote_asset, instrument.quote_asset)
        &&& is_wanted(self.settle_asset, instrument.settle_asset)
    }

    /// Whether an instrument passes the filter.
    pub fn matches(&self, instrument: &Instrument) -> (answer: bool)
        ensures
            answer == self.passes(instrument@),
    {
        if let Some(provider) = self.provider {
            if provider != instrument.provider {
                return false;
            }
        }
        if let Some(market) = self.market {
            if market != instrument.market {
                return false;
            }
        }
        matches_optional(&self.symbol, instrument.symbol.as_str()) && matches_optional(
            &self.base_asset,
            instrument.base_asset.as_str(),
        ) && matches_optional(&self.quote_asset, instrument.quote_asset.as_str())
            && matches_optional(&self.settle_asset, instrument.settle_asset.as_str())
    }
}

/// The instruments of a list that pass a filter.
pub open spec fn passing(list: Seq<InstrumentView>, filter: CatalogFilter) -> Seq<InstrumentView>
    decreases list.len(),
{
    if list.len() == 0 {
        Seq::empty()
    } else if filter.passes(list.last()) {
        passing(list.drop_last(), filter).push(list.last())
    } else {
        passing(list.drop_last(), filter)
    }
}

/// A filter that lets everything pass changes nothing.
proof fn lemma_passing_everything(list: Seq<InstrumentView>, filter: CatalogFilter)
    requires
        forall|instrument: InstrumentView| #[trigger] filter.passes(instrument),
    ensures
        passing(list, filter) == list,
    decreases list.len(),
{
    if list.len() > 0 {
        lemma_passing_everything(list.drop_last(), filter);
        assert(filter.passes(list.last()));
        assert(list.drop_last().push(list.last()) =~= list);
    } else {
        assert(list =~= Seq::empty());
    }
}

// ---------------------------------------------------------------------------------------------
// Snapshots
// ---------------------------------------------------------------------------------------------

/// What the catalog holds of one venue.
pub struct SnapshotView {
    pub instruments: Seq<InstrumentView>,
    pub status: CatalogStatusView,
}

/// What the catalog holds of a venue that was never refreshed.
pub open spec fn blank_snapshot(provider: Provider, enabled: bool) -> SnapshotView {
    SnapshotView {
        instruments: Seq::empty(),
        status: CatalogStatusView {
            provider,
            enabled,
            instrument_count: 0,
            last_attempt_at_ms: None,
            last_success_at_ms: None,
            last_error: None,
        },
    }
}

/// What a venue's answer comes to: a snapshot without instruments is refused.
pub open spec fn verdict(
    provider: Provider,
    fetched: Result<Seq<InstrumentView>, CatalogErrorView>,
) -> Result<Seq<InstrumentView>, CatalogErrorView> {
    match fetched {
        Ok(instruments) => if instruments.len() == 0 {
            Err(CatalogErrorView::EmptySnapshot(provider))
        } else {
            Ok(instruments)
        },
        Err(error) => Err(error),
    }
}

/// A snapshot after a refresh: replaced as a whole, or kept with the error noted.
pub open spec fn refreshed(
    snapshot: SnapshotView,
    provider: Provider,
    attempted_at_ms: u64,
    refreshed_at_ms: u64,
    fetched: Result<Seq<InstrumentView>, CatalogErrorView>,
) -> SnapshotView {
    match verdict(provider, fetched) {
        Ok(instruments) => SnapshotView {
            instruments,
            status: CatalogStatusView {
                instrument_count: instruments.len(),
                last_attempt_at_ms: Some(attempted_at_ms),
                last_success_at_ms: Some(refreshed_at_ms),
                last_error: None,
                ..snapshot.status
            },
        },
        Err(error) => SnapshotView {
            instruments: snapshot.instruments,
            status: CatalogStatusView {
                last_attempt_at_ms: Some(attempted_at_ms),
                last_error: Some(catalog_message(error)),
                ..snapshot.status
            },
        },
    }
}

/// The value of what a venue's answer came to.
pub open spec fn fetched_view(fetched: Result<Listing, CatalogError>) -> Result<
    Seq<InstrumentView>,
    CatalogErrorView,
> {
    match fetched {
        Ok(listing) => Ok(listing@),
        Err(error) => Err(error@),
    }
}

/// The value of what a validation came to.
pub open spec fn resolved_view(resolved: Result<Instrument, CatalogError>) -> Result<
    InstrumentView,
    CatalogErrorView,
> {
    match resolved {
        Ok(instrument) => Ok(instrument@),
        Err(error) => Err(error@),
    }
}

/// The instrument that a symbol names: under its exact spelling, or else in its normal form.
pub open spec fn named(list: Seq<InstrumentView>, symbol: Seq<char>) -> Option<InstrumentView> {
    let exact = text::trimmed(symbol);
    if with_symbol(list, exact) is Some {
        with_symbol(list, exact)
    } else {
        match domain::symbol_identity(exact) {
            Ok(normal) => with_symbol(list, normal),
            Err(_) => None,
        }
    }
}

/// What a key resolves to, in a catalog in which a venue is enabled or not.
pub open spec fn resolution(
    enabled: bool,
    instruments: Seq<InstrumentView>,
    key: KeyView,
) -> Result<InstrumentView, CatalogErrorView> {
    if !enabled {
        Err(CatalogErrorView::ProviderDisabled(key.provider))
    } else {
        match named(instruments, key.symbol) {
            None => Err(
                CatalogErrorView::InstrumentUnavailable {
                    provider: key.provider,
                    market: key.market,
                    symbol: key.symbol,
                },
            ),
            Some(instrument) => if instrument.capabilities.offers(key.channel) {
                Ok(instrument)
            } else {
                Err(
                    CatalogErrorView::UnsupportedChannel {
                        provider: key.provider,
                        market: key.market,
                        symbol: key.symbol,
                        channel: key.channel,
                    },
                )
            },
        }
    }
}

/// What the catalog holds of one venue.
#[derive(Debug)]
struct ProviderSnapshot {
    listing: Listing,
    status: ProviderCatalogStatus,
}

/// The snapshots of all venues.
#[derive(Debug)]
pub struct Catalog {
    sources: CatalogSources,
    snapshots: Vec<ProviderSnapshot>,
}

impl Catalog {
    /// What the catalog holds of the venue at a place in the order of venues.
    spec fn slot(&self, k: int) -> SnapshotView {
        SnapshotView {
            instruments: self.snapshots@[k].listing@,
            status: self.snapshots@[k].status@,
        }
    }

    /// What the catalog holds of a venue.
    pub closed spec fn snapshot(&self, provider: Provider) -> SnapshotView {
        self.slot(keyset::provider_rank(provider))
    }

    /// The venues that are enabled.
    pub closed spec fn enabled(&self) -> Set<Provider> {
        self.sources.enabled_providers@
    }

    /// The catalog endpoint of a venue.
    pub closed spec fn url(&self, provider: Provider) -> Seq<char> {
        self.sources.url(provider)
    }

    /// Each venue has its snapshot, and the refresh state goes with it.
    #[verifier::type_invariant]
    spec fn complete(&self) -> bool {
        &&& self.snapshots@.len() == VENUES
        &&& forall|k: int|
            0 <= k < VENUES ==> {
                let provider = venues::every_provider()[k];
                let snapshot = #[trigger] self.snapshots@[k];
                &&& snapshot.listing.venue() == provider
                &&& is_listing(provider, snapshot.listing@)
                &&& snapshot.status.provider == provider
                &&& snapshot.status.enabled == self.sources.enabled_providers@.contains(provider)
                &&& snapshot.status.instrument_count == snapshot.listing@.len()
            }
    }

    /// What holds of every snapshot: its instruments are those of the venue in the order of
    /// symbols, none of them twice, and its state counts them.
    pub open spec fn is_consistent(&self) -> bool {
        forall|provider: Provider|
            {
                let snapshot = #[trigger] self.snapshot(provider);
                &&& is_listing(provider, snapshot.instruments)
                &&& snapshot.status.provider == provider
                &&& snapshot.status.enabled == self.enabled().contains(provider)
                &&& snapshot.status.instrument_count == snapshot.instruments.len()
            }
    }

    /// The instruments of the first venues in the order of venues.
    pub open spec fn instruments_of(&self, providers: Seq<Provider>) -> Seq<InstrumentView>
        decreases providers.len(),
    {
        if providers.len() == 0 {
            Seq::empty()
        } else {
            self.instruments_of(providers.drop_last()) + self.snapshot(providers.last()).instruments
        }
    }

    /// All instruments, by venue and then by symbol.
    pub open spec fn everything(&self) -> Seq<InstrumentView> {
        self.instruments_of(venues::every_provider())
    }

    /// A catalog that knows of no instrument yet.
    pub fn new(sources: CatalogSources) -> (catalog: Catalog)
        ensures
            catalog.enabled() == sources.enabled_providers@,
            forall|provider: Provider| #[trigger] catalog.url(provider) == sources.url(provider),
            forall|provider: Provider| #[trigger]
                catalog.snapshot(provider) == blank_snapshot(
                    provider,
                    sources.enabled_providers@.contains(provider),
                ),
            catalog.is_consistent(),
    {
        let every = venues::all_providers();
        let mut snapshots: Vec<ProviderSnapshot> = Vec::new();
        let mut k: usize = 0;
        while k < every.len()
            invariant
                k <= every@.len(),
                every@ == venues::every_provider(),
                snapshots@.len() == k,
                forall|i: int|
                    0 <= i < k ==> {
                        let snapshot = #[trigger] snapshots@[i];
                        &&& snapshot.listing.venue() == every@[i]
                        &&& snapshot.listing@ == Seq::<InstrumentView>::empty()
                        &&& snapshot.status@ == blank_snapshot(
                            every@[i],
                            sources.enabled_providers@.contains(every@[i]),
                        ).status
                    },
            decreases every.len() - k,
        {
            let provider = every[k];
            snapshots.push(
                ProviderSnapshot {
                    listing: Listing::new(provider),
                    status: ProviderCatalogStatus {
                        provider,
                        enabled: sources.is_enabled(provider),
                        instrument_count: 0,
                        last_attempt_at_ms: None,
                        last_success_at_ms: None,
                        last_error: None,
                    },
                },
            );
            k += 1;
        }
        let catalog = Catalog { sources, snapshots };
        proof {
            assert forall|provider: Provider| #[trigger]
                catalog.snapshot(provider) == blank_snapshot(
                    provider,
                    sources.enabled_providers@.contains(provider),
                ) by {
                let k = keyset::provider_rank(provider);
                assert(venues::every_provider()[k] == provider);
                let snapshot = catalog.snapshots@[k];
            }
        }
        catalog
    }

    /// The venues that are enabled.
    pub fn enabled_providers(&self) -> (providers: ProviderSet)
        ensures
            providers@ == self.enabled(),
    {
        self.sources.enabled_providers
    }

    /// The catalog endpoint of a venue.
    pub fn endpoint(&self, provider: Provider) -> (url: &str)
        ensures
            url@ == self.url(provider),
    {
        self.sources.endpoint(provider)
    }

    /// The instruments of all venues.
    pub fn list(&self) -> (list: Vec<Instrument>)
        ensures
            instrument_views(list@) == self.everything(),
            self.is_consistent(),
    {
        let filter = CatalogFilter::default();
        proof {
            lemma_passing_everything(self.everything(), filter);
        }
        self.filter(&filter)
    }

    /// The instruments that pass a filter, by venue and then by symbol.
    pub fn filter(&self, filter: &CatalogFilter) -> (list: Vec<Instrument>)
        ensures
            instrument_views(list@) == passing(self.everything(), *filter),
            self.is_consistent(),
    {
        proof {
            use_type_invariant(self);
            self.lemma_consistent();
        }
        let ghost every = venues::every_provider();
        let mut list: Vec<Instrument> = Vec::new();
        let mut k: usize = 0;
        proof {
            assert(instrument_views(list@) =~= Seq::empty());
            assert(every.take(0) =~= Seq::empty());
        }
        while k < self.snapshots.len()
            invariant
                k <= self.snapshots@.len(),
                self.snapshots@.len() == VENUES,
                every == venues::every_provider(),
                instrument_views(list@) == passing(
                    self.instruments_of(every.take(k as int)),
                    *filter,
                ),
            decreases self.snapshots.len() - k,
        {
            let ghost before = self.instruments_of(every.take(k as int));
            let listing = &self.snapshots[k].listing;
            let ghost own = listing@;
            let mut i: usize = 0;
            proof {
                assert(before + own.take(0) =~= before);
            }
            while i < listing.len()
                invariant
                    i <= own.len(),
                    own == listing@,
                    instrument_views(list@) == passing(before + own.take(i as int), *filter),
                decreases own.len() - i,
            {
                let instrument = listing.at(i);
                let ghost kept = instrument_views(list@);
                proof {
                    let longer = before + own.take(i + 1);
                    assert(longer.drop_last() =~= before + own.take(i as int));
                    assert(longer.last() == own[i as int]);
                }
                if filter.matches(instrument) {
                    list.push(instrument.clone());
                    proof {
                        assert(instrument_views(list@) =~= kept.push(instrument@));
                    }
                }
                i += 1;
            }
            proof {
                assert(own.take(i as int) =~= own);
                let longer = every.take(k + 1);
                assert(longer.drop_last() =~= every.take(k as int));
                assert(keyset::provider_rank(longer.last()) == k);
                assert(self.snapshot(longer.last()).instruments == own);
            }
            k += 1;
        }
        proof {
            assert(every.take(k as int) =~= every);
        }
        list
    }

    proof fn lemma_consistent(&self)
        requires
            self.complete(),
        ensures
            self.is_consistent(),
    {
        assert forall|provider: Provider|
            {
                let snapshot = #[trigger] self.snapshot(provider);
                &&& is_listing(provider, snapshot.instruments)
                &&& snapshot.status.provider == provider
                &&& snapshot.status.enabled == self.enabled().contains(provider)
                &&& snapshot.status.instrument_count == snapshot.instruments.len()
            } by {
            let k = keyset::provider_rank(provider);
            assert(venues::every_provider()[k] == provider);
            let snapshot = self.snapshots@[k];
        }
    }

    /// The instrument that a symbol names: under its exact spelling, or else in its normal form.
    pub fn get(&self, provider: Provider, market: MarketKind, symbol: &str) -> (instrument: Option<
        Instrument,
    >)
        ensures
            match instrument {
                Some(found) => named(self.snapshot(provider).instruments, symbol@) == Some(found@),
                None => named(self.snapshot(provider).instruments, symbol@) is None,
            },
    {
        proof {
            use_type_invariant(self);
        }
        let exact = text::trim(symbol);
        let listing = &self.snapshots[keyset::rank_of(provider) as usize].listing;
        if let Some(found) = listing.get(exact) {
            return Some(found.clone());
        }
        match domain::normalize_symbol(exact) {
            Ok(normal) => match listing.get(normal.as_str()) {
                Some(found) => Some(found.clone()),
                None => None,
            },
            Err(_) => None,
        }
    }

    /// The instrument with an identifier.
    pub fn get_by_id(&self, instrument_id: &str) -> (instrument: Option<Instrument>)
        ensures
            match instrument {
                Some(found) => with_id(self.everything(), instrument_id@) == Some(found@),
                None => with_id(self.everything(), instrument_id@) is None,
            },
    {
        proof {
            use_type_invariant(self);
        }
        let ghost every = venues::every_provider();
        let ghost all = self.everything();
        let mut k: usize = 0;
        proof {
            assert(every.take(0) =~= Seq::empty());
        }
        while k < self.snapshots.len()
            invariant
                k <= self.snapshots@.len(),
                self.snapshots@.len() == VENUES,
                every == venues::every_provider(),
                all == self.everything(),
                with_id(self.instruments_of(every.take(k as int)), instrument_id@) is None,
            decreases self.snapshots.len() - k,
        {
            let ghost before = self.instruments_of(every.take(k as int));
            let listing = &self.snapshots[k].listing;
            let ghost own = listing@;
            let mut i: usize = 0;
            proof {
                assert(before + own.take(0) =~= before);
                let longer = every.take(k + 1);
                assert(longer.drop_last() =~= every.take(k as int));
                assert(keyset::provider_rank(longer.last()) == k);
                assert(self.snapshot(longer.last()).instruments == own);
                assert(self.instruments_of(longer) == before + own);
                self.lemma_prefix(every, k + 1);
            }
            while i < listing.len()
                invariant
                    i <= own.len(),
                    own == listing@,
                    all == self.everything(),
                    with_id(before + own.take(i as int), instrument_id@) is None,
                    all.take((before + own).len() as int) == before + own,
                    (before + own).len() <= all.len(),
                decreases own.len() - i,
            {
                let instrument = listing.at(i);
                proof {
                    let longer = before + own.take(i + 1);
                    assert(longer.drop_last() =~= before + own.take(i as int));
                    assert(longer.last() == own[i as int]);
                    if own[i as int].instrument_id == instrument_id@ {
                        assert(all.take(longer.len() as int) =~= longer) by {
                            assert((before + own).take(longer.len() as int) =~= longer);
                        }
                        lemma_id_stays(all, longer.len() as int, instrument_id@);
                    }
                }
                if text::same(instrument.instrument_id.as_str(), instrument_id) {
                    return Some(instrument.clone());
                }
                i += 1;
            }
            proof {
                assert(own.take(i as int) =~= own);
            }
            k += 1;
        }
        proof {
            assert(every.take(k as int) =~= every);
        }
        None
    }

    /// The instruments of the first venues are the first of all.
    proof fn lemma_prefix(&self, providers: Seq<Provider>, count: int)
        requires
            0 <= count <= providers.len(),
        ensures
            ({
                let part = self.instruments_of(providers.take(count));
                let all = self.instruments_of(providers);
                part.len() <= all.len() && all.take(part.len() as int) == part
            }),
        decreases providers.len(),
    {
        let part = self.instruments_of(providers.take(count));
        let all = self.instruments_of(providers);
        if count < providers.len() {
            let shorter = providers.drop_last();
            self.lemma_prefix(shorter, count);
            assert(shorter.take(count) =~= providers.take(count));
            assert(all.take(part.len() as int) =~= self.instruments_of(shorter).take(
                part.len() as int,
            ));
        } else {
            assert(providers.take(count) =~= providers);
            assert(all.take(part.len() as int) =~= part);
        }
    }

    /// The refresh state of a venue.
    pub fn status(&self, provider: Provider) -> (status: ProviderCatalogStatus)
        ensures
            status@ == self.snapshot(provider).status,
    {
        proof {
            use_type_invariant(self);
        }
        self.snapshots[keyset::rank_of(provider) as usize].status.clone()
    }

    /// The refresh states of all venues, in the order of venues.
    pub fn statuses(&self) -> (list: Vec<ProviderCatalogStatus>)
        ensures
            list@.len() == venues::every_provider().len(),
            forall|i: int|
                0 <= i < list@.len() ==> (#[trigger] list@[i])@ == self.snapshot(
                    venues::every_provider()[i],
                ).status,
    {
        proof {
            use_type_invariant(self);
        }
        let mut list: Vec<ProviderCatalogStatus> = Vec::new();
        let mut k: usize = 0;
        while k < self.snapshots.len()
            invariant
                k <= self.snapshots@.len(),
                self.snapshots@.len() == VENUES,
                list@.len() == k,
                forall|i: int|
                    0 <= i < k ==> (#[trigger] list@[i])@ == self.snapshot(
                        venues::every_provider()[i],
                    ).status,
            decreases self.snapshots.len() - k,
        {
            list.push(self.snapshots[k].status.clone());
            proof {
                assert(keyset::provider_rank(venues::every_provider()[k as int]) == k);
            }
            k += 1;
        }
        list
    }

    /// Validate that a subscription resolves to a live linear perpetual and supported channel.
    ///
    /// # Errors
    ///
    /// Disabled providers, unknown or rejected instruments, and unsupported channels are refused.
    pub fn validate_subscription(&self, subscription: &SubscriptionKey) -> (r: Result<
        Instrument,
        CatalogError,
    >)
        ensures
            resolved_view(r) == resolution(
                self.enabled().contains(subscription@.provider),
                self.snapshot(subscription@.provider).instruments,
                subscription@,
            ),
    {
        if !self.sources.is_enabled(subscription.provider) {
            return Err(CatalogError::ProviderDisabled(subscription.provider));
        }
        let instrument = match self.get(
            subscription.provider,
            subscription.market,
            subscription.symbol.as_str(),
        ) {
            Some(instrument) => instrument,
            None => {
                return Err(
                    CatalogError::InstrumentUnavailable {
                        provider: subscription.provider,
                        market: subscription.market,
                        symbol: subscription.symbol.clone(),
                    },
                );
            },
        };
        if !instrument.capabilities.supports(subscription.channel) {
            return Err(
                CatalogError::UnsupportedChannel {
                    provider: subscription.provider,
                    market: subscription.market,
                    symbol: subscription.symbol.clone(),
                    channel: subscription.channel,
                },
            );
        }
        Ok(instrument)
    }

    /// Record what a refresh of one venue came to, without changing any other venue's snapshot.
    ///
    /// # Errors
    ///
    /// A disabled venue and an answer without instruments are refused, and an error is handed on.
    /// The snapshot is retained when any error occurs.
    pub fn refresh_provider(
        &mut self,
        provider: Provider,
        attempted_at_ms: u64,
        refreshed_at_ms: u64,
        fetched: Result<Listing, CatalogError>,
    ) -> (r: Result<RefreshOutcome, CatalogError>)
        requires
            fetched is Ok ==> fetched->Ok_0.venue() == provider,
        ensures
            final(self).enabled() == old(self).enabled(),
            forall|other: Provider| #[trigger] final(self).url(other) == old(self).url(other),
            forall|other: Provider|
                other != provider ==> #[trigger] final(self).snapshot(other) == old(self).snapshot(
                    other,
                ),
            !old(self).enabled().contains(provider) ==> {
                &&& final(self).snapshot(provider) == old(self).snapshot(provider)
                &&& r is Err
                &&& r->Err_0@ == CatalogErrorView::ProviderDisabled(provider)
            },
            old(self).enabled().contains(provider) ==> {
                &&& final(self).snapshot(provider) == refreshed(
                    old(self).snapshot(provider),
                    provider,
                    attempted_at_ms,
                    refreshed_at_ms,
                    fetched_view(fetched),
                )
                &&& match r {
                    Ok(outcome) => {
                        &&& verdict(provider, fetched_view(fetched)) is Ok
                        &&& outcome.provider == provider
                        &&& outcome.instrument_count == final(self).snapshot(
                            provider,
                        ).instruments.len()
                        &&& outcome.refreshed_at_ms == refreshed_at_ms
                    },
                    Err(error) => verdict(provider, fetched_view(fetched)) == Err::<
                        Seq<InstrumentView>,
                        CatalogErrorView,
                    >(error@),
                }
            },
            final(self).is_consistent(),
    {
        proof {
            use_type_invariant(&*self);
            self.lemma_consistent();
        }
        if !self.sources.is_enabled(provider) {
            return Err(CatalogError::ProviderDisabled(provider));
        }
        let ghost before = *self;
        let k: usize = keyset::rank_of(provider) as usize;
        proof {
            assert(venues::every_provider()[k as int] == provider);
            let own = self.snapshots@[k as int];
        }
        let fetched = match fetched {
            Ok(listing) => if listing.len() == 0 {
                Err(CatalogError::EmptySnapshot(provider))
            } else {
                Ok(listing)
            },
            Err(error) => Err(error),
        };
        let old_status = self.snapshots[k].status.clone();
        let r = match fetched {
            Ok(listing) => {
                let instrument_count = listing.len();
                self.put(
                    k,
                    ProviderSnapshot {
                        listing,
                        status: ProviderCatalogStatus {
                            provider,
                            enabled: old_status.enabled,
                            instrument_count,
                            last_attempt_at_ms: Some(attempted_at_ms),
                            last_success_at_ms: Some(refreshed_at_ms),
                            last_error: None,
                        },
                    },
                );
                Ok(RefreshOutcome { provider, instrument_count, refreshed_at_ms })
            },
            Err(error) => {
                let status = ProviderCatalogStatus {
                    provider,
                    enabled: old_status.enabled,
                    instrument_count: old_status.instrument_count,
                    last_attempt_at_ms: Some(attempted_at_ms),
                    last_success_at_ms: old_status.last_success_at_ms,
                    last_error: Some(error.message()),
                };
                self.put_status(k, status);
                Err(error)
            },
        };
        proof {
            use_type_invariant(&*self);
            self.lemma_consistent();
            assert forall|other: Provider| other != provider implies #[trigger] self.snapshot(other)
                == before.snapshot(other) by {
                assert(keyset::provider_rank(other) != k);
            }
        }
        r
    }

    /// Replace the snapshot of a venue.
    fn put(&mut self, k: usize, snapshot: ProviderSnapshot)
        requires
            k < VENUES,
            snapshot.listing.venue() == venues::every_provider()[k as int],
            is_listing(snapshot.listing.venue(), snapshot.listing@),
            snapshot.status.provider == snapshot.listing.venue(),
            snapshot.status.enabled == old(self).sources.enabled_providers@.contains(
                snapshot.listing.venue(),
            ),
            snapshot.status.instrument_count == snapshot.listing@.len(),
        ensures
            final(self).sources == old(self).sources,
            old(self).snapshots@.len() == VENUES,
            final(self).snapshots@ == old(self).snapshots@.update(k as int, snapshot),
    {
        proof {
            use_type_invariant(&*self);
        }
        let mut taken = Catalog::new(CatalogSources::default());
        core::mem::swap(self, &mut taken);
        let Catalog { sources, snapshots } = taken;
        let mut snapshots = snapshots;
        snapshots.set(k, snapshot);
        *self = Catalog { sources, snapshots };
    }

    /// Replace the refresh state of a venue.
    fn put_status(&mut self, k: usize, status: ProviderCatalogStatus)
        requires
            k < VENUES,
            old(self).snapshots@.len() == VENUES,
            status.provider == old(self).snapshots@[k as int].status.provider,
            status.enabled == old(self).snapshots@[k as int].status.enabled,
            status.instrument_count == old(self).snapshots@[k as int].status.instrument_count,
        ensures
            final(self).sources == old(self).sources,
            final(self).snapshots@ == old(self).snapshots@.update(
                k as int,
                ProviderSnapshot { status, ..old(self).snapshots@[k as int] },
            ),
    {
        proof {
            use_type_invariant(&*self);
            let own = self.snapshots@[k as int];
        }
        let mut taken = Catalog::new(CatalogSources::default());
        core::mem::swap(self, &mut taken);
        let Catalog { sources, snapshots } = taken;
        let mut snapshots = snapshots;
        snapshots[k].status = status;
        *self = Catalog { sources, snapshots };
    }
}

/// What is found in a prefix of a list is found in the list.
proof fn lemma_id_stays(list: Seq<InstrumentView>, count: int, id: Seq<char>)
    requires
        0 <= count <= list.len(),
        with_id(list.take(count), id) is Some,
    ensures
        with_id(list, id) == with_id(list.take(count), id),
    decreases list.len(),
{
    if count < list.len() {
        assert(list.drop_last().take(count) =~= list.take(count));
        lemma_id_stays(list.drop_last(), count, id);
    } else {
        assert(list.take(count) =~= list);
    }
}

// ---------------------------------------------------------------------------------------------
// Laws
// ---------------------------------------------------------------------------------------------

/// A failed refresh keeps every instrument and the time of the last success.
pub proof fn law_failed_refreshes_keep_the_snapshot(
    snapshot: SnapshotView,
    provider: Provider,
    attempted_at_ms: u64,
    refreshed_at_ms: u64,
    fetched: Result<Seq<InstrumentView>, CatalogErrorView>,
)
    requires
        verdict(provider, fetched) is Err,
    ensures
        ({
            let after = refreshed(snapshot, provider, attempted_at_ms, refreshed_at_ms, fetched);
            &&& after.instruments == snapshot.instruments
            &&& after.status.instrument_count == snapshot.status.instrument_count
            &&& after.status.last_success_at_ms == snapshot.status.last_success_at_ms
            &&& after.status.last_error is Some
        }),
{
}

/// A successful refresh leaves nothing of the snapshot before it.
pub proof fn law_successful_refreshes_replace_the_snapshot(
    one: SnapshotView,
    other: SnapshotView,
    provider: Provider,
    attempted_at_ms: u64,
    refreshed_at_ms: u64,
    fetched: Result<Seq<InstrumentView>, CatalogErrorView>,
)
    requires
        verdict(provider, fetched) is Ok,
        one.status.provider == other.status.provider,
        one.status.enabled == other.status.enabled,
    ensures
        refreshed(one, provider, attempted_at_ms, refreshed_at_ms, fetched) == refreshed(
            other,
            provider,
            attempted_at_ms,
            refreshed_at_ms,
            fetched,
        ),
        refreshed(one, provider, attempted_at_ms, refreshed_at_ms, fetched).instruments
            == fetched->Ok_0,
{
}

/// A list in the order of symbols has one instrument for each symbol.
proof fn lemma_symbol_once(provider: Provider, list: Seq<InstrumentView>, i: int)
    requires
        is_listing(provider, list),
        0 <= i < list.len(),
    ensures
        with_symbol(list, list[i].symbol) == Some(list[i]),
{
    let symbol = list[i].symbol;
    lemma_with_symbol(list, symbol);
    match with_symbol(list, symbol) {
        Some(instrument) => {
            let j = choose|j: int| 0 <= j < list.len() && list[j] == instrument;
            keyset::lemma_precedes_irreflexive(symbol);
            if i < j {
                assert(text::precedes(list[i].symbol, list[j].symbol));
            }
            if j < i {
                assert(text::precedes(list[j].symbol, list[i].symbol));
            }
        },
        None => {},
    }
}

/// A symbol of a listing names its own instrument.
pub proof fn law_listed_symbols_resolve(provider: Provider, list: Seq<InstrumentView>, i: int)
    requires
        is_listing(provider, list),
        0 <= i < list.len(),
    ensures
        named(list, list[i].symbol) == Some(list[i]),
{
    assert(belongs(provider, list[i]));
    domain::lemma_canonical_is_trimmed(list[i].symbol);
    lemma_symbol_once(provider, list, i);
}

/// A key of a listed instrument is accepted for every channel that its venue streams.
pub proof fn law_listed_instruments_can_be_subscribed(
    provider: Provider,
    list: Seq<InstrumentView>,
    i: int,
    channel: Channel,
)
    requires
        is_listing(provider, list),
        0 <= i < list.len(),
        list[i].capabilities.offers(channel),
    ensures
        resolution(
            true,
            list,
            KeyView {
                provider,
                market: MarketKind::LinearPerpetual,
                symbol: list[i].symbol,
                channel,
            },
        ) == Ok::<InstrumentView, CatalogErrorView>(list[i]),
{
    law_listed_symbols_resolve(provider, list, i);
}

/// Two instruments of a venue with the same identifier are the same instrument.
pub proof fn law_identifiers_are_unique(
    provider: Provider,
    list: Seq<InstrumentView>,
    i: int,
    j: int,
)
    requires
        is_listing(provider, list),
        0 <= i < list.len(),
        0 <= j < list.len(),
        list[i].instrument_id == list[j].instrument_id,
    ensures
        i == j,
{
    assert(belongs(provider, list[i]) && belongs(provider, list[j]));
    let prefix = domain::provider_name(provider) + ":"@ + domain::market_name(list[i].market)
        + ":"@;
    assert(list[i].instrument_id.skip(prefix.len() as int) =~= list[i].symbol);
    assert(list[j].instrument_id.skip(prefix.len() as int) =~= list[j].symbol);
    keyset::lemma_precedes_irreflexive(list[i].symbol);
    if i < j {
        assert(text::precedes(list[i].symbol, list[j].symbol));
    }
    if j < i {
        assert(text::precedes(list[j].symbol, list[i].symbol));
    }
}

} // verus!
