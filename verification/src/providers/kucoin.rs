//! KuCoin Classic Futures.
use vstd::prelude::*;

use super::fields;
use crate::domain;
use crate::domain::{
    Candle, CandleFinality, CandleView, Channel, DataQuality, DecimalValue, KeyView, MarketPayload,
    PayloadView, Provider, SourceSequence, SubscriptionKey, Ticker, TickerView, CANDLE_INTERVAL_MS,
};
use crate::json;
use crate::json::reading;
use crate::json::{Json, JsonView, Layout, LayoutView};
use crate::providers;
use crate::providers::{
    AdapterError, AdapterErrorView, AdapterSession, CommandView, Complaints, ConnectionTarget,
    EndpointKind, FrameView, Heartbeat, HeartbeatView, OutboundCommand, ParsedFrame,
    ProviderAdapter, SessionView, SubscriptionAction, TargetView, TickerCache,
};
use crate::table::Table;
use crate::text;
use crate::weburl;
use crate::weburl::QueryPair;

verus! {

pub const PRODUCTION_FUTURES_REST_URL: &'static str = "https://api-futures.kucoin.com";

pub const BULLET_PUBLIC_PATH: &'static str = "/api/v1/bullet-public";

/// Eight commands per second stays below KuCoin's 100 messages per ten seconds while preserving
/// capacity for the token-advertised heartbeat.
pub const COMMAND_INTERVAL_MS: u64 = 125;

pub const SUBSCRIPTION_ACK_TIMEOUT_MS: u64 = 15_000;

pub const TOPICS_PER_COMMAND: usize = 100;

pub const MAX_MESSAGE_BYTES: usize = 4_194_304;

pub const ROTATE_AFTER_MS: u64 = 84_600_000;

/// Adapter for `KuCoin` Classic Futures public linear-perpetual streams.
#[derive(Debug)]
pub struct KucoinAdapter {
    futures_rest_url: String,
}

impl KucoinAdapter {
    /// The REST root that the adapter discovers its connections from.
    pub closed spec fn rest_url(&self) -> Seq<char> {
        self.futures_rest_url@
    }

    /// Create an adapter using an explicit `KuCoin` Classic Futures REST base URL.
    pub fn new(futures_rest_url: String) -> (adapter: Self)
        ensures
            adapter.rest_url() == futures_rest_url@,
    {
        KucoinAdapter { futures_rest_url }
    }

    /// The venue.
    pub fn provider(&self) -> (provider: Provider)
        ensures
            provider == Provider::Kucoin,
    {
        Provider::Kucoin
    }

    /// The endpoints that the venue's streams are spread over.
    pub fn endpoints(&self) -> (list: Vec<EndpointKind>)
        ensures
            list@ == seq![EndpointKind::Primary],
    {
        vec![EndpointKind::Primary]
    }

    /// The endpoint of a channel.
    pub fn endpoint_for(&self, channel: Channel) -> (endpoint: EndpointKind)
        ensures
            endpoint == EndpointKind::Primary,
    {
        EndpointKind::Primary
    }

    /// The URL to discover a connection for an endpoint from.
    ///
    /// # Errors
    ///
    /// Returns [`AdapterError::UnsupportedEndpoint`] for any endpoint but the primary one, and
    /// [`AdapterError::Discovery`] where the REST root is no base for the path.
    pub fn discovery_url(&self, endpoint: EndpointKind) -> (r: Result<String, AdapterError>)
        ensures
            match r {
                Ok(url) => {
                    &&& endpoint == EndpointKind::Primary
                    &&& weburl::joined_url(self.rest_url(), BULLET_PUBLIC_PATH@) is Ok
                    &&& url@ == weburl::joined_url(self.rest_url(), BULLET_PUBLIC_PATH@)->Ok_0.text
                },
                Err(error) => if endpoint != EndpointKind::Primary {
                    error@ == (AdapterErrorView::UnsupportedEndpoint {
                        provider: Provider::Kucoin,
                        endpoint,
                    })
                } else {
                    &&& weburl::joined_url(self.rest_url(), BULLET_PUBLIC_PATH@) is Err
                    &&& error@ == undiscovered(
                        "invalid Futures REST base URL: "@ + weburl::joined_url(
                            self.rest_url(),
                            BULLET_PUBLIC_PATH@,
                        )->Err_0,
                    )
                },
            },
    {
        if endpoint != EndpointKind::Primary {
            return Err(AdapterError::UnsupportedEndpoint { provider: Provider::Kucoin, endpoint });
        }
        match weburl::join(self.futures_rest_url.as_str(), BULLET_PUBLIC_PATH) {
            Ok(url) => Ok(url.text),
            Err(message) => discovery(
                providers::complain("invalid Futures REST base URL: ", message).as_str(),
            ),
        }
    }

    /// Where and how to connect, from the venue's answer to a discovery request.
    ///
    /// # Errors
    ///
    /// Returns [`AdapterError::UnsupportedEndpoint`] for any endpoint but the primary one, and
    /// [`AdapterError::Discovery`] where the answer names no usable server.
    pub fn connection_target(&self, endpoint: EndpointKind, body: &str, connect_id: u128) -> (r:
        Result<ConnectionTarget, AdapterError>)
        ensures
            match r {
                Ok(target) => endpoint == EndpointKind::Primary && discovered(body@, connect_id)
                    == Ok::<TargetView, Seq<char>>(target@),
                Err(error) => if endpoint != EndpointKind::Primary {
                    error@ == (AdapterErrorView::UnsupportedEndpoint {
                        provider: Provider::Kucoin,
                        endpoint,
                    })
                } else {
                    &&& discovered(body@, connect_id) is Err
                    &&& error@ == undiscovered(discovered(body@, connect_id)->Err_0)
                },
            },
    {
        if endpoint != EndpointKind::Primary {
            return Err(AdapterError::UnsupportedEndpoint { provider: Provider::Kucoin, endpoint });
        }
        let document = match reading::read(body, &bullet_record()) {
            Ok(document) => document,
            Err(message) => {
                return discovery(
                    providers::complain("invalid bullet-public response: ", message).as_str(),
                );
            },
        };
        let response = match read_bullet(&document) {
            Ok(response) => response,
            Err(message) => {
                return discovery(
                    providers::complain("invalid bullet-public response: ", message).as_str(),
                );
            },
        };
        match target_from_discovery(&response, connect_id) {
            Ok(target) => Ok(target),
            Err(message) => discovery(message.as_str()),
        }
    }

    /// A session for a new connection.
    pub fn session(&self, endpoint: EndpointKind, connection_epoch: u128) -> (session:
        KucoinSession)
        ensures
            session@ == providers::fresh(connection_epoch),
            session.endpoint() == endpoint,
    {
        let session = KucoinSession {
            endpoint,
            connection_epoch,
            next_request_id: 1,
            tickers: Table::new(),
        };
        proof {
            assert(providers::cached(session.tickers) =~= Map::empty());
        }
        session
    }
}

impl Default for KucoinAdapter {
    /// An adapter for the official REST root.
    fn default() -> (adapter: Self)
        ensures
            adapter.rest_url() == PRODUCTION_FUTURES_REST_URL@,
    {
        KucoinAdapter::new(PRODUCTION_FUTURES_REST_URL.to_owned())
    }
}

// ---------------------------------------------------------------------------------------------
// Discovery
// ---------------------------------------------------------------------------------------------

/// One server of a discovery answer.
#[derive(Debug, PartialEq, Eq)]
pub struct InstanceServer {
    pub endpoint: String,
    pub encrypt: bool,
    pub protocol: String,
    pub ping_interval: u64,
    pub ping_timeout: u64,
}

/// The token and servers of a discovery answer.
#[derive(Debug, PartialEq, Eq)]
pub struct BulletData {
    pub token: String,
    pub instance_servers: Vec<InstanceServer>,
}

/// A discovery answer.
#[derive(Debug, PartialEq, Eq)]
pub struct BulletResponse {
    pub code: String,
    pub data: Option<BulletData>,
}

/// The mathematical value of a server.
pub struct ServerView {
    pub endpoint: Seq<char>,
    pub encrypt: bool,
    pub protocol: Seq<char>,
    pub ping_interval: u64,
    pub ping_timeout: u64,
}

/// The mathematical value of a discovery answer: its code, and the token and servers where it has
/// them.
pub struct BulletView {
    pub code: Seq<char>,
    pub data: Option<(Seq<char>, Seq<ServerView>)>,
}

impl View for InstanceServer {
    type V = ServerView;

    open spec fn view(&self) -> ServerView {
        ServerView {
            endpoint: self.endpoint@,
            encrypt: self.encrypt,
            protocol: self.protocol@,
            ping_interval: self.ping_interval,
            ping_timeout: self.ping_timeout,
        }
    }
}

/// The values of a run of servers.
pub open spec fn server_views(list: Seq<InstanceServer>) -> Seq<ServerView> {
    Seq::new(list.len(), |i: int| list[i]@)
}

impl View for BulletResponse {
    type V = BulletView;

    open spec fn view(&self) -> BulletView {
        BulletView {
            code: self.code@,
            data: match self.data {
                Some(data) => Some((data.token@, server_views(data.instance_servers@))),
                None => None,
            },
        }
    }
}

/// The error for a connection that could not be discovered.
pub open spec fn undiscovered(message: Seq<char>) -> AdapterErrorView {
    AdapterErrorView::Discovery { provider: Provider::Kucoin, message }
}

/// Why a document is no server.
pub open spec fn server_shape(value: JsonView) -> Option<Seq<char>> {
    json::text_problem(value, "endpoint"@)
        .or_next(json::flag_problem(value, "encrypt"@))
        .or_next(json::text_problem(value, "protocol"@))
        .or_next(json::unsigned_problem(value, "pingInterval"@))
        .or_next(json::unsigned_problem(value, "pingTimeout"@))
}

/// The server that a document is.
pub open spec fn server_of(value: JsonView) -> ServerView {
    ServerView {
        endpoint: json::text_at(value, "endpoint"@),
        encrypt: json::flag_at(value, "encrypt"@),
        protocol: json::text_at(value, "protocol"@),
        ping_interval: json::unsigned_at(value, "pingInterval"@),
        ping_timeout: json::unsigned_at(value, "pingTimeout"@),
    }
}

/// Why a document holds no token and servers.
pub open spec fn bullet_data_shape(value: JsonView) -> Option<Seq<char>> {
    json::text_problem(value, "token"@)
        .or_next(json::list_problem(value, "instanceServers"@))
        .or_next(providers::first_complaint(
            json::list_at(value, "instanceServers"@),
            |item: JsonView| server_shape(item),
        ))
}

/// Whether a document has a value of that name that is not null.
pub open spec fn present(value: JsonView, name: Seq<char>) -> bool {
    !(json::value_at(value, name) is Null)
}

/// Why a document is no discovery answer.
pub open spec fn bullet_shape(value: JsonView) -> Option<Seq<char>> {
    json::text_problem(value, "code"@).or_next(
        if present(value, "data"@) {
            bullet_data_shape(json::value_at(value, "data"@))
        } else {
            None
        },
    )
}

/// The discovery answer that a document is.
pub open spec fn bullet_of(value: JsonView) -> BulletView {
    let data = json::value_at(value, "data"@);
    let servers = json::list_at(data, "instanceServers"@);
    BulletView {
        code: json::text_at(value, "code"@),
        data: if present(value, "data"@) {
            Some(
                (
                    json::text_at(data, "token"@),
                    Seq::new(servers.len(), |i: int| server_of(servers[i])),
                ),
            )
        } else {
            None
        },
    }
}

/// Whether a server speaks encrypted websocket.
pub open spec fn usable(server: ServerView) -> bool {
    server.encrypt && text::lowered(server.protocol) == "websocket"@
}

/// The first usable server.
pub open spec fn first_usable(servers: Seq<ServerView>) -> Option<ServerView>
    decreases servers.len(),
{
    if servers.len() == 0 {
        None
    } else if usable(servers[0]) {
        Some(servers[0])
    } else {
        first_usable(servers.skip(1))
    }
}

/// The pairs that identify a connection.
pub open spec fn connection_pairs(token: Seq<char>, connect_id: u128) -> Seq<
    (Seq<char>, Seq<char>),
> {
    seq![("token"@, token), ("connectId"@, text::hex_digits(connect_id as nat, 32))]
}

/// Where and how to connect to a server. A sign of life goes out halfway through the advertised
/// interval.
pub open spec fn server_target(server: ServerView, token: Seq<char>, connect_id: u128) -> Result<
    TargetView,
    Seq<char>,
> {
    if server.ping_interval == 0 || server.ping_timeout == 0 {
        Err("bullet-public returned invalid heartbeat timings"@)
    } else {
        match weburl::url_of(server.endpoint) {
            Err(message) => Err("invalid websocket endpoint: "@ + message),
            Ok(url) => if url.scheme != "wss"@ {
                Err("encrypted websocket endpoint must use wss"@)
            } else if server.ping_interval + server.ping_timeout > u64::MAX {
                Err("heartbeat timing overflow"@)
            } else {
                Ok(
                    TargetView {
                        url: weburl::url_with_pairs(
                            server.endpoint,
                            connection_pairs(token, connect_id),
                        )->0,
                        command_interval_ms: COMMAND_INTERVAL_MS,
                        subscription_ack_timeout_ms: SUBSCRIPTION_ACK_TIMEOUT_MS,
                        heartbeat_interval_ms: if server.ping_interval / 2 >= 1 {
                            server.ping_interval / 2
                        } else {
                            1
                        },
                        stale_after_ms: (server.ping_interval + server.ping_timeout) as u64,
                        max_message_bytes: MAX_MESSAGE_BYTES,
                        rotate_after_ms: Some(ROTATE_AFTER_MS),
                    },
                )
            },
        }
    }
}

/// Where and how to connect, from a discovery answer.
pub open spec fn bullet_target(response: BulletView, connect_id: u128) -> Result<
    TargetView,
    Seq<char>,
> {
    if response.code != "200000"@ {
        Err("bullet-public returned code "@ + response.code)
    } else {
        match response.data {
            None => Err("bullet-public response is missing data"@),
            Some((token, servers)) => if token.len() == 0 {
                Err("bullet-public returned an empty token"@)
            } else {
                match first_usable(servers) {
                    None => Err("bullet-public returned no encrypted websocket server"@),
                    Some(server) => server_target(server, token, connect_id),
                }
            },
        }
    }
}

/// How a discovery answer is laid out.
pub open spec fn bullet_layout() -> LayoutView {
    json::with_field(
        json::flat("code,data"@, 2),
        "data"@,
        json::with_field(
            json::flat("token,instanceServers"@, 2),
            "instanceServers"@,
            LayoutView::Each(
                Box::new(json::flat("endpoint,encrypt,protocol,pingInterval,pingTimeout"@, 5)),
            ),
        ),
    )
}

fn bullet_record() -> (layout: Layout)
    ensures
        layout@ == bullet_layout(),
{
    json::nest(
        json::flat_record("code,data", 2),
        "data",
        json::nest(
            json::flat_record("token,instanceServers", 2),
            "instanceServers",
            Layout::Each(
                Box::new(
                    json::flat_record("endpoint,encrypt,protocol,pingInterval,pingTimeout", 5),
                ),
            ),
        ),
    )
}

/// Where and how to connect, from the text of a discovery answer.
pub open spec fn discovered(body: Seq<char>, connect_id: u128) -> Result<TargetView, Seq<char>> {
    match reading::laid_out(body, bullet_layout()) {
        Err(message) => Err("invalid bullet-public response: "@ + message),
        Ok(answer) => match bullet_shape(answer) {
            Some(message) => Err("invalid bullet-public response: "@ + message),
            None => bullet_target(bullet_of(answer), connect_id),
        },
    }
}

/// The error for a connection that could not be discovered.
fn discovery<T>(message: &str) -> (r: Result<T, AdapterError>)
    ensures
        r is Err && r->Err_0@ == undiscovered(message@),
{
    Err(AdapterError::Discovery { provider: Provider::Kucoin, message: message.to_owned() })
}

/// Read a server.
fn read_server(value: &Json) -> (r: Result<InstanceServer, String>)
    ensures
        match r {
            Ok(server) => server_shape(value@) is None && server@ == server_of(value@),
            Err(message) => server_shape(value@) == Some(message@),
        },
{
    Ok(
        InstanceServer {
            endpoint: json::need_text(value, "endpoint")?.to_owned(),
            encrypt: json::need_flag(value, "encrypt")?,
            protocol: json::need_text(value, "protocol")?.to_owned(),
            ping_interval: json::need_unsigned(value, "pingInterval")?,
            ping_timeout: json::need_unsigned(value, "pingTimeout")?,
        },
    )
}

/// Read the token and servers of a discovery answer.
fn read_bullet_data(value: &Json) -> (r: Result<BulletData, String>)
    ensures
        match r {
            Ok(data) => {
                let servers = json::list_at(value@, "instanceServers"@);
                &&& bullet_data_shape(value@) is None
                &&& data.token@ == json::text_at(value@, "token"@)
                &&& server_views(data.instance_servers@) == Seq::new(
                    servers.len(),
                    |i: int| server_of(servers[i]),
                )
            },
            Err(message) => bullet_data_shape(value@) == Some(message@),
        },
{
    let token = json::need_text(value, "token")?;
    let items = json::need_list(value, "instanceServers")?;
    let ghost all = json::views(items@);
    let ghost check = |item: JsonView| server_shape(item);
    let mut servers: Vec<InstanceServer> = Vec::new();
    let mut i: usize = 0;
    while i < items.len()
        invariant
            i <= items@.len(),
            all == json::views(items@),
            all == json::list_at(value@, "instanceServers"@),
            check == (|item: JsonView| server_shape(item)),
            providers::first_complaint(all.take(i as int), check) is None,
            servers@.len() == i,
            forall|k: int| 0 <= k < i ==> (#[trigger] servers@[k])@ == server_of(all[k]),
            json::text_problem(value@, "token"@) is None,
            json::list_problem(value@, "instanceServers"@) is None,
        decreases items.len() - i,
    {
        proof {
            assert(all[i as int] == items@[i as int]@);
            providers::lemma_next_complaint(all, i as int, check);
        }
        servers.push(read_server(&items[i])?);
        i += 1;
    }
    proof {
        assert(all.take(i as int) =~= all);
        assert(server_views(servers@) =~= Seq::new(all.len(), |i: int| server_of(all[i])));
    }
    Ok(BulletData { token: token.to_owned(), instance_servers: servers })
}

/// Read a discovery answer.
///
/// # Errors
///
/// Returns the complaint about the first field that is absent or of another type.
pub fn read_bullet(value: &Json) -> (r: Result<BulletResponse, String>)
    ensures
        match r {
            Ok(response) => bullet_shape(value@) is None && response@ == bullet_of(value@),
            Err(message) => bullet_shape(value@) == Some(message@),
        },
{
    let code = json::need_text(value, "code")?.to_owned();
    let data = match value.member("data") {
        Some(data) => if data.is_null() {
            None
        } else {
            Some(read_bullet_data(data)?)
        },
        None => None,
    };
    Ok(BulletResponse { code, data })
}

/// Where and how to connect, from a discovery answer.
///
/// # Errors
///
/// Returns why the answer names no usable server.
pub fn target_from_discovery(response: &BulletResponse, connect_id: u128) -> (r: Result<
    ConnectionTarget,
    String,
>)
    ensures
        match r {
            Ok(target) => bullet_target(response@, connect_id) == Ok::<TargetView, Seq<char>>(
                target@,
            ),
            Err(message) => bullet_target(response@, connect_id) == Err::<TargetView, Seq<char>>(
                message@,
            ),
        },
{
    if !text::same(response.code.as_str(), "200000") {
        return Err(text::cat2("bullet-public returned code ", response.code.as_str()));
    }
    let data = match &response.data {
        Some(data) => data,
        None => {
            return Err("bullet-public response is missing data".to_owned());
        },
    };
    if data.token.as_str().is_empty() {
        return Err("bullet-public returned an empty token".to_owned());
    }
    let ghost servers = server_views(data.instance_servers@);
    let mut i: usize = 0;
    proof {
        assert(servers.skip(0) =~= servers);
    }
    while i < data.instance_servers.len() && !(data.instance_servers[i].encrypt && text::same(
        text::to_lower(data.instance_servers[i].protocol.as_str()).as_str(),
        "websocket",
    ))
        invariant
            i <= data.instance_servers@.len(),
            servers == server_views(data.instance_servers@),
            first_usable(servers) == first_usable(servers.skip(i as int)),
        decreases data.instance_servers.len() - i,
    {
        proof {
            assert(servers.skip(i as int)[0] == data.instance_servers@[i as int]@);
            assert(servers.skip(i as int).skip(1) =~= servers.skip(i + 1));
        }
        i += 1;
    }
    if i >= data.instance_servers.len() {
        return Err("bullet-public returned no encrypted websocket server".to_owned());
    }
    let server = &data.instance_servers[i];
    proof {
        assert(servers.skip(i as int)[0] == server@);
    }
    if server.ping_interval == 0 || server.ping_timeout == 0 {
        return Err("bullet-public returned invalid heartbeat timings".to_owned());
    }
    let url = match weburl::parse(server.endpoint.as_str()) {
        Ok(url) => url,
        Err(message) => {
            return Err(providers::complain("invalid websocket endpoint: ", message));
        },
    };
    if !text::same(url.scheme.as_str(), "wss") {
        return Err("encrypted websocket endpoint must use wss".to_owned());
    }
    let stale_after_ms = match server.ping_interval.checked_add(server.ping_timeout) {
        Some(sum) => sum,
        None => {
            return Err("heartbeat timing overflow".to_owned());
        },
    };
    let pairs = vec![
        QueryPair { name: "token", value: data.token.clone() },
        QueryPair { name: "connectId", value: text::hex_text(connect_id, 32) },
    ];
    proof {
        assert(weburl::pair_views(pairs@) =~= connection_pairs(data.token@, connect_id));
    }
    let url = match weburl::extend_pairs(server.endpoint.as_str(), &pairs) {
        Some(url) => url,
        None => {
            return Err("invalid websocket endpoint".to_owned());
        },
    };
    let half = server.ping_interval / 2;
    Ok(
        ConnectionTarget {
            url,
            command_interval_ms: COMMAND_INTERVAL_MS,
            subscription_ack_timeout_ms: SUBSCRIPTION_ACK_TIMEOUT_MS,
            heartbeat_interval_ms: if half >= 1 {
                half
            } else {
                1
            },
            stale_after_ms,
            max_message_bytes: MAX_MESSAGE_BYTES,
            rotate_after_ms: Some(ROTATE_AFTER_MS),
        },
    )
}

// ---------------------------------------------------------------------------------------------
// Commands
// ---------------------------------------------------------------------------------------------

/// One session on a KuCoin connection.
#[derive(Debug)]
pub struct KucoinSession {
    endpoint: EndpointKind,
    connection_epoch: u128,
    next_request_id: u64,
    tickers: TickerCache,
}

impl View for KucoinSession {
    type V = SessionView;

    closed spec fn view(&self) -> SessionView {
        SessionView {
            connection_epoch: self.connection_epoch,
            next_request_id: self.next_request_id,
            tickers: providers::cached(self.tickers),
        }
    }
}

/// Whether a text is a USDT or USDC linear perpetual symbol.
pub open spec fn is_linear(symbol: Seq<char>) -> bool {
    text::finishes_with(symbol, "USDTM"@) || text::finishes_with(symbol, "USDCM"@)
}

/// The complaint about any other symbol.
pub open spec fn not_linear(symbol: Seq<char>) -> Seq<char> {
    symbol + " is not a KuCoin USDT/USDC linear perpetual symbol"@
}

/// The error for a subscription that the venue does not take.
pub open spec fn refused(message: Seq<char>) -> AdapterErrorView {
    AdapterErrorView::InvalidSubscription { provider: Provider::Kucoin, message }
}

/// The error about the first key whose symbol is no linear perpetual.
pub open spec fn symbol_refusal(keys: Seq<KeyView>) -> Option<AdapterErrorView>
    decreases keys.len(),
{
    if keys.len() == 0 {
        None
    } else {
        match symbol_refusal(keys.drop_last()) {
            Some(error) => Some(error),
            None => if is_linear(keys.last().symbol) {
                None
            } else {
                Some(refused(not_linear(keys.last().symbol)))
            },
        }
    }
}

/// The symbols of a channel, each once, in the order of their first occurrence.
pub open spec fn symbols_of(keys: Seq<KeyView>, channel: Channel) -> Seq<Seq<char>>
    decreases keys.len(),
{
    if keys.len() == 0 {
        Seq::empty()
    } else if keys.last().channel == channel {
        providers::with_new(symbols_of(keys.drop_last(), channel), keys.last().symbol)
    } else {
        symbols_of(keys.drop_last(), channel)
    }
}

/// An error about a prefix of the keys is the error about all of them.
proof fn lemma_symbol_refusal_prefix(keys: Seq<KeyView>, count: int)
    requires
        0 <= count <= keys.len(),
        symbol_refusal(keys.take(count)) is Some,
    ensures
        symbol_refusal(keys) == symbol_refusal(keys.take(count)),
    decreases keys.len(),
{
    if count < keys.len() {
        assert(keys.drop_last().take(count) =~= keys.take(count));
        lemma_symbol_refusal_prefix(keys.drop_last(), count);
    } else {
        assert(keys.take(count) =~= keys);
    }
}

/// The topics of the ticker symbols. Each of these channels takes one symbol per topic.
pub open spec fn ticker_topics(symbols: Seq<Seq<char>>) -> Seq<Seq<char>>
    decreases symbols.len(),
{
    if symbols.len() == 0 {
        Seq::empty()
    } else {
        let symbol = symbols.last();
        ticker_topics(symbols.drop_last()).push("/contractMarket/tickerV2:"@ + symbol).push(
            "/contractMarket/execution:"@ + symbol,
        ).push("/contract/instrument:"@ + symbol)
    }
}

/// The topic of a batch of candle symbols.
pub open spec fn candle_topic(symbols: Seq<Seq<char>>) -> Seq<char> {
    "/contractMarket/limitCandle:"@ + text::joined_with(
        Seq::new(symbols.len(), |i: int| symbols[i] + "_1min"@),
        ","@,
    )
}

/// The topics of the candle symbols.
pub open spec fn candle_topics(symbols: Seq<Seq<char>>) -> Seq<Seq<char>> {
    let parts = providers::chunks(symbols, TOPICS_PER_COMMAND as nat);
    Seq::new(parts.len(), |i: int| candle_topic(parts[i]))
}

/// The topics of a run of keys.
pub open spec fn topics_of(keys: Seq<KeyView>) -> Seq<Seq<char>> {
    ticker_topics(symbols_of(keys, Channel::Ticker)) + candle_topics(
        symbols_of(keys, Channel::Candle1m),
    )
}

/// The native name of an action.
pub open spec fn operation_name(action: SubscriptionAction) -> Seq<char> {
    match action {
        SubscriptionAction::Subscribe => "subscribe"@,
        SubscriptionAction::Unsubscribe => "unsubscribe"@,
    }
}

/// The command for a topic.
pub open spec fn command(action: SubscriptionAction, topic: Seq<char>, id: u64) -> CommandView {
    CommandView {
        request_id: text::digits(id as nat),
        text: json::text_of(
            JsonView::Object(
                seq![
                    ("id"@, JsonView::Text(text::digits(id as nat))),
                    ("type"@, JsonView::Text(operation_name(action))),
                    ("topic"@, JsonView::Text(topic)),
                    ("privateChannel"@, JsonView::Bool(false)),
                    ("response"@, JsonView::Bool(true)),
                ],
            ),
        ),
        expected_acknowledgements: 1,
    }
}

/// The commands for a run of topics, numbered from a given number on.
pub open spec fn commands(action: SubscriptionAction, topics: Seq<Seq<char>>, id: u64) -> Seq<
    CommandView,
> {
    Seq::new(
        topics.len(),
        |i: int| command(action, topics[i], providers::id_after(id, i as nat)),
    )
}

/// What a subscription change makes of a session and which commands it gives.
pub open spec fn subscription_outcome(
    endpoint: EndpointKind,
    state: SessionView,
    action: SubscriptionAction,
    keys: Seq<KeyView>,
) -> (SessionView, Result<Seq<CommandView>, AdapterErrorView>) {
    match providers::foreign_problem(Provider::Kucoin, keys) {
        Some(error) => (state, Err(error)),
        None => if endpoint != EndpointKind::Primary {
            (
                state,
                Err(
                    refused(
                        "subscriptions do not belong on the "@ + providers::endpoint_name(endpoint)
                            + " endpoint"@,
                    ),
                ),
            )
        } else {
            match symbol_refusal(keys) {
                Some(error) => (state, Err(error)),
                None => {
                    let topics = topics_of(keys);
                    (
                        SessionView {
                            next_request_id: providers::id_after(
                                state.next_request_id,
                                topics.len(),
                            ),
                            tickers: providers::tickers_after(state.tickers, action, keys),
                            ..state
                        },
                        Ok(commands(action, topics, state.next_request_id)),
                    )
                },
            }
        },
    }
}

// ---------------------------------------------------------------------------------------------
// What frames mean
// ---------------------------------------------------------------------------------------------

/// Why a value is no unsigned integer, written as a number or as a text.
pub open spec fn integer_problem(value: JsonView, field: Seq<char>) -> Option<Seq<char>> {
    match value {
        JsonView::Text(text) => providers::unless(
            text.len() > 0 && text::all_digits(text),
            fields::no_unsigned(field),
        ),
        JsonView::Number(number) => providers::unless(
            number.text.len() > 0 && text::all_digits(number.text),
            fields::no_unsigned(field),
        ),
        _ => Some(field + " must be an integer"@),
    }
}

/// The digits of a value.
pub open spec fn integer_digits(value: JsonView) -> Seq<char> {
    match value {
        JsonView::Text(text) => text,
        JsonView::Number(number) => number.text,
        _ => Seq::empty(),
    }
}

/// Why a value is no unsigned 64-bit integer.
pub open spec fn unsigned_problem(value: JsonView, field: Seq<char>) -> Option<Seq<char>> {
    integer_problem(value, field).or_next(
        providers::unless(
            text::digits_value(integer_digits(value)) <= u64::MAX,
            fields::no_unsigned(field),
        ),
    )
}

/// The number that a value is.
pub open spec fn unsigned_of(value: JsonView) -> u64 {
    text::digits_value(integer_digits(value)) as u64
}

/// Why an object has no unsigned 64-bit integer of that name.
pub open spec fn unsigned_field_problem(object: JsonView, field: Seq<char>) -> Option<Seq<char>> {
    fields::value_problem(object, field).or_next(
        unsigned_problem(json::value_at(object, field), field),
    )
}

/// The number of that name.
pub open spec fn unsigned_field(object: JsonView, field: Seq<char>) -> u64 {
    unsigned_of(json::value_at(object, field))
}

/// Why an object has no linear symbol of that name.
pub open spec fn linear_problem(object: JsonView, field: Seq<char>) -> Option<Seq<char>> {
    fields::string_problem(object, field).or_next(
        providers::unless(
            is_linear(json::text_at(object, field)),
            not_linear(json::text_at(object, field)),
        ),
    )
}

/// Why a topic does not name a symbol.
pub open spec fn topic_problem(
    topic: Seq<char>,
    prefix: Seq<char>,
    symbol: Seq<char>,
    suffix: Seq<char>,
) -> Option<Seq<char>> {
    match text::after_prefix(topic, prefix) {
        None => Some("topic must start with "@ + prefix),
        Some(symbols) => providers::unless(
            text::pieces(symbols, ',').contains(symbol + suffix),
            "payload symbol "@ + symbol + " does not match topic "@ + topic,
        ),
    }
}

/// Why the numbers of an envelope and its data are no sequence.
pub open spec fn sequence_problem(object: JsonView, data: JsonView) -> Option<Seq<char>> {
    let outer = integer_digits(json::value_at(object, "sn"@));
    let inner = integer_digits(json::value_at(data, "sequence"@));
    fields::value_problem(object, "sn"@)
        .or_next(integer_problem(json::value_at(object, "sn"@), "sn"@))
        .or_next(fields::value_problem(data, "sequence"@))
        .or_next(integer_problem(json::value_at(data, "sequence"@), "sequence"@))
        .or_next(providers::unless(
            outer == inner,
            "envelope sequence "@ + outer + " does not match data sequence "@ + inner,
        ))
}

/// The symbol of an instrument topic, or the complaint that it has none.
pub open spec fn instrument_symbol(topic: Seq<char>) -> Result<Seq<char>, Seq<char>> {
    match text::after_prefix(topic, "/contract/instrument:"@) {
        Some(symbol) => if symbol.len() == 0 || text::holds(symbol, ',') {
            Err("invalid instrument topic"@)
        } else if is_linear(symbol) {
            Ok(symbol)
        } else {
            Err(not_linear(symbol))
        },
        None => Err("invalid instrument topic"@),
    }
}

/// The two streams whose messages carry a sequence number.
#[derive(Debug, Clone, Copy, PartialEq, Eq, Structural)]
pub enum QuoteStream {
    TickerV2,
    Execution,
}

/// The prefix of a stream's topics.
pub open spec fn stream_prefix(stream: QuoteStream) -> Seq<char> {
    match stream {
        QuoteStream::TickerV2 => "/contractMarket/tickerV2:"@,
        QuoteStream::Execution => "/contractMarket/execution:"@,
    }
}

/// The time of a message whose timestamp counts nanoseconds.
pub open spec fn nano_time(data: JsonView) -> u64 {
    (unsigned_field(data, "ts"@) / 1_000_000) as u64
}

/// Why a sequenced message is refused before anything is kept of it.
pub open spec fn quote_problem(stream: QuoteStream, object: JsonView) -> Option<Seq<char>> {
    let data = json::value_at(object, "data"@);
    fields::string_problem(object, "topic"@)
        .or_next(fields::object_problem(object, "data"@))
        .or_next(linear_problem(data, "symbol"@))
        .or_next(topic_problem(
            json::text_at(object, "topic"@),
            stream_prefix(stream),
            json::text_at(data, "symbol"@),
            Seq::empty(),
        ))
        .or_next(unsigned_field_problem(data, "ts"@))
        .or_next(match stream {
            QuoteStream::TickerV2 => fields::exact_field_problem(
                data,
                "bestBidPrice"@,
                None,
            ).or_next(fields::exact_field_problem(data, "bestAskPrice"@, None)),
            QuoteStream::Execution => fields::exact_field_problem(data, "price"@, None),
        })
}

/// The kept ticker after a sequenced message.
pub open spec fn quote_update(stream: QuoteStream, base: TickerView, data: JsonView) -> TickerView {
    let time = nano_time(data);
    match stream {
        QuoteStream::TickerV2 => TickerView {
            bid: fields::exact_observed(data, "bestBidPrice"@, time, None),
            ask: fields::exact_observed(data, "bestAskPrice"@, time, None),
            ..base
        },
        QuoteStream::Execution => TickerView {
            last: fields::exact_observed(data, "price"@, time, None),
            ..base
        },
    }
}

/// What a sequenced message does and means. Its prices are kept even where its sequence numbers
/// are refused.
pub open spec fn quote_frame(
    state: SessionView,
    stream: QuoteStream,
    object: JsonView,
    received_at_ms: u64,
) -> (SessionView, Result<FrameView, Seq<char>>) {
    let data = json::value_at(object, "data"@);
    let symbol = json::text_at(data, "symbol"@);
    let ticker = quote_update(stream, providers::known(state.tickers, symbol), data);
    if let Some(message) = quote_problem(stream, object) {
        (state, Err(message))
    } else if let Some(message) = sequence_problem(object, data) {
        (providers::keeping(state, symbol, ticker), Err(message))
    } else {
        (
            providers::keeping(state, symbol, ticker),
            Ok(
                FrameView::Events(
                    seq![
                        providers::event_view(
                            state.connection_epoch,
                            Provider::Kucoin,
                            symbol,
                            Some(nano_time(data)),
                            received_at_ms,
                            providers::last_sequence(
                                integer_digits(json::value_at(data, "sequence"@)),
                            ),
                            PayloadView::Ticker(ticker),
                        ),
                    ],
                ),
            ),
        )
    }
}

/// The two kinds of instrument messages.
#[derive(Debug, Clone, Copy, PartialEq, Eq, Structural)]
pub enum InstrumentStream {
    MarkIndex,
    Funding,
}

/// Why an instrument message is refused.
pub open spec fn instrument_problem(
    stream: InstrumentStream,
    object: JsonView,
    text: Seq<char>,
) -> Option<Seq<char>> {
    let data = json::value_at(object, "data"@);
    fields::object_problem(object, "data"@)
        .or_next(unsigned_field_problem(data, "timestamp"@))
        .or_next(match stream {
            InstrumentStream::MarkIndex => fields::exact_field_problem(
                data,
                "markPrice"@,
                Some(text),
            ).or_next(fields::exact_field_problem(data, "indexPrice"@, Some(text))),
            InstrumentStream::Funding => fields::exact_field_problem(
                data,
                "fundingRate"@,
                Some(text),
            ),
        })
}

/// The kept ticker after an instrument message. Numbers keep the digits of the message's text.
pub open spec fn instrument_update(
    stream: InstrumentStream,
    base: TickerView,
    data: JsonView,
    text: Seq<char>,
) -> TickerView {
    let time = unsigned_field(data, "timestamp"@);
    match stream {
        InstrumentStream::MarkIndex => TickerView {
            mark: fields::exact_observed(data, "markPrice"@, time, Some(text)),
            index: fields::exact_observed(data, "indexPrice"@, time, Some(text)),
            ..base
        },
        InstrumentStream::Funding => TickerView {
            funding_rate: fields::exact_observed(data, "fundingRate"@, time, Some(text)),
            ..base
        },
    }
}

/// What an instrument message does and means.
pub open spec fn instrument_frame(
    state: SessionView,
    stream: InstrumentStream,
    object: JsonView,
    text: Seq<char>,
    received_at_ms: u64,
) -> (SessionView, Result<FrameView, Seq<char>>) {
    let data = json::value_at(object, "data"@);
    match instrument_symbol(json::text_at(object, "topic"@)) {
        Err(message) => (state, Err(message)),
        Ok(symbol) => match instrument_problem(stream, object, text) {
            Some(message) => (state, Err(message)),
            None => {
                let ticker = instrument_update(
                    stream,
                    providers::known(state.tickers, symbol),
                    data,
                    text,
                );
                (
                    providers::keeping(state, symbol, ticker),
                    Ok(
                        FrameView::Events(
                            seq![
                                providers::event_view(
                                    state.connection_epoch,
                                    Provider::Kucoin,
                                    symbol,
                                    Some(unsigned_field(data, "timestamp"@)),
                                    received_at_ms,
                                    None,
                                    PayloadView::Ticker(ticker),
                                ),
                            ],
                        ),
                    ),
                )
            },
        },
    }
}

/// Why a value is no decimal.
pub open spec fn decimal_problem(value: JsonView, field: Seq<char>) -> Option<Seq<char>> {
    fields::exact_problem(value, field).or_next(
        fields::plain_decimal_problem(fields::exact(value, field, None)),
    )
}

/// Why a candle message is refused.
pub open spec fn candle_problem(object: JsonView) -> Option<Seq<char>> {
    let data = json::value_at(object, "data"@);
    let values = json::list_at(data, "candles"@);
    fields::string_problem(object, "topic"@)
        .or_next(fields::object_problem(object, "data"@))
        .or_next(linear_problem(data, "symbol"@))
        .or_next(topic_problem(
            json::text_at(object, "topic"@),
            "/contractMarket/limitCandle:"@,
            json::text_at(data, "symbol"@),
            "_1min"@,
        ))
        .or_next(providers::unless(
            json::member_list(data, "candles"@) is Some,
            "candles must be an array"@,
        ))
        .or_next(providers::unless(
            values.len() == 7,
            "candles must contain 7 fields, got "@ + text::digits(values.len()),
        ))
        .or_next(unsigned_problem(values[0], "candle start time"@))
        .or_next(providers::unless(
            unsigned_of(values[0]) * 1_000 <= u64::MAX,
            "candle start time overflow"@,
        ))
        .or_next(providers::unless(
            unsigned_of(values[0]) * 1_000 + CANDLE_INTERVAL_MS <= u64::MAX,
            "candle end time overflow"@,
        ))
        .or_next(unsigned_field_problem(data, "time"@))
        .or_next(decimal_problem(values[1], "candle open"@))
        .or_next(decimal_problem(values[2], "candle close"@))
        .or_next(decimal_problem(values[3], "candle high"@))
        .or_next(decimal_problem(values[4], "candle low"@))
}

/// The candle of a message. KuCoin documents the candle volume of this stream as incorrect, so no
/// volume is given and the candle says why.
pub open spec fn message_candle(object: JsonView) -> CandleView {
    let values = json::list_at(json::value_at(object, "data"@), "candles"@);
    let start = (unsigned_of(values[0]) * 1_000) as u64;
    CandleView {
        interval: "1m"@,
        start_time_ms: start,
        end_time_ms: (start + CANDLE_INTERVAL_MS) as u64,
        open: fields::exact(values[1], "candle open"@, None),
        high: fields::exact(values[3], "candle high"@, None),
        low: fields::exact(values[4], "candle low"@, None),
        close: fields::exact(values[2], "candle close"@, None),
        base_volume: None,
        quote_volume: None,
        contract_volume: None,
        finality: CandleFinality::Unknown,
        data_quality: seq![DataQuality::ProviderVolumeUntrusted],
    }
}

/// What a candle message means.
pub open spec fn candle_frame(state: SessionView, object: JsonView, received_at_ms: u64) -> Result<
    FrameView,
    Seq<char>,
> {
    let data = json::value_at(object, "data"@);
    match candle_problem(object) {
        Some(message) => Err(message),
        None => Ok(
            FrameView::Events(
                seq![
                    providers::event_view(
                        state.connection_epoch,
                        Provider::Kucoin,
                        json::text_at(data, "symbol"@),
                        Some(unsigned_field(data, "time"@)),
                        received_at_ms,
                        None,
                        PayloadView::Candle(message_candle(object)),
                    ),
                ],
            ),
        ),
    }
}

/// What a market message does and means.
pub open spec fn market_frame(
    state: SessionView,
    object: JsonView,
    text: Seq<char>,
    received_at_ms: u64,
) -> (SessionView, Result<FrameView, Seq<char>>) {
    let topic = json::text_at(object, "topic"@);
    let subject = json::member_text(object, "subject"@);
    if let Some(message) = fields::string_problem(object, "topic"@) {
        (state, Err(message))
    } else if subject == Some("tickerV2"@) || text::begins_with(topic, "/contractMarket/tickerV2:"@) {
        quote_frame(state, QuoteStream::TickerV2, object, received_at_ms)
    } else if subject == Some("match"@) || text::begins_with(topic, "/contractMarket/execution:"@) {
        quote_frame(state, QuoteStream::Execution, object, received_at_ms)
    } else if subject == Some("mark.index.price"@) {
        instrument_frame(state, InstrumentStream::MarkIndex, object, text, received_at_ms)
    } else if subject == Some("funding.rate"@) {
        instrument_frame(state, InstrumentStream::Funding, object, text, received_at_ms)
    } else if subject == Some("candle.stick"@) || text::begins_with(
        topic,
        "/contractMarket/limitCandle:"@,
    ) {
        (state, candle_frame(state, object, received_at_ms))
    } else {
        (state, Ok(FrameView::Ignored))
    }
}

/// The words for a refused command.
pub open spec fn refusal(object: JsonView) -> Seq<char> {
    let code = match json::member_of(object, "code"@) {
        Some(code) => json::text_of(code),
        None => "unknown"@,
    };
    let message = match providers::member_or(object, "msg"@, "data"@) {
        Some(JsonView::Text(message)) => message,
        _ => "unknown error"@,
    };
    "code "@ + code + ": "@ + message
}

/// What a document does and means, with the text that it was read from.
pub open spec fn document_frame(
    state: SessionView,
    root: JsonView,
    text: Seq<char>,
    received_at_ms: u64,
) -> (SessionView, Result<FrameView, AdapterErrorView>) {
    if !(root is Object) {
        providers::labelled(Provider::Kucoin, (state, Err("message must be a JSON object"@)))
    } else {
        match json::member_of(root, "type"@) {
            Some(JsonView::Text(kind)) => if kind == "ack"@ {
                let request_id = json::text_at(root, "id"@);
                if request_id.len() > 0 && text::byte_length(request_id) <= 64 {
                    (state, Ok(FrameView::Acknowledgement { request_id }))
                } else {
                    providers::labelled(
                        Provider::Kucoin,
                        (state, Err("ack is missing a valid request id"@)),
                    )
                }
            } else if kind == "pong"@ {
                (state, Ok(FrameView::Pong))
            } else if kind == "error"@ {
                (state, Err(providers::rejected(Provider::Kucoin, refusal(root))))
            } else if kind == "message"@ {
                providers::labelled(
                    Provider::Kucoin,
                    market_frame(state, root, text, received_at_ms),
                )
            } else {
                (state, Ok(FrameView::Ignored))
            },
            Some(_) => providers::labelled(Provider::Kucoin, (state, Err("type must be a string"@))),
            None => if json::member_of(root, "topic"@) is Some {
                providers::labelled(
                    Provider::Kucoin,
                    market_frame(state, root, text, received_at_ms),
                )
            } else {
                (state, Ok(FrameView::Ignored))
            },
        }
    }
}

/// What a text frame does and means.
pub open spec fn text_frame(state: SessionView, text: Seq<char>, received_at_ms: u64) -> (
    SessionView,
    Result<FrameView, AdapterErrorView>,
) {
    match json::document_of(text) {
        Err(message) => providers::labelled(
            Provider::Kucoin,
            (state, Err("invalid JSON: "@ + message)),
        ),
        Ok(root) => document_frame(state, root, text, received_at_ms),
    }
}

/// Every update that a frame of KuCoin gives names the venue, the connection it came over and when
/// it was received, and no candle is said to be open or closed; a frame changes no connection.
pub proof fn law_updates_are_stamped(state: SessionView, text: Seq<char>, received_at_ms: u64)
    ensures
        text_frame(state, text, received_at_ms).0.connection_epoch == state.connection_epoch,
        text_frame(state, text, received_at_ms).1 matches Ok(frame) ==> {
            &&& providers::has_stamps(
                frame,
                Provider::Kucoin,
                state.connection_epoch,
                received_at_ms,
            )
            &&& providers::leaves_finality_open(frame)
        },
{
}

/// A message of one stream touches nothing that another stream tells: no price stands in for
/// another.
pub proof fn law_no_price_stands_in_for_another(base: TickerView, data: JsonView, text: Seq<char>)
    ensures
        ({
            let after = quote_update(QuoteStream::TickerV2, base, data);
            after == (TickerView { bid: after.bid, ask: after.ask, ..base })
        }),
        ({
            let after = quote_update(QuoteStream::Execution, base, data);
            after == (TickerView { last: after.last, ..base })
        }),
        ({
            let after = instrument_update(InstrumentStream::MarkIndex, base, data, text);
            after == (TickerView { mark: after.mark, index: after.index, ..base })
        }),
        ({
            let after = instrument_update(InstrumentStream::Funding, base, data, text);
            after == (TickerView { funding_rate: after.funding_rate, ..base })
        }),
{
}

// ---------------------------------------------------------------------------------------------
// The session
// ---------------------------------------------------------------------------------------------

/// The error for data that KuCoin should not have sent.
fn invalid<T>(message: &str) -> (r: Result<T, AdapterError>)
    ensures
        r is Err && r->Err_0@ == providers::invalid_data(Provider::Kucoin, message@),
{
    Err(providers::invalid_payload(Provider::Kucoin, message.to_owned()))
}

/// Check that a symbol is a linear perpetual.
fn validate_kucoin_symbol(symbol: &str) -> (r: Result<(), String>)
    ensures
        match r {
            Ok(_) => is_linear(symbol@),
            Err(message) => !is_linear(symbol@) && message@ == not_linear(symbol@),
        },
{
    if text::ends_with(symbol, "USDTM") || text::ends_with(symbol, "USDCM") {
        Ok(())
    } else {
        Err(text::cat2(symbol, " is not a KuCoin USDT/USDC linear perpetual symbol"))
    }
}

/// The symbols of a list of keys, by channel.
fn collect_symbols(subscriptions: &[SubscriptionKey]) -> (r: Result<
    (Vec<String>, Vec<String>),
    AdapterError,
>)
    ensures
        match r {
            Ok((tickers, candles)) => {
                let keys = domain::key_views(subscriptions@);
                &&& symbol_refusal(keys) is None
                &&& providers::text_views(tickers@) == symbols_of(keys, Channel::Ticker)
                &&& providers::text_views(candles@) == symbols_of(keys, Channel::Candle1m)
            },
            Err(error) => symbol_refusal(domain::key_views(subscriptions@)) == Some(error@),
        },
{
    let ghost keys = domain::key_views(subscriptions@);
    let mut tickers: Vec<String> = Vec::new();
    let mut candles: Vec<String> = Vec::new();
    let mut i: usize = 0;
    proof {
        assert(keys.take(0) =~= Seq::empty());
        assert(providers::text_views(tickers@) =~= Seq::empty());
        assert(providers::text_views(candles@) =~= Seq::empty());
    }
    while i < subscriptions.len()
        invariant
            i <= subscriptions@.len(),
            keys == domain::key_views(subscriptions@),
            symbol_refusal(keys.take(i as int)) is None,
            providers::text_views(tickers@) == symbols_of(keys.take(i as int), Channel::Ticker),
            providers::text_views(candles@) == symbols_of(keys.take(i as int), Channel::Candle1m),
        decreases subscriptions.len() - i,
    {
        let key = &subscriptions[i];
        proof {
            let longer = keys.take(i + 1);
            assert(longer.drop_last() =~= keys.take(i as int));
            assert(longer.last() == key@);
            if !is_linear(key@.symbol) {
                lemma_symbol_refusal_prefix(keys, i + 1);
            }
        }
        if let Err(message) = validate_kucoin_symbol(key.symbol.as_str()) {
            return Err(AdapterError::InvalidSubscription { provider: Provider::Kucoin, message });
        }
        match key.channel {
            Channel::Ticker => {
                providers::push_new(&mut tickers, key.symbol.clone());
            },
            Channel::Candle1m => {
                providers::push_new(&mut candles, key.symbol.clone());
            },
        }
        i += 1;
    }
    proof {
        assert(keys.take(i as int) =~= keys);
    }
    Ok((tickers, candles))
}

/// The topic of a batch of candle symbols.
fn build_candle_topic(symbols: &Vec<String>) -> (topic: String)
    ensures
        topic@ == candle_topic(providers::text_views(symbols@)),
{
    let ghost all = providers::text_views(symbols@);
    let ghost parts = Seq::new(all.len(), |i: int| all[i] + "_1min"@);
    let mut joined = String::new();
    let mut i: usize = 0;
    proof {
        assert(parts.take(0) =~= Seq::empty());
    }
    while i < symbols.len()
        invariant
            i <= symbols@.len(),
            all == providers::text_views(symbols@),
            parts == Seq::new(all.len(), |i: int| all[i] + "_1min"@),
            joined@ == text::joined_with(parts.take(i as int), ","@),
        decreases symbols.len() - i,
    {
        proof {
            let longer = parts.take(i + 1);
            assert(longer.drop_last() =~= parts.take(i as int));
            assert(longer.last() == symbols@[i as int]@ + "_1min"@);
        }
        let ghost before = joined@;
        if i > 0 {
            joined.append(",");
        }
        joined.append(symbols[i].as_str());
        joined.append("_1min");
        proof {
            if i == 0 {
                assert(joined@ =~= symbols@[0]@ + "_1min"@);
            } else {
                assert(joined@ =~= before + ","@ + (symbols@[i as int]@ + "_1min"@));
            }
        }
        i += 1;
    }
    proof {
        assert(parts.take(i as int) =~= parts);
    }
    text::cat2("/contractMarket/limitCandle:", joined.as_str())
}

/// The topics of ticker and candle symbols.
fn build_topics(tickers: &Vec<String>, candles: Vec<String>) -> (topics: Vec<String>)
    ensures
        providers::text_views(topics@) == ticker_topics(providers::text_views(tickers@))
            + candle_topics(providers::text_views(candles@)),
{
    let ghost all = providers::text_views(tickers@);
    let mut topics: Vec<String> = Vec::new();
    let mut i: usize = 0;
    proof {
        assert(all.take(0) =~= Seq::empty());
        assert(providers::text_views(topics@) =~= Seq::empty());
    }
    while i < tickers.len()
        invariant
            i <= tickers@.len(),
            all == providers::text_views(tickers@),
            providers::text_views(topics@) == ticker_topics(all.take(i as int)),
        decreases tickers.len() - i,
    {
        let ghost before = providers::text_views(topics@);
        let symbol = tickers[i].as_str();
        topics.push(text::cat2("/contractMarket/tickerV2:", symbol));
        topics.push(text::cat2("/contractMarket/execution:", symbol));
        topics.push(text::cat2("/contract/instrument:", symbol));
        proof {
            let longer = all.take(i + 1);
            assert(longer.drop_last() =~= all.take(i as int));
            assert(longer.last() == symbol@);
            assert(providers::text_views(topics@) =~= before.push(
                "/contractMarket/tickerV2:"@ + symbol@,
            ).push("/contractMarket/execution:"@ + symbol@).push(
                "/contract/instrument:"@ + symbol@,
            ));
        }
        i += 1;
    }
    let ghost head = ticker_topics(all);
    let ghost parts = providers::chunks(
        providers::text_views(candles@),
        TOPICS_PER_COMMAND as nat,
    );
    proof {
        assert(all.take(i as int) =~= all);
        providers::lemma_text_chunks(candles@, TOPICS_PER_COMMAND as nat);
    }
    let batches = providers::cut(candles, TOPICS_PER_COMMAND);
    let mut j: usize = 0;
    proof {
        assert(head + Seq::new(0, |k: int| candle_topic(parts[k])) =~= head);
    }
    while j < batches.len()
        invariant
            j <= batches@.len(),
            batches@.len() == parts.len(),
            forall|k: int|
                0 <= k < parts.len() ==> #[trigger] parts[k] == providers::text_views(
                    batches@[k]@,
                ),
            providers::text_views(topics@) == head + Seq::new(
                j as nat,
                |k: int| candle_topic(parts[k]),
            ),
        decreases batches.len() - j,
    {
        let ghost before = providers::text_views(topics@);
        let topic = build_candle_topic(&batches[j]);
        let ghost added = topic@;
        topics.push(topic);
        proof {
            assert(parts[j as int] == providers::text_views(batches@[j as int]@));
            assert(providers::text_views(topics@) =~= before.push(added));
            assert(before.push(added) =~= head + Seq::new(
                (j + 1) as nat,
                |k: int| candle_topic(parts[k]),
            ));
        }
        j += 1;
    }
    topics
}

/// The digits of an unsigned integer.
fn integer_string(value: &Json, field: &str) -> (r: Result<String, String>)
    ensures
        match r {
            Ok(digits) => {
                &&& integer_problem(value@, field@) is None
                &&& digits@ == integer_digits(value@)
            },
            Err(message) => integer_problem(value@, field@) == Some(message@),
        },
{
    let digits = match value {
        Json::Text(text) => text.clone(),
        Json::Number(number) => number.text.clone(),
        _ => {
            return Err(text::cat2(field, " must be an integer"));
        },
    };
    if text::is_digits(digits.as_str()) {
        Ok(digits)
    } else {
        Err(fields::complain_no_unsigned(field))
    }
}

/// An unsigned 64-bit integer.
fn parse_u64(value: &Json, field: &str) -> (r: Result<u64, String>)
    ensures
        match r {
            Ok(n) => unsigned_problem(value@, field@) is None && n == unsigned_of(value@),
            Err(message) => unsigned_problem(value@, field@) == Some(message@),
        },
{
    let digits = integer_string(value, field)?;
    match text::parse_digits(digits.as_str()) {
        Some(n) => Ok(n),
        None => Err(fields::complain_no_unsigned(field)),
    }
}

/// The unsigned 64-bit integer of that name.
fn required_u64(object: &Json, field: &str) -> (r: Result<u64, String>)
    ensures
        match r {
            Ok(n) => {
                &&& unsigned_field_problem(object@, field@) is None
                &&& n == unsigned_field(object@, field@)
            },
            Err(message) => unsigned_field_problem(object@, field@) == Some(message@),
        },
{
    let value = fields::required_value(object, field)?;
    parse_u64(value, field)
}

/// The linear symbol of that name.
fn required_linear_symbol<'a>(object: &'a Json, field: &str) -> (r: Result<&'a str, String>)
    ensures
        match r {
            Ok(symbol) => {
                &&& linear_problem(object@, field@) is None
                &&& symbol@ == json::text_at(object@, field@)
            },
            Err(message) => linear_problem(object@, field@) == Some(message@),
        },
{
    let symbol = fields::required_string(object, field)?;
    validate_kucoin_symbol(symbol)?;
    Ok(symbol)
}

/// Check that a topic names a symbol.
fn validate_topic_symbol(topic: &str, prefix: &str, symbol: &str, suffix: &str) -> (r: Result<
    (),
    String,
>)
    ensures
        match r {
            Ok(_) => topic_problem(topic@, prefix@, symbol@, suffix@) is None,
            Err(message) => topic_problem(topic@, prefix@, symbol@, suffix@) == Some(message@),
        },
{
    let symbols = match text::strip_prefix(topic, prefix) {
        Some(symbols) => symbols,
        None => {
            return Err(text::cat2("topic must start with ", prefix));
        },
    };
    let expected = text::cat2(symbol, suffix);
    let pieces = text::split(symbols, ',');
    let mut i: usize = 0;
    while i < pieces.len()
        invariant
            i <= pieces@.len(),
            text::slices(pieces@) == text::pieces(symbols@, ','),
            expected@ == symbol@ + suffix@,
            text::after_prefix(topic@, prefix@) == Some(symbols@),
            forall|k: int| 0 <= k < i ==> (#[trigger] pieces@[k])@ != expected@,
        decreases pieces.len() - i,
    {
        if text::same(pieces[i], expected.as_str()) {
            proof {
                assert(text::slices(pieces@)[i as int] == expected@);
            }
            return Ok(());
        }
        i += 1;
    }
    proof {
        if text::slices(pieces@).contains(expected@) {
            let k = choose|k: int|
                0 <= k < pieces@.len() && text::slices(pieces@)[k] == expected@;
            assert(pieces@[k]@ == expected@);
        }
    }
    Err(text::cat4("payload symbol ", symbol, " does not match topic ", topic))
}

/// The sequence of a message whose envelope and data agree on it.
fn parse_sequence(object: &Json, data: &Json) -> (r: Result<SourceSequence, String>)
    ensures
        match r {
            Ok(sequence) => {
                &&& sequence_problem(object@, data@) is None
                &&& Some(sequence@) == providers::last_sequence(
                    integer_digits(json::value_at(data@, "sequence"@)),
                )
            },
            Err(message) => sequence_problem(object@, data@) == Some(message@),
        },
{
    let outer = integer_string(fields::required_value(object, "sn")?, "sn")?;
    let inner = integer_string(fields::required_value(data, "sequence")?, "sequence")?;
    if !text::same(outer.as_str(), inner.as_str()) {
        return Err(
            text::cat4(
                "envelope sequence ",
                outer.as_str(),
                " does not match data sequence ",
                inner.as_str(),
            ),
        );
    }
    Ok(SourceSequence { first: None, last: Some(inner), previous: None })
}

/// The symbol of an instrument topic.
fn instrument_topic_symbol(topic: &str) -> (r: Result<String, String>)
    ensures
        match r {
            Ok(symbol) => instrument_symbol(topic@) == Ok::<Seq<char>, Seq<char>>(symbol@),
            Err(message) => instrument_symbol(topic@) == Err::<Seq<char>, Seq<char>>(message@),
        },
{
    if let Some(symbol) = text::strip_prefix(topic, "/contract/instrument:") {
        if !symbol.is_empty() && !text::contains(symbol, ',') {
            validate_kucoin_symbol(symbol)?;
            return Ok(symbol.to_owned());
        }
    }
    Err("invalid instrument topic".to_owned())
}

/// Read a decimal.
fn decimal_value(value: &Json, field: &str) -> (r: Result<DecimalValue, String>)
    ensures
        match r {
            Ok(decimal) => {
                &&& decimal_problem(value@, field@) is None
                &&& decimal@ == fields::exact(value@, field@, None)
            },
            Err(message) => decimal_problem(value@, field@) == Some(message@),
        },
{
    let text = fields::decimal_string(value, field, None)?;
    fields::plain_decimal(text.as_str())
}

/// The words for a refused command.
fn command_error(object: &Json) -> (message: String)
    ensures
        message@ == refusal(object@),
{
    let code = match object.member("code") {
        Some(code) => json::write(code),
        None => "unknown".to_owned(),
    };
    let message = match providers::first_member(object, "msg", "data") {
        Some(found) => match found.as_text() {
            Some(message) => message,
            None => "unknown error",
        },
        None => "unknown error",
    };
    text::cat4("code ", code.as_str(), ": ", message)
}

/// The candle of a message.
fn read_candle(object: &Json) -> (r: Result<(String, u64, Candle), String>)
    ensures
        match r {
            Ok((symbol, time, candle)) => {
                let data = json::value_at(object@, "data"@);
                &&& candle_problem(object@) is None
                &&& symbol@ == json::text_at(data, "symbol"@)
                &&& time == unsigned_field(data, "time"@)
                &&& candle@ == message_candle(object@)
            },
            Err(message) => candle_problem(object@) == Some(message@),
        },
{
    let topic = fields::required_string(object, "topic")?;
    let data = fields::required_object(object, "data")?;
    let symbol = required_linear_symbol(data, "symbol")?;
    validate_topic_symbol(topic, "/contractMarket/limitCandle:", symbol, "_1min")?;
    let values = match json::find_list(data, "candles") {
        Some(values) => values,
        None => {
            return Err("candles must be an array".to_owned());
        },
    };
    if values.len() != 7 {
        return Err(
            text::cat2(
                "candles must contain 7 fields, got ",
                text::unsigned_text(values.len() as u64).as_str(),
            ),
        );
    }
    let seconds = parse_u64(&values[0], "candle start time")?;
    let start_time_ms = match seconds.checked_mul(1_000) {
        Some(start) => start,
        None => {
            return Err("candle start time overflow".to_owned());
        },
    };
    let end_time_ms = match start_time_ms.checked_add(CANDLE_INTERVAL_MS) {
        Some(end) => end,
        None => {
            return Err("candle end time overflow".to_owned());
        },
    };
    let time = required_u64(data, "time")?;
    let open = decimal_value(&values[1], "candle open")?;
    let close = decimal_value(&values[2], "candle close")?;
    let high = decimal_value(&values[3], "candle high")?;
    let low = decimal_value(&values[4], "candle low")?;
    let candle = Candle {
        interval: "1m".to_owned(),
        start_time_ms,
        end_time_ms,
        open,
        high,
        low,
        close,
        base_volume: None,
        quote_volume: None,
        contract_volume: None,
        finality: CandleFinality::Unknown,
        data_quality: vec![DataQuality::ProviderVolumeUntrusted],
    };
    proof {
        assert(candle.data_quality@ =~= seq![DataQuality::ProviderVolumeUntrusted]);
    }
    Ok((symbol.to_owned(), time, candle))
}

impl KucoinSession {
    /// The endpoint that the session is on.
    pub closed spec fn endpoint(&self) -> EndpointKind {
        self.endpoint
    }

    /// The commands for a list of topics.
    fn command_messages(&mut self, action: SubscriptionAction, topics: &Vec<String>) -> (list: Vec<
        OutboundCommand,
    >)
        ensures
            providers::command_views(list@) == commands(
                action,
                providers::text_views(topics@),
                old(self)@.next_request_id,
            ),
            final(self)@ == (SessionView {
                next_request_id: providers::id_after(
                    old(self)@.next_request_id,
                    topics@.len(),
                ),
                ..old(self)@
            }),
            final(self).endpoint() == old(self).endpoint(),
    {
        let ghost start = self@;
        let ghost all = providers::text_views(topics@);
        let mut list: Vec<OutboundCommand> = Vec::new();
        let mut i: usize = 0;
        while i < topics.len()
            invariant
                i <= topics@.len(),
                all == providers::text_views(topics@),
                list@.len() == i,
                forall|k: int|
                    0 <= k < i ==> (#[trigger] list@[k])@ == command(
                        action,
                        all[k],
                        providers::id_after(start.next_request_id, k as nat),
                    ),
                self@ == (SessionView {
                    next_request_id: providers::id_after(start.next_request_id, i as nat),
                    ..start
                }),
                self.endpoint() == old(self).endpoint(),
            decreases topics.len() - i,
        {
            let id = providers::take_id(&mut self.next_request_id);
            let request_id = text::unsigned_text(id);
            let operation = match action {
                SubscriptionAction::Subscribe => "subscribe",
                SubscriptionAction::Unsubscribe => "unsubscribe",
            };
            let document = Json::Object(
                vec![
                    providers::member("id", Json::Text(request_id.clone())),
                    providers::member("type", Json::Text(operation.to_owned())),
                    providers::member("topic", Json::Text(topics[i].clone())),
                    providers::member("privateChannel", Json::Bool(false)),
                    providers::member("response", Json::Bool(true)),
                ],
            );
            proof {
                assert(document@->Object_0 =~= seq![
                    ("id"@, JsonView::Text(text::digits(id as nat))),
                    ("type"@, JsonView::Text(operation_name(action))),
                    ("topic"@, JsonView::Text(all[i as int])),
                    ("privateChannel"@, JsonView::Bool(false)),
                    ("response"@, JsonView::Bool(true)),
                ]);
            }
            list.push(
                OutboundCommand {
                    request_id,
                    text: json::write(&document),
                    expected_acknowledgements: 1,
                },
            );
            i += 1;
        }
        proof {
            assert(providers::command_views(list@) =~= commands(
                action,
                all,
                start.next_request_id,
            ));
        }
        list
    }

    /// Take in a sequenced message.
    fn parse_quote(&mut self, stream: QuoteStream, object: &Json, received_at_ms: u64) -> (r:
        Result<ParsedFrame, String>)
        ensures
            final(self).endpoint() == old(self).endpoint(),
            providers::agrees(
                final(self)@,
                r,
                quote_frame(old(self)@, stream, object@, received_at_ms),
            ),
    {
        let topic = fields::required_string(object, "topic")?;
        let data = fields::required_object(object, "data")?;
        let symbol = required_linear_symbol(data, "symbol")?;
        let prefix = match stream {
            QuoteStream::TickerV2 => "/contractMarket/tickerV2:",
            QuoteStream::Execution => "/contractMarket/execution:",
        };
        proof {
            reveal_strlit("");
            assert(""@ =~= Seq::empty());
        }
        validate_topic_symbol(topic, prefix, symbol, "")?;
        let symbol = symbol.to_owned();
        let time = required_u64(data, "ts")? / 1_000_000;
        let mut ticker = providers::recall(&self.tickers, &symbol);
        match stream {
            QuoteStream::TickerV2 => {
                let bid = fields::observation_from_field(data, "bestBidPrice", time, None)?;
                let ask = fields::observation_from_field(data, "bestAskPrice", time, None)?;
                ticker.bid = Some(bid);
                ticker.ask = Some(ask);
            },
            QuoteStream::Execution => {
                let last = fields::observation_from_field(data, "price", time, None)?;
                ticker.last = Some(last);
            },
        }
        providers::remember(&mut self.tickers, &symbol, &ticker);
        let sequence = parse_sequence(object, data)?;
        Ok(
            providers::one_event(
                providers::make_event(
                    self.connection_epoch,
                    Provider::Kucoin,
                    symbol,
                    Some(time),
                    received_at_ms,
                    Some(sequence),
                    MarketPayload::Ticker(ticker),
                ),
            ),
        )
    }

    /// Take in an instrument message.
    fn parse_instrument(
        &mut self,
        stream: InstrumentStream,
        object: &Json,
        topic: &str,
        text: &str,
        received_at_ms: u64,
    ) -> (r: Result<ParsedFrame, String>)
        requires
            topic@ == json::text_at(object@, "topic"@),
        ensures
            final(self).endpoint() == old(self).endpoint(),
            providers::agrees(
                final(self)@,
                r,
                instrument_frame(old(self)@, stream, object@, text@, received_at_ms),
            ),
    {
        let symbol = instrument_topic_symbol(topic)?;
        let data = fields::required_object(object, "data")?;
        let time = required_u64(data, "timestamp")?;
        let mut ticker = providers::recall(&self.tickers, &symbol);
        match stream {
            InstrumentStream::MarkIndex => {
                let mark = fields::observation_from_field(data, "markPrice", time, Some(text))?;
                let index = fields::observation_from_field(data, "indexPrice", time, Some(text))?;
                ticker.mark = Some(mark);
                ticker.index = Some(index);
            },
            InstrumentStream::Funding => {
                let rate = fields::observation_from_field(data, "fundingRate", time, Some(text))?;
                ticker.funding_rate = Some(rate);
            },
        }
        providers::remember(&mut self.tickers, &symbol, &ticker);
        Ok(
            providers::one_event(
                providers::make_event(
                    self.connection_epoch,
                    Provider::Kucoin,
                    symbol,
                    Some(time),
                    received_at_ms,
                    None,
                    MarketPayload::Ticker(ticker),
                ),
            ),
        )
    }

    /// Take in a candle message.
    fn parse_candle(&self, object: &Json, received_at_ms: u64) -> (r: Result<ParsedFrame, String>)
        ensures
            providers::agrees(
                self@,
                r,
                (self@, candle_frame(self@, object@, received_at_ms)),
            ),
    {
        let (symbol, time, candle) = read_candle(object)?;
        Ok(
            providers::one_event(
                providers::make_event(
                    self.connection_epoch,
                    Provider::Kucoin,
                    symbol,
                    Some(time),
                    received_at_ms,
                    None,
                    MarketPayload::Candle(candle),
                ),
            ),
        )
    }

    /// Take in a market message.
    fn parse_market_message(&mut self, object: &Json, text: &str, received_at_ms: u64) -> (r:
        Result<ParsedFrame, String>)
        ensures
            final(self).endpoint() == old(self).endpoint(),
            providers::agrees(
                final(self)@,
                r,
                market_frame(old(self)@, object@, text@, received_at_ms),
            ),
    {
        let topic = fields::required_string(object, "topic")?;
        let subject = json::find_text(object, "subject");
        if is_subject(subject, "tickerV2") || text::starts_with(
            topic,
            "/contractMarket/tickerV2:",
        ) {
            self.parse_quote(QuoteStream::TickerV2, object, received_at_ms)
        } else if is_subject(subject, "match") || text::starts_with(
            topic,
            "/contractMarket/execution:",
        ) {
            self.parse_quote(QuoteStream::Execution, object, received_at_ms)
        } else if is_subject(subject, "mark.index.price") {
            self.parse_instrument(InstrumentStream::MarkIndex, object, topic, text, received_at_ms)
        } else if is_subject(subject, "funding.rate") {
            self.parse_instrument(InstrumentStream::Funding, object, topic, text, received_at_ms)
        } else if is_subject(subject, "candle.stick") || text::starts_with(
            topic,
            "/contractMarket/limitCandle:",
        ) {
            self.parse_candle(object, received_at_ms)
        } else {
            Ok(ParsedFrame::Ignored)
        }
    }

    /// Take in a document, with the text that it was read from.
    ///
    /// # Errors
    ///
    /// Returns an error when the document is no valid frame or the provider rejects a command.
    pub fn parse_document(&mut self, root: &Json, text: &str, received_at_ms: u64) -> (r: Result<
        ParsedFrame,
        AdapterError,
    >)
        ensures
            final(self).endpoint() == old(self).endpoint(),
            providers::concurs(
                final(self)@,
                r,
                document_frame(old(self)@, root@, text@, received_at_ms),
            ),
    {
        if !root.is_object() {
            return invalid("message must be a JSON object");
        }
        let kind = match root.member("type") {
            Some(field) => match field.as_text() {
                Some(kind) => kind,
                None => {
                    return invalid("type must be a string");
                },
            },
            None => {
                if root.member("topic").is_some() {
                    let parsed = self.parse_market_message(root, text, received_at_ms);
                    return providers::label(Provider::Kucoin, parsed);
                }
                return Ok(ParsedFrame::Ignored);
            },
        };
        if text::same(kind, "ack") {
            if let Some(request_id) = json::find_text(root, "id") {
                if !request_id.is_empty() && text::length(request_id) <= 64 {
                    return Ok(ParsedFrame::Acknowledgement { request_id: request_id.to_owned() });
                }
            }
            return invalid("ack is missing a valid request id");
        }
        if text::same(kind, "pong") {
            return Ok(ParsedFrame::Pong);
        }
        if text::same(kind, "error") {
            return Err(providers::command_rejected(Provider::Kucoin, command_error(root)));
        }
        if text::same(kind, "message") {
            let parsed = self.parse_market_message(root, text, received_at_ms);
            return providers::label(Provider::Kucoin, parsed);
        }
        // The initial `welcome` frame and unknown control extensions are not command ACKs.
        Ok(ParsedFrame::Ignored)
    }
}

/// Whether a subject is a given one.
fn is_subject(subject: Option<&str>, name: &str) -> (answer: bool)
    ensures
        answer == (providers::name_view(subject) == Some(name@)),
{
    match subject {
        Some(subject) => text::same(subject, name),
        None => false,
    }
}

impl AdapterSession for KucoinSession {
    open spec fn commands_for(&self, action: SubscriptionAction, keys: Seq<KeyView>) -> Result<
        Seq<CommandView>,
        AdapterErrorView,
    > {
        subscription_outcome(self.endpoint(), self@, action, keys).1
    }

    open spec fn after_change(
        &self,
        action: SubscriptionAction,
        keys: Seq<KeyView>,
        after: &Self,
    ) -> bool {
        &&& after.endpoint() == self.endpoint()
        &&& after@ == subscription_outcome(self.endpoint(), self@, action, keys).0
    }

    open spec fn sign_of_life(&self) -> HeartbeatView {
        HeartbeatView::Text(
                "{\"id\":\""@ + text::digits(self@.next_request_id as nat)
                    + "\",\"type\":\"ping\"}"@,
            )
    }

    open spec fn after_sign(&self, after: &Self) -> bool {
        after.endpoint() == self.endpoint() && after@ == (SessionView {
            next_request_id: providers::next_id(self@.next_request_id),
            ..self@
        })
    }

    open spec fn frame_for(&self, text: Seq<char>, received_at_ms: u64) -> Result<
        FrameView,
        AdapterErrorView,
    > {
        text_frame(self@, text, received_at_ms).1
    }

    open spec fn after_frame(&self, text: Seq<char>, received_at_ms: u64, after: &Self) -> bool {
        after.endpoint() == self.endpoint() && after@ == text_frame(self@, text, received_at_ms).0
    }

    fn subscription_messages(
        &mut self,
        action: SubscriptionAction,
        subscriptions: &[SubscriptionKey],
    ) -> (r: Result<Vec<OutboundCommand>, AdapterError>)
        ensures
            final(self).endpoint() == old(self).endpoint(),
            providers::issues(
                final(self)@,
                r,
                subscription_outcome(
                    old(self).endpoint(),
                    old(self)@,
                    action,
                    domain::key_views(subscriptions@),
                ),
            ),
    {
        providers::validate_subscriptions(Provider::Kucoin, subscriptions)?;
        if self.endpoint != EndpointKind::Primary {
            return Err(
                AdapterError::InvalidSubscription {
                    provider: Provider::Kucoin,
                    message: text::cat3(
                        "subscriptions do not belong on the ",
                        self.endpoint.name(),
                        " endpoint",
                    ),
                },
            );
        }
        let (tickers, candles) = collect_symbols(subscriptions)?;
        if action == SubscriptionAction::Unsubscribe {
            providers::forget_all(&mut self.tickers, subscriptions, subscriptions.len());
        }
        proof {
            let keys = domain::key_views(subscriptions@);
            assert(keys.take(keys.len() as int) =~= keys);
        }
        let topics = build_topics(&tickers, candles);
        Ok(self.command_messages(action, &topics))
    }

    fn heartbeat(&mut self) -> (heartbeat: Heartbeat)
        ensures
            heartbeat@ == HeartbeatView::Text(
                "{\"id\":\""@ + text::digits(old(self)@.next_request_id as nat)
                    + "\",\"type\":\"ping\"}"@,
            ),
            final(self)@ == (SessionView {
                next_request_id: providers::next_id(old(self)@.next_request_id),
                ..old(self)@
            }),
            final(self).endpoint() == old(self).endpoint(),
    {
        let id = providers::take_id(&mut self.next_request_id);
        Heartbeat::Text(
            text::cat3("{\"id\":\"", text::unsigned_text(id).as_str(), "\",\"type\":\"ping\"}"),
        )
    }

    fn parse(&mut self, text: &str, received_at_ms: u64) -> (r: Result<ParsedFrame, AdapterError>)
        ensures
            final(self).endpoint() == old(self).endpoint(),
            providers::concurs(final(self)@, r, text_frame(old(self)@, text@, received_at_ms)),
    {
        match json::read(text) {
            Ok(root) => self.parse_document(&root, text, received_at_ms),
            Err(message) => invalid(providers::complain("invalid JSON: ", message).as_str()),
        }
    }
}

impl ProviderAdapter for KucoinAdapter {
    type Session = KucoinSession;

    open spec fn venue(&self) -> Provider {
        Provider::Kucoin
    }

    open spec fn route(&self, channel: Channel) -> EndpointKind {
        EndpointKind::Primary
    }

    open spec fn spread(&self) -> Seq<EndpointKind> {
        seq![EndpointKind::Primary]
    }

    open spec fn starts(
        &self,
        endpoint: EndpointKind,
        connection_epoch: u128,
        session: KucoinSession,
    ) -> bool {
        &&& session@ == providers::fresh(connection_epoch)
        &&& session.endpoint() == endpoint
    }

    fn provider(&self) -> (provider: Provider) {
        Provider::Kucoin
    }

    fn endpoints(&self) -> (list: Vec<EndpointKind>) {
        let list = KucoinAdapter::endpoints(self);
        proof {
            assert(list@[0] == EndpointKind::Primary);
        }
        list
    }

    fn endpoint_for(&self, channel: Channel) -> (endpoint: EndpointKind) {
        KucoinAdapter::endpoint_for(self, channel)
    }

    fn session(&self, endpoint: EndpointKind, connection_epoch: u128) -> (session: KucoinSession) {
        KucoinAdapter::session(self, endpoint, connection_epoch)
    }
}

} // verus!
