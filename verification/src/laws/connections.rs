//! How connections to venues are kept: what is sent, what is awaited, and when they end.
use vstd::prelude::*;

use super::{counts, holds, says};
use crate::domain;
use crate::domain::{Channel, KeyView, PayloadView, Provider, ProviderEventView};
use crate::json;
use crate::json::reading;
use crate::json::{JsonView, LayoutView};
use crate::laws;
use crate::providers::binance::{BinanceAdapter, BinanceSession};
use crate::providers::bingx::{BingxAdapter, BingxSession};
use crate::providers::bybit::{BybitAdapter, BybitSession};
use crate::providers::kucoin;
use crate::providers::kucoin::{KucoinAdapter, KucoinSession};
use crate::providers::mexc::{MexcAdapter, MexcSession};
use crate::providers::okx::{OkxAdapter, OkxSession};
use crate::providers::{
    AdapterErrorView, AdapterSession, CommandView, EndpointKind, FrameView, HeartbeatView,
    ProviderAdapter,
};
use crate::runtime;
use crate::runtime::connection;
use crate::runtime::connection::{ConnectionView, DemandStep, SentStep, TextStepView};
use crate::runtime::supervisor;
use crate::runtime::supervisor::{Backoff, ConnectionExit, NextStepView};
use crate::runtime::{CommandsView, RuntimeErrorView};
use crate::text;
use crate::weburl;

verus! {

// ---------------------------------------------------------------------------------------------
// Adapters
// ---------------------------------------------------------------------------------------------

/// Each venue is reached through one connection, but for OKX: its tickers come from the public
/// endpoint and its candles from the business endpoint.
pub proof fn law_channels_have_their_endpoints(
    bybit: &BybitAdapter,
    binance: &BinanceAdapter,
    okx: &OkxAdapter,
    kucoin: &KucoinAdapter,
    mexc: &MexcAdapter,
    bingx: &BingxAdapter,
    channel: Channel,
)
    ensures
        bybit.venue() == Provider::Bybit && bybit.route(channel) == EndpointKind::Primary
            && bybit.spread() == seq![EndpointKind::Primary],
        binance.venue() == Provider::Binance && binance.route(channel) == EndpointKind::Primary
            && binance.spread() == seq![EndpointKind::Primary],
        kucoin.venue() == Provider::Kucoin && kucoin.route(channel) == EndpointKind::Primary
            && kucoin.spread() == seq![EndpointKind::Primary],
        mexc.venue() == Provider::Mexc && mexc.route(channel) == EndpointKind::Primary
            && mexc.spread() == seq![EndpointKind::Primary],
        bingx.venue() == Provider::Bingx && bingx.route(channel) == EndpointKind::Primary
            && bingx.spread() == seq![EndpointKind::Primary],
        okx.venue() == Provider::Okx,
        okx.route(Channel::Ticker) == EndpointKind::Public,
        okx.route(Channel::Candle1m) == EndpointKind::Business,
        okx.spread() == seq![EndpointKind::Public, EndpointKind::Business],
{
}

/// Each venue is sent the sign of life that it understands.
pub proof fn law_signs_of_life(
    bybit: &BybitSession,
    binance: &BinanceSession,
    okx: &OkxSession,
    kucoin: &KucoinSession,
    mexc: &MexcSession,
    bingx: &BingxSession,
)
    ensures
        bybit.sign_of_life() == HeartbeatView::Text(
            json::text_of(JsonView::Object(seq![("op"@, JsonView::Text("ping"@))])),
        ),
        binance.sign_of_life() == HeartbeatView::WebSocketPing(Seq::empty()),
        okx.sign_of_life() == HeartbeatView::Text("ping"@),
        kucoin.sign_of_life() == HeartbeatView::Text(
            "{\"id\":\""@ + text::digits(kucoin@.next_request_id as nat)
                + "\",\"type\":\"ping\"}"@,
        ),
        mexc.sign_of_life() == HeartbeatView::Text("{\"method\":\"ping\"}"@),
        bingx.sign_of_life() == HeartbeatView::Text("Pong"@),
{
}

/// What KuCoin says of a server.
pub struct Server {
    pub endpoint: Seq<char>,
    pub encrypted: bool,
    pub protocol: Seq<char>,
    pub ping_interval: u64,
    pub ping_timeout: u64,
}

/// Whether an object is what KuCoin says of a server.
pub open spec fn is_server(item: JsonView, server: Server) -> bool {
    &&& says(item, "endpoint"@, server.endpoint)
    &&& holds(item, "encrypt"@, server.encrypted)
    &&& says(item, "protocol"@, server.protocol)
    &&& counts(item, "pingInterval"@, server.ping_interval)
    &&& counts(item, "pingTimeout"@, server.ping_timeout)
}

/// Whether a server can be connected to: with encryption, over the web-socket protocol.
pub open spec fn can_be_reached(server: Server) -> bool {
    server.encrypted && super::catalogs::same_but_for_case(server.protocol, "websocket"@)
}

proof fn lemma_reached(server: Server)
    ensures
        kucoin::usable(
            kucoin::ServerView {
                endpoint: server.endpoint,
                encrypt: server.encrypted,
                protocol: server.protocol,
                ping_interval: server.ping_interval,
                ping_timeout: server.ping_timeout,
            },
        ) == can_be_reached(server),
{
    let word = "websocket"@;
    reveal_strlit("websocket");
    let low = text::lowered(server.protocol);
    if low == word {
        assert forall|i: int| 0 <= i < server.protocol.len() implies
            super::catalogs::same_letter(#[trigger] server.protocol[i], word[i]) by {
            assert(low[i] == word[i]);
            assert(low[i] == text::lower(server.protocol[i]));
            let c = server.protocol[i];
            assert('A' <= c <= 'Z' ==> text::lower(c) as int == c as int + 32);
        }
    }
    if super::catalogs::same_but_for_case(server.protocol, word) {
        assert forall|i: int| 0 <= i < server.protocol.len() implies #[trigger] low[i]
            == word[i] by {
            let c = server.protocol[i];
            assert(super::catalogs::same_letter(c, word[i]));
            assert('a' <= word[i] <= 'z');
            assert('A' <= c <= 'Z' ==> text::lower(c) as int == c as int + 32);
        }
        assert(low =~= word);
    }
}

proof fn lemma_first(servers: Seq<kucoin::ServerView>, at: int)
    requires
        0 <= at < servers.len(),
        kucoin::usable(servers[at]),
        forall|i: int| 0 <= i < at ==> !kucoin::usable(#[trigger] servers[i]),
    ensures
        kucoin::first_usable(servers) == Some(servers[at]),
    decreases at,
{
    if at > 0 {
        assert(!kucoin::usable(servers[0]));
        assert forall|i: int| 0 <= i < at - 1 implies !kucoin::usable(
            #[trigger] servers.skip(1)[i],
        ) by {
            assert(servers.skip(1)[i] == servers[i + 1]);
        }
        lemma_first(servers.skip(1), at - 1);
    }
}

/// A connection to KuCoin goes to the first server that can be reached, with the token that was given
/// out and with an identifier of its own. Signs of life are sent twice as often as the server asks,
/// and the connection is stale once the server's interval and patience are over.
pub proof fn law_discovered_servers_are_used(
    body: Seq<char>,
    connect_id: u128,
    root: JsonView,
    data: JsonView,
    token: Seq<char>,
    items: Seq<JsonView>,
    servers: Seq<Server>,
    at: int,
    url: weburl::UrlView,
)
    requires
        reading::laid_out(
            body,
            json::with_field(
                json::flat("code,data"@, 2),
                "data"@,
                json::with_field(
                    json::flat("token,instanceServers"@, 2),
                    "instanceServers"@,
                    LayoutView::Each(
                        Box::new(
                            json::flat("endpoint,encrypt,protocol,pingInterval,pingTimeout"@, 5),
                        ),
                    ),
                ),
            ),
        ) == Ok::<JsonView, Seq<char>>(root),
        says(root, "code"@, "200000"@),
        json::member_of(root, "data"@) == Some(data),
        data is Object,
        says(data, "token"@, token),
        token.len() > 0,
        json::member_of(data, "instanceServers"@) == Some(JsonView::List(items)),
        items.len() == servers.len(),
        forall|i: int| 0 <= i < items.len() ==> is_server(#[trigger] items[i], servers[i]),
        0 <= at < servers.len(),
        can_be_reached(servers[at]),
        forall|i: int| 0 <= i < at ==> !can_be_reached(#[trigger] servers[i]),
        servers[at].ping_interval > 0,
        servers[at].ping_timeout > 0,
        servers[at].ping_interval + servers[at].ping_timeout <= u64::MAX,
        weburl::url_of(servers[at].endpoint) == Ok::<weburl::UrlView, Seq<char>>(url),
        url.scheme == "wss"@,
    ensures
        kucoin::discovered(body, connect_id) is Ok,
        ({
            let target = kucoin::discovered(body, connect_id)->Ok_0;
            &&& target.url == weburl::url_with_pairs(
                servers[at].endpoint,
                seq![("token"@, token), ("connectId"@, text::hex_digits(connect_id as nat, 32))],
            )->0
            &&& target.heartbeat_interval_ms == if servers[at].ping_interval >= 2 {
                servers[at].ping_interval / 2
            } else {
                1
            }
            &&& target.stale_after_ms == servers[at].ping_interval + servers[at].ping_timeout
        }),
{
    assert forall|i: int| 0 <= i < items.len() implies kucoin::server_shape(#[trigger] items[i])
        is None by {
        assert(is_server(items[i], servers[i]));
    }
    laws::lemma_no_complaint(items, |item: JsonView| kucoin::server_shape(item));
    let list = (kucoin::bullet_of(root).data->0).1;
    assert(list.len() == items.len());
    assert forall|i: int| 0 <= i < list.len() implies #[trigger] list[i] == (kucoin::ServerView {
        endpoint: servers[i].endpoint,
        encrypt: servers[i].encrypted,
        protocol: servers[i].protocol,
        ping_interval: servers[i].ping_interval,
        ping_timeout: servers[i].ping_timeout,
    }) by {
        assert(is_server(items[i], servers[i]));
    }
    assert forall|i: int| 0 <= i < at implies !kucoin::usable(#[trigger] list[i]) by {
        assert(!can_be_reached(servers[i]));
        lemma_reached(servers[i]);
    }
    lemma_reached(servers[at]);
    lemma_first(list, at);
    assert(kucoin::bullet_shape(root) is None);
    assert(kucoin::connection_pairs(token, connect_id) =~= seq![
        ("token"@, token),
        ("connectId"@, text::hex_digits(connect_id as nat, 32)),
    ]);
}

// ---------------------------------------------------------------------------------------------
// Commands under way
// ---------------------------------------------------------------------------------------------

/// A command waits behind those that wait already. One without an identifier, or with one that is under
/// way, is refused.
pub proof fn law_commands_wait_in_turn(state: CommandsView, command: CommandView)
    ensures
        runtime::enqueued(state, seq![command]) == if command.request_id.len() == 0 {
            (state, Some(RuntimeErrorView::InvalidOutboundCommand))
        } else if state.known.contains(command.request_id) {
            (state, Some(RuntimeErrorView::DuplicateOutboundRequestId(command.request_id)))
        } else {
            (
                CommandsView {
                    queued: state.queued.push(command),
                    pending: state.pending,
                    known: state.known.insert(command.request_id),
                },
                None,
            )
        },
{
    let list = seq![command];
    assert(list.drop_last() =~= Seq::<CommandView>::empty());
    reveal_with_fuel(runtime::enqueued, 2);
    assert(list.last() == command);
}

/// The command that waited longest is sent first, and is then under way.
pub proof fn law_the_first_command_is_sent(state: ConnectionView)
    requires
        state.commands.queued.len() > 0,
    ensures
        ({
            let after = connection::sending(state);
            let first = state.commands.queued[0];
            &&& after.in_flight == Some((first.request_id, first.expected_acknowledgements))
            &&& after.commands.queued == state.commands.queued.skip(1)
            &&& after.commands.pending == state.commands.pending
            &&& after.commands.known == state.commands.known
            &&& after.desired == state.desired
            &&& after.live == state.live
        }),
{
}

/// A command that was sent is awaited as often as it will be acknowledged, up to the deadline. A
/// connection becomes live once nothing waits and nothing is awaited, and is over once nothing more is
/// wanted and nothing more waits.
pub proof fn law_sent_commands_are_awaited(
    state: ConnectionView,
    now_ms: u64,
    request_id: Seq<char>,
    expected: usize,
)
    requires
        state.in_flight == Some((request_id, expected)),
        !state.commands.pending.contains_key(request_id),
        now_ms + state.acknowledgement_timeout_ms <= u64::MAX,
    ensures
        ({
            let (after, outcome) = connection::command_done(state, now_ms);
            let settled = state.commands.queued.len() == 0 && expected == 0
                && state.commands.pending == Map::<Seq<char>, usize>::empty();
            &&& after.in_flight is None
            &&& after.commands.queued == state.commands.queued
            &&& expected > 0 ==> after.commands.pending == state.commands.pending.insert(
                request_id,
                expected,
            )
            &&& expected == 0 ==> after.commands.pending == state.commands.pending
            &&& after.live == (state.live || settled)
            &&& after.acknowledgement_deadline_ms == if settled {
                None
            } else {
                Some((now_ms + state.acknowledgement_timeout_ms) as u64)
            }
            &&& outcome == Ok::<SentStep, RuntimeErrorView>(
                SentStep {
                    over: state.idle_after_commands && state.commands.queued.len() == 0,
                    became_live: settled && !state.live,
                },
            )
        }),
{
    let (after, outcome) = connection::command_done(state, now_ms);
    if expected > 0 {
        assert(state.commands.pending.insert(request_id, expected).contains_key(request_id));
        assert(!Map::<Seq<char>, usize>::empty().contains_key(request_id));
    }
}

/// A change of demand gives up first and asks then, behind what waits already. The connection stays live
/// only where nothing changes, and is closed at once where nothing is wanted and nothing waits.
pub proof fn law_demand_is_followed(
    state: ConnectionView,
    next: Set<KeyView>,
    less: Seq<CommandView>,
    more: Seq<CommandView>,
)
    requires
        runtime::enqueued(state.commands, less).1 is None,
        runtime::enqueued(runtime::enqueued(state.commands, less).0, more).1 is None,
    ensures
        ({
            let (after, outcome) = connection::demand_changed(state, next, Ok(less), Ok(more));
            &&& after.desired == next
            &&& after.commands.queued == state.commands.queued + less + more
            &&& after.commands.pending == state.commands.pending
            &&& after.live == (state.live && state.desired == next)
            &&& after.idle_after_commands == (next == Set::<KeyView>::empty())
            &&& outcome == Ok::<DemandStep, RuntimeErrorView>(
                DemandStep {
                    changed: state.desired != next,
                    close: next == Set::<KeyView>::empty() && (state.commands.queued + less
                        + more).len() == 0,
                },
            )
        }),
{
    lemma_appended(state.commands, less);
    lemma_appended(runtime::enqueued(state.commands, less).0, more);
}

proof fn lemma_appended(state: CommandsView, list: Seq<CommandView>)
    requires
        runtime::enqueued(state, list).1 is None,
    ensures
        runtime::enqueued(state, list).0.queued == state.queued + list,
        runtime::enqueued(state, list).0.pending == state.pending,
    decreases list.len(),
{
    if list.len() > 0 {
        lemma_appended(state, list.drop_last());
        assert((state.queued + list.drop_last()).push(list.last()) =~= state.queued + list);
    } else {
        assert(state.queued + list =~= state.queued);
    }
}

// ---------------------------------------------------------------------------------------------
// Frames
// ---------------------------------------------------------------------------------------------

/// Whether an update is fit for delivery.
pub open spec fn is_fit(event: ProviderEventView) -> bool {
    match event.payload {
        PayloadView::Ticker(ticker) => ticker.last is Some || ticker.mark is Some
            || ticker.index is Some || ticker.bid is Some || ticker.ask is Some,
        PayloadView::Candle(candle) => candle.interval == "1m"@ && candle.end_time_ms
            == candle.start_time_ms + 60_000,
    }
}

/// Of the updates of a frame those that are fit for delivery are published, in their order, and no
/// others.
pub proof fn law_fit_updates_are_published(events: Seq<ProviderEventView>) -> (places: Seq<int>)
    ensures
        connection::valid_events(events).len() == places.len(),
        super::catalogs::going_up(places, events.len() as int),
        forall|i: int|
            0 <= i < places.len() ==> #[trigger] connection::valid_events(events)[i]
                == events[places[i]],
        forall|k: int|
            0 <= k < events.len() ==> (is_fit(#[trigger] events[k]) == places.contains(k)),
    decreases events.len(),
{
    if events.len() == 0 {
        Seq::empty()
    } else {
        let rest = events.drop_last();
        let last = events.len() - 1;
        let before = law_fit_updates_are_published(rest);
        let kept = connection::valid_events(rest);
        super::values::law_fit_updates(events.last().payload);
        assert forall|i: int| 0 <= i < before.len() implies #[trigger] kept[i]
            == events[before[i]] by {
            assert(0 <= before[i] < last);
        }
        let places = if is_fit(events.last()) {
            before.push(last)
        } else {
            before
        };
        assert forall|k: int| 0 <= k < events.len() implies (is_fit(#[trigger] events[k])
            == places.contains(k)) by {
            laws::lemma_pushed(before, last, k);
            if k < last {
                assert(rest[k] == events[k]);
            } else if before.contains(last) {
                let i = choose|i: int| 0 <= i < before.len() && before[i] == last;
                assert(0 <= before[i] < last);
            }
        }
        assert forall|i: int| 0 <= i < places.len() implies #[trigger] connection::valid_events(
            events,
        )[i] == events[places[i]] by {
            if i < before.len() {
                assert(kept[i] == events[before[i]]);
            }
        }
        places
    }
}

/// The updates of a frame are published, and those that are not fit are counted. Where one of those
/// published is wanted, the venue counts as alive from then on.
pub proof fn law_updates_keep_a_connection_alive(
    state: ConnectionView,
    events: Seq<ProviderEventView>,
    now_ms: u64,
)
    ensures
        ({
            let (after, outcome) = connection::frame_taken(
                state,
                Ok(FrameView::Events(events)),
                now_ms,
            );
            let valid = connection::valid_events(events);
            let wanted = exists|i: int|
                0 <= i < valid.len() && state.desired.contains(
                    KeyView {
                        provider: (#[trigger] valid[i]).provider,
                        market: valid[i].market,
                        symbol: valid[i].symbol,
                        channel: match valid[i].payload {
                            PayloadView::Ticker(_) => Channel::Ticker,
                            PayloadView::Candle(_) => Channel::Candle1m,
                        },
                    },
                );
            &&& outcome == Ok::<TextStepView, RuntimeErrorView>(
                TextStepView {
                    events: valid,
                    rejected: (events.len() - valid.len()) as nat,
                    demanded: wanted,
                    became_live: false,
                    reply: None,
                },
            )
            &&& after == (ConnectionView {
                last_market_event_ms: if wanted {
                    now_ms
                } else {
                    state.last_market_event_ms
                },
                ..state
            })
        }),
{
    let valid = connection::valid_events(events);
    if connection::some_demanded(valid, state.desired) {
        let i = choose|i: int|
            0 <= i < valid.len() && state.desired.contains(domain::event_key(#[trigger] valid[i]));
        assert(domain::event_key(valid[i]).channel == match valid[i].payload {
            PayloadView::Ticker(_) => Channel::Ticker,
            PayloadView::Candle(_) => Channel::Candle1m,
        });
    } else {
        assert forall|i: int| 0 <= i < valid.len() implies !state.desired.contains(
            KeyView {
                provider: (#[trigger] valid[i]).provider,
                market: valid[i].market,
                symbol: valid[i].symbol,
                channel: match valid[i].payload {
                    PayloadView::Ticker(_) => Channel::Ticker,
                    PayloadView::Candle(_) => Channel::Candle1m,
                },
            },
        ) by {
            assert(!state.desired.contains(domain::event_key(valid[i])));
        }
    }
}

/// An acknowledgement counts for the command that awaits it, and one that none awaits ends the
/// connection. A ping is to be answered. A refusal ends the connection, and any other frame that cannot
/// be read is only counted.
pub proof fn law_other_frames_are_followed(
    state: ConnectionView,
    request_id: Seq<char>,
    heartbeat: HeartbeatView,
    error: AdapterErrorView,
    now_ms: u64,
)
    ensures
        !state.commands.pending.contains_key(request_id) ==> connection::frame_taken(
            state,
            Ok(FrameView::Acknowledgement { request_id }),
            now_ms,
        ) == (
            state,
            Err::<TextStepView, RuntimeErrorView>(
                RuntimeErrorView::UnexpectedAcknowledgement(request_id),
            ),
        ),
        state.commands.pending.contains_key(request_id) ==> {
            let (after, outcome) = connection::frame_taken(
                state,
                Ok(FrameView::Acknowledgement { request_id }),
                now_ms,
            );
            let awaited = state.commands.pending[request_id];
            let left = if awaited == 1 {
                state.commands.pending.remove(request_id)
            } else {
                state.commands.pending.insert(request_id, (awaited - 1) as usize)
            };
            let settled = state.commands.queued.len() == 0 && left == Map::<
                Seq<char>,
                usize,
            >::empty() && state.in_flight is None;
            &&& after.commands.pending == left
            &&& after.commands.queued == state.commands.queued
            &&& after.live == (state.live || settled)
            &&& outcome == Ok::<TextStepView, RuntimeErrorView>(
                TextStepView {
                    events: Seq::empty(),
                    rejected: 0,
                    demanded: false,
                    became_live: settled && !state.live,
                    reply: None,
                },
            )
        },
        connection::frame_taken(state, Ok(FrameView::Reply(heartbeat)), now_ms) == (
            state,
            Ok::<TextStepView, RuntimeErrorView>(
                TextStepView {
                    events: Seq::empty(),
                    rejected: 0,
                    demanded: false,
                    became_live: false,
                    reply: Some(heartbeat),
                },
            ),
        ),
        error is CommandRejected ==> connection::frame_taken(state, Err(error), now_ms) == (
            state,
            Err::<TextStepView, RuntimeErrorView>(RuntimeErrorView::Adapter(error)),
        ),
        !(error is CommandRejected) ==> connection::frame_taken(state, Err(error), now_ms) == (
            state,
            Ok::<TextStepView, RuntimeErrorView>(
                TextStepView {
                    events: Seq::empty(),
                    rejected: 1,
                    demanded: false,
                    became_live: false,
                    reply: None,
                },
            ),
        ),
{
}

/// A connection opens with the commands for what is wanted, and is live at once only where there are
/// none. It is stale once no wanted update came for so long.
pub proof fn law_connections_open_with_their_commands(
    acknowledgement_timeout_ms: u64,
    stale_after_ms: u64,
    desired: Set<KeyView>,
    commands: Seq<CommandView>,
    now_ms: u64,
    later_ms: u64,
)
    requires
        runtime::enqueued(runtime::no_commands(), commands).1 is None,
        now_ms <= later_ms,
    ensures
        connection::opened(
            acknowledgement_timeout_ms,
            stale_after_ms,
            desired,
            Ok(commands),
            now_ms,
        ) is Ok,
        ({
            let state = connection::opened(
                acknowledgement_timeout_ms,
                stale_after_ms,
                desired,
                Ok(commands),
                now_ms,
            )->Ok_0;
            &&& state.commands.queued == commands
            &&& state.desired == desired
            &&& state.live == (commands.len() == 0)
            &&& state.in_flight is None
            &&& state.acknowledgement_deadline_ms is None
            &&& connection::is_stale(state, later_ms) <==> later_ms - now_ms >= stale_after_ms
            &&& !connection::is_overdue(state, later_ms)
        }),
{
    lemma_appended(runtime::no_commands(), commands);
    assert(runtime::no_commands().queued + commands =~= commands);
}

/// A connection is overdue from the deadline of its acknowledgements on, and stale once so much time
/// went by since the last wanted update.
pub proof fn law_connections_do_not_wait_for_ever(state: ConnectionView, now_ms: u64)
    ensures
        connection::is_overdue(state, now_ms) <==> state.acknowledgement_deadline_ms is Some
            && state.acknowledgement_deadline_ms->0 <= now_ms,
        state.last_market_event_ms <= now_ms ==> (connection::is_stale(state, now_ms) <==> now_ms
            - state.last_market_event_ms >= state.stale_after_ms),
{
}

// ---------------------------------------------------------------------------------------------
// Waits
// ---------------------------------------------------------------------------------------------

/// After a connection comes nothing where everything stops, a wait for demand where there was none, and
/// else another connection: after a wait that starts over where the connection was stable.
pub proof fn law_connections_follow_each_other(
    backoff: Backoff,
    result: Result<ConnectionExit, RuntimeErrorView>,
    lasted_ms: u128,
    shutting_down: bool,
)
    ensures
        ({
            let (after, step) = supervisor::after_connection(
                backoff,
                result,
                lasted_ms,
                shutting_down,
            );
            let idle = result == Ok::<ConnectionExit, RuntimeErrorView>(ConnectionExit::Idle);
            &&& shutting_down ==> step is Stop && after == backoff
            &&& !shutting_down && idle ==> step is WaitForDemand && after.current_ms
                == backoff.min_ms
            &&& !shutting_down && !idle ==> match step {
                NextStepView::Reconnect { longest_wait_ms, .. } => longest_wait_ms
                    == after.current_ms && after.current_ms == if lasted_ms >= backoff.stable_ms {
                    backoff.min_ms
                } else {
                    backoff.current_ms
                },
                _ => false,
            }
            &&& after.min_ms == backoff.min_ms && after.max_ms == backoff.max_ms
                && after.stable_ms == backoff.stable_ms
        }),
{
}

/// Each wait may be twice as long as the one before, up to the longest.
pub proof fn law_waits_double(backoff: Backoff)
    ensures
        ({
            let after = supervisor::after_wait(backoff);
            &&& 2 * backoff.current_ms <= backoff.max_ms ==> after.current_ms == 2
                * backoff.current_ms
            &&& 2 * backoff.current_ms > backoff.max_ms ==> after.current_ms == backoff.max_ms
            &&& after.min_ms == backoff.min_ms && after.max_ms == backoff.max_ms
                && after.stable_ms == backoff.stable_ms
        }),
{
}

} // verus!
