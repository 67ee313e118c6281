//! The commands of clients and the control messages that answer them.
use vstd::prelude::*;

use crate::domain;
use crate::domain::{
    Channel, KeyView, MarketKind, Provider, Subscription, SubscriptionKey, SubscriptionView,
    SCHEMA_VERSION,
};
use crate::gateway::limits;
use crate::gateway::limits::ProviderLimits;
use crate::json;
use crate::json::reading;
use crate::json::{Json, JsonView, Layout, LayoutView};
use crate::keyset;
use crate::text;
use crate::wire;
use crate::wire::{ObjectBuilder, ObjectFields};

verus! {

// ---------------------------------------------------------------------------------------------
// Commands
// ---------------------------------------------------------------------------------------------

/// A command of a client.
#[derive(Debug, Clone)]
pub enum ClientCommand {
    Subscribe { request_id: String, subscriptions: Vec<Subscription> },
    Unsubscribe { request_id: String, subscriptions: Vec<Subscription> },
    Ping { request_id: String },
}

/// The mathematical value of a command.
pub enum ClientCommandView {
    Subscribe { request_id: Seq<char>, subscriptions: Seq<SubscriptionView> },
    Unsubscribe { request_id: Seq<char>, subscriptions: Seq<SubscriptionView> },
    Ping { request_id: Seq<char> },
}

/// The values of a run of subscriptions.
pub open spec fn subscription_views(list: Seq<Subscription>) -> Seq<SubscriptionView> {
    Seq::new(list.len(), |i: int| list[i]@)
}

impl View for ClientCommand {
    type V = ClientCommandView;

    open spec fn view(&self) -> ClientCommandView {
        match self {
            ClientCommand::Subscribe { request_id, subscriptions } =>
                ClientCommandView::Subscribe {
                request_id: request_id@,
                subscriptions: subscription_views(subscriptions@),
            },
            ClientCommand::Unsubscribe { request_id, subscriptions } =>
                ClientCommandView::Unsubscribe {
                request_id: request_id@,
                subscriptions: subscription_views(subscriptions@),
            },
            ClientCommand::Ping { request_id } => ClientCommandView::Ping {
                request_id: request_id@,
            },
        }
    }
}

/// The identifier that a client gave a command.
pub open spec fn request_of(command: ClientCommandView) -> Seq<char> {
    match command {
        ClientCommandView::Subscribe { request_id, .. } => request_id,
        ClientCommandView::Unsubscribe { request_id, .. } => request_id,
        ClientCommandView::Ping { request_id } => request_id,
    }
}

impl ClientCommand {
    /// The identifier that the client gave the command.
    pub fn request_id(&self) -> (id: &str)
        ensures
            id@ == request_of(self@),
    {
        match self {
            ClientCommand::Subscribe { request_id, .. } => request_id.as_str(),
            ClientCommand::Unsubscribe { request_id, .. } => request_id.as_str(),
            ClientCommand::Ping { request_id } => request_id.as_str(),
        }
    }
}

/// The venue of a name.
pub fn provider_named(name: &str) -> (provider: Option<Provider>)
    ensures
        match provider {
            Some(found) => named_provider(name@) == Some(found),
            None => named_provider(name@) is None,
        },
{
    if text::same(name, "bybit") {
        Some(Provider::Bybit)
    } else if text::same(name, "binance") {
        Some(Provider::Binance)
    } else if text::same(name, "okx") {
        Some(Provider::Okx)
    } else if text::same(name, "kucoin") {
        Some(Provider::Kucoin)
    } else if text::same(name, "mexc") {
        Some(Provider::Mexc)
    } else if text::same(name, "bingx") {
        Some(Provider::Bingx)
    } else {
        None
    }
}

/// The venue of a name.
pub open spec fn named_provider(name: Seq<char>) -> Option<Provider> {
    if name == "bybit"@ {
        Some(Provider::Bybit)
    } else if name == "binance"@ {
        Some(Provider::Binance)
    } else if name == "okx"@ {
        Some(Provider::Okx)
    } else if name == "kucoin"@ {
        Some(Provider::Kucoin)
    } else if name == "mexc"@ {
        Some(Provider::Mexc)
    } else if name == "bingx"@ {
        Some(Provider::Bingx)
    } else {
        None
    }
}

/// The channel of a name.
pub open spec fn named_channel(name: Seq<char>) -> Option<Channel> {
    if name == "ticker"@ {
        Some(Channel::Ticker)
    } else if name == "candle_1m"@ {
        Some(Channel::Candle1m)
    } else {
        None
    }
}

/// Whether every member has one of some names.
pub open spec fn all_known(members: wire::Fields, names: Seq<Seq<char>>) -> bool {
    forall|i: int| 0 <= i < members.len() ==> names.contains((#[trigger] members[i]).0)
}

/// Whether a document is an object of which every member has one of some names.
pub open spec fn has_only(value: JsonView, names: Seq<Seq<char>>) -> bool {
    match value {
        JsonView::Object(members) => all_known(members, names),
        _ => false,
    }
}

/// The name that a document is: a text, or an object whose one member has nothing in it.
pub open spec fn name_in(value: JsonView) -> Option<Seq<char>> {
    match value {
        JsonView::Text(name) => Some(name),
        JsonView::Object(members) => if members.len() == 1 && (members[0].1 is Null
            || members[0].1 == JsonView::Object(Seq::empty())) {
            Some(members[0].0)
        } else {
            None
        },
        _ => None,
    }
}

/// The name that a member of a document is.
pub open spec fn name_at(value: JsonView, member: Seq<char>) -> Option<Seq<char>> {
    match json::member_of(value, member) {
        Some(found) => name_in(found),
        None => None,
    }
}

/// The channels that a list of documents names.
pub open spec fn channels_of(items: Seq<JsonView>) -> Option<Seq<Channel>>
    decreases items.len(),
{
    if items.len() == 0 {
        Some(Seq::empty())
    } else {
        match (channels_of(items.drop_last()), name_in(items.last())) {
            (Some(channels), Some(name)) => match named_channel(name) {
                Some(channel) => Some(channels.push(channel)),
                None => None,
            },
            _ => None,
        }
    }
}

/// The subscription that a document is: exactly a venue, a market, a symbol and channels.
pub open spec fn subscription_of(value: JsonView) -> Option<SubscriptionView> {
    let fields = has_only(value, seq!["provider"@, "market"@, "symbol"@, "channels"@]);
    match (
        name_at(value, "provider"@),
        name_at(value, "market"@),
        json::member_text(value, "symbol"@),
        json::member_list(value, "channels"@),
    ) {
        (Some(provider), Some(market), Some(symbol), Some(channels)) => match (
            named_provider(provider),
            channels_of(channels),
        ) {
            (Some(provider), Some(channels)) => if fields && market == "linear_perpetual"@ {
                Some(
                    SubscriptionView {
                        provider,
                        market: MarketKind::LinearPerpetual,
                        symbol,
                        channels,
                    },
                )
            } else {
                None
            },
            _ => None,
        },
        _ => None,
    }
}

/// The subscriptions that a list of documents is.
pub open spec fn subscriptions_of(items: Seq<JsonView>) -> Option<Seq<SubscriptionView>>
    decreases items.len(),
{
    if items.len() == 0 {
        Some(Seq::empty())
    } else {
        match (subscriptions_of(items.drop_last()), subscription_of(items.last())) {
            (Some(list), Some(subscription)) => Some(list.push(subscription)),
            _ => None,
        }
    }
}

/// How a name is laid out: as a text, or as an object with any members.
pub open spec fn name_layout() -> LayoutView {
    LayoutView::Record(Seq::empty(), 0)
}

/// How a subscription is laid out.
pub open spec fn subscription_layout() -> LayoutView {
    json::with_field(
        json::with_field(
            json::with_field(
                json::flat("provider,market,symbol,channels"@, 4),
                "provider"@,
                name_layout(),
            ),
            "market"@,
            name_layout(),
        ),
        "channels"@,
        LayoutView::Each(Box::new(name_layout())),
    )
}

/// How a command is laid out.
pub open spec fn command_layout() -> LayoutView {
    json::with_field(
        json::flat("op,request_id,subscriptions"@, 2),
        "subscriptions"@,
        LayoutView::Each(Box::new(subscription_layout())),
    )
}

/// Whether a name is that of an operation.
pub open spec fn is_operation(name: Seq<char>) -> bool {
    name == "subscribe"@ || name == "unsubscribe"@ || name == "ping"@
}

/// Whether a text begins with a document that names no operation.
pub open spec fn no_operation(text: Seq<char>) -> bool {
    reading::starts(text, '{') || reading::starts(text, '[') || match reading::leaf(text) {
        Some((JsonView::Text(name), _)) => !is_operation(name),
        Some(_) => true,
        None => false,
    }
}

/// Whether, in the members that a text begins with, an operation is named that is none, or a second
/// one, before anything that is no JSON. It matters whether one was named before.
pub open spec fn misnamed_from(text: Seq<char>, named: bool) -> bool
    decreases text.len(),
{
    match reading::name_at(text) {
        Some((name, after)) => {
            let body = reading::unspaced(after);
            if name == "op"@ && (named || no_operation(body)) {
                true
            } else {
                match reading::leaf(body) {
                    Some((_, rest)) => {
                        let next = reading::unspaced(rest);
                        &&& next.len() <= text.len()
                        &&& reading::starts(next, ',')
                        &&& misnamed_from(next.skip(1), named || name == "op"@)
                    },
                    None => false,
                }
            }
        },
        None => false,
    }
}

/// Whether a text names an operation that is none, or a second one, before anything that is no JSON.
pub open spec fn misnamed(text: Seq<char>) -> bool {
    let body = reading::unspaced(text);
    if reading::starts(body, '{') {
        misnamed_from(body.skip(1), false)
    } else {
        reading::starts(body, '[') && no_operation(reading::unspaced(body.skip(1)))
    }
}

/// Why a text is no command.
#[derive(Debug, Clone, Copy, PartialEq, Eq, Structural)]
pub enum CommandFault {
    /// It is no JSON.
    Text,
    /// It is JSON, and no command.
    Command,
}

/// The command that a text is. A fault of the command that stands before what is no JSON counts.
pub open spec fn command_in(text: Seq<char>) -> Result<ClientCommandView, CommandFault> {
    if misnamed(text) {
        Err(CommandFault::Command)
    } else {
        match reading::leading_document(text) {
            Some((document, rest)) => if json::document_of(document) is Err {
                Err(CommandFault::Text)
            } else {
                match command_as(document) {
                    Some(command) => if reading::unspaced(rest).len() == 0 {
                        Ok(command)
                    } else {
                        Err(CommandFault::Text)
                    },
                    None => Err(CommandFault::Command),
                }
            },
            None => Err(CommandFault::Text),
        }
    }
}

/// The command that the text of a document is.
pub open spec fn command_as(document: Seq<char>) -> Option<ClientCommandView> {
    match reading::document_as(document, command_layout()) {
        Some(value) => command_of(value),
        None => None,
    }
}

/// The command that a document is. Unknown members are refused.
pub open spec fn command_of(value: JsonView) -> Option<ClientCommandView> {
    match (json::member_text(value, "op"@), json::member_text(value, "request_id"@)) {
        (Some(op), Some(request_id)) => if op == "ping"@ {
            if has_only(value, seq!["op"@, "request_id"@]) {
                Some(ClientCommandView::Ping { request_id })
            } else {
                None
            }
        } else if op == "subscribe"@ || op == "unsubscribe"@ {
            match json::member_list(value, "subscriptions"@) {
                Some(items) => match subscriptions_of(items) {
                    Some(subscriptions) => if !has_only(
                        value,
                        seq!["op"@, "request_id"@, "subscriptions"@],
                    ) {
                        None
                    } else if op == "subscribe"@ {
                        Some(ClientCommandView::Subscribe { request_id, subscriptions })
                    } else {
                        Some(ClientCommandView::Unsubscribe { request_id, subscriptions })
                    },
                    None => None,
                },
                None => None,
            }
        } else {
            None
        },
        _ => None,
    }
}

fn is_named(name: &str, names: &Vec<&str>) -> (answer: bool)
    ensures
        answer == text::slices(names@).contains(name@),
{
    let ghost all = text::slices(names@);
    let mut i: usize = 0;
    while i < names.len()
        invariant
            i <= names@.len(),
            all == text::slices(names@),
            forall|k: int| 0 <= k < i ==> #[trigger] all[k] != name@,
        decreases names.len() - i,
    {
        if text::same(names[i], name) {
            proof {
                assert(all[i as int] == name@);
            }
            return true;
        }
        i += 1;
    }
    false
}

fn only_has(value: &Json, names: &Vec<&str>) -> (answer: bool)
    ensures
        answer == has_only(value@, text::slices(names@)),
{
    match value {
        Json::Object(members) => {
            let ghost all = value@->Object_0;
            let mut i: usize = 0;
            while i < members.len()
                invariant
                    i <= members@.len(),
                    all.len() == members@.len(),
                    forall|k: int| 0 <= k < all.len() ==> #[trigger] all[k].0 == members@[k].name@,
                    forall|k: int|
                        0 <= k < i ==> text::slices(names@).contains((#[trigger] all[k]).0),
                    value@ == JsonView::Object(all),
                decreases members.len() - i,
            {
                if !is_named(members[i].name.as_str(), names) {
                    proof {
                        let stray = all[i as int];
                        assert(!text::slices(names@).contains(stray.0));
                        assert(!all_known(all, text::slices(names@)));
                    }
                    return false;
                }
                i += 1;
            }
            true
        },
        _ => false,
    }
}

/// Where a prefix of a list is refused, the list is.
proof fn lemma_channels_refused(items: Seq<JsonView>, count: int)
    requires
        0 <= count <= items.len(),
        channels_of(items.take(count)) is None,
    ensures
        channels_of(items) is None,
    decreases items.len(),
{
    if count < items.len() {
        assert(items.drop_last().take(count) =~= items.take(count));
        lemma_channels_refused(items.drop_last(), count);
    } else {
        assert(items.take(count) =~= items);
    }
}

/// Where a prefix of a list is refused, the list is.
proof fn lemma_subscriptions_refused(items: Seq<JsonView>, count: int)
    requires
        0 <= count <= items.len(),
        subscriptions_of(items.take(count)) is None,
    ensures
        subscriptions_of(items) is None,
    decreases items.len(),
{
    if count < items.len() {
        assert(items.drop_last().take(count) =~= items.take(count));
        lemma_subscriptions_refused(items.drop_last(), count);
    } else {
        assert(items.take(count) =~= items);
    }
}

fn channel_named(name: &str) -> (channel: Option<Channel>)
    ensures
        channel == named_channel(name@),
{
    if text::same(name, "ticker") {
        Some(Channel::Ticker)
    } else if text::same(name, "candle_1m") {
        Some(Channel::Candle1m)
    } else {
        None
    }
}

fn read_name<'a>(value: &'a Json) -> (name: Option<&'a str>)
    ensures
        match name {
            Some(name) => name_in(value@) == Some(name@),
            None => name_in(value@) is None,
        },
{
    match value {
        Json::Text(text) => Some(text.as_str()),
        Json::Object(members) => {
            if members.len() != 1 {
                return None;
            }
            let member = &members[0];
            proof {
                assert(value@->Object_0.len() == 1);
                assert(value@->Object_0[0] == (member.name@, member.value@));
            }
            let empty = match &member.value {
                Json::Null => true,
                Json::Object(inner) => {
                    proof {
                        if inner@.len() == 0 {
                            assert(member.value@->Object_0 =~= Seq::empty());
                            assert(member.value@ == JsonView::Object(Seq::empty()));
                        } else {
                            assert(member.value@->Object_0.len() > 0);
                        }
                    }
                    inner.len() == 0
                },
                _ => false,
            };
            if empty {
                Some(member.name.as_str())
            } else {
                None
            }
        },
        _ => None,
    }
}

fn read_channels(items: &Vec<Json>) -> (r: Option<Vec<Channel>>)
    ensures
        match r {
            Some(channels) => channels_of(json::views(items@)) == Some(channels@),
            None => channels_of(json::views(items@)) is None,
        },
{
    let ghost all = json::views(items@);
    let mut channels: Vec<Channel> = Vec::new();
    let mut i: usize = 0;
    while i < items.len()
        invariant
            i <= items@.len(),
            all == json::views(items@),
            channels_of(all.take(i as int)) == Some(channels@),
        decreases items.len() - i,
    {
        proof {
            assert(all.take(i + 1).drop_last() =~= all.take(i as int));
            assert(all.take(i + 1).last() == all[i as int]);
            if channels_of(all.take(i + 1)) is None {
                lemma_channels_refused(all, i + 1);
            }
        }
        let name = match read_name(&items[i]) {
            Some(name) => name,
            None => {
                return None;
            },
        };
        match channel_named(name) {
            Some(channel) => channels.push(channel),
            None => {
                return None;
            },
        }
        i += 1;
    }
    proof {
        assert(all.take(i as int) =~= all);
    }
    Some(channels)
}

fn read_subscription(value: &Json) -> (r: Option<Subscription>)
    ensures
        match r {
            Some(subscription) => subscription_of(value@) == Some(subscription@),
            None => subscription_of(value@) is None,
        },
{
    let names = vec!["provider", "market", "symbol", "channels"];
    proof {
        assert(text::slices(names@) =~= seq!["provider"@, "market"@, "symbol"@, "channels"@]);
    }
    let fields = only_has(value, &names);
    let provider = provider_named(read_name(value.member("provider")?)?)?;
    let market = read_name(value.member("market")?)?;
    let symbol = json::find_text(value, "symbol")?;
    let channels = read_channels(json::find_list(value, "channels")?)?;
    if fields && text::same(market, "linear_perpetual") {
        Some(
            Subscription {
                provider,
                market: MarketKind::LinearPerpetual,
                symbol: symbol.to_owned(),
                channels,
            },
        )
    } else {
        None
    }
}

fn read_subscriptions(items: &Vec<Json>) -> (r: Option<Vec<Subscription>>)
    ensures
        match r {
            Some(list) => subscriptions_of(json::views(items@)) == Some(subscription_views(list@)),
            None => subscriptions_of(json::views(items@)) is None,
        },
{
    let ghost all = json::views(items@);
    let mut list: Vec<Subscription> = Vec::new();
    let mut i: usize = 0;
    proof {
        assert(subscription_views(list@) =~= Seq::empty());
    }
    while i < items.len()
        invariant
            i <= items@.len(),
            all == json::views(items@),
            subscriptions_of(all.take(i as int)) == Some(subscription_views(list@)),
        decreases items.len() - i,
    {
        let ghost kept = subscription_views(list@);
        proof {
            assert(all.take(i + 1).drop_last() =~= all.take(i as int));
            assert(all.take(i + 1).last() == all[i as int]);
            if subscriptions_of(all.take(i + 1)) is None {
                lemma_subscriptions_refused(all, i + 1);
            }
        }
        match read_subscription(&items[i]) {
            Some(subscription) => {
                let ghost fresh = subscription@;
                list.push(subscription);
                proof {
                    assert(subscription_views(list@) =~= kept.push(fresh));
                }
            },
            None => {
                return None;
            },
        }
        i += 1;
    }
    proof {
        assert(all.take(i as int) =~= all);
    }
    Some(list)
}

fn names() -> (layout: Layout)
    ensures
        layout@ == name_layout(),
{
    let layout = Layout::Record(Vec::new(), 0);
    proof {
        assert(layout@->Record_0 =~= Seq::empty());
    }
    layout
}

fn subscription_record() -> (layout: Layout)
    ensures
        layout@ == subscription_layout(),
{
    json::nest(
        json::nest(
            json::nest(
                json::flat_record("provider,market,symbol,channels", 4),
                "provider",
                names(),
            ),
            "market",
            names(),
        ),
        "channels",
        Layout::Each(Box::new(names())),
    )
}

fn command_record() -> (layout: Layout)
    ensures
        layout@ == command_layout(),
{
    json::nest(
        json::flat_record("op,request_id,subscriptions", 2),
        "subscriptions",
        Layout::Each(Box::new(subscription_record())),
    )
}

fn names_no_operation(text: &str) -> (answer: bool)
    ensures
        answer == no_operation(text@),
{
    if text::after_character(text, '{').is_some() || text::after_character(text, '[').is_some() {
        return true;
    }
    match reading::read_leaf(text) {
        Some((Json::Text(name), _)) => !(text::same(name.as_str(), "subscribe") || text::same(
            name.as_str(),
            "unsubscribe",
        ) || text::same(name.as_str(), "ping")),
        Some(_) => true,
        None => false,
    }
}

fn is_misnamed(text: &str) -> (answer: bool)
    ensures
        answer == misnamed(text@),
{
    let body = reading::without_space(text);
    let mut rest = match text::after_character(body, '{') {
        Some(inner) => inner,
        None => {
            return match text::after_character(body, '[') {
                Some(inner) => names_no_operation(reading::without_space(inner)),
                None => false,
            };
        },
    };
    let mut named = false;
    loop
        invariant
            misnamed(text@) == misnamed_from(rest@, named),
        decreases rest@.len(),
    {
        let (name, after) = match reading::read_name(rest) {
            Some(read) => read,
            None => {
                return false;
            },
        };
        let body = reading::without_space(after);
        let operation = text::same(name.as_str(), "op");
        if operation && (named || names_no_operation(body)) {
            return true;
        }
        let next = match reading::read_leaf(body) {
            Some((_, next)) => reading::without_space(next),
            None => {
                return false;
            },
        };
        match text::after_character(next, ',') {
            Some(more) => {
                rest = more;
                named = named || operation;
            },
            None => {
                return false;
            },
        }
    }
}

/// Read a command.
///
/// # Errors
///
/// Whether the text is no JSON, or no command.
pub fn command_from(text: &str) -> (r: Result<ClientCommand, CommandFault>)
    ensures
        match r {
            Ok(command) => command_in(text@) == Ok::<ClientCommandView, CommandFault>(command@),
            Err(fault) => command_in(text@) == Err::<ClientCommandView, CommandFault>(fault),
        },
{
    if is_misnamed(text) {
        return Err(CommandFault::Command);
    }
    let (document, rest) = match reading::leading(text) {
        Some(parts) => parts,
        None => {
            return Err(CommandFault::Text);
        },
    };
    if json::read(document).is_err() {
        return Err(CommandFault::Text);
    }
    let command = match reading::read(document, &command_record()) {
        Ok(value) => read_command(&value),
        Err(_) => None,
    };
    match command {
        Some(command) => if reading::without_space(rest).is_empty() {
            Ok(command)
        } else {
            Err(CommandFault::Text)
        },
        None => Err(CommandFault::Command),
    }
}

/// Read the document of a command.
pub fn read_command(value: &Json) -> (r: Option<ClientCommand>)
    ensures
        match r {
            Some(command) => command_of(value@) == Some(command@),
            None => command_of(value@) is None,
        },
{
    let op = json::find_text(value, "op")?;
    let request_id = json::find_text(value, "request_id")?.to_owned();
    if text::same(op, "ping") {
        let names = vec!["op", "request_id"];
        proof {
            assert(text::slices(names@) =~= seq!["op"@, "request_id"@]);
        }
        return if only_has(value, &names) {
            Some(ClientCommand::Ping { request_id })
        } else {
            None
        };
    }
    let subscribes = text::same(op, "subscribe");
    if !subscribes && !text::same(op, "unsubscribe") {
        return None;
    }
    let subscriptions = read_subscriptions(json::find_list(value, "subscriptions")?)?;
    let names = vec!["op", "request_id", "subscriptions"];
    proof {
        assert(text::slices(names@) =~= seq!["op"@, "request_id"@, "subscriptions"@]);
    }
    if !only_has(value, &names) {
        None
    } else if subscribes {
        Some(ClientCommand::Subscribe { request_id, subscriptions })
    } else {
        Some(ClientCommand::Unsubscribe { request_id, subscriptions })
    }
}

// ---------------------------------------------------------------------------------------------
// Control messages
// ---------------------------------------------------------------------------------------------

/// The stable code of an error.
#[derive(Debug, Clone, Copy, PartialEq, Eq, Structural)]
pub enum ErrorCode {
    InvalidJson,
    InvalidCommand,
    LimitExceeded,
    UnsupportedSubscription,
    Lagged,
    Internal,
}

/// The name of a code.
pub open spec fn code_name(code: ErrorCode) -> Seq<char> {
    match code {
        ErrorCode::InvalidJson => "invalid_json"@,
        ErrorCode::InvalidCommand => "invalid_command"@,
        ErrorCode::LimitExceeded => "limit_exceeded"@,
        ErrorCode::UnsupportedSubscription => "unsupported_subscription"@,
        ErrorCode::Lagged => "lagged"@,
        ErrorCode::Internal => "internal"@,
    }
}

impl ErrorCode {
    /// The name of the code.
    pub fn name(self) -> (name: &'static str)
        ensures
            name@ == code_name(self),
    {
        match self {
            ErrorCode::InvalidJson => "invalid_json",
            ErrorCode::InvalidCommand => "invalid_command",
            ErrorCode::LimitExceeded => "limit_exceeded",
            ErrorCode::UnsupportedSubscription => "unsupported_subscription",
            ErrorCode::Lagged => "lagged",
            ErrorCode::Internal => "internal",
        }
    }
}

/// A message of the gateway about the stream itself.
#[allow(inconsistent_fields)]
#[derive(Debug, Clone)]
pub enum ControlMessage {
    Hello {
        schema_version: u16,
        stream_epoch: String,
        max_subscriptions: usize,
        /// The ceiling that is safe to apply uniformly to every provider.
        ///
        /// It is the minimum of the per-provider limits, so it understates capacity for permissive
        /// venues; prefer the list below.
        max_provider_subscriptions: usize,
        /// Exact ceiling per enabled provider.
        provider_subscription_limits: Vec<(Provider, usize)>,
    },
    Ack {
        schema_version: u16,
        request_id: String,
        operation: String,
        subscriptions: Vec<SubscriptionKey>,
    },
    Error {
        schema_version: u16,
        request_id: Option<String>,
        code: ErrorCode,
        message: String,
    },
    Pong { schema_version: u16, request_id: String },
    Gap { schema_version: u16, dropped_messages: u64, message: String },
}

/// The mathematical value of a control message.
#[allow(inconsistent_fields)]
pub enum ControlView {
    Hello {
        schema_version: u16,
        stream_epoch: Seq<char>,
        max_subscriptions: usize,
        max_provider_subscriptions: usize,
        provider_subscription_limits: Seq<(Provider, usize)>,
    },
    Ack {
        schema_version: u16,
        request_id: Seq<char>,
        operation: Seq<char>,
        subscriptions: Seq<KeyView>,
    },
    Error {
        schema_version: u16,
        request_id: Option<Seq<char>>,
        code: ErrorCode,
        message: Seq<char>,
    },
    Pong { schema_version: u16, request_id: Seq<char> },
    Gap { schema_version: u16, dropped_messages: u64, message: Seq<char> },
}

impl View for ControlMessage {
    type V = ControlView;

    open spec fn view(&self) -> ControlView {
        match self {
            ControlMessage::Hello {
                schema_version,
                stream_epoch,
                max_subscriptions,
                max_provider_subscriptions,
                provider_subscription_limits,
            } => ControlView::Hello {
                schema_version: *schema_version,
                stream_epoch: stream_epoch@,
                max_subscriptions: *max_subscriptions,
                max_provider_subscriptions: *max_provider_subscriptions,
                provider_subscription_limits: provider_subscription_limits@,
            },
            ControlMessage::Ack { schema_version, request_id, operation, subscriptions } =>
                ControlView::Ack {
                schema_version: *schema_version,
                request_id: request_id@,
                operation: operation@,
                subscriptions: domain::key_views(subscriptions@),
            },
            ControlMessage::Error { schema_version, request_id, code, message } =>
                ControlView::Error {
                schema_version: *schema_version,
                request_id: domain::text_view(*request_id),
                code: *code,
                message: message@,
            },
            ControlMessage::Pong { schema_version, request_id } => ControlView::Pong {
                schema_version: *schema_version,
                request_id: request_id@,
            },
            ControlMessage::Gap { schema_version, dropped_messages, message } => ControlView::Gap {
                schema_version: *schema_version,
                dropped_messages: *dropped_messages,
                message: message@,
            },
        }
    }
}

/// An error.
pub open spec fn error_of(
    request_id: Option<Seq<char>>,
    code: ErrorCode,
    message: Seq<char>,
) -> ControlView {
    ControlView::Error { schema_version: SCHEMA_VERSION, request_id, code, message }
}

/// The limits of venues as members of an object.
pub open spec fn limit_fields(list: Seq<(Provider, usize)>) -> wire::Fields {
    Seq::new(
        list.len(),
        |i: int|
            (domain::provider_name(list[i].0), json::unsigned_document(list[i].1 as u64)),
    )
}

/// The document of a control message.
pub open spec fn control_document(message: ControlView) -> JsonView {
    JsonView::Object(
        match message {
            ControlView::Hello {
                schema_version,
                stream_epoch,
                max_subscriptions,
                max_provider_subscriptions,
                provider_subscription_limits,
            } => wire::no_fields()
                .with("type"@, JsonView::Text("hello"@))
                .with("schema_version"@, json::unsigned_document(schema_version as u64))
                .with("stream_epoch"@, JsonView::Text(stream_epoch))
                .with("max_subscriptions"@, json::unsigned_document(max_subscriptions as u64))
                .with(
                    "max_provider_subscriptions"@,
                    json::unsigned_document(max_provider_subscriptions as u64),
                )
                .with(
                    "provider_subscription_limits"@,
                    JsonView::Object(limit_fields(provider_subscription_limits)),
                ),
            ControlView::Ack { schema_version, request_id, operation, subscriptions } =>
                wire::no_fields()
                .with("type"@, JsonView::Text("ack"@))
                .with("schema_version"@, json::unsigned_document(schema_version as u64))
                .with("request_id"@, JsonView::Text(request_id))
                .with("operation"@, JsonView::Text(operation))
                .with(
                    "subscriptions"@,
                    JsonView::List(
                        Seq::new(
                            subscriptions.len(),
                            |i: int| wire::key_document(subscriptions[i]),
                        ),
                    ),
                ),
            ControlView::Error { schema_version, request_id, code, message } => wire::no_fields()
                .with("type"@, JsonView::Text("error"@))
                .with("schema_version"@, json::unsigned_document(schema_version as u64))
                .with_some("request_id"@, wire::some_text(request_id))
                .with("code"@, JsonView::Text(code_name(code)))
                .with("message"@, JsonView::Text(message)),
            ControlView::Pong { schema_version, request_id } => wire::no_fields()
                .with("type"@, JsonView::Text("pong"@))
                .with("schema_version"@, json::unsigned_document(schema_version as u64))
                .with("request_id"@, JsonView::Text(request_id)),
            ControlView::Gap { schema_version, dropped_messages, message } => wire::no_fields()
                .with("type"@, JsonView::Text("gap"@))
                .with("schema_version"@, json::unsigned_document(schema_version as u64))
                .with("dropped_messages"@, json::unsigned_document(dropped_messages))
                .with("message"@, JsonView::Text(message)),
        },
    )
}

fn limits_json(list: &Vec<(Provider, usize)>) -> (value: Json)
    ensures
        value@ == JsonView::Object(limit_fields(list@)),
{
    let mut object = ObjectBuilder::new();
    let mut i: usize = 0;
    proof {
        assert(limit_fields(list@.take(0)) =~= wire::no_fields());
    }
    while i < list.len()
        invariant
            i <= list@.len(),
            object@ == limit_fields(list@.take(i as int)),
        decreases list.len() - i,
    {
        object.unsigned(list[i].0.name(), list[i].1 as u64);
        proof {
            assert(limit_fields(list@.take(i + 1)) =~= limit_fields(list@.take(i as int)).push(
                (
                    domain::provider_name(list@[i as int].0),
                    json::unsigned_document(list@[i as int].1 as u64),
                ),
            ));
        }
        i += 1;
    }
    proof {
        assert(list@.take(i as int) =~= list@);
    }
    object.finish()
}

fn keys_json(keys: &Vec<SubscriptionKey>) -> (value: Json)
    ensures
        value@ == JsonView::List(
            Seq::new(
                domain::key_views(keys@).len(),
                |i: int| wire::key_document(domain::key_views(keys@)[i]),
            ),
        ),
{
    let mut items: Vec<Json> = Vec::new();
    let mut i: usize = 0;
    while i < keys.len()
        invariant
            i <= keys@.len(),
            items@.len() == i,
            forall|k: int| 0 <= k < i ==> (#[trigger] items@[k])@ == wire::key_document(keys@[k]@),
        decreases keys.len() - i,
    {
        items.push(wire::key_json(&keys[i]));
        i += 1;
    }
    proof {
        assert(json::views(items@) =~= Seq::new(
            domain::key_views(keys@).len(),
            |i: int| wire::key_document(domain::key_views(keys@)[i]),
        ));
    }
    wire::list(items)
}

impl ControlMessage {
    /// The greeting, with the limits that hold.
    pub fn hello(stream_epoch: &str, max_subscriptions: usize, provider_limits: &ProviderLimits) -> (
        message: ControlMessage)
        ensures
            message@ matches ControlView::Hello {
                schema_version,
                stream_epoch: epoch,
                max_subscriptions: most,
                max_provider_subscriptions,
                provider_subscription_limits,
            } && {
                &&& schema_version == SCHEMA_VERSION
                &&& epoch == stream_epoch@
                &&& most == max_subscriptions
                &&& limits::is_least(
                    provider_limits@,
                    provider_limits.default_limit(),
                    max_provider_subscriptions,
                )
                &&& limits::declared(provider_subscription_limits) == provider_limits@
                &&& forall|i: int, j: int|
                    0 <= i < j < provider_subscription_limits.len() ==> keyset::provider_rank(
                        (#[trigger] provider_subscription_limits[i]).0,
                    ) < keyset::provider_rank((#[trigger] provider_subscription_limits[j]).0)
            },
    {
        ControlMessage::Hello {
            schema_version: SCHEMA_VERSION,
            stream_epoch: stream_epoch.to_owned(),
            max_subscriptions,
            max_provider_subscriptions: provider_limits.minimum(),
            provider_subscription_limits: provider_limits.entries(),
        }
    }

    /// An error.
    pub fn error(request_id: Option<String>, code: ErrorCode, message: &str) -> (control:
        ControlMessage)
        ensures
            control@ == error_of(domain::text_view(request_id), code, message@),
    {
        ControlMessage::Error {
            schema_version: SCHEMA_VERSION,
            request_id,
            code,
            message: message.to_owned(),
        }
    }

    /// The message as a document.
    pub fn to_json(&self) -> (value: Json)
        ensures
            value@ == control_document(self@),
    {
        let mut object = ObjectBuilder::new();
        match self {
            ControlMessage::Hello {
                schema_version,
                stream_epoch,
                max_subscriptions,
                max_provider_subscriptions,
                provider_subscription_limits,
            } => {
                object.text("type", "hello");
                object.unsigned("schema_version", *schema_version as u64);
                object.text("stream_epoch", stream_epoch.as_str());
                object.unsigned("max_subscriptions", *max_subscriptions as u64);
                object.unsigned("max_provider_subscriptions", *max_provider_subscriptions as u64);
                object.put(
                    "provider_subscription_limits",
                    limits_json(provider_subscription_limits),
                );
            },
            ControlMessage::Ack { schema_version, request_id, operation, subscriptions } => {
                object.text("type", "ack");
                object.unsigned("schema_version", *schema_version as u64);
                object.text("request_id", request_id.as_str());
                object.text("operation", operation.as_str());
                object.put("subscriptions", keys_json(subscriptions));
            },
            ControlMessage::Error { schema_version, request_id, code, message } => {
                object.text("type", "error");
                object.unsigned("schema_version", *schema_version as u64);
                object.some_text("request_id", request_id);
                object.text("code", code.name());
                object.text("message", message.as_str());
            },
            ControlMessage::Pong { schema_version, request_id } => {
                object.text("type", "pong");
                object.unsigned("schema_version", *schema_version as u64);
                object.text("request_id", request_id.as_str());
            },
            ControlMessage::Gap { schema_version, dropped_messages, message } => {
                object.text("type", "gap");
                object.unsigned("schema_version", *schema_version as u64);
                object.unsigned("dropped_messages", *dropped_messages);
                object.text("message", message.as_str());
            },
        }
        object.finish()
    }

    /// The text of the message.
    pub fn to_text(&self) -> (text: String)
        ensures
            text@ == json::text_of(control_document(self@)),
    {
        json::write(&self.to_json())
    }
}

// ---------------------------------------------------------------------------------------------
// Laws
// ---------------------------------------------------------------------------------------------

/// A command with a field that no command has is refused.
pub proof fn law_unknown_fields_are_refused(members: wire::Fields, i: int)
    requires
        0 <= i < members.len(),
        !seq!["op"@, "request_id"@, "subscriptions"@].contains(members[i].0),
    ensures
        command_of(JsonView::Object(members)) is None,
{
    let names = seq!["op"@, "request_id"@, "subscriptions"@];
    assert(names[0] == "op"@ && names[1] == "request_id"@ && names[2] == "subscriptions"@);
    assert(!seq!["op"@, "request_id"@].contains(members[i].0)) by {
        if seq!["op"@, "request_id"@].contains(members[i].0) {
            let k = seq!["op"@, "request_id"@].index_of(members[i].0);
            assert(names[k] == members[i].0);
        }
    }
}

/// A venue's name names the venue.
pub proof fn law_provider_names_read_back(provider: Provider)
    ensures
        named_provider(domain::provider_name(provider)) == Some(provider),
{
    reveal_strlit("bybit");
    reveal_strlit("binance");
    reveal_strlit("okx");
    reveal_strlit("kucoin");
    reveal_strlit("mexc");
    reveal_strlit("bingx");
    assert("bybit"@[1] != "binance"@[1]);
    assert("bybit"@[1] != "bingx"@[1]);
    assert("binance"@.len() != "bingx"@.len());
    assert("okx"@.len() != "bybit"@.len());
    assert("mexc"@.len() != "okx"@.len());
    assert("kucoin"@.len() != "mexc"@.len());
}

/// A key that clients are shown can be sent back: its venue, market, symbol and channel, as they
/// stand in its document, name the same venue, market, symbol and channel.
pub proof fn law_keys_can_be_sent_back(key: KeyView)
    ensures
        ({
            let shown = wire::key_document(key);
            &&& json::member_text(shown, "provider"@) is Some
            &&& named_provider(json::member_text(shown, "provider"@)->0) == Some(key.provider)
            &&& json::member_text(shown, "market"@) == Some("linear_perpetual"@)
            &&& json::member_text(shown, "symbol"@) == Some(key.symbol)
            &&& json::member_text(shown, "channel"@) is Some
            &&& named_channel(json::member_text(shown, "channel"@)->0) == Some(key.channel)
        }),
{
    law_provider_names_read_back(key.provider);
    reveal_strlit("provider");
    reveal_strlit("market");
    reveal_strlit("symbol");
    reveal_strlit("channel");
    reveal_strlit("ticker");
    reveal_strlit("candle_1m");
    assert("provider"@.len() != "market"@.len());
    assert("provider"@.len() != "channel"@.len());
    assert("market"@[0] != "symbol"@[0]);
    assert("market"@.len() != "channel"@.len());
    assert("ticker"@.len() != "candle_1m"@.len());
    let members = wire::key_document(key)->Object_0;
    reveal_with_fuel(json::named, 5);
    assert(members.len() == 4);
    assert(members.skip(1)[0] == members[1]);
    assert(members.skip(1).skip(1)[0] == members[2]);
    assert(members.skip(1).skip(1).skip(1)[0] == members[3]);
}

} // verus!
