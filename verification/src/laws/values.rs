//! What names, numbers and updates come to.
use vstd::prelude::*;

use super::documents::venue;
use crate::domain;
use crate::domain::{
    Channel, DomainErrorView, KeyView, MarketEventView, PayloadView, ProviderEventView,
    SubscriptionView,
};
use crate::text;
use crate::wire;

verus! {

// ---------------------------------------------------------------------------------------------
// Texts
// ---------------------------------------------------------------------------------------------

proof fn lemma_leading(s: Seq<char>) -> (i: int)
    ensures
        0 <= i <= s.len(),
        text::without_leading_white(s) == s.skip(i),
        forall|k: int| 0 <= k < i ==> text::is_white(#[trigger] s[k]),
        i < s.len() ==> !text::is_white(s[i]),
    decreases s.len(),
{
    if s.len() > 0 && text::is_white(s[0]) {
        let i = lemma_leading(s.skip(1));
        assert(s.skip(1).skip(i) =~= s.skip(i + 1));
        assert forall|k: int| 0 <= k < i + 1 implies text::is_white(#[trigger] s[k]) by {
            if k > 0 {
                assert(s.skip(1)[k - 1] == s[k]);
            }
        }
        if i + 1 < s.len() {
            assert(s.skip(1)[i] == s[i + 1]);
        }
        i + 1
    } else {
        assert(s.skip(0) =~= s);
        0
    }
}

proof fn lemma_trailing(s: Seq<char>) -> (j: int)
    ensures
        0 <= j <= s.len(),
        text::without_trailing_white(s) == s.take(j),
        forall|k: int| j <= k < s.len() ==> text::is_white(#[trigger] s[k]),
        0 < j ==> !text::is_white(s[j - 1]),
    decreases s.len(),
{
    if s.len() > 0 && text::is_white(s.last()) {
        let j = lemma_trailing(s.drop_last());
        assert(s.drop_last().take(j) =~= s.take(j));
        assert forall|k: int| j <= k < s.len() implies text::is_white(#[trigger] s[k]) by {
            if k < s.len() - 1 {
                assert(s.drop_last()[k] == s[k]);
            }
        }
        if 0 < j {
            assert(s.drop_last()[j - 1] == s[j - 1]);
        }
        j
    } else {
        assert(s.take(s.len() as int) =~= s);
        s.len() as int
    }
}

/// What is left of a text without the white space around it stands in the text. Before and after it
/// is nothing but white space, and it neither begins nor ends with any.
pub proof fn law_trimming_removes_white_space_at_the_ends(s: Seq<char>) -> (bounds: (int, int))
    ensures
        0 <= bounds.0 <= bounds.1 <= s.len(),
        text::trimmed(s) == s.subrange(bounds.0, bounds.1),
        forall|k: int|
            (0 <= k < bounds.0 || bounds.1 <= k < s.len()) ==> text::is_white(#[trigger] s[k]),
        bounds.0 < bounds.1 ==> !text::is_white(s[bounds.0]) && !text::is_white(s[bounds.1 - 1]),
{
    let i = lemma_leading(s);
    let rest = s.skip(i);
    let j = lemma_trailing(rest);
    assert(rest.take(j) =~= s.subrange(i, i + j));
    assert forall|k: int| i + j <= k < s.len() implies text::is_white(#[trigger] s[k]) by {
        assert(rest[k - i] == s[k]);
    }
    if 0 < j {
        assert(rest[j - 1] == s[i + j - 1]);
        assert(rest[0] == s[i]);
    }
    (i, i + j)
}

/// The symbol that a text names is the text without the white space around it and with capital
/// letters. There is one exactly if what is left is not empty, not longer than sixty-four bytes, and
/// made of letters, digits, hyphens, underscores and dots.
pub proof fn law_symbols_are_trimmed_capitals(s: Seq<char>)
    ensures
        ({
            let name = text::trimmed(s);
            &&& domain::symbol_identity(s) is Ok <==> {
                &&& name.len() > 0
                &&& text::byte_length(name) <= 64
                &&& forall|k: int|
                    0 <= k < name.len() ==> text::is_alphanumeric(#[trigger] name[k]) || name[k]
                        == '-' || name[k] == '_' || name[k] == '.'
            }
            &&& domain::symbol_identity(s) matches Ok(symbol) ==> symbol.len() == name.len()
                && forall|k: int|
                0 <= k < name.len() ==> (#[trigger] symbol[k]) as int == if 'a' <= name[k] <= 'z' {
                    name[k] as int - 32
                } else {
                    name[k] as int
                }
            &&& domain::symbol_identity(s) matches Err(error) ==> error
                == DomainErrorView::InvalidSymbol(name)
        }),
{
    let name = text::trimmed(s);
    assert forall|k: int| 0 <= k < name.len() implies #[trigger] domain::in_symbol_alphabet(name[k])
        == (text::is_alphanumeric(name[k]) || name[k] == '-' || name[k] == '_' || name[k]
        == '.') by {}
    if domain::is_symbol(name) {
        assert forall|k: int| 0 <= k < name.len() implies text::is_alphanumeric(#[trigger] name[k])
            || name[k] == '-' || name[k] == '_' || name[k] == '.' by {
            assert(domain::in_symbol_alphabet(name[k]));
        }
    }
}

/// The digits of a number are digits, have its value, and do not begin with a zero unless there is
/// nothing else.
pub proof fn law_digits_have_the_value(n: nat)
    ensures
        ({
            let written = text::digits(n);
            &&& written.len() > 0
            &&& forall|k: int| 0 <= k < written.len() ==> '0' <= #[trigger] written[k] <= '9'
            &&& text::digits_value(written) == n
            &&& written[0] == '0' ==> n == 0
            &&& written.last() as int == '0' as int + n % 10
        }),
    decreases n,
{
    let written = text::digits(n);
    if n < 10 {
        assert(written.drop_last() =~= Seq::<char>::empty());
        reveal_with_fuel(text::digits_value, 2);
    } else {
        law_digits_have_the_value(n / 10);
        let front = text::digits(n / 10);
        assert(written.drop_last() =~= front);
        assert forall|k: int| 0 <= k < written.len() implies '0' <= #[trigger] written[k]
            <= '9' by {
            if k < front.len() {
                assert(written[k] == front[k]);
            }
        }
        assert(written[0] == front[0]);
    }
}

/// The value of hexadecimal digits.
pub open spec fn hex_value(s: Seq<char>) -> nat
    decreases s.len(),
{
    if s.len() == 0 {
        0
    } else {
        let c = s.last();
        hex_value(s.drop_last()) * 16 + if '0' <= c <= '9' {
            (c as int - '0' as int) as nat
        } else {
            (c as int - 'a' as int + 10) as nat
        }
    }
}

proof fn lemma_hex(n: nat, count: nat, bound: nat)
    requires
        n < bound,
        bound == vstd::arithmetic::power::pow(16, count),
    ensures
        hex_value(text::hex_digits(n, count)) == n,
        text::hex_digits(n, count).len() == count,
    decreases count,
{
    if count > 0 {
        let less = (count - 1) as nat;
        let smaller = vstd::arithmetic::power::pow(16, less);
        assert(bound == 16 * smaller) by {
            reveal(vstd::arithmetic::power::pow);
        }
        vstd::arithmetic::power::lemma_pow_positive(16, less);
        assert(n / 16 < smaller);
        lemma_hex(n / 16, less, smaller as nat);
        let digits = text::hex_digits(n, count);
        assert(digits.drop_last() =~= text::hex_digits(n / 16, less));
    } else {
        assert(bound == 1) by {
            reveal(vstd::arithmetic::power::pow);
        }
    }
}

/// An identifier is thirty-two hexadecimal digits with the value of its number, in groups of eight,
/// four, four, four and twelve with hyphens between.
pub proof fn law_identifiers_are_grouped_digits(n: u128)
    ensures
        ({
            let shown = wire::uuid(n);
            &&& shown.len() == 36
            &&& shown[8] == '-' && shown[13] == '-' && shown[18] == '-' && shown[23] == '-'
            &&& hex_value(
                shown.subrange(0, 8) + shown.subrange(9, 13) + shown.subrange(14, 18)
                    + shown.subrange(19, 23) + shown.subrange(24, 36),
            ) == n
        }),
{
    let digits = text::hex_digits(n as nat, 32);
    assert(vstd::arithmetic::power::pow(16, 32) == u128::MAX + 1) by {
        reveal(vstd::arithmetic::power::pow);
        reveal_with_fuel(vstd::arithmetic::power::pow, 33);
    }
    lemma_hex(n as nat, 32, (u128::MAX + 1) as nat);
    let shown = wire::uuid(n);
    reveal_strlit("-");
    assert(shown.subrange(0, 8) =~= digits.subrange(0, 8));
    assert(shown.subrange(9, 13) =~= digits.subrange(8, 12));
    assert(shown.subrange(14, 18) =~= digits.subrange(12, 16));
    assert(shown.subrange(19, 23) =~= digits.subrange(16, 20));
    assert(shown.subrange(24, 36) =~= digits.subrange(20, 32));
    assert(shown.subrange(0, 8) + shown.subrange(9, 13) + shown.subrange(14, 18) + shown.subrange(
        19,
        23,
    ) + shown.subrange(24, 36) =~= digits);
}

// ---------------------------------------------------------------------------------------------
// Subscriptions and updates
// ---------------------------------------------------------------------------------------------

/// A subscription comes to one key for each channel that it names, with the symbol that its text
/// names. One without a channel, or with a text that names no symbol, comes to none.
pub proof fn law_subscriptions_come_to_keys(subscription: SubscriptionView)
    ensures
        domain::expanded(subscription) is Ok <==> subscription.channels.len() > 0
            && domain::symbol_identity(subscription.symbol) is Ok,
        domain::expanded(subscription) matches Ok(keys) ==> {
            &&& keys.no_duplicates()
            &&& forall|key: KeyView| #[trigger]
                keys.contains(key) <==> {
                    &&& key.provider == subscription.provider
                    &&& key.market == subscription.market
                    &&& domain::symbol_identity(subscription.symbol) == Ok::<
                        Seq<char>,
                        DomainErrorView,
                    >(key.symbol)
                    &&& subscription.channels.contains(key.channel)
                }
        },
{
    if let Ok(keys) = domain::expanded(subscription) {
        let symbol = domain::symbol_identity(subscription.symbol)->Ok_0;
        let ticker = KeyView {
            provider: subscription.provider,
            market: subscription.market,
            symbol,
            channel: Channel::Ticker,
        };
        let candle = KeyView { channel: Channel::Candle1m, ..ticker };
        let tickers = subscription.channels.contains(Channel::Ticker);
        let candles = subscription.channels.contains(Channel::Candle1m);
        if tickers && candles {
            assert(keys =~= seq![ticker, candle]);
            assert(keys[0] == ticker && keys[1] == candle);
        } else if tickers {
            assert(keys =~= seq![ticker]);
            assert(keys[0] == ticker);
        } else if candles {
            assert(keys =~= seq![candle]);
            assert(keys[0] == candle);
        } else {
            assert(keys =~= Seq::empty());
        }
        assert forall|key: KeyView| #[trigger] keys.contains(key) <==> {
            &&& key.provider == subscription.provider
            &&& key.market == subscription.market
            &&& key.symbol == symbol
            &&& subscription.channels.contains(key.channel)
        } by {
            match key.channel {
                Channel::Ticker => {
                    if key == ticker && tickers {
                        assert(keys[0] == key);
                    }
                },
                Channel::Candle1m => {
                    if key == candle && candles {
                        assert(keys[keys.len() - 1] == key);
                    }
                },
            }
        }
    }
}

/// An update goes out with everything that the venue said of it, under the identifier of its
/// instrument, with the number and the epoch of the stream.
pub proof fn law_updates_go_out_as_they_came(
    event: ProviderEventView,
    stream_epoch: u128,
    delivery_sequence: u64,
)
    ensures
        domain::numbered(event, stream_epoch, delivery_sequence) == (MarketEventView {
            schema_version: 1,
            stream_epoch,
            delivery_sequence,
            connection_epoch: event.connection_epoch,
            instrument_id: venue(event.provider) + ":"@ + "linear_perpetual"@ + ":"@
                + event.symbol,
            provider: event.provider,
            market: event.market,
            symbol: event.symbol,
            exchange_time_ms: event.exchange_time_ms,
            gateway_received_time_ms: event.gateway_received_time_ms,
            source_sequence: event.source_sequence,
            payload: event.payload,
        }),
{
}

/// An update is for those who asked for its venue, its instrument and its kind.
pub proof fn law_updates_are_for_their_key(event: ProviderEventView)
    ensures
        domain::event_key(event) == (KeyView {
            provider: event.provider,
            market: event.market,
            symbol: event.symbol,
            channel: match event.payload {
                PayloadView::Ticker(_) => Channel::Ticker,
                PayloadView::Candle(_) => Channel::Candle1m,
            },
        }),
{
}

/// A ticker is fit for delivery exactly if it has a price, and a candle exactly if it covers one
/// minute.
pub proof fn law_fit_updates(payload: PayloadView)
    ensures
        domain::payload_problem(payload) is None <==> match payload {
            PayloadView::Ticker(ticker) => ticker.last is Some || ticker.mark is Some
                || ticker.index is Some || ticker.bid is Some || ticker.ask is Some,
            PayloadView::Candle(candle) => candle.interval == "1m"@ && candle.end_time_ms
                == candle.start_time_ms + 60_000,
        },
{
}

} // verus!
