//! What the library promises as a whole, said of the messages that come in and the answers that go
//! out.
pub mod binance;
pub mod bingx;
pub mod bybit;
pub mod candles;
pub mod catalogs;
pub mod clients;
pub mod connections;
pub mod contracts;
pub mod documents;
pub mod faults;
pub mod histories;
pub mod instruments;
pub mod kucoin;
pub mod listings;
pub mod mexc;
pub mod okx;
pub mod operations;
pub mod readings;
pub mod refusals;
pub mod retrievals;
pub mod sessions;
pub mod sources;
pub mod streams;
pub mod texts;
pub mod values;

use vstd::prelude::*;

use crate::domain::{KeyView, ObservedView, Provider};
use crate::json;
use crate::json::{JsonView, LayoutView};
use crate::providers;
use crate::providers::{AdapterErrorView, FrameView};
use crate::text;

verus! {

/// Whether an object has a text of that name.
pub open spec fn says(object: JsonView, name: Seq<char>, text: Seq<char>) -> bool {
    json::member_of(object, name) == Some(JsonView::Text(text))
}

/// Whether an object has an unsigned number of that name.
pub open spec fn counts(object: JsonView, name: Seq<char>, n: u64) -> bool {
    match json::member_of(object, name) {
        Some(JsonView::Number(number)) => number.unsigned == Some(n),
        _ => false,
    }
}

/// Whether an object has a signed number of that name.
pub open spec fn tallies(object: JsonView, name: Seq<char>, n: i64) -> bool {
    match json::member_of(object, name) {
        Some(JsonView::Number(number)) => number.signed == Some(n),
        _ => false,
    }
}

/// Whether an object has a truth value of that name.
pub open spec fn holds(object: JsonView, name: Seq<char>, flag: bool) -> bool {
    json::member_of(object, name) == Some(JsonView::Bool(flag))
}

/// Whether an object has a text of that name with at least one character, or nothing that counts
/// as one.
pub open spec fn offers(object: JsonView, name: Seq<char>, text: Option<Seq<char>>) -> bool {
    match text {
        Some(text) => says(object, name, text) && text.len() > 0,
        None => match json::member_of(object, name) {
            None => true,
            Some(value) => value == JsonView::Null || value == JsonView::Text(Seq::empty()),
        },
    }
}

/// What is known after a text was offered at a time, or nothing was.
pub open spec fn latest(
    text: Option<Seq<char>>,
    time: u64,
    before: Option<ObservedView>,
) -> Option<ObservedView> {
    match text {
        Some(value) => Some(ObservedView { value, observed_at_ms: time }),
        None => before,
    }
}

/// Whether a text that is offered is a decimal.
pub open spec fn decimal_or_none(text: Option<Seq<char>>) -> bool {
    text matches Some(value) ==> crate::decimal::decimal_of(value) is Some
}

/// Whether an outcome says that the venue refused a command.
pub open spec fn is_rejection(
    outcome: Result<FrameView, AdapterErrorView>,
    venue: Provider,
) -> bool {
    match outcome {
        Err(AdapterErrorView::CommandRejected { provider, .. }) => provider == venue,
        _ => false,
    }
}

/// Where every item passes, none is complained about.
pub proof fn lemma_no_complaint(
    items: Seq<JsonView>,
    check: spec_fn(JsonView) -> Option<Seq<char>>,
)
    requires
        forall|i: int| 0 <= i < items.len() ==> check(#[trigger] items[i]) is None,
    ensures
        providers::first_complaint(items, check) is None,
    decreases items.len(),
{
    if items.len() > 0 {
        lemma_no_complaint(items.drop_last(), check);
    }
}

/// Where none is complained about, every item passes.
pub proof fn lemma_every_item_passes(
    items: Seq<JsonView>,
    check: spec_fn(JsonView) -> Option<Seq<char>>,
    i: int,
)
    requires
        providers::first_complaint(items, check) is None,
        0 <= i < items.len(),
    ensures
        check(items[i]) is None,
    decreases items.len(),
{
    if i < items.len() - 1 {
        lemma_every_item_passes(items.drop_last(), check, i);
    }
}

// ---------------------------------------------------------------------------------------------
// Records that are objects
// ---------------------------------------------------------------------------------------------

/// Members with the same names are found at the same place.
pub proof fn lemma_named_alike(
    members: Seq<(Seq<char>, JsonView)>,
    others: Seq<(Seq<char>, JsonView)>,
    name: Seq<char>,
)
    requires
        members.len() == others.len(),
        forall|i: int| 0 <= i < members.len() ==> (#[trigger] members[i]).0 == others[i].0,
    ensures
        json::named(members, name) is None ==> json::named(others, name) is None,
        json::named(members, name) is Some ==> exists|i: int|
            0 <= i < members.len() && #[trigger] members[i] == (
                name,
                json::named(members, name)->0,
            ) && others[i].0 == name && json::named(others, name) == Some(others[i].1),
    decreases members.len(),
{
    if members.len() > 0 && members[0].0 != name {
        let rest = members.skip(1);
        let other = others.skip(1);
        assert forall|i: int| 0 <= i < rest.len() implies (#[trigger] rest[i]).0 == other[i].0 by {
            assert(rest[i] == members[i + 1] && other[i] == others[i + 1]);
        }
        lemma_named_alike(rest, other, name);
        if json::named(rest, name) is Some {
            let i = choose|i: int|
                0 <= i < rest.len() && #[trigger] rest[i] == (name, json::named(rest, name)->0)
                    && other[i].0 == name && json::named(other, name) == Some(other[i].1);
            assert(members[i + 1] == rest[i] && others[i + 1] == other[i]);
        }
    } else if members.len() > 0 {
        assert(members[0] == (name, json::named(members, name)->0));
    }
}

/// A field stands at its place.
pub proof fn lemma_field_place(fields: Seq<(Seq<char>, LayoutView)>, name: Seq<char>)
    ensures
        0 <= json::field_place(fields, name) <= fields.len(),
        json::field_place(fields, name) < fields.len() ==> fields[json::field_place(
            fields,
            name,
        )].0 == name,
    decreases fields.len(),
{
    if fields.len() > 0 && fields[0].0 != name {
        lemma_field_place(fields.skip(1), name);
    }
}

/// An object is a record of plain fields as it stands.
pub proof fn lemma_flat_object(value: JsonView, names: Seq<char>, least: nat)
    requires
        value is Object,
    ensures
        json::arranged(value, json::flat(names, least)) == value,
{
    let layout = json::flat(names, least);
    let fields = layout->Record_0;
    let after = json::arranged(value, layout);
    let members = value->Object_0;
    assert forall|i: int| 0 <= i < members.len() implies #[trigger] after->Object_0[i]
        == members[i] by {
        let at = json::field_place(fields, members[i].0);
        lemma_field_place(fields, members[i].0);
        if at < fields.len() {
            assert(fields[at].1 == LayoutView::Plain);
            assert(json::arranged(members[i].1, LayoutView::Plain) == members[i].1);
        }
    }
    assert(after->Object_0 =~= members);
}

/// A list of objects is a list of records of plain fields as it stands.
pub proof fn lemma_flat_objects(items: Seq<JsonView>, names: Seq<char>, least: nat)
    requires
        forall|i: int| 0 <= i < items.len() ==> #[trigger] items[i] is Object,
    ensures
        json::arranged(
            JsonView::List(items),
            LayoutView::Each(Box::new(json::flat(names, least))),
        ) == JsonView::List(items),
{
    let layout = json::flat(names, least);
    let after = json::arranged(JsonView::List(items), LayoutView::Each(Box::new(layout)));
    assert forall|i: int| 0 <= i < items.len() implies #[trigger] after->List_0[i] == items[i] by {
        lemma_flat_object(items[i], names, least);
    }
    assert(after->List_0 =~= items);
}

/// An object is a record with one inner layout as it stands, but for the field of that layout.
pub proof fn lemma_nested_object(
    value: JsonView,
    names: Seq<char>,
    least: nat,
    field: Seq<char>,
    inner: LayoutView,
    name: Seq<char>,
)
    requires
        value is Object,
    ensures
        ({
            let after = json::arranged(
                value,
                json::with_field(json::flat(names, least), field, inner),
            );
            &&& after is Object
            &&& name != field ==> json::member_of(after, name) == json::member_of(value, name)
            &&& json::member_of(value, field) is None ==> json::member_of(after, field) is None
            &&& json::member_of(value, field) matches Some(part) ==> json::member_of(after, field)
                == Some(part) || json::member_of(after, field) == Some(json::arranged(part, inner))
        }),
{
    let layout = json::with_field(json::flat(names, least), field, inner);
    let fields = layout->Record_0;
    let plain = json::flat(names, least)->Record_0;
    let members = value->Object_0;
    let after = json::arranged(value, layout);
    let others = after->Object_0;
    assert(layout is Record);
    lemma_field_place(plain, field);
    lemma_field_place(fields, name);
    lemma_field_place(fields, field);
    assert(others.len() == members.len());
    assert forall|i: int| 0 <= i < members.len() implies (#[trigger] members[i]).0
        == others[i].0 by {}
    lemma_named_alike(members, others, name);
    lemma_named_alike(members, others, field);
    assert forall|i: int| 0 <= i < members.len() implies ({
        let at = json::field_place(fields, (#[trigger] members[i]).0);
        others[i].1 == if 0 <= at < fields.len() {
            json::arranged(members[i].1, fields[at].1)
        } else {
            members[i].1
        }
    }) by {}
    assert forall|k: int| 0 <= k < fields.len() implies (#[trigger] fields[k]).1
        == LayoutView::Plain || (fields[k].0 == field && fields[k].1 == inner) by {}
}

// ---------------------------------------------------------------------------------------------
// Texts
// ---------------------------------------------------------------------------------------------

/// What follows a prefix is found again.
pub proof fn lemma_prefixed(prefix: Seq<char>, name: Seq<char>)
    ensures
        text::begins_with(prefix + name, prefix),
        text::after_prefix(prefix + name, prefix) == Some(name),
{
    assert((prefix + name).take(prefix.len() as int) =~= prefix);
    assert((prefix + name).skip(prefix.len() as int) =~= name);
}

/// What precedes a suffix is found again.
pub proof fn lemma_suffixed(name: Seq<char>, suffix: Seq<char>)
    ensures
        text::finishes_with(name + suffix, suffix),
        text::before_suffix(name + suffix, suffix) == Some(name),
{
    assert((name + suffix).skip(name.len() as int) =~= suffix);
    assert((name + suffix).take(name.len() as int) =~= name);
}

/// A text that starts with one prefix starts with no other one that differs from it at some place.
pub proof fn lemma_other_prefix(prefix: Seq<char>, name: Seq<char>, other: Seq<char>, at: int)
    requires
        0 <= at < prefix.len(),
        at < other.len(),
        prefix[at] != other[at],
    ensures
        !text::begins_with(prefix + name, other),
{
    if text::begins_with(prefix + name, other) {
        assert((prefix + name).take(other.len() as int)[at] == prefix[at]);
    }
}

/// A text that ends with one suffix ends with no other one that differs from it at some place,
/// counted from the end.
pub proof fn lemma_other_suffix(name: Seq<char>, suffix: Seq<char>, other: Seq<char>, at: int)
    requires
        0 < at <= suffix.len(),
        at <= other.len(),
        suffix[suffix.len() - at] != other[other.len() - at],
    ensures
        !text::finishes_with(name + suffix, other),
{
    if text::finishes_with(name + suffix, other) {
        let all = name + suffix;
        assert(all.skip(all.len() - other.len())[other.len() - at] == suffix[suffix.len() - at]);
    }
}

// ---------------------------------------------------------------------------------------------
// Commands
// ---------------------------------------------------------------------------------------------

/// Whether a run of keys has one of another venue.
pub open spec fn has_foreign(provider: Provider, keys: Seq<KeyView>) -> bool {
    exists|i: int| 0 <= i < keys.len() && (#[trigger] keys[i]).provider != provider
}

/// Keys are refused exactly if one is of another venue.
pub proof fn lemma_foreign(provider: Provider, keys: Seq<KeyView>)
    ensures
        (providers::foreign_problem(provider, keys) is Some) == has_foreign(provider, keys),
        0 <= providers::first_foreign(provider, keys) <= keys.len(),
    decreases keys.len(),
{
    if keys.len() > 0 {
        lemma_foreign(provider, keys.skip(1));
        if keys[0].provider == provider {
            if has_foreign(provider, keys) {
                let i = choose|i: int| 0 <= i < keys.len() && (#[trigger] keys[i]).provider
                    != provider;
                assert(keys.skip(1)[i - 1] == keys[i]);
                assert(has_foreign(provider, keys.skip(1)));
            }
            if has_foreign(provider, keys.skip(1)) {
                let i = choose|i: int| 0 <= i < keys.skip(1).len() && (#[trigger] keys.skip(
                    1,
                )[i]).provider != provider;
                assert(keys[i + 1] == keys.skip(1)[i]);
            }
        }
    }
}

/// What a list holds once new items were added to it.
pub proof fn lemma_all_new<T>(list: Seq<T>, items: Seq<T>, item: T)
    ensures
        providers::with_all_new(list, items).contains(item) == (list.contains(item)
            || items.contains(item)),
    decreases items.len(),
{
    if items.len() > 0 {
        let rest = items.drop_last();
        let before = providers::with_all_new(list, rest);
        lemma_all_new(list, rest, item);
        lemma_pushed(before, items.last(), item);
        lemma_pushed(rest, items.last(), item);
        assert(rest.push(items.last()) =~= items);
        if before.contains(items.last()) && item == items.last() {
            assert(before.contains(item));
        }
    }
}

/// What a list holds once an item was added to it.
pub proof fn lemma_pushed<T>(list: Seq<T>, last: T, item: T)
    ensures
        list.push(last).contains(item) == (list.contains(item) || item == last),
{
    if list.contains(item) {
        let i = choose|i: int| 0 <= i < list.len() && list[i] == item;
        assert(list.push(last)[i] == item);
    }
    if item == last {
        assert(list.push(last)[list.len() as int] == item);
    }
    if list.push(last).contains(item) && item != last {
        let i = choose|i: int| 0 <= i < list.push(last).len() && list.push(last)[i] == item;
        assert(list[i] == item);
    }
}

/// Whether one of the keys has a native topic.
pub open spec fn some_topic(keys: Seq<KeyView>, topic: Seq<char>) -> bool {
    exists|i: int|
        0 <= i < keys.len() && providers::native_topics(#[trigger] keys[i]).contains(topic)
}

/// The topics of keys are those of each of them.
pub proof fn lemma_gathered(keys: Seq<KeyView>, topic: Seq<char>)
    ensures
        providers::gathered(keys).contains(topic) == some_topic(keys, topic),
    decreases keys.len(),
{
    if keys.len() > 0 {
        let rest = keys.drop_last();
        lemma_gathered(rest, topic);
        lemma_all_new(
            providers::gathered(rest),
            providers::native_topics(keys.last()),
            topic,
        );
        if some_topic(keys, topic) {
            let i = choose|i: int|
                0 <= i < keys.len() && providers::native_topics(#[trigger] keys[i]).contains(topic);
            if i < rest.len() {
                assert(rest[i] == keys[i]);
            }
        }
        if some_topic(rest, topic) {
            let i = choose|i: int|
                0 <= i < rest.len() && providers::native_topics(#[trigger] rest[i]).contains(topic);
            assert(keys[i] == rest[i]);
        }
        if providers::native_topics(keys.last()).contains(topic) {
            assert(providers::native_topics(keys[keys.len() - 1]).contains(topic));
        }
    }
}

/// Whether one of some parts has an item.
pub open spec fn in_some_part<T>(parts: Seq<Seq<T>>, item: T) -> bool {
    exists|i: int| 0 <= i < parts.len() && (#[trigger] parts[i]).contains(item)
}

/// What parts hold together is what one of them holds.
pub proof fn lemma_joined<T>(parts: Seq<Seq<T>>, item: T)
    ensures
        providers::joined(parts).contains(item) == in_some_part(parts, item),
    decreases parts.len(),
{
    if parts.len() > 0 {
        let rest = parts.skip(1);
        let all = parts[0] + providers::joined(rest);
        lemma_joined(rest, item);
        if in_some_part(parts, item) {
            let i = choose|i: int| 0 <= i < parts.len() && (#[trigger] parts[i]).contains(item);
            if i > 0 {
                assert(rest[i - 1] == parts[i]);
            }
        }
        if in_some_part(rest, item) {
            let i = choose|i: int| 0 <= i < rest.len() && (#[trigger] rest[i]).contains(item);
            assert(parts[i + 1] == rest[i]);
        }
        if parts[0].contains(item) {
            let k = choose|k: int| 0 <= k < parts[0].len() && parts[0][k] == item;
            assert(all[k] == item);
        }
        if providers::joined(rest).contains(item) {
            let k = choose|k: int|
                0 <= k < providers::joined(rest).len() && providers::joined(rest)[k] == item;
            assert(all[parts[0].len() + k] == item);
        }
        if all.contains(item) {
            let k = choose|k: int| 0 <= k < all.len() && all[k] == item;
            if k < parts[0].len() {
                assert(parts[0][k] == item);
            } else {
                assert(providers::joined(rest)[k - parts[0].len()] == item);
            }
        }
    }
}

} // verus!
