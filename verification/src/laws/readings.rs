//! How a text is read part by part.
use vstd::prelude::*;

use crate::json;
use crate::json::reading;
use crate::json::{JsonView, LayoutView};
use crate::text;

verus! {

/// The space in front of a text is passed over, up to the place that is given back.
pub proof fn law_space_is_passed_over(s: Seq<char>) -> (at: int)
    ensures
        0 <= at <= s.len(),
        reading::unspaced(s) == s.skip(at),
        forall|i: int|
            0 <= i < at ==> #[trigger] s[i] == ' ' || s[i] == '\n' || s[i] == '\t' || s[i] == '\r',
        at < s.len() ==> s[at] != ' ' && s[at] != '\n' && s[at] != '\t' && s[at] != '\r',
    decreases s.len(),
{
    if s.len() > 0 && reading::is_space(s[0]) {
        let rest = s.skip(1);
        let at = law_space_is_passed_over(rest) + 1;
        assert(rest.skip(at - 1) =~= s.skip(at));
        assert forall|i: int| 0 <= i < at implies #[trigger] s[i] == ' ' || s[i] == '\n' || s[i]
            == '\t' || s[i] == '\r' by {
            if i > 0 {
                assert(rest[i - 1] == s[i]);
            }
        }
        if at < s.len() {
            assert(rest[at - 1] == s[at]);
        }
        at
    } else {
        assert(s.skip(0) =~= s);
        0
    }
}

/// Whether a text goes on, after space, with a character and then another text.
pub open spec fn goes_on(text: Seq<char>, c: char, rest: Seq<char>) -> bool {
    reading::unspaced(text) == seq![c] + rest
}

proof fn lemma_goes_on(text: Seq<char>, c: char, rest: Seq<char>)
    requires
        goes_on(text, c, rest),
    ensures
        reading::starts(reading::unspaced(text), c),
        reading::unspaced(text).skip(1) == rest,
        rest.len() < text.len(),
        forall|other: char|
            other != c ==> !#[trigger] reading::starts(reading::unspaced(text), other),
{
    reading::lemma_unspaced(text);
    let body = reading::unspaced(text);
    assert(body[0] == c);
    assert(body.skip(1) =~= rest);
}

/// A document is read as it stands, and what stands behind it is left.
pub proof fn law_documents_are_read(
    text: Seq<char>,
    document: Seq<char>,
    rest: Seq<char>,
    value: JsonView,
)
    requires
        reading::leading_document(reading::unspaced(text)) == Some((document, rest)),
        json::document_of(document) == Ok::<JsonView, Seq<char>>(value),
    ensures
        reading::read_as(text, LayoutView::Plain) == Some((value, rest)),
        reading::read_as(text, LayoutView::Raw) == Some((JsonView::Text(document), rest)),
{
}

/// A name is a text before a colon.
pub proof fn law_names_stand_before_a_colon(
    text: Seq<char>,
    document: Seq<char>,
    rest: Seq<char>,
    name: Seq<char>,
    body: Seq<char>,
)
    requires
        reading::leading_document(reading::unspaced(text)) == Some((document, rest)),
        json::document_of(document) == Ok::<JsonView, Seq<char>>(JsonView::Text(name)),
        goes_on(rest, ':', body),
    ensures
        reading::name_at(text) == Some((name, body)),
{
    lemma_goes_on(rest, ':', body);
}

/// A text is a document of a layout where nothing but space stands behind it.
pub proof fn law_nothing_stands_behind_a_document(
    text: Seq<char>,
    layout: LayoutView,
    value: JsonView,
    rest: Seq<char>,
)
    requires
        reading::read_as(text, layout) == Some((value, rest)),
    ensures
        reading::laid_out(text, layout) is Ok <==> reading::unspaced(rest).len() == 0,
        reading::laid_out(text, layout) matches Ok(read) ==> read == value,
{
}

// ---------------------------------------------------------------------------------------------
// Arrays
// ---------------------------------------------------------------------------------------------

/// Whether a text holds values one after the other, with commas between them and a bracket behind the
/// last: from each place a value is read, and the next place is behind the comma.
pub open spec fn holds_items(
    places: Seq<Seq<char>>,
    rests: Seq<Seq<char>>,
    item: LayoutView,
    values: Seq<JsonView>,
    after: Seq<char>,
) -> bool {
    &&& places.len() == values.len()
    &&& rests.len() == values.len()
    &&& values.len() > 0
    &&& forall|k: int|
        0 <= k < values.len() ==> reading::read_as(#[trigger] places[k], item) == Some(
            (values[k], rests[k]),
        )
    &&& forall|k: int| 0 <= k < values.len() ==> (#[trigger] rests[k]).len() < places[k].len()
    &&& forall|k: int|
        0 <= k < values.len() - 1 ==> goes_on(#[trigger] rests[k], ',', places[k + 1])
    &&& goes_on(rests.last(), ']', after)
}

proof fn lemma_items(
    places: Seq<Seq<char>>,
    rests: Seq<Seq<char>>,
    item: LayoutView,
    values: Seq<JsonView>,
    after: Seq<char>,
    k: int,
)
    requires
        holds_items(places, rests, item, values, after),
        0 <= k < values.len(),
    ensures
        reading::items_at(places[k], item, values.take(k)) == Some((values, after)),
    decreases values.len() - k,
{
    assert(reading::read_as(places[k], item) == Some((values[k], rests[k])));
    assert(rests[k].len() < places[k].len());
    assert(values.take(k).push(values[k]) =~= values.take(k + 1));
    if k == values.len() - 1 {
        assert(rests[k] == rests.last());
        lemma_goes_on(rests[k], ']', after);
        assert(values.take(k + 1) =~= values);
    } else {
        assert(goes_on(rests[k], ',', places[k + 1]));
        lemma_goes_on(rests[k], ',', places[k + 1]);
        lemma_items(places, rests, item, values, after, k + 1);
    }
}

/// An array is read as the list of its values, each of them, in their order.
pub proof fn law_arrays_are_read_value_by_value(
    text: Seq<char>,
    inner: Seq<char>,
    places: Seq<Seq<char>>,
    rests: Seq<Seq<char>>,
    item: LayoutView,
    values: Seq<JsonView>,
    after: Seq<char>,
)
    requires
        goes_on(text, '[', inner),
        reading::unspaced(inner) == places[0],
        places[0].len() > 0,
        places[0][0] != ']',
        holds_items(places, rests, item, values, after),
    ensures
        reading::read_as(text, LayoutView::Each(Box::new(item))) == Some(
            (JsonView::List(values), after),
        ),
{
    reveal_with_fuel(reading::read_as, 2);
    reveal_with_fuel(reading::list_at, 2);
    lemma_goes_on(text, '[', inner);
    lemma_items(places, rests, item, values, after, 0);
    assert(values.take(0) =~= Seq::<JsonView>::empty());
}

/// An empty array is read as an empty list, and an empty object as an empty one.
pub proof fn law_empty_brackets(text: Seq<char>, inner: Seq<char>, after: Seq<char>)
    ensures
        goes_on(text, '[', inner) && goes_on(inner, ']', after) ==> reading::read_as(
            text,
            LayoutView::Each(Box::new(LayoutView::Raw)),
        ) == Some((JsonView::List(Seq::empty()), after)),
        goes_on(text, '{', inner) && goes_on(inner, '}', after) ==> reading::read_as(
            text,
            LayoutView::Record(Seq::empty(), 0),
        ) == Some((JsonView::Object(Seq::empty()), after)),
{
    reveal_with_fuel(reading::read_as, 2);
    reveal_with_fuel(reading::list_at, 2);
    reveal_with_fuel(reading::object_at, 2);
    if goes_on(text, '[', inner) && goes_on(inner, ']', after) {
        lemma_goes_on(text, '[', inner);
        lemma_goes_on(inner, ']', after);
    }
    if goes_on(text, '{', inner) && goes_on(inner, '}', after) {
        lemma_goes_on(text, '{', inner);
        lemma_goes_on(inner, '}', after);
    }
}

// ---------------------------------------------------------------------------------------------
// Objects
// ---------------------------------------------------------------------------------------------

/// Whether a value is read from a body: by the layout of the field of that name, or, where there is no
/// such field, as it stands.
pub open spec fn is_value(
    fields: Seq<(Seq<char>, LayoutView)>,
    name: Seq<char>,
    body: Seq<char>,
    value: JsonView,
    rest: Seq<char>,
) -> bool {
    &&& forall|j: int|
        0 <= j < fields.len() && (#[trigger] fields[j]).0 == name ==> reading::read_as(
            body,
            fields[j].1,
        ) == Some((value, rest))
    &&& (forall|j: int| 0 <= j < fields.len() ==> (#[trigger] fields[j]).0 != name)
        ==> exists|document: Seq<char>|
        reading::leading_document(reading::unspaced(body)) == Some((document, rest))
            && #[trigger] json::document_of(document) == Ok::<JsonView, Seq<char>>(value)
}

/// Whether a text holds members one after the other, with commas between them and a brace behind the
/// last, and no name twice.
pub open spec fn holds_members(
    places: Seq<Seq<char>>,
    bodies: Seq<Seq<char>>,
    rests: Seq<Seq<char>>,
    fields: Seq<(Seq<char>, LayoutView)>,
    members: Seq<(Seq<char>, JsonView)>,
    after: Seq<char>,
) -> bool {
    &&& places.len() == members.len()
    &&& bodies.len() == members.len()
    &&& rests.len() == members.len()
    &&& members.len() > 0
    &&& forall|k: int|
        0 <= k < members.len() ==> reading::name_at(#[trigger] places[k]) == Some(
            (members[k].0, bodies[k]),
        )
    &&& forall|k: int|
        0 <= k < members.len() ==> is_value(
            fields,
            members[k].0,
            #[trigger] bodies[k],
            members[k].1,
            rests[k],
        )
    &&& forall|k: int| 0 <= k < members.len() ==> (#[trigger] bodies[k]).len() < places[k].len()
    &&& forall|k: int| 0 <= k < members.len() ==> (#[trigger] rests[k]).len() < places[k].len()
    &&& forall|k: int|
        0 <= k < members.len() - 1 ==> goes_on(#[trigger] rests[k], ',', places[k + 1])
    &&& goes_on(rests.last(), '}', after)
    &&& forall|i: int, j: int|
        0 <= i < j < members.len() ==> (#[trigger] members[i]).0 != (#[trigger] members[j]).0
}

proof fn lemma_unnamed(members: Seq<(Seq<char>, JsonView)>, name: Seq<char>)
    requires
        forall|i: int| 0 <= i < members.len() ==> (#[trigger] members[i]).0 != name,
    ensures
        json::named(members, name) is None,
    decreases members.len(),
{
    if members.len() > 0 {
        let rest = members.skip(1);
        assert forall|i: int| 0 <= i < rest.len() implies (#[trigger] rest[i]).0 != name by {
            assert(rest[i] == members[i + 1]);
        }
        lemma_unnamed(rest, name);
    }
}

proof fn lemma_place(fields: Seq<(Seq<char>, LayoutView)>, name: Seq<char>)
    ensures
        0 <= json::field_place(fields, name) <= fields.len(),
        json::field_place(fields, name) < fields.len() ==> fields[json::field_place(
            fields,
            name,
        )].0 == name,
        json::field_place(fields, name) == fields.len() ==> forall|j: int|
            0 <= j < fields.len() ==> (#[trigger] fields[j]).0 != name,
    decreases fields.len(),
{
    if fields.len() > 0 && fields[0].0 != name {
        let rest = fields.skip(1);
        lemma_place(rest, name);
        let at = json::field_place(rest, name);
        if at < rest.len() {
            assert(rest[at] == fields[at + 1]);
        } else {
            assert forall|j: int| 0 <= j < fields.len() implies (#[trigger] fields[j]).0 != name by {
                if j > 0 {
                    assert(rest[j - 1] == fields[j]);
                }
            }
        }
    }
}

proof fn lemma_members(
    places: Seq<Seq<char>>,
    bodies: Seq<Seq<char>>,
    rests: Seq<Seq<char>>,
    fields: Seq<(Seq<char>, LayoutView)>,
    members: Seq<(Seq<char>, JsonView)>,
    after: Seq<char>,
    k: int,
)
    requires
        holds_members(places, bodies, rests, fields, members, after),
        0 <= k < members.len(),
    ensures
        reading::members_at(places[k], fields, members.take(k)) == Some((members, after)),
    decreases members.len() - k,
{
    let name = members[k].0;
    let before = members.take(k);
    assert(reading::name_at(places[k]) == Some((name, bodies[k])));
    assert(is_value(fields, name, bodies[k], members[k].1, rests[k]));
    assert(bodies[k].len() < places[k].len());
    assert(rests[k].len() < places[k].len());
    assert forall|i: int| 0 <= i < before.len() implies (#[trigger] before[i]).0 != name by {
        assert(before[i] == members[i]);
    }
    lemma_unnamed(before, name);
    lemma_place(fields, name);
    let at = json::field_place(fields, name);
    if at < fields.len() {
        assert(fields[at].0 == name);
        assert(reading::read_as(bodies[k], fields[at].1) == Some((members[k].1, rests[k])));
    } else {
        assert(reading::unread(reading::unspaced(bodies[k])) == Some((members[k].1, rests[k])));
    }
    assert(before.push((name, members[k].1)) =~= members.take(k + 1));
    if k == members.len() - 1 {
        assert(rests[k] == rests.last());
        lemma_goes_on(rests[k], '}', after);
        assert(members.take(k + 1) =~= members);
    } else {
        assert(goes_on(rests[k], ',', places[k + 1]));
        lemma_goes_on(rests[k], ',', places[k + 1]);
        lemma_members(places, bodies, rests, fields, members, after, k + 1);
    }
}

/// An object is read as its members, each of them under its name, in their order.
pub proof fn law_objects_are_read_member_by_member(
    text: Seq<char>,
    inner: Seq<char>,
    places: Seq<Seq<char>>,
    bodies: Seq<Seq<char>>,
    rests: Seq<Seq<char>>,
    fields: Seq<(Seq<char>, LayoutView)>,
    least: nat,
    members: Seq<(Seq<char>, JsonView)>,
    after: Seq<char>,
)
    requires
        goes_on(text, '{', inner),
        reading::unspaced(inner) == places[0],
        places[0].len() > 0,
        places[0][0] != '}',
        holds_members(places, bodies, rests, fields, members, after),
    ensures
        reading::read_as(text, LayoutView::Record(fields, least)) == Some(
            (JsonView::Object(members), after),
        ),
{
    reveal_with_fuel(reading::read_as, 2);
    reveal_with_fuel(reading::object_at, 2);
    lemma_goes_on(text, '{', inner);
    lemma_members(places, bodies, rests, fields, members, after, 0);
    assert(members.take(0) =~= Seq::<(Seq<char>, JsonView)>::empty());
}

// ---------------------------------------------------------------------------------------------
// Arrays that stand for objects
// ---------------------------------------------------------------------------------------------

/// Whether a text holds the values of fields one after the other, in the order of the fields.
pub open spec fn holds_values(
    places: Seq<Seq<char>>,
    rests: Seq<Seq<char>>,
    fields: Seq<(Seq<char>, LayoutView)>,
    values: Seq<JsonView>,
    after: Seq<char>,
) -> bool {
    &&& places.len() == values.len()
    &&& rests.len() == values.len()
    &&& 0 < values.len() <= fields.len()
    &&& forall|k: int|
        0 <= k < values.len() ==> reading::read_as(#[trigger] places[k], fields[k].1) == Some(
            (values[k], rests[k]),
        )
    &&& forall|k: int| 0 <= k < values.len() ==> (#[trigger] rests[k]).len() < places[k].len()
    &&& forall|k: int|
        0 <= k < values.len() - 1 ==> goes_on(#[trigger] rests[k], ',', places[k + 1])
    &&& goes_on(rests.last(), ']', after)
}

/// The members of fields with values.
pub open spec fn under_names(fields: Seq<(Seq<char>, LayoutView)>, values: Seq<JsonView>) -> Seq<
    (Seq<char>, JsonView),
> {
    Seq::new(values.len(), |k: int| (fields[k].0, values[k]))
}

proof fn lemma_values(
    places: Seq<Seq<char>>,
    rests: Seq<Seq<char>>,
    fields: Seq<(Seq<char>, LayoutView)>,
    values: Seq<JsonView>,
    after: Seq<char>,
    k: int,
)
    requires
        holds_values(places, rests, fields, values, after),
        0 <= k < values.len(),
    ensures
        reading::values_at(places[k], fields, under_names(fields, values).take(k)) == Some(
            (under_names(fields, values), after),
        ),
    decreases values.len() - k,
{
    let all = under_names(fields, values);
    assert(reading::read_as(places[k], fields[k].1) == Some((values[k], rests[k])));
    assert(rests[k].len() < places[k].len());
    assert(all.take(k).len() == k);
    assert(all.take(k).push((fields[k].0, values[k])) =~= all.take(k + 1));
    if k == values.len() - 1 {
        assert(rests[k] == rests.last());
        lemma_goes_on(rests[k], ']', after);
        assert(all.take(k + 1) =~= all);
    } else {
        assert(goes_on(rests[k], ',', places[k + 1]));
        lemma_goes_on(rests[k], ',', places[k + 1]);
        lemma_values(places, rests, fields, values, after, k + 1);
    }
}

/// An array that stands for an object is read as one: each value under the name of the field at its place,
/// where there are enough of them.
pub proof fn law_arrays_may_stand_for_objects(
    text: Seq<char>,
    inner: Seq<char>,
    places: Seq<Seq<char>>,
    rests: Seq<Seq<char>>,
    fields: Seq<(Seq<char>, LayoutView)>,
    least: nat,
    values: Seq<JsonView>,
    after: Seq<char>,
)
    requires
        goes_on(text, '[', inner),
        reading::unspaced(inner) == places[0],
        places[0].len() > 0,
        places[0][0] != ']',
        holds_values(places, rests, fields, values, after),
    ensures
        values.len() >= least ==> reading::read_as(text, LayoutView::Record(fields, least)) == Some(
            (JsonView::Object(under_names(fields, values)), after),
        ),
        values.len() < least ==> reading::read_as(text, LayoutView::Record(fields, least)) is None,
{
    reveal_with_fuel(reading::read_as, 2);
    reveal_with_fuel(reading::record_at, 2);
    lemma_goes_on(text, '[', inner);
    lemma_values(places, rests, fields, values, after, 0);
    assert(under_names(fields, values).take(0) =~= Seq::<(Seq<char>, JsonView)>::empty());
}

/// A list of values that stands for an object with plain fields has each of them under the name at its
/// place.
pub proof fn law_lists_may_stand_for_objects(names: Seq<char>, least: nat, items: Seq<JsonView>)
    requires
        least <= items.len() <= text::pieces(names, ',').len(),
    ensures
        json::arranged(JsonView::List(items), json::flat(names, least)) == JsonView::Object(
            Seq::new(items.len(), |k: int| (text::pieces(names, ',')[k], items[k])),
        ),
{
    let fields = json::fields_named(names, LayoutView::Plain);
    let wanted = Seq::new(items.len(), |k: int| (text::pieces(names, ',')[k], items[k]));
    let record = json::record_of(JsonView::List(items), fields, least);
    assert(record->Object_0 =~= wanted);
    let value = json::arranged(JsonView::List(items), json::flat(names, least));
    assert forall|k: int| 0 <= k < items.len() implies #[trigger] value->Object_0[k]
        == wanted[k] by {
        let at = json::field_place(fields, wanted[k].0);
        if 0 <= at < fields.len() {
            assert(fields[at].1 == LayoutView::Plain);
            assert(json::arranged(wanted[k].1, fields[at].1) == wanted[k].1);
        }
    }
    assert(value->Object_0 =~= wanted);
}

/// A number is written as its digits, and read as the number that it is.
pub proof fn law_numbers_are_themselves(n: u64)
    ensures
        json::unsigned_document(n) matches JsonView::Number(number) ==> number.unsigned == Some(n)
            && number.text == text::digits(n as nat) && (n <= i64::MAX ==> number.signed == Some(
            n as i64,
        )),
        json::unsigned_document(n) is Number,
{
}

} // verus!
