//! Reading texts as documents of a known layout, in which no field of a record comes twice.
use vstd::prelude::*;

use crate::json;
use crate::json::{Field, Json, JsonView, Layout, LayoutView, Member};
use crate::text;

verus! {

broadcast use vstd::string::group_string_axioms;

// ---------------------------------------------------------------------------------------------
// Documents at the start of a text
// ---------------------------------------------------------------------------------------------

/// What `serde_json` reads over at the start of a text: the text of one document, with the white
/// space before it, and the rest of the text.
pub uninterp spec fn leading_document(text: Seq<char>) -> Option<(Seq<char>, Seq<char>)>;

/// Outside function: a step of `serde_json`'s `StreamDeserializer` that ignores the document that it
/// reads. What is read over depends on the text alone; it is a beginning of the text that is not
/// empty.
#[verifier::external_body]
pub(crate) fn leading<'a>(text: &'a str) -> (parts: Option<(&'a str, &'a str)>)
    ensures
        match parts {
            Some((document, rest)) => {
                &&& leading_document(text@) == Some((document@, rest@))
                &&& document@ + rest@ == text@
                &&& document@.len() > 0
            },
            None => leading_document(text@) is None,
        },
{
    let mut stream = serde_json::Deserializer::from_str(text).into_iter::<serde::de::IgnoredAny>();
    match stream.next() {
        Some(Ok(_)) => Some(text.split_at(stream.byte_offset())),
        _ => None,
    }
}

/// Whether a character stands between the parts of a document without a meaning.
pub open spec fn is_space(c: char) -> bool {
    c == ' ' || c == '\n' || c == '\t' || c == '\r'
}

/// A text without the space that it begins with.
pub open spec fn unspaced(text: Seq<char>) -> Seq<char>
    decreases text.len(),
{
    if text.len() > 0 && is_space(text[0]) {
        unspaced(text.skip(1))
    } else {
        text
    }
}

/// Whether a text begins with a character.
pub open spec fn starts(text: Seq<char>, c: char) -> bool {
    text.len() > 0 && text[0] == c
}

/// A text is no shorter than what is left of it without space.
pub proof fn lemma_unspaced(text: Seq<char>)
    ensures
        unspaced(text).len() <= text.len(),
    decreases text.len(),
{
    if text.len() > 0 && is_space(text[0]) {
        lemma_unspaced(text.skip(1));
    }
}

/// A text without the space that it begins with.
pub(crate) fn without_space<'a>(text: &'a str) -> (rest: &'a str)
    ensures
        rest@ == unspaced(text@),
        rest@.len() <= text@.len(),
{
    let mut rest: &'a str = text;
    loop
        invariant
            unspaced(rest@) == unspaced(text@),
            rest@.len() <= text@.len(),
        decreases rest@.len(),
    {
        let next = match text::after_character(rest, ' ') {
            Some(next) => Some(next),
            None => match text::after_character(rest, '\n') {
                Some(next) => Some(next),
                None => match text::after_character(rest, '\t') {
                    Some(next) => Some(next),
                    None => text::after_character(rest, '\r'),
                },
            },
        };
        match next {
            Some(next) => {
                rest = next;
            },
            None => {
                return rest;
            },
        }
    }
}

/// The document at the start of a text, and the rest.
pub open spec fn leaf(text: Seq<char>) -> Option<(JsonView, Seq<char>)> {
    match leading_document(text) {
        Some((document, rest)) => match json::document_of(document) {
            Ok(value) => Some((value, rest)),
            Err(_) => None,
        },
        None => None,
    }
}

/// The text of the document at the start of a text, and the rest.
pub open spec fn raw(text: Seq<char>) -> Option<(JsonView, Seq<char>)> {
    match leading_document(text) {
        Some((document, rest)) => Some((JsonView::Text(document), rest)),
        None => None,
    }
}

/// The document at the start of a text where it is one, and the rest, whatever it is.
pub open spec fn unread(text: Seq<char>) -> Option<(JsonView, Seq<char>)> {
    match leading_document(text) {
        Some((document, rest)) => Some(
            (
                match json::document_of(document) {
                    Ok(value) => value,
                    Err(_) => JsonView::Null,
                },
                rest,
            ),
        ),
        None => None,
    }
}

/// Whether a result is what is read at the start of a text. What is read takes a part of the text.
pub open spec fn gives(
    r: Option<(Json, &str)>,
    text: Seq<char>,
    wanted: Option<(JsonView, Seq<char>)>,
) -> bool {
    match r {
        Some((value, rest)) => wanted == Some((value@, rest@)) && rest@.len() < text.len(),
        None => wanted is None,
    }
}

/// Read the document at the start of a text.
pub(crate) fn read_leaf<'a>(text: &'a str) -> (r: Option<(Json, &'a str)>)
    ensures
        gives(r, text@, leaf(text@)),
{
    let (document, rest) = leading(text)?;
    match json::read(document) {
        Ok(value) => Some((value, rest)),
        Err(_) => None,
    }
}

fn read_raw<'a>(text: &'a str) -> (r: Option<(Json, &'a str)>)
    ensures
        gives(r, text@, raw(text@)),
{
    let (document, rest) = leading(text)?;
    Some((Json::Text(document.to_owned()), rest))
}

fn read_over<'a>(text: &'a str) -> (r: Option<(Json, &'a str)>)
    ensures
        gives(r, text@, unread(text@)),
{
    let (document, rest) = leading(text)?;
    match json::read(document) {
        Ok(value) => Some((value, rest)),
        Err(_) => Some((Json::Null, rest)),
    }
}

// ---------------------------------------------------------------------------------------------
// Records
// ---------------------------------------------------------------------------------------------

/// The document that a text begins with, read as its layout says, and the rest of the text. A
/// record with a field that comes twice is none, nor is an array that does not fit the fields of
/// its record. A member that is no field of its record is read over.
pub open spec fn read_as(text: Seq<char>, layout: LayoutView) -> Option<(JsonView, Seq<char>)>
    decreases text.len(), 0nat, layout,
{
    let body = unspaced(text);
    proof {
        lemma_unspaced(text);
        lemma_unspaced(body.skip(1));
    }
    match layout {
        LayoutView::Plain => leaf(body),
        LayoutView::Raw => raw(body),
        LayoutView::Whole(part) => if leaf(body) is Some {
            read_as(body, *part)
        } else {
            None
        },
        LayoutView::Each(item) => if starts(body, '[') {
            list_at(unspaced(body.skip(1)), *item)
        } else {
            leaf(body)
        },
        LayoutView::Record(fields, least) => if starts(body, '{') {
            object_at(unspaced(body.skip(1)), fields)
        } else if starts(body, '[') {
            record_at(unspaced(body.skip(1)), fields, least)
        } else {
            leaf(body)
        },
    }
}

/// What comes after the bracket of an array whose items are laid out alike.
pub open spec fn list_at(text: Seq<char>, item: LayoutView) -> Option<(JsonView, Seq<char>)>
    decreases text.len(), 2nat, item,
{
    if starts(text, ']') {
        Some((JsonView::List(Seq::empty()), text.skip(1)))
    } else {
        match items_at(text, item, Seq::empty()) {
            Some((list, rest)) => Some((JsonView::List(list), rest)),
            None => None,
        }
    }
}

/// The items of an array from one of them on, after those before.
pub open spec fn items_at(text: Seq<char>, item: LayoutView, before: Seq<JsonView>) -> Option<
    (Seq<JsonView>, Seq<char>),
>
    decreases text.len(), 1nat, item,
{
    match read_as(text, item) {
        Some((value, rest)) => {
            let next = unspaced(rest);
            let all = before.push(value);
            proof {
                lemma_unspaced(rest);
            }
            if rest.len() >= text.len() {
                None
            } else if starts(next, ',') {
                items_at(next.skip(1), item, all)
            } else if starts(next, ']') {
                Some((all, next.skip(1)))
            } else {
                None
            }
        },
        None => None,
    }
}

/// What comes after the bracket of an array that stands for a record.
pub open spec fn record_at(
    text: Seq<char>,
    fields: Seq<(Seq<char>, LayoutView)>,
    least: nat,
) -> Option<(JsonView, Seq<char>)>
    decreases text.len(), 2nat, fields,
{
    let values = if starts(text, ']') {
        Some((Seq::empty(), text.skip(1)))
    } else {
        values_at(text, fields, Seq::empty())
    };
    match values {
        Some((members, rest)) => if members.len() >= least {
            Some((JsonView::Object(members), rest))
        } else {
            None
        },
        None => None,
    }
}

/// The fields of a record whose values stand in an array, from one of them on, after those before.
pub open spec fn values_at(
    text: Seq<char>,
    fields: Seq<(Seq<char>, LayoutView)>,
    before: Seq<(Seq<char>, JsonView)>,
) -> Option<(Seq<(Seq<char>, JsonView)>, Seq<char>)>
    decreases text.len(), 1nat, fields,
{
    if before.len() >= fields.len() {
        None
    } else {
        let (name, layout) = fields[before.len() as int];
        match read_as(text, layout) {
            Some((value, rest)) => {
                let next = unspaced(rest);
                let all = before.push((name, value));
                proof {
                    lemma_unspaced(rest);
                }
                if rest.len() >= text.len() {
                    None
                } else if starts(next, ',') {
                    values_at(next.skip(1), fields, all)
                } else if starts(next, ']') {
                    Some((all, next.skip(1)))
                } else {
                    None
                }
            },
            None => None,
        }
    }
}

/// What comes after the brace of an object.
pub open spec fn object_at(text: Seq<char>, fields: Seq<(Seq<char>, LayoutView)>) -> Option<
    (JsonView, Seq<char>),
>
    decreases text.len(), 2nat, fields,
{
    if starts(text, '}') {
        Some((JsonView::Object(Seq::empty()), text.skip(1)))
    } else {
        match members_at(text, fields, Seq::empty()) {
            Some((members, rest)) => Some((JsonView::Object(members), rest)),
            None => None,
        }
    }
}

/// The name that a member begins with, and what comes after its colon.
pub open spec fn name_at(text: Seq<char>) -> Option<(Seq<char>, Seq<char>)> {
    match leaf(unspaced(text)) {
        Some((JsonView::Text(name), rest)) => if starts(unspaced(rest), ':') {
            Some((name, unspaced(rest).skip(1)))
        } else {
            None
        },
        _ => None,
    }
}

/// The members of an object from one of them on, after those before. A field comes once.
pub open spec fn members_at(
    text: Seq<char>,
    fields: Seq<(Seq<char>, LayoutView)>,
    before: Seq<(Seq<char>, JsonView)>,
) -> Option<(Seq<(Seq<char>, JsonView)>, Seq<char>)>
    decreases text.len(), 1nat, fields,
{
    match name_at(text) {
        Some((name, body)) => {
            let at = json::field_place(fields, name);
            let known = 0 <= at < fields.len();
            let part = if body.len() >= text.len() || (known && json::named(before, name) is Some) {
                None
            } else if known {
                read_as(body, fields[at].1)
            } else {
                unread(unspaced(body))
            };
            match part {
                Some((value, rest)) => {
                    let next = unspaced(rest);
                    let all = before.push((name, value));
                    proof {
                        lemma_unspaced(rest);
                    }
                    if rest.len() >= text.len() {
                        None
                    } else if starts(next, ',') {
                        members_at(next.skip(1), fields, all)
                    } else if starts(next, '}') {
                        Some((all, next.skip(1)))
                    } else {
                        None
                    }
                },
                None => None,
            }
        },
        None => None,
    }
}

/// The document that a text is, read as its layout says.
pub open spec fn document_as(text: Seq<char>, layout: LayoutView) -> Option<JsonView> {
    match read_as(text, layout) {
        Some((value, rest)) => if unspaced(rest).len() == 0 {
            Some(value)
        } else {
            None
        },
        None => None,
    }
}

/// The values of members.
spec fn member_views(list: Seq<Member>) -> Seq<(Seq<char>, JsonView)> {
    Seq::new(list.len(), |i: int| (list[i].name@, list[i].value@))
}

/// The values of fields.
spec fn field_views(fields: Vec<Field>) -> Seq<(Seq<char>, LayoutView)> {
    json::layout_view(Layout::Record(fields, 0))->Record_0
}

/// Where the values of the fields of a layout stand.
proof fn lemma_field_views(fields: Vec<Field>, least: usize)
    ensures
        field_views(fields).len() == fields@.len(),
        forall|i: int|
            0 <= i < fields@.len() ==> #[trigger] field_views(fields)[i] == (
                fields@[i].name@,
                json::layout_view(fields@[i].layout),
            ),
        json::layout_view(Layout::Record(fields, least)) == LayoutView::Record(
            field_views(fields),
            least as nat,
        ),
{
    assert(json::layout_view(Layout::Record(fields, least))->Record_0 =~= field_views(fields));
}

/// Read the name that a member begins with.
pub(crate) fn read_name<'a>(text: &'a str) -> (r: Option<(String, &'a str)>)
    ensures
        match r {
            Some((name, body)) => name_at(text@) == Some((name@, body@)) && body@.len()
                < text@.len(),
            None => name_at(text@) is None,
        },
{
    let (value, rest) = read_leaf(without_space(text))?;
    let body = text::after_character(without_space(rest), ':')?;
    match value {
        Json::Text(name) => Some((name, body)),
        _ => None,
    }
}

fn has_member(list: &Vec<Member>, name: &str) -> (answer: bool)
    ensures
        answer == (json::named(member_views(list@), name@) is Some),
{
    let ghost all = member_views(list@);
    let mut i: usize = 0;
    proof {
        assert(all.skip(0) =~= all);
    }
    while i < list.len()
        invariant
            i <= list@.len(),
            all == member_views(list@),
            (json::named(all, name@) is Some) == (json::named(all.skip(i as int), name@) is Some),
        decreases list.len() - i,
    {
        proof {
            assert(all.skip(i as int)[0] == all[i as int]);
            assert(all.skip(i as int).skip(1) =~= all.skip(i + 1));
        }
        if text::same(list[i].name.as_str(), name) {
            return true;
        }
        i += 1;
    }
    false
}

fn read_list<'a>(text: &'a str, item: &Layout) -> (r: Option<(Json, &'a str)>)
    ensures
        gives(r, text@, list_at(text@, item@)),
    decreases text@.len(), 2nat, item,
{
    let mut list: Vec<Json> = Vec::new();
    if let Some(rest) = text::after_character(text, ']') {
        let value = Json::List(list);
        proof {
            assert(value@->List_0 =~= Seq::empty());
        }
        return Some((value, rest));
    }
    let mut rest: &'a str = text;
    proof {
        assert(json::views(list@) =~= Seq::empty());
    }
    loop
        invariant
            rest@.len() <= text@.len(),
            !starts(text@, ']'),
            items_at(rest@, item@, json::views(list@)) == items_at(
                text@,
                item@,
                Seq::empty(),
            ),
        decreases rest@.len(),
    {
        let ghost before = json::views(list@);
        let (value, after) = read_layout(rest, item)?;
        let next = without_space(after);
        let ghost fresh = value@;
        list.push(value);
        proof {
            assert(json::views(list@) =~= before.push(fresh));
        }
        if let Some(more) = text::after_character(next, ',') {
            rest = more;
        } else {
            let end = text::after_character(next, ']')?;
            let value = Json::List(list);
            proof {
                assert(value@->List_0 =~= json::views(list@));
            }
            return Some((value, end));
        }
    }
}

fn read_record<'a>(text: &'a str, fields: &Vec<Field>, least: usize) -> (r: Option<
    (Json, &'a str),
>)
    ensures
        gives(r, text@, record_at(text@, field_views(*fields), least as nat)),
    decreases text@.len(), 2nat, fields,
{
    let ghost all = field_views(*fields);
    let mut list: Vec<Member> = Vec::new();
    proof {
        lemma_field_views(*fields, least);
        assert(member_views(list@) =~= Seq::empty());
    }
    if let Some(rest) = text::after_character(text, ']') {
        if least > 0 {
            return None;
        }
        let value = Json::Object(list);
        proof {
            assert(value@->Object_0 =~= Seq::empty());
        }
        return Some((value, rest));
    }
    let mut rest: &'a str = text;
    loop
        invariant
            rest@.len() <= text@.len(),
            !starts(text@, ']'),
            all == field_views(*fields),
            all.len() == fields@.len(),
            forall|i: int|
                0 <= i < fields@.len() ==> #[trigger] all[i] == (
                    fields@[i].name@,
                    json::layout_view(fields@[i].layout),
                ),
            values_at(rest@, all, member_views(list@)) == values_at(text@, all, Seq::empty()),
        decreases rest@.len(),
    {
        let at = list.len();
        if at >= fields.len() {
            return None;
        }
        let ghost before = member_views(list@);
        let (value, after) = read_layout(rest, &fields[at].layout)?;
        let next = without_space(after);
        let ghost fresh = value@;
        list.push(Member { name: fields[at].name.to_owned(), value });
        proof {
            assert(member_views(list@) =~= before.push((all[at as int].0, fresh)));
        }
        if let Some(more) = text::after_character(next, ',') {
            rest = more;
        } else {
            let end = text::after_character(next, ']')?;
            if list.len() < least {
                return None;
            }
            let value = Json::Object(list);
            proof {
                assert(value@->Object_0 =~= member_views(list@));
            }
            return Some((value, end));
        }
    }
}

fn read_object<'a>(text: &'a str, fields: &Vec<Field>) -> (r: Option<(Json, &'a str)>)
    ensures
        gives(r, text@, object_at(text@, field_views(*fields))),
    decreases text@.len(), 2nat, fields,
{
    let ghost all = field_views(*fields);
    let mut list: Vec<Member> = Vec::new();
    proof {
        lemma_field_views(*fields, 0);
        assert(member_views(list@) =~= Seq::empty());
    }
    if let Some(rest) = text::after_character(text, '}') {
        let value = Json::Object(list);
        proof {
            assert(value@->Object_0 =~= Seq::empty());
        }
        return Some((value, rest));
    }
    let mut rest: &'a str = text;
    loop
        invariant
            rest@.len() <= text@.len(),
            !starts(text@, '}'),
            all == field_views(*fields),
            all.len() == fields@.len(),
            all == json::layout_view(Layout::Record(*fields, 0))->Record_0,
            forall|i: int|
                0 <= i < fields@.len() ==> #[trigger] all[i] == (
                    fields@[i].name@,
                    json::layout_view(fields@[i].layout),
                ),
            members_at(rest@, all, member_views(list@)) == members_at(text@, all, Seq::empty()),
        decreases rest@.len(),
    {
        let ghost before = member_views(list@);
        let (name, body) = read_name(rest)?;
        let at = json::place_of(fields, name.as_str());
        let part = if at < fields.len() {
            if has_member(&list, name.as_str()) {
                return None;
            }
            read_layout(body, &fields[at].layout)
        } else {
            read_over(without_space(body))
        };
        let (value, after) = part?;
        let next = without_space(after);
        let ghost fresh = (name@, value@);
        list.push(Member { name, value });
        proof {
            assert(member_views(list@) =~= before.push(fresh));
        }
        if let Some(more) = text::after_character(next, ',') {
            rest = more;
        } else {
            let end = text::after_character(next, '}')?;
            let value = Json::Object(list);
            proof {
                assert(value@->Object_0 =~= member_views(list@));
            }
            return Some((value, end));
        }
    }
}

fn read_layout<'a>(text: &'a str, layout: &Layout) -> (r: Option<(Json, &'a str)>)
    ensures
        gives(r, text@, read_as(text@, layout@)),
    decreases text@.len(), 0nat, layout,
{
    let body = without_space(text);
    match layout {
        Layout::Plain => read_leaf(body),
        Layout::Raw => read_raw(body),
        Layout::Whole(part) => {
            let _whole = read_leaf(body)?;
            read_layout(body, &**part)
        },
        Layout::Each(item) => match text::after_character(body, '[') {
            Some(inner) => read_list(without_space(inner), &**item),
            None => read_leaf(body),
        },
        Layout::Record(fields, least) => {
            proof {
                lemma_field_views(*fields, *least);
            }
            match text::after_character(body, '{') {
                Some(inner) => read_object(without_space(inner), fields),
                None => match text::after_character(body, '[') {
                    Some(inner) => read_record(without_space(inner), fields, *least),
                    None => read_leaf(body),
                },
            }
        },
    }
}

/// Why a text is no document of a layout.
pub open spec fn fault_in(text: Seq<char>) -> Seq<char> {
    match json::document_of(text) {
        Ok(_) => "the document is laid out in another way"@,
        Err(message) => message,
    }
}

/// The document of a layout that a text is, or why it is none.
pub open spec fn laid_out(text: Seq<char>, layout: LayoutView) -> Result<JsonView, Seq<char>> {
    match document_as(text, layout) {
        Some(value) => Ok(value),
        None => Err(fault_in(text)),
    }
}

/// What is read, as a value.
pub open spec fn outcome(r: Result<Json, String>) -> Result<JsonView, Seq<char>> {
    match r {
        Ok(value) => Ok(value@),
        Err(message) => Err(message@),
    }
}

/// Whether a result is what is read.
pub open spec fn reads(r: Result<Json, String>, value: Result<JsonView, Seq<char>>) -> bool {
    value == outcome(r)
}

/// Read a text as a document of a layout.
///
/// # Errors
///
/// Says why the text is none.
pub fn read(text: &str, layout: &Layout) -> (r: Result<Json, String>)
    ensures
        reads(r, laid_out(text@, layout@)),
{
    if let Some((value, rest)) = read_layout(text, layout) {
        if without_space(rest).is_empty() {
            return Ok(value);
        }
    }
    match json::read(text) {
        Ok(_) => Err("the document is laid out in another way".to_owned()),
        Err(message) => Err(message),
    }
}

// ---------------------------------------------------------------------------------------------
// Laws
// ---------------------------------------------------------------------------------------------

/// Whether no two members of an object are the same field of a record.
pub open spec fn fields_once(
    members: Seq<(Seq<char>, JsonView)>,
    fields: Seq<(Seq<char>, LayoutView)>,
) -> bool {
    forall|i: int, j: int|
        0 <= i < j < members.len() && (#[trigger] members[i]).0 == (#[trigger] members[j]).0
            ==> json::field_place(fields, members[i].0) >= fields.len()
}

/// A member that is not found has no place.
proof fn lemma_not_named(members: Seq<(Seq<char>, JsonView)>, name: Seq<char>, i: int)
    requires
        json::named(members, name) is None,
        0 <= i < members.len(),
    ensures
        members[i].0 != name,
    decreases members.len(),
{
    if i > 0 {
        lemma_not_named(members.skip(1), name, i - 1);
    }
}

/// Where no field has come twice, none comes twice later.
proof fn lemma_fields_once(
    text: Seq<char>,
    fields: Seq<(Seq<char>, LayoutView)>,
    before: Seq<(Seq<char>, JsonView)>,
)
    requires
        fields_once(before, fields),
    ensures
        members_at(text, fields, before) matches Some((members, _)) ==> fields_once(
            members,
            fields,
        ),
    decreases text.len(),
{
    if let Some((name, body)) = name_at(text) {
        let at = json::field_place(fields, name);
        let known = 0 <= at < fields.len();
        let part = if body.len() >= text.len() || (known && json::named(before, name) is Some) {
            None
        } else if known {
            read_as(body, fields[at].1)
        } else {
            unread(unspaced(body))
        };
        if let Some((value, rest)) = part {
            let all = before.push((name, value));
            assert forall|i: int, j: int|
                0 <= i < j < all.len() && (#[trigger] all[i]).0 == (
                #[trigger] all[j]).0 implies json::field_place(fields, all[i].0)
                >= fields.len() by {
                lemma_place(fields, name);
                if j == before.len() {
                    if known {
                        lemma_not_named(before, name, i);
                    }
                } else {
                    assert(all[i] == before[i] && all[j] == before[j]);
                }
            }
            lemma_unspaced(rest);
            if rest.len() < text.len() && starts(unspaced(rest), ',') {
                lemma_fields_once(unspaced(rest).skip(1), fields, all);
            }
        }
    }
}

/// A place is no negative number.
proof fn lemma_place(fields: Seq<(Seq<char>, LayoutView)>, name: Seq<char>)
    ensures
        json::field_place(fields, name) >= 0,
    decreases fields.len(),
{
    if fields.len() > 0 && fields[0].0 != name {
        lemma_place(fields.skip(1), name);
    }
}

/// An object that is read as a record has every field of the record at most once.
pub proof fn law_no_field_comes_twice(text: Seq<char>, fields: Seq<(Seq<char>, LayoutView)>)
    ensures
        object_at(text, fields) matches Some((value, _)) ==> value is Object && fields_once(
            value->Object_0,
            fields,
        ),
{
    lemma_fields_once(text, fields, Seq::empty());
}

} // verus!
