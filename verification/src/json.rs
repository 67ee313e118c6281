//! JSON documents as plain trees, and the readers that the wire formats share.
pub mod reading;

use vstd::prelude::*;

use crate::text;

verus! {

/// A JSON number, with what it is as a machine integer where it is one.
pub struct JsonNumber {
    pub unsigned: Option<u64>,
    pub signed: Option<i64>,
    pub text: String,
}

/// One name and value of a JSON object.
pub struct Member {
    pub name: String,
    pub value: Json,
}

/// A JSON document. The members of an object keep the order of the document.
pub enum Json {
    Null,
    Bool(bool),
    Number(JsonNumber),
    Text(String),
    List(Vec<Json>),
    Object(Vec<Member>),
}

/// The mathematical value of a JSON number.
pub struct NumberView {
    pub unsigned: Option<u64>,
    pub signed: Option<i64>,
    pub text: Seq<char>,
}

/// The mathematical value of a JSON document.
pub enum JsonView {
    Null,
    Bool(bool),
    Number(NumberView),
    Text(Seq<char>),
    List(Seq<JsonView>),
    Object(Seq<(Seq<char>, JsonView)>),
}

impl View for JsonNumber {
    type V = NumberView;

    open spec fn view(&self) -> NumberView {
        NumberView { unsigned: self.unsigned, signed: self.signed, text: self.text@ }
    }
}

/// The mathematical value of a document.
pub open spec fn tree_view(value: Json) -> JsonView
    decreases value,
{
    match value {
        Json::Null => JsonView::Null,
        Json::Bool(flag) => JsonView::Bool(flag),
        Json::Number(number) => JsonView::Number(number@),
        Json::Text(text) => JsonView::Text(text@),
        Json::List(items) => JsonView::List(
            Seq::new(
                items@.len(),
                |i: int|
                    if 0 <= i < items@.len() {
                        tree_view(items@[i])
                    } else {
                        JsonView::Null
                    },
            ),
        ),
        Json::Object(members) => JsonView::Object(
            Seq::new(
                members@.len(),
                |i: int|
                    if 0 <= i < members@.len() {
                        (members@[i].name@, tree_view(members@[i].value))
                    } else {
                        (Seq::empty(), JsonView::Null)
                    },
            ),
        ),
    }
}

impl View for Json {
    type V = JsonView;

    open spec fn view(&self) -> JsonView {
        tree_view(*self)
    }
}

/// The value type of `serde_json`. Trees are made from such values and turned into them; nothing
/// else is done with one.
#[verifier::external_type_specification]
#[verifier::external_body]
pub struct ExternalValue(serde_json::Value);

/// What `serde_json` reads from a text: the document, or the message that says why the text is
/// none.
pub uninterp spec fn document_of(text: Seq<char>) -> Result<JsonView, Seq<char>>;

/// The compact text that `serde_json` writes for a document.
pub uninterp spec fn text_of(value: JsonView) -> Seq<char>;

/// A `serde_json` value as a tree: every part is moved, in the order in which `serde_json` holds
/// it, and a number keeps its text beside what it is as a machine integer.
#[verifier::external_body]
fn tree(value: serde_json::Value) -> Json {
    match value {
        serde_json::Value::Null => Json::Null,
        serde_json::Value::Bool(flag) => Json::Bool(flag),
        serde_json::Value::Number(n) => Json::Number(
            JsonNumber { unsigned: n.as_u64(), signed: n.as_i64(), text: n.to_string() },
        ),
        serde_json::Value::String(text) => Json::Text(text),
        serde_json::Value::Array(items) => Json::List(items.into_iter().map(tree).collect()),
        serde_json::Value::Object(members) => Json::Object(
            members.into_iter().map(|(name, value)| Member { name, value: tree(value) }).collect(),
        ),
    }
}

/// Outside function: `serde_json::from_str`. The document and the message of a refusal depend on
/// the text alone; nothing more is claimed of either. Of the members of an object that have one
/// name the reader keeps the last, and it refuses a document that is nested too deep.
#[verifier::external_body]
pub(crate) fn read(text: &str) -> (document: Result<Json, String>)
    ensures
        match document {
            Ok(value) => document_of(text@) == Ok::<JsonView, Seq<char>>(value@),
            Err(message) => document_of(text@) == Err::<JsonView, Seq<char>>(message@),
        },
{
    serde_json::from_str(text).map(tree).map_err(|error| error.to_string())
}

/// A tree as a `serde_json` value: every part is copied, in the order in which the tree holds it.
#[verifier::external_body]
fn outside_value(value: &Json) -> serde_json::Value {
    match value {
        Json::Null => serde_json::Value::Null,
        Json::Bool(flag) => serde_json::Value::Bool(*flag),
        Json::Number(n) => serde_json::Value::Number(
            serde_json::Number::from_string_unchecked(n.text.clone()),
        ),
        Json::Text(text) => serde_json::Value::String(text.clone()),
        Json::List(items) => serde_json::Value::Array(items.iter().map(outside_value).collect()),
        Json::Object(members) => serde_json::Value::Object(
            members.iter().map(|m| (m.name.clone(), outside_value(&m.value))).collect(),
        ),
    }
}

/// Outside function: the compact writer of `serde_json`, by way of its `Display` for a value. The
/// text depends on the document alone; nothing more is claimed of it.
#[verifier::external_body]
pub(crate) fn write(value: &Json) -> (text: String)
    ensures
        text@ == text_of(value@),
{
    outside_value(value).to_string()
}

/// The first member of that name in a run of members.
pub open spec fn named(members: Seq<(Seq<char>, JsonView)>, name: Seq<char>) -> Option<JsonView>
    decreases members.len(),
{
    if members.len() == 0 {
        None
    } else if members[0].0 == name {
        Some(members[0].1)
    } else {
        named(members.skip(1), name)
    }
}

/// The value of that name in an object; nothing where there is none or the document is no object.
pub open spec fn member_of(value: JsonView, name: Seq<char>) -> Option<JsonView> {
    match value {
        JsonView::Object(members) => named(members, name),
        _ => None,
    }
}

/// The text of a document that is one.
pub open spec fn text_value(value: JsonView) -> Option<Seq<char>> {
    match value {
        JsonView::Text(text) => Some(text),
        _ => None,
    }
}

/// The unsigned integer of a document that is one.
pub open spec fn unsigned_value(value: JsonView) -> Option<u64> {
    match value {
        JsonView::Number(number) => number.unsigned,
        _ => None,
    }
}

/// The signed integer of a document that is one.
pub open spec fn signed_value(value: JsonView) -> Option<i64> {
    match value {
        JsonView::Number(number) => number.signed,
        _ => None,
    }
}

/// The truth value of a document that is one.
pub open spec fn flag_value(value: JsonView) -> Option<bool> {
    match value {
        JsonView::Bool(flag) => Some(flag),
        _ => None,
    }
}

/// The items of a document that is an array.
pub open spec fn list_value(value: JsonView) -> Option<Seq<JsonView>> {
    match value {
        JsonView::List(items) => Some(items),
        _ => None,
    }
}

/// The mathematical values of a run of documents.
pub open spec fn views(items: Seq<Json>) -> Seq<JsonView> {
    Seq::new(items.len(), |i: int| items[i]@)
}

/// How a part of a document is laid out.
pub enum Layout {
    /// In any way.
    Plain,
    /// In any way, and what counts is the text that stands there.
    Raw,
    /// As another layout, where every part of it is a document.
    Whole(Box<Layout>),
    /// As an array of parts that are laid out alike.
    Each(Box<Layout>),
    /// As an object with some fields. The values may stand in an array instead, in the order of the
    /// fields, of which the last ones may be left out as long as there are no fewer than the number.
    Record(Vec<Field>, usize),
}

/// A field of a record.
pub struct Field {
    pub name: &'static str,
    pub layout: Layout,
}

/// The mathematical value of a [`Layout`].
pub enum LayoutView {
    Plain,
    Raw,
    Whole(Box<LayoutView>),
    Each(Box<LayoutView>),
    Record(Seq<(Seq<char>, LayoutView)>, nat),
}

/// The mathematical value of a layout.
pub open spec fn layout_view(layout: Layout) -> LayoutView
    decreases layout,
{
    match layout {
        Layout::Plain => LayoutView::Plain,
        Layout::Raw => LayoutView::Raw,
        Layout::Whole(part) => LayoutView::Whole(Box::new(layout_view(*part))),
        Layout::Each(item) => LayoutView::Each(Box::new(layout_view(*item))),
        Layout::Record(fields, least) => LayoutView::Record(
            Seq::new(
                fields@.len(),
                |i: int|
                    if 0 <= i < fields@.len() {
                        (fields@[i].name@, layout_view(fields@[i].layout))
                    } else {
                        (Seq::empty(), LayoutView::Plain)
                    },
            ),
            least as nat,
        ),
    }
}

impl View for Layout {
    type V = LayoutView;

    open spec fn view(&self) -> LayoutView {
        layout_view(*self)
    }
}

/// Fields with one layout. The names stand in a text with commas between them.
pub open spec fn fields_named(names: Seq<char>, field: LayoutView) -> Seq<
    (Seq<char>, LayoutView),
> {
    let list = text::pieces(names, ',');
    Seq::new(list.len(), |i: int| (list[i], field))
}

/// The layout of a record whose fields have any layout.
pub open spec fn flat(names: Seq<char>, least: nat) -> LayoutView {
    LayoutView::Record(fields_named(names, LayoutView::Plain), least)
}

/// The layout of a record of texts as they stand there.
pub open spec fn raws(names: Seq<char>, least: nat) -> LayoutView {
    LayoutView::Record(fields_named(names, LayoutView::Raw), least)
}

/// The layout of an array of texts as they stand there.
pub open spec fn raw_list() -> LayoutView {
    LayoutView::Each(Box::new(LayoutView::Raw))
}

/// The layout of a record whose fields are arrays of texts as they stand there.
pub open spec fn columns(names: Seq<char>, least: nat) -> LayoutView {
    LayoutView::Record(fields_named(names, raw_list()), least)
}

/// A record with another layout of the first field of that name.
pub open spec fn with_field(layout: LayoutView, name: Seq<char>, field: LayoutView) -> LayoutView {
    match layout {
        LayoutView::Record(fields, least) => {
            let at = field_place(fields, name);
            if 0 <= at < fields.len() {
                LayoutView::Record(fields.update(at, (name, field)), least)
            } else {
                layout
            }
        },
        _ => layout,
    }
}

/// The place of a field in a record.
pub open spec fn field_place(fields: Seq<(Seq<char>, LayoutView)>, name: Seq<char>) -> int
    decreases fields.len(),
{
    if fields.len() == 0 || fields[0].0 == name {
        0
    } else {
        1 + field_place(fields.skip(1), name)
    }
}

/// A document as a record: an array of values is the object with the values under the names of the
/// fields in their order, where it is neither too short nor too long. Any other document is itself.
pub open spec fn record_of(
    value: JsonView,
    fields: Seq<(Seq<char>, LayoutView)>,
    least: nat,
) -> JsonView {
    match value {
        JsonView::List(items) => if least <= items.len() <= fields.len() {
            JsonView::Object(Seq::new(items.len(), |i: int| (fields[i].0, items[i])))
        } else {
            value
        },
        _ => value,
    }
}

/// A document in which every record of a layout is an object.
pub open spec fn arranged(value: JsonView, layout: LayoutView) -> JsonView
    decreases layout,
{
    match layout {
        LayoutView::Plain | LayoutView::Raw => value,
        LayoutView::Whole(part) => arranged(value, *part),
        LayoutView::Each(item) => match value {
            JsonView::List(items) => JsonView::List(
                Seq::new(items.len(), |i: int| arranged(items[i], *item)),
            ),
            _ => value,
        },
        LayoutView::Record(fields, least) => match record_of(value, fields, least) {
            JsonView::Object(members) => JsonView::Object(
                Seq::new(
                    members.len(),
                    |i: int|
                        {
                            let at = field_place(fields, members[i].0);
                            (
                                members[i].0,
                                if 0 <= at < fields.len() {
                                    arranged(members[i].1, fields[at].1)
                                } else {
                                    members[i].1
                                },
                            )
                        },
                ),
            ),
            other => other,
        },
    }
}

/// A copy of a document.
pub fn copied(value: &Json) -> (copy: Json)
    ensures
        copy@ == value@,
    decreases value,
{
    match value {
        Json::Null => Json::Null,
        Json::Bool(flag) => Json::Bool(*flag),
        Json::Number(number) => Json::Number(
            JsonNumber {
                unsigned: number.unsigned,
                signed: number.signed,
                text: number.text.clone(),
            },
        ),
        Json::Text(text) => Json::Text(text.clone()),
        Json::List(items) => {
            let mut list: Vec<Json> = Vec::new();
            let mut i: usize = 0;
            while i < items.len()
                invariant
                    i <= items@.len(),
                    value == Json::List(*items),
                    list@.len() == i,
                    forall|k: int| 0 <= k < i ==> (#[trigger] list@[k])@ == items@[k]@,
                decreases items.len() - i,
            {
                proof {
                    assert(decreases_to!(value => value->List_0@[i as int]));
                }
                list.push(copied(&items[i]));
                i += 1;
            }
            let copy = Json::List(list);
            proof {
                assert(copy@->List_0 =~= value@->List_0);
            }
            copy
        },
        Json::Object(members) => {
            let mut list: Vec<Member> = Vec::new();
            let mut i: usize = 0;
            while i < members.len()
                invariant
                    i <= members@.len(),
                    value == Json::Object(*members),
                    list@.len() == i,
                    forall|k: int|
                        0 <= k < i ==> (#[trigger] list@[k]).name@ == members@[k].name@
                            && list@[k].value@ == members@[k].value@,
                decreases members.len() - i,
            {
                proof {
                    assert(decreases_to!(value => value->Object_0@[i as int].value));
                }
                list.push(
                    Member { name: members[i].name.clone(), value: copied(&members[i].value) },
                );
                i += 1;
            }
            let copy = Json::Object(list);
            proof {
                assert(copy@->Object_0 =~= value@->Object_0);
            }
            copy
        },
    }
}

/// What the fields of a record can be alike.
#[derive(Debug, Clone, Copy, PartialEq, Eq, Structural)]
enum Leaf {
    Plain,
    Raw,
    RawList,
}

spec fn leaf_layout(leaf: Leaf) -> LayoutView {
    match leaf {
        Leaf::Plain => LayoutView::Plain,
        Leaf::Raw => LayoutView::Raw,
        Leaf::RawList => raw_list(),
    }
}

/// Fields that are alike.
fn make_fields(names: &'static str, leaf: Leaf) -> (fields: Vec<Field>)
    ensures
        layout_view(Layout::Record(fields, 0)) == LayoutView::Record(
            fields_named(names@, leaf_layout(leaf)),
            0,
        ),
{
    let list = text::split(names, ',');
    let mut fields: Vec<Field> = Vec::new();
    let mut i: usize = 0;
    while i < list.len()
        invariant
            i <= list@.len(),
            fields@.len() == i,
            forall|k: int|
                0 <= k < i ==> (#[trigger] fields@[k]).name@ == list@[k]@ && layout_view(
                    fields@[k].layout,
                ) == leaf_layout(leaf),
        decreases list.len() - i,
    {
        let layout = match leaf {
            Leaf::Plain => Layout::Plain,
            Leaf::Raw => Layout::Raw,
            Leaf::RawList => Layout::Each(Box::new(Layout::Raw)),
        };
        proof {
            reveal_with_fuel(layout_view, 2);
        }
        fields.push(Field { name: list[i], layout });
        i += 1;
    }
    proof {
        let wanted = fields_named(names@, leaf_layout(leaf));
        assert(text::slices(list@) == text::pieces(names@, ','));
        assert(text::slices(list@).len() == list@.len());
        assert forall|k: int| 0 <= k < list@.len() implies (#[trigger] list@[k])@ == text::slices(
            list@,
        )[k] by {}
        assert(layout_view(Layout::Record(fields, 0))->Record_0 =~= wanted);
    }
    fields
}

/// The layout of a record whose fields have any layout.
pub fn flat_record(names: &'static str, least: usize) -> (layout: Layout)
    ensures
        layout@ == flat(names@, least as nat),
{
    let fields = make_fields(names, Leaf::Plain);
    let layout = Layout::Record(fields, least);
    proof {
        assert(layout@->Record_0 =~= layout_view(Layout::Record(fields, 0))->Record_0);
    }
    layout
}

/// The layout of a record of texts as they stand there.
pub fn raw_record(names: &'static str, least: usize) -> (layout: Layout)
    ensures
        layout@ == raws(names@, least as nat),
{
    let fields = make_fields(names, Leaf::Raw);
    let layout = Layout::Record(fields, least);
    proof {
        assert(layout@->Record_0 =~= layout_view(Layout::Record(fields, 0))->Record_0);
    }
    layout
}

/// The layout of an array of texts as they stand there.
pub fn raw_array() -> (layout: Layout)
    ensures
        layout@ == raw_list(),
{
    proof {
        reveal_with_fuel(layout_view, 2);
    }
    Layout::Each(Box::new(Layout::Raw))
}

/// The layout of a record whose fields are arrays of texts as they stand there.
pub fn columns_record(names: &'static str, least: usize) -> (layout: Layout)
    ensures
        layout@ == columns(names@, least as nat),
{
    let fields = make_fields(names, Leaf::RawList);
    let layout = Layout::Record(fields, least);
    proof {
        assert(layout@->Record_0 =~= layout_view(Layout::Record(fields, 0))->Record_0);
    }
    layout
}

/// A record with another layout of the first field of that name.
pub fn nest(layout: Layout, name: &'static str, field: Layout) -> (nested: Layout)
    ensures
        nested@ == with_field(layout@, name@, field@),
{
    match layout {
        Layout::Record(fields, least) => {
            let ghost before = layout@->Record_0;
            let at = place_of(&fields, name);
            let mut fields = fields;
            if at < fields.len() {
                fields.set(at, Field { name, layout: field });
            }
            let nested = Layout::Record(fields, least);
            proof {
                if at < before.len() {
                    assert(nested@->Record_0 =~= before.update(at as int, (name@, field@)));
                }
            }
            nested
        },
        other => other,
    }
}

/// The place of a field in a record.
pub(crate) fn place_of(fields: &Vec<Field>, name: &str) -> (at: usize)
    ensures
        at == field_place(layout_view(Layout::Record(*fields, 0))->Record_0, name@),
        at <= fields@.len(),
{
    let ghost all = layout_view(Layout::Record(*fields, 0))->Record_0;
    let mut i: usize = 0;
    proof {
        assert(all.skip(0) =~= all);
    }
    while i < fields.len()
        invariant
            i <= fields@.len(),
            all == layout_view(Layout::Record(*fields, 0))->Record_0,
            all.len() == fields@.len(),
            field_place(all, name@) == i + field_place(all.skip(i as int), name@),
        decreases fields.len() - i,
    {
        proof {
            assert(all.skip(i as int)[0] == all[i as int]);
            assert(all.skip(i as int).skip(1) =~= all.skip(i + 1));
        }
        if text::same(fields[i].name, name) {
            return i;
        }
        i += 1;
    }
    i
}

/// Arrange a document.
pub fn arrange(value: &Json, layout: &Layout) -> (document: Json)
    ensures
        document@ == arranged(value@, layout@),
    decreases layout,
{
    match layout {
        Layout::Plain | Layout::Raw => copied(value),
        Layout::Whole(part) => arrange(value, &**part),
        Layout::Each(item) => match value.as_list() {
            Some(items) => {
                let mut list: Vec<Json> = Vec::new();
                let mut i: usize = 0;
                while i < items.len()
                    invariant
                        i <= items@.len(),
                        layout == Layout::Each(*item),
                        list@.len() == i,
                        forall|k: int|
                            0 <= k < i ==> (#[trigger] list@[k])@ == arranged(
                                items@[k]@,
                                layout_view(**item),
                            ),
                    decreases items.len() - i,
                {
                    proof {
                        assert(decreases_to!(layout => *layout->Each_0));
                    }
                    list.push(arrange(&items[i], &**item));
                    i += 1;
                }
                let document = Json::List(list);
                proof {
                    assert(value@ == JsonView::List(views(items@)));
                    assert(document@->List_0 =~= arranged(value@, layout@)->List_0);
                }
                document
            },
            None => copied(value),
        },
        Layout::Record(fields, least) => {
            let record = as_record(value, fields, *least);
            let ghost all = layout@->Record_0;
            match &record {
                Json::Object(members) => {
                    let mut list: Vec<Member> = Vec::new();
                    let mut i: usize = 0;
                    while i < members.len()
                        invariant
                            i <= members@.len(),
                            layout == Layout::Record(*fields, *least),
                            all == layout@->Record_0,
                            all.len() == fields@.len(),
                            list@.len() == i,
                            forall|k: int|
                                0 <= k < i ==> (#[trigger] list@[k]).name@ == members@[k].name@
                                    && list@[k].value@ == ({
                                    let at = field_place(all, members@[k].name@);
                                    if 0 <= at < all.len() {
                                        arranged(members@[k].value@, all[at].1)
                                    } else {
                                        members@[k].value@
                                    }
                                }),
                        decreases members.len() - i,
                    {
                        let at = place_of(fields, members[i].name.as_str());
                        let part = if at < fields.len() {
                            proof {
                                assert(decreases_to!(layout => layout->Record_0@[at as int].layout));
                            }
                            arrange(&members[i].value, &fields[at].layout)
                        } else {
                            copied(&members[i].value)
                        };
                        list.push(Member { name: members[i].name.clone(), value: part });
                        i += 1;
                    }
                    let document = Json::Object(list);
                    proof {
                        assert(document@->Object_0 =~= arranged(value@, layout@)->Object_0);
                    }
                    document
                },
                _ => copied(&record),
            }
        },
    }
}

/// A document as a record.
fn as_record(value: &Json, fields: &Vec<Field>, least: usize) -> (record: Json)
    ensures
        record@ == record_of(
            value@,
            layout_view(Layout::Record(*fields, 0))->Record_0,
            least as nat,
        ),
{
    let ghost all = layout_view(Layout::Record(*fields, 0))->Record_0;
    let items = match value.as_list() {
        Some(items) => items,
        None => {
            return copied(value);
        },
    };
    proof {
        assert(value@ == JsonView::List(views(items@)));
    }
    if items.len() < least || items.len() > fields.len() {
        return copied(value);
    }
    let mut list: Vec<Member> = Vec::new();
    let mut i: usize = 0;
    while i < items.len()
        invariant
            i <= items@.len(),
            items@.len() <= fields@.len(),
            list@.len() == i,
            forall|k: int|
                0 <= k < i ==> (#[trigger] list@[k]).name@ == fields@[k].name@ && list@[k].value@
                    == items@[k]@,
        decreases items.len() - i,
    {
        list.push(Member { name: fields[i].name.to_owned(), value: copied(&items[i]) });
        i += 1;
    }
    let object = Json::Object(list);
    proof {
        assert(object@->Object_0 =~= record_of(value@, all, least as nat)->Object_0);
    }
    object
}

/// The message for an absent field.
pub open spec fn missing_message(name: Seq<char>) -> Seq<char> {
    "missing field `"@ + name + "`"@
}

/// The message for a field of another type.
pub open spec fn mistyped_message(name: Seq<char>, expected: Seq<char>) -> Seq<char> {
    "invalid type for field `"@ + name + "`: expected "@ + expected
}

/// The message for an absent field.
pub fn missing(name: &str) -> (message: String)
    ensures
        message@ == missing_message(name@),
{
    text::cat3("missing field `", name, "`")
}

/// The message for a field of another type.
pub fn mistyped(name: &str, expected: &str) -> (message: String)
    ensures
        message@ == mistyped_message(name@, expected@),
{
    text::cat4("invalid type for field `", name, "`: expected ", expected)
}

impl Json {
    /// An unsigned number as a document.
    pub fn unsigned(n: u64) -> (value: Json)
        ensures
            value@ == unsigned_document(n),
    {
        let signed = if n <= i64::MAX as u64 {
            Some(n as i64)
        } else {
            None
        };
        Json::Number(JsonNumber { unsigned: Some(n), signed, text: text::unsigned_text(n) })
    }

    /// Whether the document is an object.
    pub fn is_object(&self) -> (answer: bool)
        ensures
            answer == (self@ is Object),
    {
        match self {
            Json::Object(_) => true,
            _ => false,
        }
    }

    /// Whether the document is null.
    pub fn is_null(&self) -> (answer: bool)
        ensures
            answer == (self@ is Null),
    {
        match self {
            Json::Null => true,
            _ => false,
        }
    }

    /// The value of that name in an object.
    pub fn member<'a>(&'a self, name: &str) -> (value: Option<&'a Json>)
        ensures
            match value {
                Some(found) => member_of(self@, name@) == Some(found@),
                None => member_of(self@, name@) is None,
            },
    {
        match self {
            Json::Object(members) => {
                let ghost all = self@->Object_0;
                let mut i: usize = 0;
                proof {
                    assert(all.skip(0) == all);
                }
                while i < members.len()
                    invariant
                        i <= members@.len(),
                        all.len() == members@.len(),
                        self@ == JsonView::Object(all),
                        forall|k: int|
                            0 <= k < members@.len() ==> #[trigger] all[k] == (
                                members@[k].name@,
                                members@[k].value@,
                            ),
                        named(all, name@) == named(all.skip(i as int), name@),
                    decreases members.len() - i,
                {
                    proof {
                        assert(all.skip(i as int)[0] == all[i as int]);
                        assert(all.skip(i as int).skip(1) == all.skip(i + 1));
                    }
                    if text::same(members[i].name.as_str(), name) {
                        return Some(&members[i].value);
                    }
                    i += 1;
                }
                None
            },
            _ => None,
        }
    }

    /// The text of a document that is one.
    pub fn as_text<'a>(&'a self) -> (value: Option<&'a str>)
        ensures
            match value {
                Some(found) => text_value(self@) == Some(found@),
                None => text_value(self@) is None,
            },
    {
        match self {
            Json::Text(text) => Some(text.as_str()),
            _ => None,
        }
    }

    /// The unsigned integer of a document that is one.
    pub fn as_unsigned(&self) -> (value: Option<u64>)
        ensures
            match value {
                Some(found) => unsigned_value(self@) == Some(found),
                None => unsigned_value(self@) is None,
            },
    {
        match self {
            Json::Number(number) => number.unsigned,
            _ => None,
        }
    }

    /// The signed integer of a document that is one.
    pub fn as_signed(&self) -> (value: Option<i64>)
        ensures
            match value {
                Some(found) => signed_value(self@) == Some(found),
                None => signed_value(self@) is None,
            },
    {
        match self {
            Json::Number(number) => number.signed,
            _ => None,
        }
    }

    /// The truth value of a document that is one.
    pub fn as_flag(&self) -> (value: Option<bool>)
        ensures
            match value {
                Some(found) => flag_value(self@) == Some(found),
                None => flag_value(self@) is None,
            },
    {
        match self {
            Json::Bool(flag) => Some(*flag),
            _ => None,
        }
    }

    /// The items of a document that is an array.
    pub fn as_list<'a>(&'a self) -> (value: Option<&'a Vec<Json>>)
        ensures
            match value {
                Some(found) => list_value(self@) == Some(views(found@)),
                None => list_value(self@) is None,
            },
    {
        match self {
            Json::List(items) => {
                proof {
                    assert(views(items@) == self@->List_0);
                }
                Some(items)
            },
            _ => None,
        }
    }

}

/// An unsigned number as a document.
pub open spec fn unsigned_document(n: u64) -> JsonView {
    JsonView::Number(
        NumberView {
            unsigned: Some(n),
            signed: if n <= i64::MAX {
                Some(n as i64)
            } else {
                None
            },
            text: text::digits(n as nat),
        },
    )
}

/// The value of that name where it is a string.
pub open spec fn member_text(value: JsonView, name: Seq<char>) -> Option<Seq<char>> {
    match member_of(value, name) {
        Some(found) => text_value(found),
        None => None,
    }
}

/// Why an object has no field of that name that is a string.
pub open spec fn text_problem(value: JsonView, name: Seq<char>) -> Option<Seq<char>> {
    match member_of(value, name) {
        Some(found) => if text_value(found) is Some {
            None
        } else {
            Some(mistyped_message(name, "a string"@))
        },
        None => Some(missing_message(name)),
    }
}

/// The value of that name where it is a string.
pub fn find_text<'a>(object: &'a Json, name: &str) -> (found: Option<&'a str>)
    ensures
        match found {
            Some(value) => member_text(object@, name@) == Some(value@),
            None => member_text(object@, name@) is None,
        },
{
    match object.member(name) {
        Some(value) => value.as_text(),
        None => None,
    }
}

/// The field of that name, which must be a string.
pub fn need_text<'a>(object: &'a Json, name: &str) -> (found: Result<&'a str, String>)
    ensures
        match found {
            Ok(value) => {
                &&& text_problem(object@, name@) is None
                &&& member_text(object@, name@) == Some(value@)
            },
            Err(message) => text_problem(object@, name@) == Some(message@),
        },
{
    match object.member(name) {
        Some(value) => match value.as_text() {
            Some(found) => Ok(found),
            None => Err(mistyped(name, "a string")),
        },
        None => Err(missing(name)),
    }
}

/// Why an optional field of that name is neither absent, nor null, nor a string.
pub open spec fn optional_text_problem(value: JsonView, name: Seq<char>) -> Option<Seq<char>> {
    match member_of(value, name) {
        Some(JsonView::Null) | None => None,
        Some(found) => if text_value(found) is Some {
            None
        } else {
            Some(mistyped_message(name, "a string"@))
        },
    }
}

/// The optional field of that name: absent, null, or a string.
pub fn may_text<'a>(object: &'a Json, name: &str) -> (found: Result<Option<&'a str>, String>)
    ensures
        match found {
            Ok(Some(value)) => {
                &&& optional_text_problem(object@, name@) is None
                &&& member_text(object@, name@) == Some(value@)
            },
            Ok(None) => {
                &&& optional_text_problem(object@, name@) is None
                &&& member_text(object@, name@) is None
            },
            Err(message) => optional_text_problem(object@, name@) == Some(message@),
        },
{
    match object.member(name) {
        Some(value) => if value.is_null() {
            Ok(None)
        } else {
            match value.as_text() {
                Some(found) => Ok(Some(found)),
                None => Err(mistyped(name, "a string")),
            }
        },
        None => Ok(None),
    }
}

/// The value of that name where it is an unsigned integer.
pub open spec fn member_unsigned(value: JsonView, name: Seq<char>) -> Option<u64> {
    match member_of(value, name) {
        Some(found) => unsigned_value(found),
        None => None,
    }
}

/// Why an object has no field of that name that is an unsigned integer.
pub open spec fn unsigned_problem(value: JsonView, name: Seq<char>) -> Option<Seq<char>> {
    match member_of(value, name) {
        Some(found) => if unsigned_value(found) is Some {
            None
        } else {
            Some(mistyped_message(name, "an unsigned integer"@))
        },
        None => Some(missing_message(name)),
    }
}

/// The value of that name where it is an unsigned integer.
pub fn find_unsigned<'a>(object: &'a Json, name: &str) -> (found: Option<u64>)
    ensures
        match found {
            Some(value) => member_unsigned(object@, name@) == Some(value),
            None => member_unsigned(object@, name@) is None,
        },
{
    match object.member(name) {
        Some(value) => value.as_unsigned(),
        None => None,
    }
}

/// The field of that name, which must be an unsigned integer.
pub fn need_unsigned<'a>(object: &'a Json, name: &str) -> (found: Result<u64, String>)
    ensures
        match found {
            Ok(value) => {
                &&& unsigned_problem(object@, name@) is None
                &&& member_unsigned(object@, name@) == Some(value)
            },
            Err(message) => unsigned_problem(object@, name@) == Some(message@),
        },
{
    match object.member(name) {
        Some(value) => match value.as_unsigned() {
            Some(found) => Ok(found),
            None => Err(mistyped(name, "an unsigned integer")),
        },
        None => Err(missing(name)),
    }
}

/// Why an optional field of that name is neither absent, nor null, nor an unsigned integer.
pub open spec fn optional_unsigned_problem(value: JsonView, name: Seq<char>) -> Option<Seq<char>> {
    match member_of(value, name) {
        Some(JsonView::Null) | None => None,
        Some(found) => if unsigned_value(found) is Some {
            None
        } else {
            Some(mistyped_message(name, "an unsigned integer"@))
        },
    }
}

/// The optional field of that name: absent, null, or an unsigned integer.
pub fn may_unsigned<'a>(object: &'a Json, name: &str) -> (found: Result<Option<u64>, String>)
    ensures
        match found {
            Ok(Some(value)) => {
                &&& optional_unsigned_problem(object@, name@) is None
                &&& member_unsigned(object@, name@) == Some(value)
            },
            Ok(None) => {
                &&& optional_unsigned_problem(object@, name@) is None
                &&& member_unsigned(object@, name@) is None
            },
            Err(message) => optional_unsigned_problem(object@, name@) == Some(message@),
        },
{
    match object.member(name) {
        Some(value) => if value.is_null() {
            Ok(None)
        } else {
            match value.as_unsigned() {
                Some(found) => Ok(Some(found)),
                None => Err(mistyped(name, "an unsigned integer")),
            }
        },
        None => Ok(None),
    }
}

/// The value of that name where it is an integer.
pub open spec fn member_signed(value: JsonView, name: Seq<char>) -> Option<i64> {
    match member_of(value, name) {
        Some(found) => signed_value(found),
        None => None,
    }
}

/// Why an object has no field of that name that is an integer.
pub open spec fn signed_problem(value: JsonView, name: Seq<char>) -> Option<Seq<char>> {
    match member_of(value, name) {
        Some(found) => if signed_value(found) is Some {
            None
        } else {
            Some(mistyped_message(name, "an integer"@))
        },
        None => Some(missing_message(name)),
    }
}

/// The value of that name where it is an integer.
pub fn find_signed<'a>(object: &'a Json, name: &str) -> (found: Option<i64>)
    ensures
        match found {
            Some(value) => member_signed(object@, name@) == Some(value),
            None => member_signed(object@, name@) is None,
        },
{
    match object.member(name) {
        Some(value) => value.as_signed(),
        None => None,
    }
}

/// The field of that name, which must be an integer.
pub fn need_signed<'a>(object: &'a Json, name: &str) -> (found: Result<i64, String>)
    ensures
        match found {
            Ok(value) => {
                &&& signed_problem(object@, name@) is None
                &&& member_signed(object@, name@) == Some(value)
            },
            Err(message) => signed_problem(object@, name@) == Some(message@),
        },
{
    match object.member(name) {
        Some(value) => match value.as_signed() {
            Some(found) => Ok(found),
            None => Err(mistyped(name, "an integer")),
        },
        None => Err(missing(name)),
    }
}

/// Why an optional field of that name is neither absent, nor null, nor an integer.
pub open spec fn optional_signed_problem(value: JsonView, name: Seq<char>) -> Option<Seq<char>> {
    match member_of(value, name) {
        Some(JsonView::Null) | None => None,
        Some(found) => if signed_value(found) is Some {
            None
        } else {
            Some(mistyped_message(name, "an integer"@))
        },
    }
}

/// The optional field of that name: absent, null, or an integer.
pub fn may_signed<'a>(object: &'a Json, name: &str) -> (found: Result<Option<i64>, String>)
    ensures
        match found {
            Ok(Some(value)) => {
                &&& optional_signed_problem(object@, name@) is None
                &&& member_signed(object@, name@) == Some(value)
            },
            Ok(None) => {
                &&& optional_signed_problem(object@, name@) is None
                &&& member_signed(object@, name@) is None
            },
            Err(message) => optional_signed_problem(object@, name@) == Some(message@),
        },
{
    match object.member(name) {
        Some(value) => if value.is_null() {
            Ok(None)
        } else {
            match value.as_signed() {
                Some(found) => Ok(Some(found)),
                None => Err(mistyped(name, "an integer")),
            }
        },
        None => Ok(None),
    }
}

/// The value of that name where it is a boolean.
pub open spec fn member_flag(value: JsonView, name: Seq<char>) -> Option<bool> {
    match member_of(value, name) {
        Some(found) => flag_value(found),
        None => None,
    }
}

/// Why an object has no field of that name that is a boolean.
pub open spec fn flag_problem(value: JsonView, name: Seq<char>) -> Option<Seq<char>> {
    match member_of(value, name) {
        Some(found) => if flag_value(found) is Some {
            None
        } else {
            Some(mistyped_message(name, "a boolean"@))
        },
        None => Some(missing_message(name)),
    }
}

/// The value of that name where it is a boolean.
pub fn find_flag<'a>(object: &'a Json, name: &str) -> (found: Option<bool>)
    ensures
        match found {
            Some(value) => member_flag(object@, name@) == Some(value),
            None => member_flag(object@, name@) is None,
        },
{
    match object.member(name) {
        Some(value) => value.as_flag(),
        None => None,
    }
}

/// The field of that name, which must be a boolean.
pub fn need_flag<'a>(object: &'a Json, name: &str) -> (found: Result<bool, String>)
    ensures
        match found {
            Ok(value) => {
                &&& flag_problem(object@, name@) is None
                &&& member_flag(object@, name@) == Some(value)
            },
            Err(message) => flag_problem(object@, name@) == Some(message@),
        },
{
    match object.member(name) {
        Some(value) => match value.as_flag() {
            Some(found) => Ok(found),
            None => Err(mistyped(name, "a boolean")),
        },
        None => Err(missing(name)),
    }
}

/// The value of that name where it is an array.
pub open spec fn member_list(value: JsonView, name: Seq<char>) -> Option<Seq<JsonView>> {
    match member_of(value, name) {
        Some(found) => list_value(found),
        None => None,
    }
}

/// Why an object has no field of that name that is an array.
pub open spec fn list_problem(value: JsonView, name: Seq<char>) -> Option<Seq<char>> {
    match member_of(value, name) {
        Some(found) => if list_value(found) is Some {
            None
        } else {
            Some(mistyped_message(name, "an array"@))
        },
        None => Some(missing_message(name)),
    }
}

/// The value of that name where it is an array.
pub fn find_list<'a>(object: &'a Json, name: &str) -> (found: Option<&'a Vec<Json>>)
    ensures
        match found {
            Some(value) => member_list(object@, name@) == Some(views(value@)),
            None => member_list(object@, name@) is None,
        },
{
    match object.member(name) {
        Some(value) => value.as_list(),
        None => None,
    }
}

/// The field of that name, which must be an array.
pub fn need_list<'a>(object: &'a Json, name: &str) -> (found: Result<&'a Vec<Json>, String>)
    ensures
        match found {
            Ok(value) => {
                &&& list_problem(object@, name@) is None
                &&& member_list(object@, name@) == Some(views(value@))
            },
            Err(message) => list_problem(object@, name@) == Some(message@),
        },
{
    match object.member(name) {
        Some(value) => match value.as_list() {
            Some(found) => Ok(found),
            None => Err(mistyped(name, "an array")),
        },
        None => Err(missing(name)),
    }
}

/// The text of that name, or the empty one where there is none.
pub open spec fn text_at(value: JsonView, name: Seq<char>) -> Seq<char> {
    match member_text(value, name) {
        Some(text) => text,
        None => Seq::empty(),
    }
}

/// The unsigned integer of that name, or zero where there is none.
pub open spec fn unsigned_at(value: JsonView, name: Seq<char>) -> u64 {
    match member_unsigned(value, name) {
        Some(n) => n,
        None => 0,
    }
}

/// The signed integer of that name, or zero where there is none.
pub open spec fn signed_at(value: JsonView, name: Seq<char>) -> i64 {
    match member_signed(value, name) {
        Some(n) => n,
        None => 0,
    }
}

/// The truth value of that name, or false where there is none.
pub open spec fn flag_at(value: JsonView, name: Seq<char>) -> bool {
    match member_flag(value, name) {
        Some(flag) => flag,
        None => false,
    }
}

/// The items of that name, or none.
pub open spec fn list_at(value: JsonView, name: Seq<char>) -> Seq<JsonView> {
    match member_list(value, name) {
        Some(items) => items,
        None => Seq::empty(),
    }
}

/// The value of that name, or null where there is none.
pub open spec fn value_at(value: JsonView, name: Seq<char>) -> JsonView {
    match member_of(value, name) {
        Some(found) => found,
        None => JsonView::Null,
    }
}

} // verus!
