//! Fields of venue messages whose complaints name the field.
use vstd::prelude::*;

use crate::domain;
use crate::domain::{DecimalValue, ObservedDecimal};
use crate::json;
use crate::json::{Json, JsonView};
use crate::providers;
use crate::providers::Complaints;
use crate::text;

verus! {

/// The complaint about a field that is no text with at least one character.
pub open spec fn no_text(field: Seq<char>) -> Seq<char> {
    field + " must be a non-empty string"@
}

/// The complaint about a field that is no unsigned integer.
pub open spec fn no_unsigned(field: Seq<char>) -> Seq<char> {
    field + " must be an unsigned integer"@
}

/// Why a value is no text with at least one character.
pub open spec fn scalar_problem(value: JsonView, field: Seq<char>) -> Option<Seq<char>> {
    match value {
        JsonView::Text(text) => providers::unless(text.len() > 0, no_text(field)),
        _ => Some(no_text(field)),
    }
}

/// The text of a value, or the empty one where it is none.
pub open spec fn scalar(value: JsonView) -> Seq<char> {
    match value {
        JsonView::Text(text) => text,
        _ => Seq::empty(),
    }
}

/// Why an object has no text of that name with at least one character.
pub open spec fn string_problem(object: JsonView, field: Seq<char>) -> Option<Seq<char>> {
    providers::unless(json::text_at(object, field).len() > 0, no_text(field))
}

/// Why an object has no object of that name.
pub open spec fn object_problem(object: JsonView, field: Seq<char>) -> Option<Seq<char>> {
    providers::unless(json::value_at(object, field) is Object, field + " must be an object"@)
}

/// Why an object has no value of that name.
pub open spec fn value_problem(object: JsonView, field: Seq<char>) -> Option<Seq<char>> {
    providers::unless(json::member_of(object, field) is Some, "missing "@ + field)
}

/// Whether a value stands for nothing: null or the empty text.
pub open spec fn is_blank(value: JsonView) -> bool {
    value == JsonView::Null || value == JsonView::Text(Seq::empty())
}

/// Why a text is no decimal, in the words of the domain.
pub open spec fn plain_decimal_problem(value: Seq<char>) -> Option<Seq<char>> {
    providers::unless(
        domain::is_decimal(value),
        domain::domain_message(domain::DomainErrorView::InvalidDecimal(value)),
    )
}

/// The complaint about a field that is no text with at least one character.
pub fn complain_no_text(field: &str) -> (message: String)
    ensures
        message@ == no_text(field@),
{
    text::cat2(field, " must be a non-empty string")
}

/// The complaint about a field that is no unsigned integer.
pub fn complain_no_unsigned(field: &str) -> (message: String)
    ensures
        message@ == no_unsigned(field@),
{
    text::cat2(field, " must be an unsigned integer")
}

/// The text of a value.
pub fn required_scalar<'a>(value: &'a Json, field: &str) -> (r: Result<&'a str, String>)
    ensures
        match r {
            Ok(text) => scalar_problem(value@, field@) is None && text@ == scalar(value@),
            Err(message) => scalar_problem(value@, field@) == Some(message@),
        },
{
    match value.as_text() {
        Some(text) => if text.is_empty() {
            Err(complain_no_text(field))
        } else {
            Ok(text)
        },
        None => Err(complain_no_text(field)),
    }
}

/// The text of that name.
pub fn required_string<'a>(object: &'a Json, field: &str) -> (r: Result<&'a str, String>)
    ensures
        match r {
            Ok(text) => {
                &&& string_problem(object@, field@) is None
                &&& text@ == json::text_at(object@, field@)
            },
            Err(message) => string_problem(object@, field@) == Some(message@),
        },
{
    match json::find_text(object, field) {
        Some(text) => if text.is_empty() {
            Err(complain_no_text(field))
        } else {
            Ok(text)
        },
        None => Err(complain_no_text(field)),
    }
}

/// The object of that name.
pub fn required_object<'a>(object: &'a Json, field: &str) -> (r: Result<&'a Json, String>)
    ensures
        match r {
            Ok(value) => {
                &&& object_problem(object@, field@) is None
                &&& value@ == json::value_at(object@, field@)
            },
            Err(message) => object_problem(object@, field@) == Some(message@),
        },
{
    if let Some(value) = object.member(field) {
        if value.is_object() {
            return Ok(value);
        }
    }
    Err(text::cat2(field, " must be an object"))
}

/// The value of that name.
pub fn required_value<'a>(object: &'a Json, field: &str) -> (r: Result<&'a Json, String>)
    ensures
        match r {
            Ok(value) => {
                &&& value_problem(object@, field@) is None
                &&& value@ == json::value_at(object@, field@)
            },
            Err(message) => value_problem(object@, field@) == Some(message@),
        },
{
    match object.member(field) {
        Some(value) => Ok(value),
        None => Err(text::cat2("missing ", field)),
    }
}

/// Whether a value stands for nothing.
pub fn blank(value: &Json) -> (answer: bool)
    ensures
        answer == is_blank(value@),
{
    if value.is_null() {
        return true;
    }
    match value.as_text() {
        Some(text) => {
            let empty = text.is_empty();
            proof {
                if empty {
                    assert(text@ =~= Seq::empty());
                }
            }
            empty
        },
        None => false,
    }
}

/// Read a decimal.
pub fn plain_decimal(value: &str) -> (r: Result<DecimalValue, String>)
    ensures
        match r {
            Ok(decimal) => plain_decimal_problem(value@) is None && decimal@ == value@,
            Err(message) => plain_decimal_problem(value@) == Some(message@),
        },
{
    match DecimalValue::new(value) {
        Ok(decimal) => Ok(decimal),
        Err(error) => Err(error.message()),
    }
}

/// Read a decimal with the time at which it was observed.
pub fn plain_observed(value: &str, observed_at_ms: u64) -> (r: Result<ObservedDecimal, String>)
    ensures
        match r {
            Ok(decimal) => {
                &&& plain_decimal_problem(value@) is None
                &&& Some(decimal@) == providers::observed(value@, observed_at_ms)
            },
            Err(message) => plain_decimal_problem(value@) == Some(message@),
        },
{
    let value = plain_decimal(value)?;
    Ok(ObservedDecimal { value, observed_at_ms })
}

// ---------------------------------------------------------------------------------------------
// Numbers in the exact text in which a venue sent them
// ---------------------------------------------------------------------------------------------

/// White space of ASCII between the tokens of a document.
pub open spec fn is_gap(c: char) -> bool {
    c == ' ' || c == '\t' || c == '\n' || c as u32 == 12 || c == '\r'
}

/// A character of a number.
pub open spec fn in_number(c: char) -> bool {
    text::is_digit(c) || c == '-' || c == '+' || c == '.' || c == 'e' || c == 'E'
}

/// The first place from a given one on that holds no white space.
pub open spec fn after_gap(s: Seq<char>, i: int) -> int
    decreases s.len() - i,
{
    if 0 <= i < s.len() && is_gap(s[i]) {
        after_gap(s, i + 1)
    } else {
        i
    }
}

/// The first place from a given one on that holds no character of a number.
pub open spec fn number_end(s: Seq<char>, i: int) -> int
    decreases s.len() - i,
{
    if 0 <= i < s.len() && in_number(s[i]) {
        number_end(s, i + 1)
    } else {
        i
    }
}

/// The first place from a given one on that holds a quotation mark, or the length of the text.
pub open spec fn next_quote(s: Seq<char>, i: int) -> int
    decreases s.len() - i,
{
    if 0 <= i < s.len() && s[i] != '"' {
        next_quote(s, i + 1)
    } else {
        i
    }
}

/// The place of the quotation mark that closes a string whose content starts at a given place. A
/// character after a backslash closes nothing.
pub open spec fn string_end(s: Seq<char>, i: int) -> int
    decreases s.len() - i + 2,
{
    if 0 <= i < s.len() && s[i] == '\\' {
        string_end(s, i + 2)
    } else if 0 <= i < s.len() && s[i] != '"' {
        string_end(s, i + 1)
    } else {
        i
    }
}

/// These places do not lie before the one that the search starts from.
pub proof fn lemma_scans_advance(s: Seq<char>, i: int)
    requires
        0 <= i,
    ensures
        after_gap(s, i) >= i,
        number_end(s, i) >= i,
        next_quote(s, i) >= i,
        string_end(s, i) >= i,
        i <= s.len() ==> after_gap(s, i) <= s.len(),
        i <= s.len() ==> number_end(s, i) <= s.len(),
        i <= s.len() ==> next_quote(s, i) <= s.len(),
    decreases s.len() - i,
{
    if i < s.len() {
        lemma_scans_advance(s, i + 1);
        if i + 2 <= s.len() {
            lemma_scans_advance(s, i + 2);
        }
    }
}

/// The first number that follows a name and a colon, from a given place on.
pub open spec fn number_named(s: Seq<char>, field: Seq<char>, i: int) -> Option<Seq<char>>
    decreases s.len() - i,
{
    let open = next_quote(s, i);
    let close = string_end(s, open + 1);
    if i < 0 || open >= s.len() || close >= s.len() {
        None
    } else {
        let content = s.subrange(open + 1, close);
        let colon = after_gap(s, close + 1);
        let start = after_gap(s, colon + 1);
        proof {
            lemma_scans_advance(s, i);
            lemma_scans_advance(s, open + 1);
            lemma_scans_advance(s, close + 1);
            lemma_scans_advance(s, colon + 1);
        }
        if content != field || text::holds(content, '\\') {
            number_named(s, field, close + 1)
        } else if colon >= s.len() || s[colon] != ':' {
            number_named(s, field, colon)
        } else if number_end(s, start) > start {
            Some(s.subrange(start, number_end(s, start)))
        } else {
            number_named(s, field, start)
        }
    }
}

/// The number of a field in the exact text of a document.
pub open spec fn raw_number(s: Seq<char>, field: Seq<char>) -> Option<Seq<char>> {
    number_named(s, field, 0)
}

fn skip_gap(list: &Vec<char>, from: usize) -> (at: usize)
    requires
        from <= list@.len(),
    ensures
        at == after_gap(list@, from as int),
        from <= at <= list@.len(),
{
    let mut i: usize = from;
    while i < list.len() && (list[i] == ' ' || list[i] == '\t' || list[i] == '\n' || list[i] as u32
        == 12 || list[i] == '\r')
        invariant
            from <= i <= list@.len(),
            after_gap(list@, from as int) == after_gap(list@, i as int),
        decreases list.len() - i,
    {
        i += 1;
    }
    i
}

fn skip_number(list: &Vec<char>, from: usize) -> (at: usize)
    requires
        from <= list@.len(),
    ensures
        at == number_end(list@, from as int),
        from <= at <= list@.len(),
{
    let mut i: usize = from;
    while i < list.len() && (('0' <= list[i] && list[i] <= '9') || list[i] == '-' || list[i] == '+'
        || list[i] == '.' || list[i] == 'e' || list[i] == 'E')
        invariant
            from <= i <= list@.len(),
            number_end(list@, from as int) == number_end(list@, i as int),
        decreases list.len() - i,
    {
        i += 1;
    }
    i
}

fn skip_to_quote(list: &Vec<char>, from: usize) -> (at: usize)
    requires
        from <= list@.len(),
    ensures
        at == next_quote(list@, from as int),
        from <= at <= list@.len(),
{
    let mut i: usize = from;
    while i < list.len() && list[i] != '"'
        invariant
            from <= i <= list@.len(),
            next_quote(list@, from as int) == next_quote(list@, i as int),
        decreases list.len() - i,
    {
        i += 1;
    }
    i
}

/// The place of the quotation mark that closes a string, or nothing where none does.
fn skip_string(list: &Vec<char>, from: usize) -> (at: Option<usize>)
    requires
        from <= list@.len(),
    ensures
        match at {
            Some(close) => close == string_end(list@, from as int) && from <= close < list@.len(),
            None => string_end(list@, from as int) >= list@.len(),
        },
{
    let mut i: usize = from;
    while i < list.len()
        invariant
            from <= i <= list@.len(),
            string_end(list@, from as int) == string_end(list@, i as int),
        decreases list.len() - i,
    {
        if list[i] == '\\' {
            if i + 1 >= list.len() {
                proof {
                    lemma_scans_advance(list@, i + 2);
                }
                return None;
            }
            i += 2;
        } else if list[i] == '"' {
            return Some(i);
        } else {
            i += 1;
        }
    }
    None
}

/// The number of a field in the exact text of a document, with every digit that the venue sent.
pub fn raw_number_field<'a>(text: &'a str, field: &str) -> (found: Option<&'a str>)
    ensures
        match found {
            Some(number) => raw_number(text@, field@) == Some(number@),
            None => raw_number(text@, field@) is None,
        },
{
    let list = text::characters(text);
    let mut cursor: usize = 0;
    while cursor < list.len()
        invariant
            list@ == text@,
            cursor <= list@.len(),
            raw_number(text@, field@) == number_named(text@, field@, cursor as int),
        decreases list.len() - cursor,
    {
        let open = skip_to_quote(&list, cursor);
        if open >= list.len() {
            return None;
        }
        let close = match skip_string(&list, open + 1) {
            Some(close) => close,
            None => {
                return None;
            },
        };
        let content = text.substring_char(open + 1, close);
        let is_field = text::same(content, field) && !text::contains(content, '\\');
        if !is_field {
            cursor = close + 1;
            continue;
        }
        let colon = skip_gap(&list, close + 1);
        if colon >= list.len() || list[colon] != ':' {
            cursor = colon;
            continue;
        }
        let start = skip_gap(&list, colon + 1);
        let end = skip_number(&list, start);
        if end > start {
            return Some(text.substring_char(start, end));
        }
        cursor = start;
    }
    proof {
        lemma_scans_advance(text@, cursor as int);
    }
    None
}

/// Why a value is neither a text nor a number.
pub open spec fn exact_problem(value: JsonView, field: Seq<char>) -> Option<Seq<char>> {
    let message = field + " must be a decimal string or number"@;
    match value {
        JsonView::Text(text) => providers::unless(text.len() > 0, message),
        JsonView::Number(_) => None,
        _ => Some(message),
    }
}

/// The exact text of a value: of a number, the text in the document where it can be found there.
pub open spec fn exact(value: JsonView, field: Seq<char>, document: Option<Seq<char>>) -> Seq<char> {
    match value {
        JsonView::Text(text) => text,
        JsonView::Number(number) => match document {
            Some(document) => match raw_number(document, field) {
                Some(text) => text,
                None => number.text,
            },
            None => number.text,
        },
        _ => Seq::empty(),
    }
}

/// The exact text of a value.
pub fn decimal_string(value: &Json, field: &str, document: Option<&str>) -> (r: Result<
    String,
    String,
>)
    ensures
        match r {
            Ok(text) => {
                &&& exact_problem(value@, field@) is None
                &&& text@ == exact(value@, field@, providers::name_view(document))
            },
            Err(message) => exact_problem(value@, field@) == Some(message@),
        },
{
    match value {
        Json::Text(text) => {
            if !text.as_str().is_empty() {
                return Ok(text.clone());
            }
        },
        Json::Number(number) => {
            if let Some(document) = document {
                if let Some(found) = raw_number_field(document, field) {
                    return Ok(found.to_owned());
                }
            }
            return Ok(number.text.clone());
        },
        _ => {},
    }
    Err(text::cat2(field, " must be a decimal string or number"))
}

/// The value of that name with the time at which it was observed.
pub open spec fn exact_observed(
    object: JsonView,
    field: Seq<char>,
    time: u64,
    document: Option<Seq<char>>,
) -> Option<domain::ObservedView> {
    providers::observed(exact(json::value_at(object, field), field, document), time)
}

/// Why an object has no decimal of that name.
pub open spec fn exact_field_problem(
    object: JsonView,
    field: Seq<char>,
    document: Option<Seq<char>>,
) -> Option<Seq<char>> {
    let value = json::value_at(object, field);
    value_problem(object, field)
        .or_next(exact_problem(value, field))
        .or_next(plain_decimal_problem(exact(value, field, document)))
}

/// Read the decimal of that name.
pub fn observation_from_field(object: &Json, field: &str, time: u64, document: Option<&str>) -> (r:
    Result<ObservedDecimal, String>)
    ensures
        match r {
            Ok(decimal) => {
                &&& exact_field_problem(object@, field@, providers::name_view(document)) is None
                &&& Some(decimal@) == exact_observed(
                    object@,
                    field@,
                    time,
                    providers::name_view(document),
                )
            },
            Err(message) => exact_field_problem(object@, field@, providers::name_view(document))
                == Some(message@),
        },
{
    let value = required_value(object, field)?;
    let text = decimal_string(value, field, document)?;
    plain_observed(text.as_str(), time)
}

} // verus!
