//! Operations on text that the wire formats need, stated over sequences of characters.
use vstd::prelude::*;

verus! {

broadcast use vstd::string::group_string_axioms;

/// Outside function: `String::push`. The character is appended to the end of the string.
pub assume_specification[ String::push ](string: &mut String, character: char)
    ensures
        final(string)@ == old(string)@.push(character),
;

/// Outside function: `str::strip_prefix` of a character. Where the text begins with the character,
/// what comes after it is the result; there is none otherwise.
#[verifier::external_body]
pub(crate) fn after_character<'a>(text: &'a str, character: char) -> (rest: Option<&'a str>)
    ensures
        match rest {
            Some(rest) => text@.len() > 0 && text@[0] == character && rest@ == text@.skip(1),
            None => text@.len() == 0 || text@[0] != character,
        },
{
    text.strip_prefix(character)
}

/// What `char::is_alphanumeric` answers for a character outside ASCII.
pub uninterp spec fn unicode_alphanumeric(character: char) -> bool;

/// The text that the standard library's `Debug` formatting of a string gives: the string in
/// double quotes with its special characters escaped.
pub uninterp spec fn debug_text(value: Seq<char>) -> Seq<char>;

/// Outside function: `char::is_alphanumeric`. Nothing is claimed but that the answer depends on
/// the character alone.
#[verifier::external_body]
fn outside_is_alphanumeric(character: char) -> (answer: bool)
    ensures
        answer == unicode_alphanumeric(character),
{
    character.is_alphanumeric()
}

/// Outside function: the `Debug` formatting of `str`. Nothing is claimed but that the text depends
/// on the string alone.
#[verifier::external_body]
pub(crate) fn quoted(value: &str) -> (text: String)
    ensures
        text@ == debug_text(value@),
{
    format!("{value:?}")
}

/// The ASCII characters are the first 128 code points.
pub open spec fn is_ascii_char(c: char) -> bool {
    (c as u32) < 128
}

/// A decimal digit of ASCII.
pub open spec fn is_digit(c: char) -> bool {
    '0' <= c && c <= '9'
}

/// A letter or digit of ASCII.
pub open spec fn is_ascii_alphanumeric(c: char) -> bool {
    is_digit(c) || ('a' <= c && c <= 'z') || ('A' <= c && c <= 'Z')
}

/// A letter or digit of any script.
pub open spec fn is_alphanumeric(c: char) -> bool {
    if is_ascii_char(c) {
        is_ascii_alphanumeric(c)
    } else {
        unicode_alphanumeric(c)
    }
}

/// White space of any script: the characters with Unicode's property `White_Space`.
pub open spec fn is_white(c: char) -> bool {
    let code = c as u32;
    ||| 0x9 <= code <= 0xD
    ||| code == 0x20
    ||| code == 0x85
    ||| code == 0xA0
    ||| code == 0x1680
    ||| 0x2000 <= code <= 0x200A
    ||| code == 0x2028
    ||| code == 0x2029
    ||| code == 0x202F
    ||| code == 0x205F
    ||| code == 0x3000
}

/// An ASCII letter in upper case; any other character unchanged.
pub open spec fn upper(c: char) -> char {
    if 'a' <= c && c <= 'z' {
        (c as u8 - 32) as char
    } else {
        c
    }
}

/// An ASCII letter in lower case; any other character unchanged.
pub open spec fn lower(c: char) -> char {
    if 'A' <= c && c <= 'Z' {
        (c as u8 + 32) as char
    } else {
        c
    }
}

/// Every ASCII letter of the text in upper case.
pub open spec fn uppered(s: Seq<char>) -> Seq<char> {
    Seq::new(s.len(), |i: int| upper(s[i]))
}

/// Every ASCII letter of the text in lower case.
pub open spec fn lowered(s: Seq<char>) -> Seq<char> {
    Seq::new(s.len(), |i: int| lower(s[i]))
}

/// The length of the text in bytes of UTF-8.
pub open spec fn byte_length(s: Seq<char>) -> nat {
    vstd::utf8::encode_utf8(s).len()
}

/// The text without leading white space.
pub open spec fn without_leading_white(s: Seq<char>) -> Seq<char>
    decreases s.len(),
{
    if s.len() > 0 && is_white(s[0]) {
        without_leading_white(s.skip(1))
    } else {
        s
    }
}

/// The text without trailing white space.
pub open spec fn without_trailing_white(s: Seq<char>) -> Seq<char>
    decreases s.len(),
{
    if s.len() > 0 && is_white(s.last()) {
        without_trailing_white(s.drop_last())
    } else {
        s
    }
}

/// The text without white space at either end.
pub open spec fn trimmed(s: Seq<char>) -> Seq<char> {
    without_trailing_white(without_leading_white(s))
}

/// Whether the text holds the character.
pub open spec fn holds(s: Seq<char>, c: char) -> bool {
    exists|i: int| 0 <= i < s.len() && s[i] == c
}

/// The position of the first occurrence of the character, or the length where there is none.
pub open spec fn first_position(s: Seq<char>, c: char) -> int
    decreases s.len(),
{
    if s.len() == 0 || s[0] == c {
        0
    } else {
        1 + first_position(s.skip(1), c)
    }
}

/// The two parts of the text around the first occurrence of the character.
pub open spec fn parts_around(s: Seq<char>, c: char) -> Option<(Seq<char>, Seq<char>)> {
    let at = first_position(s, c);
    if at < s.len() {
        Some((s.take(at), s.skip(at + 1)))
    } else {
        None
    }
}

/// Whether the text begins with the prefix.
pub open spec fn begins_with(s: Seq<char>, prefix: Seq<char>) -> bool {
    prefix.len() <= s.len() && s.take(prefix.len() as int) == prefix
}

/// Whether the text ends with the suffix.
pub open spec fn finishes_with(s: Seq<char>, suffix: Seq<char>) -> bool {
    suffix.len() <= s.len() && s.skip(s.len() - suffix.len()) == suffix
}

/// What follows the prefix in a text that begins with it.
pub open spec fn after_prefix(s: Seq<char>, prefix: Seq<char>) -> Option<Seq<char>> {
    if begins_with(s, prefix) {
        Some(s.skip(prefix.len() as int))
    } else {
        None
    }
}

/// What precedes the suffix in a text that ends with it.
pub open spec fn before_suffix(s: Seq<char>, suffix: Seq<char>) -> Option<Seq<char>> {
    if finishes_with(s, suffix) {
        Some(s.take(s.len() - suffix.len()))
    } else {
        None
    }
}

/// Lexicographic order by code point, which is the byte order of UTF-8.
pub open spec fn precedes(a: Seq<char>, b: Seq<char>) -> bool
    decreases a.len(),
{
    if b.len() == 0 {
        false
    } else if a.len() == 0 {
        true
    } else if a[0] != b[0] {
        a[0] < b[0]
    } else {
        precedes(a.skip(1), b.skip(1))
    }
}

/// The digit of a number below ten.
pub open spec fn digit_char(n: nat) -> char {
    ((n % 10) as u8 + 48) as char
}

/// The decimal digits of a number, without leading zeros.
pub open spec fn digits(n: nat) -> Seq<char>
    decreases n,
{
    if n < 10 {
        seq![digit_char(n)]
    } else {
        digits(n / 10).push(digit_char(n % 10))
    }
}

/// The decimal text of an integer: its digits, after a minus sign where it is negative.
pub open spec fn integer_text(n: int) -> Seq<char> {
    if n < 0 {
        seq!['-'] + digits((-n) as nat)
    } else {
        digits(n as nat)
    }
}

/// Whether the text is made of decimal digits alone.
pub open spec fn all_digits(s: Seq<char>) -> bool {
    forall|i: int| 0 <= i < s.len() ==> is_digit(#[trigger] s[i])
}

/// The number that a run of decimal digits denotes.
pub open spec fn digits_value(s: Seq<char>) -> nat
    decreases s.len(),
{
    if s.len() == 0 {
        0
    } else {
        digits_value(s.drop_last()) * 10 + (s.last() as u32 - 48) as nat
    }
}

/// The number of decimal digits that the text begins with.
pub open spec fn leading_digits(s: Seq<char>) -> nat
    decreases s.len(),
{
    if s.len() > 0 && is_digit(s[0]) {
        1 + leading_digits(s.skip(1))
    } else {
        0
    }
}

/// The digits of an unsigned integer, without the plus sign that may stand before them.
pub open spec fn unsigned_run(s: Seq<char>) -> Seq<char> {
    if s.len() > 0 && s[0] == '+' {
        s.skip(1)
    } else {
        s
    }
}

/// Why a text is no unsigned 64-bit integer, in the words of the standard library; nothing where
/// it is one.
pub open spec fn unsigned_problem(s: Seq<char>) -> Option<Seq<char>> {
    let run = unsigned_run(s);
    let leading = leading_digits(run);
    if s.len() == 0 {
        Some("cannot parse integer from empty string"@)
    } else if digits_value(run.take(leading as int)) > u64::MAX {
        Some("number too large to fit in target type"@)
    } else if leading == 0 || leading < run.len() {
        Some("invalid digit found in string"@)
    } else {
        None
    }
}

/// A byte-for-byte copy of one text in another decides whether the two are the same.
pub fn same(a: &str, b: &str) -> (equal: bool)
    ensures
        equal == (a@ == b@),
{
    let left = a.as_bytes();
    let right = b.as_bytes();
    proof {
        vstd::utf8::encode_utf8_decode_utf8(a@);
        vstd::utf8::encode_utf8_decode_utf8(b@);
    }
    if left.len() != right.len() {
        return false;
    }
    let mut i: usize = 0;
    while i < left.len()
        invariant
            left@ == vstd::utf8::encode_utf8(a@),
            right@ == vstd::utf8::encode_utf8(b@),
            left@.len() == right@.len(),
            i <= left@.len(),
            left@.take(i as int) == right@.take(i as int),
        decreases left.len() - i,
    {
        if left[i] != right[i] {
            return false;
        }
        proof {
            assert(left@.take(i + 1) == left@.take(i as int).push(left@[i as int]));
            assert(right@.take(i + 1) == right@.take(i as int).push(right@[i as int]));
        }
        i += 1;
    }
    proof {
        assert(left@.take(i as int) == left@);
        assert(right@.take(i as int) == right@);
    }
    true
}

/// The characters of a text.
pub fn characters(s: &str) -> (list: Vec<char>)
    ensures
        list@ == s@,
{
    let mut list: Vec<char> = Vec::new();
    for c in it: s.chars()
        invariant
            it.seq() == s@,
            list@ == s@.take(it.index()),
    {
        list.push(c);
        proof {
            assert(s@.take(it.index() + 1) == s@.take(it.index()).push(c));
        }
    }
    proof {
        assert(s@.take(s@.len() as int) == s@);
    }
    list
}

/// The text made of a run of characters.
pub fn assembled(list: &Vec<char>) -> (s: String)
    ensures
        s@ == list@,
{
    let mut s = String::new();
    let mut i: usize = 0;
    while i < list.len()
        invariant
            i <= list@.len(),
            s@ == list@.take(i as int),
        decreases list.len() - i,
    {
        s.push(list[i]);
        proof {
            assert(list@.take(i + 1) == list@.take(i as int).push(list@[i as int]));
        }
        i += 1;
    }
    proof {
        assert(list@.take(i as int) == list@);
    }
    s
}

/// Two texts, one after the other.
pub fn cat2(a: &str, b: &str) -> (s: String)
    ensures
        s@ == a@ + b@,
{
    let mut s = a.to_owned();
    s.append(b);
    s
}

/// Three texts, one after the other.
pub fn cat3(a: &str, b: &str, c: &str) -> (s: String)
    ensures
        s@ == a@ + b@ + c@,
{
    let mut s = a.to_owned();
    s.append(b);
    s.append(c);
    s
}

/// Four texts, one after the other.
pub fn cat4(a: &str, b: &str, c: &str, d: &str) -> (s: String)
    ensures
        s@ == a@ + b@ + c@ + d@,
{
    let mut s = cat3(a, b, c);
    s.append(d);
    s
}

/// Five texts, one after the other.
pub fn cat5(a: &str, b: &str, c: &str, d: &str, e: &str) -> (s: String)
    ensures
        s@ == a@ + b@ + c@ + d@ + e@,
{
    let mut s = cat4(a, b, c, d);
    s.append(e);
    s
}

/// Six texts, one after the other.
pub fn cat6(a: &str, b: &str, c: &str, d: &str, e: &str, f: &str) -> (s: String)
    ensures
        s@ == a@ + b@ + c@ + d@ + e@ + f@,
{
    let mut s = cat5(a, b, c, d, e);
    s.append(f);
    s
}

/// The decimal text of an unsigned number.
pub fn unsigned_text(n: u64) -> (s: String)
    ensures
        s@ == digits(n as nat),
        s@ == integer_text(n as int),
    decreases n,
{
    let mut s = if n < 10 {
        String::new()
    } else {
        unsigned_text(n / 10)
    };
    let digit: u8 = (n % 10) as u8;
    s.push((digit + 48) as char);
    proof {
        assert(s@ == digits(n as nat));
    }
    s
}

/// The decimal text of a signed number.
pub fn signed_text(n: i64) -> (s: String)
    ensures
        s@ == integer_text(n as int),
{
    if n >= 0 {
        unsigned_text(n as u64)
    } else {
        let magnitude: u64 = (-(n as i128)) as u64;
        let tail = unsigned_text(magnitude);
        let head = "-";
        proof {
            reveal_strlit("-");
            assert("-"@ == seq!['-']);
        }
        cat2(head, tail.as_str())
    }
}

/// The length of a text in bytes.
pub fn length(s: &str) -> (n: usize)
    ensures
        n == byte_length(s@),
{
    s.as_bytes().len()
}

/// Whether a character is a letter or digit of any script.
pub fn alphanumeric(c: char) -> (answer: bool)
    ensures
        answer == is_alphanumeric(c),
{
    if (c as u32) < 128 {
        ('0' <= c && c <= '9') || ('a' <= c && c <= 'z') || ('A' <= c && c <= 'Z')
    } else {
        outside_is_alphanumeric(c)
    }
}

/// Whether a character is white space of any script.
pub fn white(c: char) -> (answer: bool)
    ensures
        answer == is_white(c),
{
    let code = c as u32;
    (0x9 <= code && code <= 0xD) || code == 0x20 || code == 0x85 || code == 0xA0 || code == 0x1680
        || (0x2000 <= code && code <= 0x200A) || code == 0x2028 || code == 0x2029 || code == 0x202F
        || code == 0x205F || code == 0x3000
}

/// The text without white space at either end.
pub fn trim<'a>(s: &'a str) -> (r: &'a str)
    ensures
        r@ == trimmed(s@),
{
    let list = characters(s);
    let mut start: usize = 0;
    proof {
        assert(s@.skip(0) == s@);
    }
    while start < list.len() && white(list[start])
        invariant
            list@ == s@,
            start <= list@.len(),
            without_leading_white(s@) == without_leading_white(s@.skip(start as int)),
        decreases list.len() - start,
    {
        proof {
            assert(s@.skip(start as int).skip(1) == s@.skip(start + 1));
        }
        start += 1;
    }
    let mut end: usize = list.len();
    let ghost inner = s@.skip(start as int);
    proof {
        assert(s@.subrange(start as int, end as int) == inner);
    }
    while start < end && white(list[end - 1])
        invariant
            list@ == s@,
            start <= end <= list@.len(),
            without_trailing_white(inner) == without_trailing_white(
                s@.subrange(start as int, end as int),
            ),
        decreases end - start,
    {
        proof {
            let whole = s@.subrange(start as int, end as int);
            assert(whole.drop_last() == s@.subrange(start as int, end - 1));
            assert(whole.last() == s@[end - 1]);
        }
        end -= 1;
    }
    proof {
        let rest = s@.subrange(start as int, end as int);
        if start < end {
            assert(rest.last() == s@[end - 1]);
        }
    }
    s.substring_char(start, end)
}

/// The text with its ASCII letters in upper case.
pub fn to_upper(s: &str) -> (r: String)
    ensures
        r@ == uppered(s@),
{
    let list = characters(s);
    let mut r = String::new();
    let mut i: usize = 0;
    while i < list.len()
        invariant
            list@ == s@,
            i <= list@.len(),
            r@ == uppered(s@).take(i as int),
        decreases list.len() - i,
    {
        let c = list[i];
        let mapped = if 'a' <= c && c <= 'z' {
            (c as u8 - 32) as char
        } else {
            c
        };
        r.push(mapped);
        proof {
            assert(uppered(s@).take(i + 1) == uppered(s@).take(i as int).push(mapped));
        }
        i += 1;
    }
    proof {
        assert(uppered(s@).take(i as int) == uppered(s@));
    }
    r
}

/// The text with its ASCII letters in lower case.
pub fn to_lower(s: &str) -> (r: String)
    ensures
        r@ == lowered(s@),
{
    let list = characters(s);
    let mut r = String::new();
    let mut i: usize = 0;
    while i < list.len()
        invariant
            list@ == s@,
            i <= list@.len(),
            r@ == lowered(s@).take(i as int),
        decreases list.len() - i,
    {
        let c = list[i];
        let mapped = if 'A' <= c && c <= 'Z' {
            (c as u8 + 32) as char
        } else {
            c
        };
        r.push(mapped);
        proof {
            assert(lowered(s@).take(i + 1) == lowered(s@).take(i as int).push(mapped));
        }
        i += 1;
    }
    proof {
        assert(lowered(s@).take(i as int) == lowered(s@));
    }
    r
}

/// The first position of a character is the smallest index that holds it.
pub proof fn lemma_first_position(s: Seq<char>, c: char)
    ensures
        0 <= first_position(s, c) <= s.len(),
        forall|i: int| 0 <= i < first_position(s, c) ==> s[i] != c,
        first_position(s, c) < s.len() ==> s[first_position(s, c)] == c,
        first_position(s, c) < s.len() <==> holds(s, c),
    decreases s.len(),
{
    if s.len() > 0 && s[0] != c {
        let rest = s.skip(1);
        lemma_first_position(rest, c);
        assert forall|i: int| 0 <= i < first_position(s, c) implies s[i] != c by {
            if i > 0 {
                assert(rest[i - 1] == s[i]);
            }
        }
        if holds(s, c) {
            let i = choose|i: int| 0 <= i < s.len() && s[i] == c;
            assert(rest[i - 1] == c);
        }
        if first_position(s, c) < s.len() {
            assert(s[first_position(s, c)] == rest[first_position(rest, c)]);
        }
    }
}

/// The position of the first occurrence of a character, or the number of characters where there
/// is none.
fn position(list: &Vec<char>, c: char) -> (at: usize)
    ensures
        at == first_position(list@, c),
{
    let mut i: usize = 0;
    proof {
        assert(list@.skip(0) == list@);
    }
    while i < list.len() && list[i] != c
        invariant
            i <= list@.len(),
            first_position(list@, c) == i + first_position(list@.skip(i as int), c),
        decreases list.len() - i,
    {
        proof {
            assert(list@.skip(i as int).skip(1) == list@.skip(i + 1));
        }
        i += 1;
    }
    i
}

/// Whether a text holds a character.
pub fn contains(s: &str, c: char) -> (answer: bool)
    ensures
        answer == holds(s@, c),
{
    let list = characters(s);
    let at = position(&list, c);
    proof {
        lemma_first_position(s@, c);
    }
    at < list.len()
}

/// The two parts of a text around the first occurrence of a character.
pub fn split_once<'a>(s: &'a str, c: char) -> (parts: Option<(&'a str, &'a str)>)
    ensures
        match parts {
            Some(pair) => parts_around(s@, c) == Some((pair.0@, pair.1@)),
            None => parts_around(s@, c) is None,
        },
{
    let list = characters(s);
    let at = position(&list, c);
    if at < list.len() {
        let head = s.substring_char(0, at);
        let tail = s.substring_char(at + 1, list.len());
        proof {
            assert(s@.take(at as int) == s@.subrange(0, at as int));
            assert(s@.skip(at + 1) == s@.subrange(at + 1, s@.len() as int));
        }
        Some((head, tail))
    } else {
        None
    }
}

/// What follows a prefix in a text that begins with it.
pub fn strip_prefix<'a>(s: &'a str, prefix: &str) -> (rest: Option<&'a str>)
    ensures
        match rest {
            Some(tail) => after_prefix(s@, prefix@) == Some(tail@),
            None => after_prefix(s@, prefix@) is None,
        },
{
    let n = s.unicode_len();
    let m = prefix.unicode_len();
    if m > n {
        return None;
    }
    let head = s.substring_char(0, m);
    let tail = s.substring_char(m, n);
    proof {
        assert(s@.take(m as int) == s@.subrange(0, m as int));
        assert(s@.skip(m as int) == s@.subrange(m as int, n as int));
    }
    if same(head, prefix) {
        Some(tail)
    } else {
        None
    }
}

/// What precedes a suffix in a text that ends with it.
pub fn strip_suffix<'a>(s: &'a str, suffix: &str) -> (rest: Option<&'a str>)
    ensures
        match rest {
            Some(head) => before_suffix(s@, suffix@) == Some(head@),
            None => before_suffix(s@, suffix@) is None,
        },
{
    let n = s.unicode_len();
    let m = suffix.unicode_len();
    if m > n {
        return None;
    }
    let head = s.substring_char(0, n - m);
    let tail = s.substring_char(n - m, n);
    proof {
        assert(s@.take(n - m) == s@.subrange(0, n - m));
        assert(s@.skip(n - m) == s@.subrange(n - m, n as int));
    }
    if same(tail, suffix) {
        Some(head)
    } else {
        None
    }
}

/// Whether a text begins with a prefix.
pub fn starts_with(s: &str, prefix: &str) -> (answer: bool)
    ensures
        answer == begins_with(s@, prefix@),
{
    strip_prefix(s, prefix).is_some()
}

/// Whether a text ends with a suffix.
pub fn ends_with(s: &str, suffix: &str) -> (answer: bool)
    ensures
        answer == finishes_with(s@, suffix@),
{
    strip_suffix(s, suffix).is_some()
}

/// Whether one text comes before another in the order of their code points.
pub fn before(a: &str, b: &str) -> (answer: bool)
    ensures
        answer == precedes(a@, b@),
{
    let left = characters(a);
    let right = characters(b);
    let mut i: usize = 0;
    proof {
        assert(a@.skip(0) == a@);
        assert(b@.skip(0) == b@);
    }
    while i < left.len() && i < right.len() && left[i] == right[i]
        invariant
            left@ == a@,
            right@ == b@,
            i <= left@.len(),
            i <= right@.len(),
            precedes(a@, b@) == precedes(a@.skip(i as int), b@.skip(i as int)),
        decreases left.len() - i,
    {
        proof {
            assert(a@.skip(i as int).skip(1) == a@.skip(i + 1));
            assert(b@.skip(i as int).skip(1) == b@.skip(i + 1));
        }
        i += 1;
    }
    if i >= right.len() {
        false
    } else if i >= left.len() {
        true
    } else {
        left[i] < right[i]
    }
}

/// Every character before the count of leading digits is a digit, and the one at it is not.
pub proof fn lemma_leading_digits(s: Seq<char>)
    ensures
        leading_digits(s) <= s.len(),
        forall|i: int| 0 <= i < leading_digits(s) ==> is_digit(#[trigger] s[i]),
        leading_digits(s) < s.len() ==> !is_digit(s[leading_digits(s) as int]),
        all_digits(s) <==> leading_digits(s) == s.len(),
    decreases s.len(),
{
    if s.len() > 0 && is_digit(s[0]) {
        let rest = s.skip(1);
        lemma_leading_digits(rest);
        assert forall|i: int| 0 <= i < leading_digits(s) implies is_digit(#[trigger] s[i]) by {
            if i > 0 {
                assert(rest[i - 1] == s[i]);
            }
        }
        if leading_digits(s) < s.len() {
            assert(rest[leading_digits(rest) as int] == s[leading_digits(s) as int]);
        }
    }
}

/// A longer run of digits never denotes a smaller number.
pub proof fn lemma_digits_value_grows(s: Seq<char>, i: int, j: int)
    requires
        0 <= i <= j <= s.len(),
        forall|k: int| 0 <= k < j ==> is_digit(#[trigger] s[k]),
    ensures
        digits_value(s.take(i)) <= digits_value(s.take(j)),
    decreases j,
{
    if i < j {
        lemma_digits_value_grows(s, i, j - 1);
        assert(s.take(j).drop_last() == s.take(j - 1));
        assert(s.take(j).last() == s[j - 1]);
    }
}

/// Read an unsigned 64-bit integer.
///
/// The error is the reason in the words of the standard library.
pub fn parse_unsigned(s: &str) -> (r: Result<u64, &'static str>)
    ensures
        match r {
            Ok(n) => unsigned_problem(s@) is None && n == digits_value(unsigned_run(s@)),
            Err(reason) => unsigned_problem(s@) == Some(reason@),
        },
{
    let list = characters(s);
    if list.len() == 0 {
        return Err("cannot parse integer from empty string");
    }
    let start: usize = if list[0] == '+' { 1 } else { 0 };
    let ghost run = unsigned_run(s@);
    proof {
        assert(s@.skip(0) == s@);
        assert(run == s@.skip(start as int));
        lemma_leading_digits(run);
        assert(run.take(0) == Seq::<char>::empty());
    }
    let mut i: usize = start;
    let mut value: u64 = 0;
    while i < list.len() && '0' <= list[i] && list[i] <= '9'
        invariant
            list@ == s@,
            start <= i <= list@.len(),
            run == s@.skip(start as int),
            forall|k: int| 0 <= k < i - start ==> is_digit(#[trigger] run[k]),
            i - start <= leading_digits(run),
            leading_digits(run) <= run.len(),
            forall|k: int| 0 <= k < leading_digits(run) ==> is_digit(#[trigger] run[k]),
            leading_digits(run) < run.len() ==> !is_digit(run[leading_digits(run) as int]),
            value == digits_value(run.take(i - start)),
            run == unsigned_run(s@),
            s@.len() > 0,
        decreases list.len() - i,
    {
        let digit: u64 = (list[i] as u32 - 48) as u64;
        let next: u128 = (value as u128) * 10 + digit as u128;
        proof {
            assert(run[i - start] == s@[i as int]);
            let longer = run.take(i - start + 1);
            assert(longer.drop_last() == run.take(i - start));
            assert(longer.last() == s@[i as int]);
            assert(digits_value(longer) == next);
            lemma_digits_value_grows(run, i - start + 1, leading_digits(run) as int);
        }
        if next > u64::MAX as u128 {
            return Err("number too large to fit in target type");
        }
        value = next as u64;
        i += 1;
    }
    proof {
        if i < list.len() {
            assert(run[i - start] == s@[i as int]);
        }
        assert(leading_digits(run) == i - start);
        assert(run.take(run.len() as int) == run);
    }
    if i == start || i < list.len() {
        Err("invalid digit found in string")
    } else {
        Ok(value)
    }
}

/// The pieces of a text between the occurrences of a character.
pub open spec fn pieces(s: Seq<char>, c: char) -> Seq<Seq<char>>
    decreases s.len(),
{
    let at = first_position(s, c);
    if 0 <= at < s.len() {
        seq![s.take(at)] + pieces(s.skip(at + 1), c)
    } else {
        seq![s]
    }
}

/// The characters of a run of text slices.
pub open spec fn slices(list: Seq<&str>) -> Seq<Seq<char>> {
    Seq::new(list.len(), |i: int| list[i]@)
}

/// The pieces of a text between the occurrences of a character.
pub fn split<'a>(s: &'a str, c: char) -> (list: Vec<&'a str>)
    ensures
        slices(list@) == pieces(s@, c),
{
    let mut list: Vec<&'a str> = Vec::new();
    let mut rest: &'a str = s;
    proof {
        assert(slices(list@) + pieces(rest@, c) =~= pieces(s@, c));
    }
    loop
        invariant
            slices(list@) + pieces(rest@, c) == pieces(s@, c),
        decreases rest@.len(),
    {
        proof {
            lemma_first_position(rest@, c);
        }
        let ghost before = slices(list@);
        let ghost whole = rest@;
        match split_once(rest, c) {
            Some((head, tail)) => {
                list.push(head);
                rest = tail;
                proof {
                    assert(slices(list@) =~= before.push(head@));
                    assert(slices(list@) + pieces(rest@, c) =~= before + pieces(whole, c));
                }
            },
            None => {
                list.push(rest);
                proof {
                    assert(slices(list@) =~= before.push(whole));
                    assert(slices(list@) =~= pieces(s@, c));
                }
                return list;
            },
        }
    }
}

/// Texts with a separator between them.
pub open spec fn joined_with(parts: Seq<Seq<char>>, separator: Seq<char>) -> Seq<char>
    decreases parts.len(),
{
    if parts.len() == 0 {
        Seq::empty()
    } else if parts.len() == 1 {
        parts[0]
    } else {
        joined_with(parts.drop_last(), separator) + separator + parts.last()
    }
}

/// The digit of a number below sixteen.
pub open spec fn hex_char(n: nat) -> char {
    if n % 16 < 10 {
        ((n % 16) as u8 + 48) as char
    } else {
        ((n % 16) as u8 + 87) as char
    }
}

/// A number in a given count of hexadecimal digits.
pub open spec fn hex_digits(n: nat, count: nat) -> Seq<char>
    decreases count,
{
    if count == 0 {
        Seq::empty()
    } else {
        hex_digits(n / 16, (count - 1) as nat).push(hex_char(n % 16))
    }
}

/// There are as many digits as were asked for.
pub proof fn lemma_hex_length(n: nat, count: nat)
    ensures
        hex_digits(n, count).len() == count,
    decreases count,
{
    if count > 0 {
        lemma_hex_length(n / 16, (count - 1) as nat);
    }
}

/// A number in a given count of hexadecimal digits.
pub fn hex_text(n: u128, count: usize) -> (s: String)
    ensures
        s@ == hex_digits(n as nat, count as nat),
    decreases count,
{
    if count == 0 {
        return String::new();
    }
    let mut s = hex_text(n / 16, count - 1);
    let digit: u8 = (n % 16) as u8;
    let c = if digit < 10 {
        (digit + 48) as char
    } else {
        (digit + 87) as char
    };
    s.push(c);
    s
}

/// Whether a text is made of decimal digits and has at least one.
pub fn is_digits(s: &str) -> (answer: bool)
    ensures
        answer == (s@.len() > 0 && all_digits(s@)),
{
    let list = characters(s);
    let mut i: usize = 0;
    while i < list.len()
        invariant
            list@ == s@,
            i <= list@.len(),
            forall|k: int| 0 <= k < i ==> is_digit(#[trigger] s@[k]),
        decreases list.len() - i,
    {
        if !('0' <= list[i] && list[i] <= '9') {
            proof {
                assert(!is_digit(s@[i as int]));
            }
            return false;
        }
        i += 1;
    }
    list.len() > 0
}

/// The number that a run of decimal digits denotes, where 64 bits hold it.
pub fn parse_digits(s: &str) -> (n: Option<u64>)
    requires
        s@.len() > 0,
        all_digits(s@),
    ensures
        match n {
            Some(n) => n == digits_value(s@),
            None => digits_value(s@) > u64::MAX,
        },
{
    proof {
        lemma_leading_digits(s@);
        assert(is_digit(s@[0]));
        assert(s@.take(s@.len() as int) =~= s@);
    }
    match parse_unsigned(s) {
        Ok(n) => Some(n),
        Err(_) => None,
    }
}

/// Whether a text is made of ASCII letters and digits alone.
pub open spec fn all_ascii_alphanumeric(s: Seq<char>) -> bool {
    forall|i: int| 0 <= i < s.len() ==> is_ascii_alphanumeric(#[trigger] s[i])
}

/// Whether a text is made of ASCII letters and digits alone.
pub fn is_ascii_word(s: &str) -> (answer: bool)
    ensures
        answer == all_ascii_alphanumeric(s@),
{
    let list = characters(s);
    let mut i: usize = 0;
    while i < list.len()
        invariant
            list@ == s@,
            i <= list@.len(),
            forall|k: int| 0 <= k < i ==> is_ascii_alphanumeric(#[trigger] s@[k]),
        decreases list.len() - i,
    {
        let c = list[i];
        if !(('0' <= c && c <= '9') || ('a' <= c && c <= 'z') || ('A' <= c && c <= 'Z')) {
            proof {
                assert(!is_ascii_alphanumeric(s@[i as int]));
            }
            return false;
        }
        i += 1;
    }
    true
}

/// Outside function: `std::str::from_utf8`. It gives the text that the bytes encode, and refuses
/// bytes that are no UTF-8.
#[verifier::external_body]
pub(crate) fn decode(bytes: &[u8]) -> (text: Option<String>)
    ensures
        match text {
            Some(text) => {
                &&& vstd::utf8::valid_utf8(bytes@)
                &&& text@ == vstd::utf8::decode_utf8(bytes@)
            },
            None => !vstd::utf8::valid_utf8(bytes@),
        },
{
    match std::str::from_utf8(bytes) {
        Ok(text) => Some(text.to_owned()),
        Err(_) => None,
    }
}

/// Whether a text can be cut after a number of bytes: it is no longer, or a character ends there.
pub open spec fn can_cut(s: Seq<char>, count: nat) -> bool {
    byte_length(s) <= count || vstd::utf8::is_char_boundary(
        vstd::utf8::encode_utf8(s),
        count as int,
    )
}

/// The first bytes of a text.
pub open spec fn cut(s: Seq<char>, count: nat) -> Seq<char> {
    if byte_length(s) <= count {
        s
    } else {
        vstd::utf8::decode_utf8(vstd::utf8::encode_utf8(s).subrange(0, count as int))
    }
}

/// The first bytes of a text.
pub fn truncated(s: &str, count: usize) -> (r: String)
    requires
        can_cut(s@, count as nat),
    ensures
        r@ == cut(s@, count as nat),
{
    if length(s) <= count {
        return s.to_owned();
    }
    let (head, _tail) = s.split_at(count);
    proof {
        broadcast use vstd::utf8::encode_utf8_decode_utf8;
        assert(vstd::utf8::decode_utf8(vstd::utf8::encode_utf8(head@)) == head@);
    }
    head.to_owned()
}

} // verus!
