//! What the words of texts mean.
use vstd::prelude::*;

use crate::runtime;
use crate::text;

verus! {

/// One text precedes another exactly if, at the first place where they differ, it ends or has the lower
/// character. That place is given back.
pub proof fn law_texts_are_ordered_by_their_first_difference(a: Seq<char>, b: Seq<char>) -> (at: int)
    requires
        a != b,
    ensures
        0 <= at <= a.len(),
        at <= b.len(),
        a.take(at) == b.take(at),
        at == a.len() ==> at < b.len() && text::precedes(a, b) && !text::precedes(b, a),
        at == b.len() ==> at < a.len() && text::precedes(b, a) && !text::precedes(a, b),
        at < a.len() && at < b.len() ==> {
            &&& a[at] != b[at]
            &&& text::precedes(a, b) <==> a[at] < b[at]
            &&& text::precedes(b, a) <==> b[at] < a[at]
        },
    decreases a.len(),
{
    if a.len() == 0 || b.len() == 0 {
        assert(a.take(0) =~= b.take(0));
        if a.len() == 0 && b.len() == 0 {
            assert(a =~= b);
        }
        0
    } else if a[0] != b[0] {
        assert(a.take(0) =~= b.take(0));
        0
    } else {
        if a.skip(1) == b.skip(1) {
            assert(a =~= seq![a[0]] + a.skip(1));
            assert(b =~= seq![b[0]] + b.skip(1));
        }
        let at = law_texts_are_ordered_by_their_first_difference(a.skip(1), b.skip(1)) + 1;
        assert(a.take(at) =~= seq![a[0]] + a.skip(1).take(at - 1));
        assert(b.take(at) =~= seq![b[0]] + b.skip(1).take(at - 1));
        at
    }
}

/// The white space of the first characters is that of typewriters: tabulators, ends of lines and of pages,
/// and blanks. A letter, a digit or a mark is none.
pub proof fn law_white_space(c: char)
    ensures
        (c as u32) < 0x80 ==> (text::is_white(c) <==> c as u32 == 0x20 || 0x9 <= c as u32 <= 0xD),
        text::is_white(c) && (c as u32) >= 0x80 ==> c as u32 == 0x85 || c as u32 == 0xA0
            || c as u32 == 0x1680 || 0x2000 <= c as u32 <= 0x200A || 0x2028 <= c as u32 <= 0x2029
            || c as u32 == 0x202F || c as u32 == 0x205F || c as u32 == 0x3000,
        c as u32 == 0x85 || c as u32 == 0xA0 || c as u32 == 0x3000 ==> text::is_white(c),
{
}

/// Letters and digits of the first characters.
pub proof fn law_letters_and_digits(c: char)
    requires
        (c as u32) < 0x80,
    ensures
        text::is_alphanumeric(c) <==> 'a' <= c <= 'z' || 'A' <= c <= 'Z' || '0' <= c <= '9',
        text::is_digit(c) <==> '0' <= c <= '9',
{
}

/// A text in small letters has the same characters, but for the capital letters.
pub proof fn law_small_letters(s: Seq<char>, i: int)
    requires
        0 <= i < s.len(),
    ensures
        text::lowered(s).len() == s.len(),
        text::lowered(s)[i] as int == if 'A' <= s[i] <= 'Z' {
            s[i] as int + 32
        } else {
            s[i] as int
        },
{
}

/// A text is held by the parts around the first place where a character stands.
pub proof fn law_parts_around_a_character(s: Seq<char>, c: char)
    ensures
        text::holds(s, c) <==> s.contains(c),
        match text::parts_around(s, c) {
            Some((before, after)) => s == before.push(c) + after && !before.contains(c),
            None => !s.contains(c),
        },
{
    text::lemma_first_position(s, c);
    let at = text::first_position(s, c);
    if at < s.len() {
        let before = s.take(at);
        assert(s =~= before.push(c) + s.skip(at + 1));
        if before.contains(c) {
            let i = choose|i: int| 0 <= i < before.len() && before[i] == c;
            assert(s[i] == c);
        }
    } else if s.contains(c) {
        let i = choose|i: int| 0 <= i < s.len() && s[i] == c;
        assert(s[i] != c);
    }
}

/// What stands behind a prefix and before a suffix is the rest of the text.
pub proof fn law_prefixes_and_suffixes(s: Seq<char>, part: Seq<char>, rest: Seq<char>)
    ensures
        text::after_prefix(s, part) == Some(rest) <==> s == part + rest,
        text::before_suffix(s, part) == Some(rest) <==> s == rest + part,
        text::begins_with(s, part) <==> text::after_prefix(s, part) is Some,
        text::finishes_with(s, part) <==> text::before_suffix(s, part) is Some,
{
    if text::begins_with(s, part) {
        assert(s =~= part + s.skip(part.len() as int));
    }
    if s == part + rest {
        assert(s.take(part.len() as int) =~= part);
        assert(s.skip(part.len() as int) =~= rest);
    }
    if text::finishes_with(s, part) {
        assert(s =~= s.take(s.len() - part.len()) + part);
    }
    if s == rest + part {
        assert(s.skip(s.len() - part.len()) =~= part);
        assert(s.take(s.len() - part.len()) =~= rest);
    }
}

/// The pieces of a text have no separator in them.
pub proof fn law_pieces_have_no_separator(s: Seq<char>, c: char, i: int)
    requires
        0 <= i < text::pieces(s, c).len(),
    ensures
        !text::pieces(s, c)[i].contains(c),
    decreases s.len(),
{
    text::lemma_first_position(s, c);
    let at = text::first_position(s, c);
    if at < s.len() {
        if i == 0 {
            let piece = s.take(at);
            if piece.contains(c) {
                let k = choose|k: int| 0 <= k < piece.len() && piece[k] == c;
                assert(s[k] == c);
            }
        } else {
            law_pieces_have_no_separator(s.skip(at + 1), c, i - 1);
            assert(text::pieces(s, c)[i] == text::pieces(s.skip(at + 1), c)[i - 1]);
        }
    } else if s.contains(c) {
        let k = choose|k: int| 0 <= k < s.len() && s[k] == c;
        assert(s[k] != c);
    }
}

/// Pieces with their separators between them.
pub open spec fn put_together(pieces: Seq<Seq<char>>, c: char) -> Seq<char>
    decreases pieces.len(),
{
    if pieces.len() == 0 {
        Seq::empty()
    } else if pieces.len() == 1 {
        pieces[0]
    } else {
        pieces[0].push(c) + put_together(pieces.skip(1), c)
    }
}

/// The pieces of a text, with their separators between them, are the text.
pub proof fn law_pieces_are_the_text(s: Seq<char>, c: char)
    ensures
        text::pieces(s, c).len() > 0,
        put_together(text::pieces(s, c), c) == s,
    decreases s.len(),
{
    text::lemma_first_position(s, c);
    let at = text::first_position(s, c);
    if at < s.len() {
        let rest = s.skip(at + 1);
        law_pieces_are_the_text(rest, c);
        let pieces = text::pieces(s, c);
        assert(pieces.skip(1) =~= text::pieces(rest, c));
        assert(pieces[0] == s.take(at));
        assert(s =~= s.take(at).push(c) + rest);
    }
}

/// An integer below zero is written with a sign, and any other as its digits.
pub proof fn law_integers_have_a_sign(n: int)
    ensures
        n >= 0 ==> text::integer_text(n) == text::digits(n as nat),
        n < 0 ==> text::integer_text(n) == seq!['-'] + text::digits((-n) as nat),
{
}

/// A text without a plus sign in front of it.
pub open spec fn without_plus(s: Seq<char>) -> Seq<char> {
    if s.len() > 0 && s[0] == '+' {
        s.skip(1)
    } else {
        s
    }
}

/// Whether every character is one of the ten digits.
pub open spec fn is_made_of_digits(s: Seq<char>) -> bool {
    forall|i: int| 0 <= i < s.len() ==> '0' <= #[trigger] s[i] <= '9'
}

/// A text is read as an unsigned number exactly if it is made of digits, perhaps with a plus sign in
/// front, and the number fits.
pub proof fn law_unsigned_numbers(s: Seq<char>)
    ensures
        text::unsigned_problem(s) is None <==> without_plus(s).len() > 0 && is_made_of_digits(
            without_plus(s),
        ) && text::digits_value(without_plus(s)) <= u64::MAX,
{
    let run = text::unsigned_run(s);
    assert(run == without_plus(s));
    text::lemma_leading_digits(run);
    assert(run.take(run.len() as int) =~= run);
    if text::all_digits(run) {
        assert forall|i: int| 0 <= i < run.len() implies '0' <= #[trigger] run[i] <= '9' by {
            assert(text::is_digit(run[i]));
        }
    }
    if is_made_of_digits(run) {
        assert forall|i: int| 0 <= i < run.len() implies text::is_digit(#[trigger] run[i]) by {}
    }
    assert(text::all_digits(run) == is_made_of_digits(run));
    if text::all_digits(run) {
        assert(text::leading_digits(run) == run.len());
        assert(run.take(text::leading_digits(run) as int) == run);
        if run.len() > 0 && text::digits_value(run) <= u64::MAX {
            assert(s.len() > 0);
            assert(text::unsigned_problem(s) is None);
        }
    }
    if text::unsigned_problem(s) is None {
        assert(text::leading_digits(run) == run.len());
        assert(text::all_digits(run));
    }
}

/// A digit behind others is worth one, and they are worth ten times as much.
pub proof fn law_digits_count_by_ten(s: Seq<char>, c: char)
    requires
        '0' <= c <= '9',
    ensures
        text::digits_value(s.push(c)) == 10 * text::digits_value(s) + (c as int - '0' as int),
        text::digits_value(Seq::empty()) == 0,
{
    assert(s.push(c).drop_last() =~= s);
}

/// A duration with a fraction of a second is told with as many digits as it takes.
pub proof fn law_fractions_of_seconds(millis: u64)
    requires
        millis > 1_000,
        millis % 1_000 != 0,
    ensures
        ({
            let fraction = runtime::fraction_text((millis % 1_000) as nat);
            &&& runtime::duration_words(millis) == text::digits((millis / 1_000) as nat) + "."@
                + fraction + "s"@
            &&& 1 <= fraction.len() <= 3
            &&& fraction.last() != '0'
            &&& fraction.len() == 3 ==> text::digits_value(fraction) == millis % 1_000
            &&& fraction.len() == 2 ==> text::digits_value(fraction) * 10 == millis % 1_000
            &&& fraction.len() == 1 ==> text::digits_value(fraction) * 100 == millis % 1_000
        }),
{
    let part = (millis % 1_000) as nat;
    let fraction = runtime::fraction_text(part);
    let a = text::digit_char(part / 100);
    let b = text::digit_char((part / 10) % 10);
    let c = text::digit_char(part % 10);
    let none = Seq::<char>::empty();
    assert(part < 1_000);
    assert('0' <= a <= '9' && a as int - '0' as int == part / 100);
    assert('0' <= b <= '9' && b as int - '0' as int == (part / 10) % 10);
    assert('0' <= c <= '9' && c as int - '0' as int == part % 10);
    law_digits_count_by_ten(none, a);
    law_digits_count_by_ten(none.push(a), b);
    law_digits_count_by_ten(none.push(a).push(b), c);
    assert(seq![a] =~= none.push(a));
    assert(seq![a, b] =~= none.push(a).push(b));
    assert(seq![a, b, c] =~= none.push(a).push(b).push(c));
}

} // verus!
