//! Texts: identifiers, numbers, order, and the naming rules.
use vstd::prelude::*;

use crate::laws::types::lemma_decimal;
use crate::text::{
    after_prefix, ascii_ident, ascii_upper, camel_path, decimal, digit_char, digits_value, dots_to_underscores,
    ident_continue, ident_start, is_digit, join_path, lemma_ident_prefix, next_separator, parse_number, segments,
    segments_from, separator_at, text_le, upper_camel, without_plus,
};
use crate::tokens::{is_plain, lexed, quoted, rust_code, string_literal, valid_ident, Token};

verus! {

/// An ASCII identifier is a text of ASCII letters, digits and underscores that is not empty and
/// does not start with a digit.
pub proof fn law_ascii_identifiers(text: Seq<char>)
    ensures
        ascii_ident(text) <==> {
            &&& text.len() > 0
            &&& !('0' <= text[0] <= '9')
            &&& forall|i: int|
                0 <= i < text.len() ==> ('a' <= (#[trigger] text[i]) <= 'z' || 'A' <= text[i] <= 'Z' || text[i] == '_'
                    || '0' <= text[i] <= '9')
        },
{
    lemma_ident_prefix(text, text.len());
    if ascii_ident(text) {
        assert forall|i: int| 0 <= i < text.len() implies ('a' <= (#[trigger] text[i]) <= 'z' || 'A' <= text[i] <= 'Z'
            || text[i] == '_' || '0' <= text[i] <= '9') by {
            assert(ident_continue(text[i]));
        }
    }
    if text.len() > 0 && !('0' <= text[0] <= '9') && forall|i: int|
        0 <= i < text.len() ==> ('a' <= (#[trigger] text[i]) <= 'z' || 'A' <= text[i] <= 'Z' || text[i] == '_' || '0'
            <= text[i] <= '9') {
        assert forall|i: int| 0 <= i < text.len() implies ident_continue(#[trigger] text[i]) by {}
        assert(ident_start(text[0]));
    }
}

/// An identifier is an ASCII one, or a text that is not raw and lexes to the one identifier of
/// that same text.
pub proof fn law_identifiers(text: Seq<char>)
    ensures
        ascii_ident(text) ==> valid_ident(text),
        lexed(text) == Some(seq![Token::Ident(text)]) && (text.len() < 2 || text[0] != 'r' || text[1] != '#')
            ==> valid_ident(text),
        valid_ident(text) && !ascii_ident(text) ==> lexed(text) == Some(seq![Token::Ident(text)]) && (text.len() < 2
            || text[0] != 'r' || text[1] != '#'),
{
}

/// A text as Rust code is what it lexes to; an ASCII identifier is the one identifier.
pub proof fn law_code_is_what_is_lexed(text: Seq<char>)
    ensures
        ascii_ident(text) ==> rust_code(text) == Some(seq![Token::Ident(text)]),
        !ascii_ident(text) ==> rust_code(text) == lexed(text),
{
}

/// A text of printable ASCII characters without quotes and backslashes is quoted as it is.
pub proof fn law_plain_texts_are_quoted_as_they_are(text: Seq<char>)
    requires
        forall|i: int|
            0 <= i < text.len() ==> ' ' <= (#[trigger] text[i]) <= '~' && text[i] != '"' && text[i] != '\\',
    ensures
        quoted(text).len() == text.len() + 2,
        quoted(text)[0] == '"',
        quoted(text).last() == '"',
        quoted(text).subrange(1, text.len() as int + 1) == text,
{
    assert(is_plain(text));
    assert(quoted(text).subrange(1, text.len() as int + 1) =~= text);
}

/// Any other text is quoted as the literal that denotes it.
pub proof fn law_other_texts_are_escaped(text: Seq<char>, i: int)
    requires
        0 <= i < text.len(),
        !(' ' <= text[i] <= '~') || text[i] == '"' || text[i] == '\\',
    ensures
        quoted(text) == string_literal(text),
{
}

/// Texts are ordered by the codes of the first characters in which they differ.
pub proof fn law_texts_are_ordered_by_first_difference(a: Seq<char>, b: Seq<char>, k: int)
    requires
        0 <= k < a.len(),
        k < b.len(),
        a.take(k) == b.take(k),
        a[k] != b[k],
    ensures
        text_le(a, b) <==> a[k] < b[k],
    decreases k,
{
    if k > 0 {
        assert(a[0] == a.take(k)[0] && b[0] == b.take(k)[0]);
        assert(a.drop_first().take(k - 1) =~= a.take(k).drop_first());
        assert(b.drop_first().take(k - 1) =~= b.take(k).drop_first());
        law_texts_are_ordered_by_first_difference(a.drop_first(), b.drop_first(), k - 1);
    }
}

/// A text comes before those that it is the beginning of, and not behind them.
pub proof fn law_beginnings_come_first(a: Seq<char>, rest: Seq<char>)
    ensures
        text_le(a, a + rest),
        rest.len() > 0 ==> !text_le(a + rest, a),
    decreases a.len(),
{
    if a.len() > 0 {
        law_beginnings_come_first(a.drop_first(), rest);
        assert((a + rest).drop_first() =~= a.drop_first() + rest);
    }
}

/// The digits of a number of one digit are that digit; one more digit behind those of a number
/// denotes ten times the number and the digit.
pub proof fn law_decimal_digits(n: nat, d: nat)
    requires
        d < 10,
    ensures
        decimal(d).len() == 1,
        decimal(d)[0] as int == '0' as int + d,
        n > 0 ==> decimal(10 * n + d).len() == decimal(n).len() + 1,
        n > 0 ==> decimal(10 * n + d).drop_last() == decimal(n),
        n > 0 ==> decimal(10 * n + d).last() as int == '0' as int + d,
{
    if n > 0 {
        let m = 10 * n + d;
        assert(m / 10 == n && m % 10 == d);
        assert(decimal(m) == decimal(n).push(digit_char(d)));
        assert(decimal(m).drop_last() =~= decimal(n));
    }
}

/// Different numbers have different digits, all of them ASCII digits, and only zero starts with
/// a zero.
pub proof fn law_decimals_are_distinct(m: nat, n: nat)
    ensures
        decimal(m) == decimal(n) ==> m == n,
        decimal(n).len() > 0,
        forall|i: int| 0 <= i < decimal(n).len() ==> '0' <= (#[trigger] decimal(n)[i]) <= '9',
        decimal(n)[0] == '0' ==> n == 0,
    decreases n,
{
    lemma_decimal(m);
    lemma_decimal(n);
    assert forall|i: int| 0 <= i < decimal(n).len() implies '0' <= (#[trigger] decimal(n)[i]) <= '9' by {
        assert(is_digit(decimal(n)[i]));
    }
    if n >= 10 {
        law_decimals_are_distinct(m, n / 10);
        assert(decimal(n)[0] == decimal(n / 10)[0]);
    }
}

/// No digits denote zero; one more digit denotes ten times what stands before it, and the digit.
pub proof fn law_digits_denote(s: Seq<char>, c: char)
    requires
        '0' <= c <= '9',
    ensures
        digits_value(Seq::empty()) == 0,
        digits_value(s.push(c)) == 10 * digits_value(s) + (c as int - '0' as int),
{
    assert(s.push(c).drop_last() =~= s);
}

/// A number is read from digits, of which there is at least one, with or without one plus sign
/// before them, where it is at most the bound.
pub proof fn law_numbers_are_read(digits: Seq<char>, max: nat)
    requires
        digits.len() > 0,
        forall|i: int| 0 <= i < digits.len() ==> '0' <= (#[trigger] digits[i]) <= '9',
    ensures
        digits_value(digits) <= max ==> parse_number(digits, max) == Some(digits_value(digits)) && parse_number(
            seq!['+'] + digits,
            max,
        ) == Some(digits_value(digits)),
        digits_value(digits) > max ==> parse_number(digits, max) is None && parse_number(
            seq!['+'] + digits,
            max,
        ) is None,
{
    assert forall|i: int| 0 <= i < digits.len() implies is_digit(#[trigger] digits[i]) by {}
    assert(digits[0] != '+');
    assert(without_plus(digits) == digits);
    assert((seq!['+'] + digits).skip(1) =~= digits);
    assert(without_plus(seq!['+'] + digits) == digits);
}

/// Nothing else is read as a number.
pub proof fn law_only_digits_are_numbers(text: Seq<char>, max: nat)
    requires
        parse_number(text, max) is Some,
    ensures
        exists|digits: Seq<char>|
            #![trigger digits_value(digits)]
            {
                &&& text == digits || text == seq!['+'] + digits
                &&& digits.len() > 0
                &&& forall|i: int| 0 <= i < digits.len() ==> '0' <= (#[trigger] digits[i]) <= '9'
                &&& digits_value(digits) <= max
            },
{
    let digits = without_plus(text);
    if digits.len() < text.len() {
        assert(text =~= seq!['+'] + digits);
    }
    assert forall|i: int| 0 <= i < digits.len() implies '0' <= (#[trigger] digits[i]) <= '9' by {
        assert(is_digit(digits[i]));
    }
    assert(digits_value(digits) <= max);
}

proof fn lemma_camel_joined(s: Seq<char>, t: Seq<char>)
    ensures
        upper_camel(s + seq!['_'] + t) == upper_camel(s) + upper_camel(t),
    decreases t.len(),
{
    let whole = s + seq!['_'] + t;
    if t.len() == 0 {
        assert(whole =~= s.push('_'));
        assert(s.push('_').drop_last() =~= s);
        assert(upper_camel(s) + upper_camel(t) =~= upper_camel(s));
    } else {
        let front = t.drop_last();
        lemma_camel_joined(s, front);
        assert(whole.drop_last() =~= s + seq!['_'] + front);
        assert(whole.last() == t.last());
        if t.len() == 1 {
            assert(whole[whole.len() - 2] == '_');
        } else {
            assert(whole[whole.len() - 2] == t[t.len() - 2]);
        }
        assert(whole.len() > 1);
        if t.last() == '_' {
        } else if t.len() == 1 || t[t.len() - 2] == '_' {
            assert(upper_camel(whole) =~= upper_camel(s) + upper_camel(front).push(ascii_upper(t.last())));
        } else {
            assert(upper_camel(whole) =~= upper_camel(s) + upper_camel(front).push(t.last()));
        }
    }
}

/// The UpperCamelCase form of two names with an underscore between them is that of the first and
/// that of the second.
pub proof fn law_camel_case_joins_words(s: Seq<char>, t: Seq<char>)
    ensures
        upper_camel(s + seq!['_'] + t) == upper_camel(s) + upper_camel(t),
{
    lemma_camel_joined(s, t);
}

/// In a name without underscores only the first character changes: a small ASCII letter becomes
/// the capital one.
pub proof fn law_camel_case_of_a_word(word: Seq<char>)
    requires
        forall|i: int| 0 <= i < word.len() ==> #[trigger] word[i] != '_',
    ensures
        upper_camel(word).len() == word.len(),
        forall|i: int| 0 < i < word.len() ==> #[trigger] upper_camel(word)[i] == word[i],
        word.len() > 0 && 'a' <= word[0] <= 'z' ==> upper_camel(word)[0] as int == word[0] as int - ('a' as int
            - 'A' as int),
        word.len() > 0 && !('a' <= word[0] <= 'z') ==> upper_camel(word)[0] == word[0],
    decreases word.len(),
{
    if word.len() > 0 {
        let front = word.drop_last();
        assert forall|i: int| 0 <= i < front.len() implies #[trigger] front[i] != '_' by {
            assert(word[i] != '_');
        }
        law_camel_case_of_a_word(front);
        assert(word[word.len() - 1] != '_');
        if word.len() > 1 {
            assert(word[word.len() - 2] != '_');
            assert(upper_camel(word) == upper_camel(front).push(word.last()));
            assert forall|i: int| 0 < i < word.len() implies #[trigger] upper_camel(word)[i] == word[i] by {
                if i < front.len() {
                    assert(upper_camel(front)[i] == front[i]);
                }
            }
        }
    }
}

/// Where dots become underscores, each character keeps its place, and only dots change.
pub proof fn law_dots_become_underscores(s: Seq<char>, i: int)
    requires
        0 <= i < s.len(),
    ensures
        dots_to_underscores(s).len() == s.len(),
        s[i] == '.' ==> dots_to_underscores(s)[i] == '_',
        s[i] != '.' ==> dots_to_underscores(s)[i] == s[i],
{
}

/// What follows a prefix is what it takes to get the text back, and a text that starts with the
/// prefix has such a rest.
pub proof fn law_prefixes_come_off(s: Seq<char>, prefix: Seq<char>, rest: Seq<char>)
    ensures
        after_prefix(prefix + rest, prefix) == Some(rest),
        after_prefix(s, prefix) matches Some(r) ==> s == prefix + r,
{
    assert((prefix + rest).take(prefix.len() as int) =~= prefix);
    assert((prefix + rest).skip(prefix.len() as int) =~= rest);
    if after_prefix(s, prefix) is Some {
        assert(s =~= prefix + s.skip(prefix.len() as int));
    }
}

proof fn lemma_next_separator(s: Seq<char>, from: int, k: int)
    requires
        0 <= from <= k,
        separator_at(s, k),
        forall|i: int| from <= i < k ==> !#[trigger] separator_at(s, i),
    ensures
        next_separator(s, from) == k,
    decreases k - from,
{
    if from < k {
        assert(!separator_at(s, from));
        lemma_next_separator(s, from + 1, k);
    }
}

proof fn lemma_no_separator(s: Seq<char>, from: int)
    requires
        0 <= from <= s.len(),
        forall|i: int| from <= i < s.len() ==> !#[trigger] separator_at(s, i),
    ensures
        next_separator(s, from) == s.len(),
    decreases s.len() - from,
{
    if from + 1 < s.len() {
        assert(!separator_at(s, from));
        lemma_no_separator(s, from + 1);
    }
}

proof fn lemma_next_separator_shifted(s: Seq<char>, skipped: int, from: int)
    requires
        0 <= skipped <= s.len(),
        0 <= from <= s.len() - skipped,
    ensures
        next_separator(s, skipped + from) == skipped + next_separator(s.skip(skipped), from),
    decreases s.len() - skipped - from,
{
    let rest = s.skip(skipped);
    if from + 1 < rest.len() {
        assert(separator_at(rest, from) == separator_at(s, skipped + from));
        if !separator_at(rest, from) {
            lemma_next_separator_shifted(s, skipped, from + 1);
        }
    }
}

proof fn lemma_separator_found(s: Seq<char>, from: int)
    requires
        0 <= from <= s.len(),
    ensures
        from <= next_separator(s, from) <= s.len(),
    decreases s.len() - from,
{
    if from + 1 < s.len() && !separator_at(s, from) {
        lemma_separator_found(s, from + 1);
    }
}

proof fn lemma_segments_shifted(s: Seq<char>, skipped: int, from: int)
    requires
        0 <= skipped <= s.len(),
        0 <= from <= s.len() - skipped,
    ensures
        segments_from(s, skipped + from) == segments_from(s.skip(skipped), from),
    decreases s.len() - skipped - from,
{
    let rest = s.skip(skipped);
    lemma_next_separator_shifted(s, skipped, from);
    lemma_separator_found(rest, from);
    let k = next_separator(rest, from);
    if k + 1 < rest.len() {
        lemma_segments_shifted(s, skipped, k + 2);
        assert(s.subrange(skipped + from, skipped + k) =~= rest.subrange(from, k));
    } else {
        assert(s.subrange(skipped + from, s.len() as int) =~= rest.subrange(from, rest.len() as int));
    }
}

proof fn lemma_join_path_front(first: Seq<char>, rest: Seq<Seq<char>>)
    requires
        rest.len() > 0,
    ensures
        join_path(seq![first] + rest) == first + "::"@ + join_path(rest),
    decreases rest.len(),
{
    let all = seq![first] + rest;
    assert(all.last() == rest.last());
    if rest.len() == 1 {
        assert(all.drop_last() =~= seq![first]);
        assert(join_path(seq![first]) == first);
    } else {
        lemma_join_path_front(first, rest.drop_last());
        assert(all.drop_last() =~= seq![first] + rest.drop_last());
        assert(join_path(all) =~= first + "::"@ + join_path(rest));
    }
}

/// A path without separators is put in UpperCamelCase as a name.
pub proof fn law_camel_case_of_a_single_name(name: Seq<char>)
    requires
        forall|i: int| 0 <= i < name.len() - 1 ==> !((#[trigger] name[i]) == ':' && name[i + 1] == ':'),
    ensures
        camel_path(name) == upper_camel(name),
{
    assert forall|i: int| 0 <= i < name.len() implies !#[trigger] separator_at(name, i) by {
        if i + 1 < name.len() {
            assert(!(name[i] == ':' && name[i + 1] == ':'));
        }
    }
    lemma_no_separator(name, 0);
    assert(name.subrange(0, name.len() as int) =~= name);
    assert(segments(name) =~= seq![name]);
    assert(segments(name).map_values(|p: Seq<char>| upper_camel(p)) =~= seq![upper_camel(name)]);
}

/// A path is put in UpperCamelCase piece by piece: the piece before the first separator as a
/// name, the separator as it is, the rest as a path.
pub proof fn law_camel_case_of_a_path(first: Seq<char>, rest: Seq<char>)
    requires
        forall|i: int|
            0 <= i < first.len() ==> !((#[trigger] first[i]) == ':' && (i + 1 == first.len() || first[i + 1] == ':')),
    ensures
        camel_path(first + seq![':', ':'] + rest) == upper_camel(first) + seq![':', ':'] + camel_path(rest),
{
    let path = first + seq![':', ':'] + rest;
    let k = first.len() as int;
    assert(path[k] == ':' && path[k + 1] == ':');
    assert forall|i: int| 0 <= i < k implies !#[trigger] separator_at(path, i) by {
        assert(path[i] == first[i]);
        assert(!(first[i] == ':' && (i + 1 == first.len() || first[i + 1] == ':')));
        if i + 1 < k {
            assert(path[i + 1] == first[i + 1]);
        }
    }
    assert(separator_at(path, k));
    lemma_next_separator(path, 0, k);
    lemma_segments_shifted(path, k + 2, 0);
    assert(path.skip(k + 2) =~= rest);
    assert(path.subrange(0, k) =~= first);
    let camel = |p: Seq<char>| upper_camel(p);
    assert(segments(path) =~= seq![first] + segments(rest));
    assert(segments(path).map_values(camel) =~= seq![upper_camel(first)] + segments(rest).map_values(camel));
    assert(segments(rest).len() > 0);
    lemma_join_path_front(upper_camel(first), segments(rest).map_values(camel));
    reveal_strlit("::");
    assert("::"@ =~= seq![':', ':']);
}

} // verus!
