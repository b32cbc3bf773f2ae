//! Texts as sequences of characters: identifiers, numbers, order, and the naming
//! rules of the generated code.
use vstd::prelude::*;

verus! {

/// `String::push`: appends one character.
pub assume_specification[ String::push ](s: &mut String, c: char)
    ensures
        final(s)@ == old(s)@.push(c),
;

/// ASCII letters and the underscore.
pub open spec fn ident_start(c: char) -> bool {
    ||| 'a' <= c <= 'z'
    ||| 'A' <= c <= 'Z'
    ||| c == '_'
}

/// ASCII letters, digits and the underscore.
pub open spec fn ident_continue(c: char) -> bool {
    ident_start(c) || '0' <= c <= '9'
}

/// The first `n` characters of a text can all stand in an identifier.
pub open spec fn ident_prefix(text: Seq<char>, n: nat) -> bool
    decreases n,
{
    n == 0 || (ident_continue(text[n - 1]) && ident_prefix(text, (n - 1) as nat))
}

/// An identifier over ASCII letters, digits and underscores.
pub open spec fn ascii_ident(text: Seq<char>) -> bool {
    &&& text.len() > 0
    &&& ident_start(text[0])
    &&& ident_prefix(text, text.len())
}

/// What `ident_prefix` says of each of the characters.
pub proof fn lemma_ident_prefix(text: Seq<char>, n: nat)
    requires
        n <= text.len(),
    ensures
        ident_prefix(text, n) <==> forall|i: int| 0 <= i < n ==> ident_continue(#[trigger] text[i]),
    decreases n,
{
    if n > 0 {
        lemma_ident_prefix(text, (n - 1) as nat);
        if ident_prefix(text, n) {
            assert forall|i: int| 0 <= i < n implies ident_continue(#[trigger] text[i]) by {
                if i < n - 1 {
                }
            }
        }
        if forall|i: int| 0 <= i < n ==> ident_continue(#[trigger] text[i]) {
            assert(ident_continue(text[n - 1]));
        }
    }
}

/// Tests whether a text is an identifier over ASCII characters.
pub fn is_ascii_ident(text: &str) -> (r: bool)
    ensures
        r == ascii_ident(text@),
{
    let mut first: bool = true;
    for c in it: text.chars()
        invariant
            it.seq() == text@,
            first == (it.index() == 0),
            it.index() > 0 ==> ident_start(text@[0]),
            forall|i: int| 0 <= i < it.index() ==> ident_continue(#[trigger] text@[i]),
    {
        let start = ('a' <= c && c <= 'z') || ('A' <= c && c <= 'Z') || c == '_';
        let digit = '0' <= c && c <= '9';
        if !start && (first || !digit) {
            proof {
                lemma_ident_prefix(text@, text@.len());
                assert(text@[it.index() as int] == c);
            }
            return false;
        }
        first = false;
    }
    proof {
        lemma_ident_prefix(text@, text@.len());
    }
    !first
}

/// Tests whether two texts are the same.
pub fn same_text(a: &str, b: &str) -> (r: bool)
    ensures
        r == (a@ == b@),
{
    let n: usize = a.unicode_len();
    if n != b.unicode_len() {
        return false;
    }
    let mut i: usize = 0;
    while i < n
        invariant
            i <= n,
            n == a@.len(),
            n == b@.len(),
            a@.take(i as int) == b@.take(i as int),
        decreases n - i,
    {
        if a.get_char(i) != b.get_char(i) {
            assert(a@[i as int] != b@[i as int]);
            return false;
        }
        assert(a@.take(i + 1) =~= a@.take(i as int).push(a@[i as int]));
        assert(b@.take(i + 1) =~= b@.take(i as int).push(b@[i as int]));
        i = i + 1;
    }
    assert(a@.take(n as int) =~= a@);
    assert(b@.take(n as int) =~= b@);
    true
}

/// Text `a` comes before text `b` in the order of the character codes, or they are the
/// same.
pub open spec fn text_le(a: Seq<char>, b: Seq<char>) -> bool
    decreases a.len(),
{
    if a.len() == 0 {
        true
    } else if b.len() == 0 {
        false
    } else if a[0] != b[0] {
        a[0] < b[0]
    } else {
        text_le(a.drop_first(), b.drop_first())
    }
}

/// Tests whether a text comes before another, or is the same.
pub fn text_at_most(a: &str, b: &str) -> (r: bool)
    ensures
        r == text_le(a@, b@),
{
    let n: usize = a.unicode_len();
    let m: usize = b.unicode_len();
    let mut i: usize = 0;
    assert(a@.skip(0) =~= a@);
    assert(b@.skip(0) =~= b@);
    while i < n && i < m
        invariant
            i <= n,
            i <= m,
            n == a@.len(),
            m == b@.len(),
            text_le(a@, b@) == text_le(a@.skip(i as int), b@.skip(i as int)),
        decreases n - i,
    {
        let c = a.get_char(i);
        let d = b.get_char(i);
        if c != d {
            return c < d;
        }
        assert(a@.skip(i as int).drop_first() =~= a@.skip(i + 1));
        assert(b@.skip(i as int).drop_first() =~= b@.skip(i + 1));
        i = i + 1;
    }
    i == n
}

pub proof fn lemma_text_le_total(a: Seq<char>, b: Seq<char>)
    ensures
        text_le(a, b) || text_le(b, a),
    decreases a.len(),
{
    if a.len() > 0 && b.len() > 0 && a[0] == b[0] {
        lemma_text_le_total(a.drop_first(), b.drop_first());
    }
}

pub proof fn lemma_text_le_antisymmetric(a: Seq<char>, b: Seq<char>)
    requires
        text_le(a, b),
        text_le(b, a),
    ensures
        a == b,
    decreases a.len(),
{
    if a.len() > 0 && b.len() > 0 {
        lemma_text_le_antisymmetric(a.drop_first(), b.drop_first());
        assert(a =~= seq![a[0]] + a.drop_first());
        assert(b =~= seq![b[0]] + b.drop_first());
    } else {
        assert(a =~= b);
    }
}

pub proof fn lemma_text_le_transitive(a: Seq<char>, b: Seq<char>, c: Seq<char>)
    requires
        text_le(a, b),
        text_le(b, c),
    ensures
        text_le(a, c),
    decreases a.len(),
{
    if a.len() > 0 && b.len() > 0 && c.len() > 0 && a[0] == b[0] && b[0] == c[0] {
        lemma_text_le_transitive(a.drop_first(), b.drop_first(), c.drop_first());
    }
}

/// The character of a decimal digit.
pub open spec fn digit_char(d: nat) -> char {
    (d + '0' as nat) as char
}

/// The decimal digits of a number, without leading zeros.
pub open spec fn decimal(n: nat) -> Seq<char>
    decreases n,
{
    if n < 10 {
        seq![digit_char(n)]
    } else {
        decimal(n / 10).push(digit_char(n % 10))
    }
}

pub open spec fn is_digit(c: char) -> bool {
    '0' <= c <= '9'
}

/// The number that decimal digits denote.
pub open spec fn digits_value(s: Seq<char>) -> nat
    decreases s.len(),
{
    if s.len() == 0 {
        0
    } else {
        (digits_value(s.drop_last()) * 10 + (s.last() as nat - '0' as nat)) as nat
    }
}

/// A text without one leading plus sign.
pub open spec fn without_plus(s: Seq<char>) -> Seq<char> {
    if s.len() > 0 && s[0] == '+' {
        s.skip(1)
    } else {
        s
    }
}

/// The number that a text denotes: an optional plus sign and at least one decimal
/// digit, nothing else, and a value of at most `max`.
pub open spec fn parse_number(s: Seq<char>, max: nat) -> Option<nat> {
    let d = without_plus(s);
    if d.len() > 0 && (forall|i: int| 0 <= i < d.len() ==> is_digit(#[trigger] d[i])) && digits_value(d) <= max {
        Some(digits_value(d))
    } else {
        None
    }
}

proof fn lemma_digits_value_grows(s: Seq<char>, k: int)
    requires
        0 <= k <= s.len(),
        forall|i: int| 0 <= i < s.len() ==> is_digit(#[trigger] s[i]),
    ensures
        digits_value(s.take(k)) <= digits_value(s),
    decreases s.len(),
{
    if k == s.len() {
        assert(s.take(k) =~= s);
    } else {
        let t = s.drop_last();
        assert forall|i: int| 0 <= i < t.len() implies is_digit(#[trigger] t[i]) by {
            assert(t[i] == s[i]);
        }
        lemma_digits_value_grows(t, k);
        assert(t.take(k) =~= s.take(k));
        assert(is_digit(s[s.len() - 1]));
    }
}

/// Reads a number of at most `max`.
pub fn read_number(text: &str, max: u64) -> (r: Option<u64>)
    ensures
        match r {
            Some(n) => parse_number(text@, max as nat) == Some(n as nat),
            None => parse_number(text@, max as nat) is None,
        },
{
    let n: usize = text.unicode_len();
    let mut i: usize = 0;
    if n > 0 && text.get_char(0) == '+' {
        i = 1;
    }
    let ghost d = without_plus(text@);
    let start: usize = i;
    if start == n {
        return None;
    }
    let mut value: u64 = 0;
    while i < n
        invariant
            start <= i <= n,
            start <= 1,
            n == text@.len(),
            d == without_plus(text@),
            d.len() == n - start,
            forall|k: int| 0 <= k < d.len() ==> d[k] == text@[k + start],
            forall|k: int| 0 <= k < i - start ==> is_digit(#[trigger] d[k]),
            value == digits_value(d.take(i - start)),
            value <= max,
        decreases n - i,
    {
        let c = text.get_char(i);
        let ghost k = i - start;
        assert(d[k] == c);
        if c < '0' || '9' < c {
            return None;
        }
        let digit: u64 = (c as u64) - 48;
        assert(d.take(k + 1).drop_last() =~= d.take(k));
        assert(d.take(k + 1).last() == c);
        assert(digits_value(d.take(k + 1)) == value * 10 + digit);
        if digit > max || value > (max - digit) / 10 {
            proof {
                if forall|j: int| 0 <= j < d.len() ==> is_digit(#[trigger] d[j]) {
                    lemma_digits_value_grows(d, k + 1);
                }
            }
            return None;
        }
        value = value * 10 + digit;
        i = i + 1;
    }
    assert(d.take(n - start) =~= d);
    Some(value)
}

/// The upper case of an ASCII letter; other characters stay.
pub open spec fn ascii_upper(c: char) -> char {
    if 'a' <= c <= 'z' {
        (c as u32 - 32) as char
    } else {
        c
    }
}

/// The UpperCamelCase form of a snake_case name: underscores go, and the first character
/// and each one behind an underscore is put in upper case.
pub open spec fn upper_camel(s: Seq<char>) -> Seq<char>
    decreases s.len(),
{
    if s.len() == 0 {
        Seq::empty()
    } else if s.last() == '_' {
        upper_camel(s.drop_last())
    } else if s.len() == 1 || s[s.len() - 2] == '_' {
        upper_camel(s.drop_last()).push(ascii_upper(s.last()))
    } else {
        upper_camel(s.drop_last()).push(s.last())
    }
}

/// Turns a snake_case name into UpperCamelCase.
pub fn sc_to_ucc(text: &str) -> (r: String)
    ensures
        r@ == upper_camel(text@),
{
    let mut out = String::new();
    let mut boundary: bool = true;
    for c in it: text.chars()
        invariant
            it.seq() == text@,
            out@ == upper_camel(text@.take(it.index() as int)),
            boundary == (it.index() == 0 || text@[it.index() - 1] == '_'),
    {
        assert(text@.take(it.index() + 1).drop_last() =~= text@.take(it.index() as int));
        if c == '_' {
            boundary = true;
        } else {
            if boundary && 'a' <= c && c <= 'z' {
                let upper: u8 = (c as u8) - 32;
                out.push(upper as char);
            } else {
                out.push(c);
            }
            boundary = false;
        }
    }
    assert(text@.take(text@.len() as int) =~= text@);
    out
}

/// A text with each dot replaced by an underscore.
pub open spec fn dots_to_underscores(s: Seq<char>) -> Seq<char> {
    s.map_values(|c: char| if c == '.' { '_' } else { c })
}

/// Replaces each dot by an underscore.
pub fn undot(text: &str) -> (r: String)
    ensures
        r@ == dots_to_underscores(text@),
{
    let mut out = String::new();
    for c in it: text.chars()
        invariant
            it.seq() == text@,
            out@ == dots_to_underscores(text@).take(it.index() as int),
    {
        let ghost whole = dots_to_underscores(text@);
        assert(whole.take(it.index() + 1) =~= whole.take(it.index() as int).push(whole[it.index() as int]));
        if c == '.' {
            out.push('_');
        } else {
            out.push(c);
        }
    }
    assert(dots_to_underscores(text@).take(text@.len() as int) =~= dots_to_underscores(text@));
    out
}

/// What follows a prefix, where the text starts with it.
pub open spec fn after_prefix(s: Seq<char>, prefix: Seq<char>) -> Option<Seq<char>> {
    if prefix.len() <= s.len() && s.take(prefix.len() as int) == prefix {
        Some(s.skip(prefix.len() as int))
    } else {
        None
    }
}

/// Strips a prefix.
pub fn strip<'a>(text: &'a str, prefix: &str) -> (r: Option<&'a str>)
    ensures
        match r {
            Some(rest) => after_prefix(text@, prefix@) == Some(rest@),
            None => after_prefix(text@, prefix@) is None,
        },
{
    let n: usize = text.unicode_len();
    let m: usize = prefix.unicode_len();
    if m > n || !same_text(text.substring_char(0, m), prefix) {
        assert(m <= n ==> text@.subrange(0, m as int) =~= text@.take(m as int));
        return None;
    }
    assert(text@.subrange(0, m as int) =~= text@.take(m as int));
    assert(text@.subrange(m as int, n as int) =~= text@.skip(m as int));
    Some(text.substring_char(m, n))
}

/// A path separator, two colons, stands at position `i`.
pub open spec fn separator_at(s: Seq<char>, i: int) -> bool {
    i + 1 < s.len() && s[i] == ':' && s[i + 1] == ':'
}

/// The first position from `from` on at which a separator stands, or the length.
pub open spec fn next_separator(s: Seq<char>, from: int) -> int
    decreases s.len() - from,
{
    if from + 1 >= s.len() {
        s.len() as int
    } else if separator_at(s, from) {
        from
    } else {
        next_separator(s, from + 1)
    }
}

/// The pieces of a path between its separators, from position `from` on.
pub open spec fn segments_from(s: Seq<char>, from: int) -> Seq<Seq<char>>
    decreases s.len() - from,
{
    let k = next_separator(s, from);
    if from <= k && k + 1 < s.len() {
        seq![s.subrange(from, k)] + segments_from(s, k + 2)
    } else {
        seq![s.subrange(from, s.len() as int)]
    }
}

/// The pieces of a path between its separators.
pub open spec fn segments(s: Seq<char>) -> Seq<Seq<char>> {
    segments_from(s, 0)
}

/// Pieces put together with separators between them.
pub open spec fn join_path(pieces: Seq<Seq<char>>) -> Seq<char>
    decreases pieces.len(),
{
    if pieces.len() == 0 {
        Seq::empty()
    } else if pieces.len() == 1 {
        pieces[0]
    } else {
        join_path(pieces.drop_last()) + "::"@ + pieces.last()
    }
}

/// The UpperCamelCase form of a path: of each of its pieces.
pub open spec fn camel_path(s: Seq<char>) -> Seq<char> {
    join_path(segments(s).map_values(|p: Seq<char>| upper_camel(p)))
}

proof fn lemma_next_separator_range(s: Seq<char>, from: int)
    requires
        0 <= from <= s.len(),
    ensures
        from <= next_separator(s, from) <= s.len(),
        next_separator(s, from) == s.len() || next_separator(s, from) + 1 < s.len(),
    decreases s.len() - from,
{
    if from + 1 < s.len() && !separator_at(s, from) {
        lemma_next_separator_range(s, from + 1);
    }
}

/// Turns each piece of a path into UpperCamelCase.
pub fn camel_case_path(text: &str) -> (r: String)
    ensures
        r@ == camel_path(text@),
{
    let n: usize = text.unicode_len();
    let mut out = String::new();
    let mut start: usize = 0;
    let mut i: usize = 0;
    let ghost camel = |p: Seq<char>| upper_camel(p);
    let ghost mut done = Seq::<Seq<char>>::empty();
    assert(done + segments_from(text@, 0) =~= segments(text@));
    while i < n && i + 1 < n
        invariant
            start <= i <= n,
            n == text@.len(),
            camel == (|p: Seq<char>| upper_camel(p)),
            next_separator(text@, start as int) == next_separator(text@, i as int),
            segments(text@) == done + segments_from(text@, start as int),
            done.len() > 0 ==> out@ == join_path(done.map_values(camel)) + "::"@,
            done.len() == 0 ==> out@ == Seq::<char>::empty(),
        decreases n - i,
    {
        if text.get_char(i) == ':' && text.get_char(i + 1) == ':' {
            let piece = text.substring_char(start, i);
            proof {
                assert(separator_at(text@, i as int));
                let more = done.push(piece@);
                assert(segments_from(text@, start as int) =~= seq![piece@] + segments_from(text@, i + 2));
                assert(more + segments_from(text@, i + 2) =~= segments(text@));
                assert(more.map_values(camel).drop_last() =~= done.map_values(camel));
                assert(out@ + upper_camel(piece@) =~= join_path(more.map_values(camel)));
                done = more;
            }
            out.append(sc_to_ucc(piece).as_str());
            out.append("::");
            i = i + 2;
            start = i;
        } else {
            assert(!separator_at(text@, i as int));
            i = i + 1;
        }
    }
    let piece = text.substring_char(start, n);
    proof {
        lemma_next_separator_range(text@, i as int);
        let more = done.push(piece@);
        assert(segments_from(text@, start as int) =~= seq![piece@]);
        assert(more =~= segments(text@));
        assert(more.map_values(camel).drop_last() =~= done.map_values(camel));
        assert(out@ + upper_camel(piece@) =~= join_path(more.map_values(camel)));
    }
    out.append(sc_to_ucc(piece).as_str());
    out
}

} // verus!
