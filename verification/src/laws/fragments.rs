//! The fragments of the generated code: what stands where, whatever they are made of.
use vstd::prelude::*;

use crate::code::{
    arm, buf_call, cast, concatenated, doc_attribute, ensure_contents, enum_of, field, let_statement, match_exact,
    match_or_fail, mut_ref, new_call, new_with_root_call, read_bits_as, read_bytes, read_call, read_flag,
    repeat_to_end, separated, vec_of,
};
use crate::hir::builtin::BuiltInType;
use crate::hir::doc::DocModel;
use crate::hir::meta::Endianness;
use crate::items::{bits_init, new_function, param, read_function, reader_body, root_impl, struct_item, trait_impl};
use crate::text::decimal;
use crate::tokens::{quoted, Delim, Token};

verus! {

/// A part stands in a whole at a position.
pub open spec fn stands_at(whole: Seq<Token>, at: int, part: Seq<Token>) -> bool {
    0 <= at && at + part.len() <= whole.len() && whole.subrange(at, at + part.len() as int) == part
}

/// Lists that are separated one behind the other have a separator between them too, and nothing
/// else is added.
pub proof fn law_separated_lists_join(a: Seq<Seq<Token>>, b: Seq<Seq<Token>>, separator: Token)
    requires
        a.len() > 0,
        b.len() > 0,
    ensures
        separated(a + b, separator) == separated(a, separator) + seq![separator] + separated(b, separator),
    decreases b.len(),
{
    let all = a + b;
    assert(all.last() == b.last());
    if b.len() == 1 {
        assert(all.drop_last() =~= a);
        assert(separated(all, separator) =~= separated(a, separator) + seq![separator] + separated(b, separator));
    } else {
        law_separated_lists_join(a, b.drop_last(), separator);
        assert(all.drop_last() =~= a + b.drop_last());
        assert(separated(all, separator) =~= separated(a, separator) + seq![separator] + separated(b, separator));
    }
}

/// One item needs no separator, and no item gives nothing.
pub proof fn law_separated_short_lists(item: Seq<Token>, separator: Token)
    ensures
        separated(seq![item], separator) == item,
        separated(Seq::empty(), separator) == Seq::<Token>::empty(),
{
}

/// Lists stand one behind the other without anything between them.
pub proof fn law_concatenated_lists_join(a: Seq<Seq<Token>>, b: Seq<Seq<Token>>)
    ensures
        concatenated(a + b) == concatenated(a) + concatenated(b),
    decreases b.len(),
{
    let all = a + b;
    if b.len() == 0 {
        assert(all =~= a);
        assert(concatenated(all) =~= concatenated(a) + concatenated(b));
    } else {
        law_concatenated_lists_join(a, b.drop_last());
        assert(all.last() == b.last());
        assert(all.drop_last() =~= a + b.drop_last());
        assert(concatenated(all) =~= concatenated(a) + concatenated(b));
    }
}

/// One item alone is what it is, and no item gives nothing.
pub proof fn law_concatenated_short_lists(item: Seq<Token>)
    ensures
        concatenated(seq![item]) == item,
        concatenated(Seq::empty()) == Seq::<Token>::empty(),
{
    assert(concatenated(Seq::<Seq<Token>>::empty()) =~= Seq::<Token>::empty());
    assert(seq![item].drop_last() =~= Seq::empty());
    assert(seq![item].last() == item);
    assert(concatenated(seq![item]) =~= item);
}

/// A documentation attribute holds the literal of its text.
pub proof fn law_doc_attribute(text: Seq<char>)
    ensures
        doc_attribute(text).len() == 2,
        doc_attribute(text)[0] == Token::Punct('#', false),
        doc_attribute(text)[1] matches Token::Group(delim, inner) && delim == Delim::Bracket && inner.len() == 3
            && inner[0] == Token::Ident("doc"@) && inner[1] == Token::Punct('=', false) && inner[2]
            == Token::Literal(quoted(text)),
{
}

/// Documentation is one attribute, or one for the type as a whole and then the item's own.
pub proof fn law_documentation(doc: DocModel)
    ensures
        doc.meta is None ==> doc.tokens() == doc_attribute(doc.text),
        doc.meta matches Some(text) ==> doc.tokens().len() == 4 && doc.tokens().take(2) == doc_attribute(text)
            && doc.tokens().skip(2) == doc_attribute(doc.text),
{
    if let Some(text) = doc.meta {
        assert(doc.tokens().take(2) =~= doc_attribute(text));
        assert(doc.tokens().skip(2) =~= doc_attribute(doc.text));
    }
}

/// A field of a struct is its documentation, `pub`, its name, a colon and its type.
pub proof fn law_field(doc: DocModel, id: Seq<char>, ty: Seq<Token>)
    ensures
        ({
            let f = field(doc, id, ty);
            let d = doc.tokens().len() as int;
            &&& f.len() == d + 3 + ty.len()
            &&& stands_at(f, 0, doc.tokens())
            &&& f[d] == Token::Ident("pub"@)
            &&& f[d + 1] == Token::Ident(id)
            &&& f[d + 2] == Token::Punct(':', false)
            &&& stands_at(f, d + 3, ty)
        }),
{
    let f = field(doc, id, ty);
    let d = doc.tokens().len() as int;
    assert(f.subrange(0, d) =~= doc.tokens());
    assert(f.subrange(d + 3, d + 3 + ty.len() as int) =~= ty);
}

/// A vector type is `::std::vec::Vec<`, the type of its items, and `>`.
pub proof fn law_vector_type(ty: Seq<Token>)
    ensures
        vec_of(ty).len() == ty.len() + 11,
        vec_of(ty)[2] == Token::Ident("std"@),
        vec_of(ty)[5] == Token::Ident("vec"@),
        vec_of(ty)[8] == Token::Ident("Vec"@),
        forall|i: int| (i == 0 || i == 3 || i == 6) ==> #[trigger] vec_of(ty)[i] == Token::Punct(':', true),
        forall|i: int| (i == 1 || i == 4 || i == 7) ==> #[trigger] vec_of(ty)[i] == Token::Punct(':', false),
        vec_of(ty)[9] == Token::Punct('<', false),
        stands_at(vec_of(ty), 10, ty),
        vec_of(ty).last() == Token::Punct('>', false),
{
    assert(vec_of(ty).subrange(10, 10 + ty.len() as int) =~= ty);
}

/// A `let` statement binds its value to its name, and holds nothing else.
pub proof fn law_let_statement(id: Seq<char>, value: Seq<Token>)
    ensures
        let_statement(id, value).len() == value.len() + 4,
        let_statement(id, value)[0] == Token::Ident("let"@),
        let_statement(id, value)[1] == Token::Ident(id),
        let_statement(id, value)[2] == Token::Punct('=', false),
        stands_at(let_statement(id, value), 3, value),
        let_statement(id, value).last() == Token::Punct(';', false),
{
    assert(let_statement(id, value).subrange(3, 3 + value.len() as int) =~= value);
}

/// The loop to the end of the stream pushes what it is around, once per round, and gives back
/// what was pushed: `{ let mut result = Vec::new(); while !buf.is_eof()? { result.push(item); }
/// result }`.
pub proof fn law_loop_to_the_end(item: Seq<Token>)
    ensures
        repeat_to_end(item).len() == 1,
        repeat_to_end(item)[0] matches Token::Group(delim, block) && {
            &&& delim == Delim::Brace
            &&& block.len() == 19
            &&& block[0] == Token::Ident("let"@) && block[1] == Token::Ident("mut"@)
            &&& block[2] == Token::Ident("result"@) && block[3] == Token::Punct('=', false)
            &&& block[4] == Token::Ident("Vec"@) && block[5] == Token::Punct(':', true)
            &&& block[6] == Token::Punct(':', false) && block[7] == Token::Ident("new"@)
            &&& block[8] == Token::Group(Delim::Paren, Seq::empty()) && block[9] == Token::Punct(';', false)
            &&& block[10] == Token::Ident("while"@) && block[11] == Token::Punct('!', false)
            &&& block[12] == Token::Ident("buf"@) && block[13] == Token::Punct('.', false)
            &&& block[14] == Token::Ident("is_eof"@) && block[15] == Token::Group(Delim::Paren, Seq::empty())
            &&& block[16] == Token::Punct('?', false)
            &&& block[17] matches Token::Group(round_delim, round) && round_delim == Delim::Brace && round.len() == 5
                && round[0] == Token::Ident("result"@) && round[1] == Token::Punct('.', false) && round[2]
                == Token::Ident("push"@) && round[3] == Token::Group(Delim::Paren, item) && round[4]
                == Token::Punct(';', false)
            &&& block[18] == Token::Ident("result"@)
        },
{
}

/// A check of fixed contents lists each byte, in order, as a literal with its type:
/// `buf.ensure_fixed_contents(&[bytes])?;`.
pub proof fn law_fixed_contents(bytes: Seq<u8>, i: int)
    requires
        0 <= i < bytes.len(),
    ensures
        ensure_contents(bytes).len() == 6,
        ensure_contents(bytes)[0] == Token::Ident("buf"@),
        ensure_contents(bytes)[1] == Token::Punct('.', false),
        ensure_contents(bytes)[2] == Token::Ident("ensure_fixed_contents"@),
        ensure_contents(bytes)[4] == Token::Punct('?', false),
        ensure_contents(bytes)[5] == Token::Punct(';', false),
        ensure_contents(bytes)[3] matches Token::Group(delim, arguments) && delim == Delim::Paren && arguments.len() == 2
            && arguments[0] == Token::Punct('&', false) && (arguments[1] matches Token::Group(inner_delim, list)
            && inner_delim == Delim::Bracket && list.len() == 2 * bytes.len() - 1 && list[2 * i] == Token::Literal(
            decimal(bytes[i] as nat) + "u8"@,
        ) && (i > 0 ==> list[2 * i - 1] == Token::Punct(',', false))),
{
    let items = bytes.map_values(|b: u8| seq![crate::code::byte_literal(b)]);
    lemma_separated_units(items, Token::Punct(',', false));
    assert(items[i] == seq![crate::code::byte_literal(bytes[i])]);
}

/// What items of one token each look like with separators between them.
pub proof fn lemma_separated_units(items: Seq<Seq<Token>>, separator: Token)
    requires
        items.len() > 0,
        forall|i: int| 0 <= i < items.len() ==> (#[trigger] items[i]).len() == 1,
    ensures
        separated(items, separator).len() == 2 * items.len() - 1,
        forall|i: int| 0 <= i < items.len() ==> separated(items, separator)[2 * i] == (#[trigger] items[i])[0],
        forall|k: int| 0 <= k < 2 * items.len() - 1 && k % 2 == 1 ==> #[trigger] separated(items, separator)[k] == separator,
    decreases items.len(),
{
    if items.len() > 1 {
        let front = items.drop_last();
        assert forall|i: int| 0 <= i < front.len() implies (#[trigger] front[i]).len() == 1 by {
            assert(front[i] == items[i]);
        }
        lemma_separated_units(front, separator);
        let all = separated(items, separator);
        assert(items.last().len() == 1) by {
            assert(items[items.len() - 1] == items.last());
        }
        assert forall|i: int| 0 <= i < items.len() implies all[2 * i] == (#[trigger] items[i])[0] by {
            if i < front.len() {
                assert(front[i] == items[i]);
            }
        }
        assert forall|k: int| 0 <= k < 2 * items.len() - 1 && k % 2 == 1 implies #[trigger] all[k] == separator by {
            if k < 2 * front.len() - 1 {
                assert(separated(front, separator)[k] == separator);
            }
        }
    } else {
        assert(items[0].len() == 1);
    }
}

/// No contents are checked as an empty list.
pub proof fn law_empty_contents()
    ensures
        ensure_contents(Seq::empty()).len() == 6,
        ensure_contents(Seq::empty())[3] matches Token::Group(delim, arguments) && delim == Delim::Paren
            && arguments.len() == 2 && arguments[0] == Token::Punct('&', false) && arguments[1] == Token::Group(
            Delim::Bracket,
            Seq::empty(),
        ),
{
}

/// An arm is its pattern, `=>`, and its value.
pub proof fn law_arm(pattern: Seq<Token>, value: Seq<Token>)
    ensures
        arm(pattern, value).len() == pattern.len() + 2 + value.len(),
        stands_at(arm(pattern, value), 0, pattern),
        arm(pattern, value)[pattern.len() as int] == Token::Punct('=', true),
        arm(pattern, value)[pattern.len() as int + 1] == Token::Punct('>', false),
        stands_at(arm(pattern, value), pattern.len() as int + 2, value),
{
    let a = arm(pattern, value);
    assert(a.subrange(0, pattern.len() as int) =~= pattern);
    assert(a.subrange(pattern.len() as int + 2, pattern.len() as int + 2 + value.len()) =~= value);
}

/// A cast is the value, `as` and the type, in parentheses.
pub proof fn law_cast(value: Seq<Token>, ty: Seq<char>)
    ensures
        cast(value, ty).len() == 1,
        cast(value, ty)[0] matches Token::Group(delim, inner) && delim == Delim::Paren && inner.len() == value.len() + 2
            && stands_at(inner, 0, value) && inner[value.len() as int] == Token::Ident("as"@) && inner[value.len() as int + 1]
            == Token::Ident(ty),
{
    let inner = value.push(Token::Ident("as"@)).push(Token::Ident(ty));
    assert(inner.subrange(0, value.len() as int) =~= value);
}

/// A match over truth values is `match`, what it is on, and the arms in braces.
pub proof fn law_exact_match(on: Seq<Token>, arms: Seq<Seq<Token>>)
    ensures
        match_exact(on, arms).len() == on.len() + 2,
        match_exact(on, arms)[0] == Token::Ident("match"@),
        stands_at(match_exact(on, arms), 1, on),
        match_exact(on, arms).last() == Token::Group(Delim::Brace, separated(arms, Token::Punct(',', false))),
{
    assert(match_exact(on, arms).subrange(1, 1 + on.len() as int) =~= on);
}

/// Any other match has one arm more, which returns the error for what no case covers.
pub proof fn law_failing_match(on: Seq<Token>, arms: Seq<Seq<Token>>)
    ensures
        match_or_fail(on, arms).len() == on.len() + 2,
        match_or_fail(on, arms)[0] == Token::Ident("match"@),
        stands_at(match_or_fail(on, arms), 1, on),
        match_or_fail(on, arms).last() matches Token::Group(delim, inner) && {
            let listed = separated(arms, Token::Punct(',', false));
            let n = listed.len() as int;
            &&& delim == Delim::Brace
            &&& inner.len() == n + 19
            &&& stands_at(inner, 0, listed)
            &&& fails_from(inner, n)
        },
{
    assert(match_or_fail(on, arms).subrange(1, 1 + on.len() as int) =~= on);
    let listed = separated(arms, Token::Punct(',', false));
    if let Token::Group(_, inner) = match_or_fail(on, arms).last() {
        assert(inner.subrange(0, listed.len() as int) =~= listed);
    }
}

/// What stands in an arm list from a position on is
/// `, _ => return ::std::result::Result::Err(::kaitai::error::Error::NoEnumMatch),`.
pub open spec fn fails_from(inner: Seq<Token>, n: int) -> bool {
    &&& inner.len() == n + 19
    &&& inner[n] == Token::Punct(',', false)
    &&& inner[n + 1] == Token::Ident("_"@)
    &&& inner[n + 2] == Token::Punct('=', true) && inner[n + 3] == Token::Punct('>', false)
    &&& inner[n + 4] == Token::Ident("return"@)
    &&& inner[n + 5] == Token::Punct(':', true) && inner[n + 6] == Token::Punct(':', false)
    &&& inner[n + 7] == Token::Ident("std"@)
    &&& inner[n + 8] == Token::Punct(':', true) && inner[n + 9] == Token::Punct(':', false)
    &&& inner[n + 10] == Token::Ident("result"@)
    &&& inner[n + 11] == Token::Punct(':', true) && inner[n + 12] == Token::Punct(':', false)
    &&& inner[n + 13] == Token::Ident("Result"@)
    &&& inner[n + 14] == Token::Punct(':', true) && inner[n + 15] == Token::Punct(':', false)
    &&& inner[n + 16] == Token::Ident("Err"@)
    &&& is_no_enum_match(inner[n + 17])
    &&& inner[n + 18] == Token::Punct(',', false)
}

/// The token is `(::kaitai::error::Error::NoEnumMatch)`.
pub open spec fn is_no_enum_match(token: Token) -> bool {
    token matches Token::Group(delim, inner) && {
        &&& delim == Delim::Paren
        &&& inner.len() == 12
        &&& forall|i: int| (i == 0 || i == 3 || i == 6 || i == 9) ==> #[trigger] inner[i] == Token::Punct(':', true)
        &&& forall|i: int| (i == 1 || i == 4 || i == 7 || i == 10) ==> #[trigger] inner[i] == Token::Punct(':', false)
        &&& inner[2] == Token::Ident("kaitai"@)
        &&& inner[5] == Token::Ident("error"@)
        &&& inner[8] == Token::Ident("Error"@)
        &&& inner[11] == Token::Ident("NoEnumMatch"@)
    }
}

/// A call on the stream is `buf`, a dot, the method, and the arguments in parentheses; what it
/// may change it is lent.
pub proof fn law_buf_call(method: Seq<char>, arguments: Seq<Token>, name: Seq<char>)
    ensures
        buf_call(method, arguments).len() == 4,
        buf_call(method, arguments)[0] == Token::Ident("buf"@),
        buf_call(method, arguments)[1] == Token::Punct('.', false),
        buf_call(method, arguments)[2] == Token::Ident(method),
        buf_call(method, arguments)[3] == Token::Group(Delim::Paren, arguments),
        mut_ref(name).len() == 3,
        mut_ref(name)[0] == Token::Punct('&', false),
        mut_ref(name)[1] == Token::Ident("mut"@),
        mut_ref(name)[2] == Token::Ident(name),
{
}

/// Bytes are read by a count: `buf.read_bytes((count) as usize)?`.
pub proof fn law_counted_bytes(count: Seq<Token>)
    ensures
        read_bytes(count).len() == 5,
        read_bytes(count)[0] == Token::Ident("buf"@),
        read_bytes(count)[1] == Token::Punct('.', false),
        read_bytes(count)[2] == Token::Ident("read_bytes"@),
        read_bytes(count)[3] matches Token::Group(delim, inner) && delim == Delim::Paren && inner.len() == 3 && inner[0]
            == Token::Group(Delim::Paren, count) && inner[1] == Token::Ident("as"@) && inner[2] == Token::Ident(
            "usize"@,
        ),
        read_bytes(count)[4] == Token::Punct('?', false),
{
}

/// A type is built from the stream alone: `<id as ::kaitai::KaitaiStruct>::new(buf)?`.
pub proof fn law_new_call(id: Seq<char>)
    ensures
        new_call(id).len() == 15,
        new_call(id)[0] == Token::Punct('<', false),
        new_call(id)[1] == Token::Ident(id),
        new_call(id)[2] == Token::Ident("as"@),
        new_call(id)[5] == Token::Ident("kaitai"@),
        new_call(id)[8] == Token::Ident("KaitaiStruct"@),
        new_call(id)[9] == Token::Punct('>', false),
        new_call(id)[12] == Token::Ident("new"@),
        forall|i: int| (i == 3 || i == 6 || i == 10) ==> #[trigger] new_call(id)[i] == Token::Punct(':', true),
        forall|i: int| (i == 4 || i == 7 || i == 11) ==> #[trigger] new_call(id)[i] == Token::Punct(':', false),
        new_call(id)[13] matches Token::Group(delim, inner) && delim == Delim::Paren && inner.len() == 1 && inner[0]
            == Token::Ident("buf"@),
        new_call(id)[14] == Token::Punct('?', false),
{
}

/// A type is built from the stream and values: `id::new_with_root(buf, values)?`.
pub proof fn law_new_with_root_call(id: Seq<char>, values: Seq<Seq<Token>>)
    ensures
        new_with_root_call(id, values).len() == 6,
        new_with_root_call(id, values)[0] == Token::Ident(id),
        new_with_root_call(id, values)[1] == Token::Punct(':', true),
        new_with_root_call(id, values)[2] == Token::Punct(':', false),
        new_with_root_call(id, values)[3] == Token::Ident("new_with_root"@),
        new_with_root_call(id, values)[4] matches Token::Group(delim, inner) && delim == Delim::Paren && inner.len()
            == 2 + separated(values, Token::Punct(',', false)).len() && inner[0] == Token::Ident("buf"@) && inner[1]
            == Token::Punct(',', false) && stands_at(inner, 2, separated(values, Token::Punct(',', false))),
        new_with_root_call(id, values)[5] == Token::Punct('?', false),
{
    let listed = separated(values, Token::Punct(',', false));
    if let Token::Group(_, inner) = new_with_root_call(id, values)[4] {
        assert(inner.subrange(2, 2 + listed.len() as int) =~= listed);
    }
}

/// The tokens are `buf.read_bits_be(n, &mut _bits, &mut _bits_left)?`.
pub open spec fn reads_bits(tokens: Seq<Token>, n: u8) -> bool {
    &&& tokens.len() == 5
    &&& tokens[0] == Token::Ident("buf"@)
    &&& tokens[1] == Token::Punct('.', false)
    &&& tokens[2] == Token::Ident("read_bits_be"@)
    &&& tokens[3] matches Token::Group(delim, inner) && {
        &&& delim == Delim::Paren
        &&& inner.len() == 9
        &&& inner[0] == Token::Literal(decimal(n as nat) + "u8"@)
        &&& inner[1] == Token::Punct(',', false) && inner[2] == Token::Punct('&', false)
        &&& inner[3] == Token::Ident("mut"@) && inner[4] == Token::Ident("_bits"@)
        &&& inner[5] == Token::Punct(',', false) && inner[6] == Token::Punct('&', false)
        &&& inner[7] == Token::Ident("mut"@) && inner[8] == Token::Ident("_bits_left"@)
    }
    &&& tokens[4] == Token::Punct('?', false)
}

/// A single bit is read as whether it is not zero: `(.. != 0)`.
pub proof fn law_flag(n: u8)
    ensures
        read_flag(n).len() == 1,
        read_flag(n)[0] matches Token::Group(delim, inner) && delim == Delim::Paren && inner.len() == 8 && reads_bits(
            inner.take(5),
            n,
        ) && inner[5] == Token::Punct('!', true) && inner[6] == Token::Punct('=', false) && inner[7] == Token::Literal(
            seq!['0'],
        ),
{
    assert(decimal(0) =~= seq!['0']);
}

/// More bits are read as a number that is cast: `(.. as ty)`.
pub proof fn law_bits(n: u8, ty: Seq<char>)
    ensures
        read_bits_as(n, ty).len() == 1,
        read_bits_as(n, ty)[0] matches Token::Group(delim, inner) && delim == Delim::Paren && inner.len() == 7
            && reads_bits(inner.take(5), n) && inner[5] == Token::Ident("as"@) && inner[6] == Token::Ident(ty),
{
}

/// A number is read by the method that is named after its type and its byte order:
/// `buf.read_type_order()?`, where single bytes have no order.
pub proof fn law_number_is_read(ty: BuiltInType, endianness: Endianness)
    requires
        !(ty is Bits),
    ensures
        read_call(ty, endianness).len() == 5,
        read_call(ty, endianness)[0] == Token::Ident("buf"@),
        read_call(ty, endianness)[1] == Token::Punct('.', false),
        read_call(ty, endianness)[2] == Token::Ident(
            "read_"@ + ty.ks_name() + (if ty is U8 || ty is I8 {
                Seq::empty()
            } else if endianness == Endianness::Be {
                "be"@
            } else {
                "le"@
            }),
        ),
        read_call(ty, endianness)[3] == Token::Group(Delim::Paren, Seq::empty()),
        read_call(ty, endianness)[4] == Token::Punct('?', false),
{
}

/// An enumeration is looked up by a value: `id::n(value).ok_or(..)?`.
pub proof fn law_enumeration_is_looked_up(id: Seq<char>, value: Seq<Token>)
    ensures
        enum_of(id, value).len() == 9,
        enum_of(id, value)[0] == Token::Ident(id),
        enum_of(id, value)[1] == Token::Punct(':', true),
        enum_of(id, value)[2] == Token::Punct(':', false),
        enum_of(id, value)[3] == Token::Ident("n"@),
        enum_of(id, value)[4] == Token::Group(Delim::Paren, value),
        enum_of(id, value)[5] == Token::Punct('.', false),
        enum_of(id, value)[6] == Token::Ident("ok_or"@),
        is_no_enum_match(enum_of(id, value)[7]),
        enum_of(id, value)[8] == Token::Punct('?', false),
{
}

/// The body of a reader declares the state of bit fields where there are any, and only there. It
/// goes on with the statements, each followed by a semicolon, and ends in `Ok(Self { fields })`
/// with the names of the fields.
pub proof fn law_reader_body(has_bits: bool, statements: Seq<Seq<Token>>, fields: Seq<Seq<char>>)
    ensures
        ({
            let body = reader_body(has_bits, statements, fields);
            let start = if has_bits {
                16int
            } else {
                0int
            };
            let listed = separated(statements, Token::Punct(';', false));
            let end = start + listed.len();
            &&& body.len() == end + 3
            &&& has_bits ==> stands_at(body, 0, bits_init())
            &&& stands_at(body, start, listed)
            &&& body[end] == Token::Punct(';', false)
            &&& body[end + 1] == Token::Ident("Ok"@)
            &&& body[end + 2] matches Token::Group(delim, inner) && delim == Delim::Paren && inner.len() == 2
                && inner[0] == Token::Ident("Self"@) && (inner[1] matches Token::Group(inner_delim, names)
                && inner_delim == Delim::Brace && (fields.len() == 0 ==> names.len() == 0) && (fields.len() > 0
                ==> names.len() == 2 * fields.len() - 1) && (forall|i: int|
                0 <= i < fields.len() ==> names[2 * i] == Token::Ident(#[trigger] fields[i])) && (forall|k: int|
                0 <= k < names.len() && k % 2 == 1 ==> #[trigger] names[k] == Token::Punct(',', false)))
        }),
{
    let body = reader_body(has_bits, statements, fields);
    let listed = separated(statements, Token::Punct(';', false));
    if has_bits {
        assert(body.subrange(0, 16) =~= bits_init());
        assert(body.subrange(16, 16 + listed.len() as int) =~= listed);
    } else {
        assert(body.subrange(0, listed.len() as int) =~= listed);
    }
    let items = crate::items::ident_tokens(fields);
    if fields.len() > 0 {
        assert forall|i: int| 0 <= i < items.len() implies (#[trigger] items[i]).len() == 1 by {}
        lemma_separated_units(items, Token::Punct(',', false));
        assert forall|i: int| 0 <= i < fields.len() implies separated(items, Token::Punct(',', false))[2 * i]
            == Token::Ident(#[trigger] fields[i]) by {
            assert(items[i] == seq![Token::Ident(fields[i])]);
        }
    }
}

/// `new` takes the stream and has the body that it is given.
pub proof fn law_new_function(body: Seq<Token>)
    ensures
        ({
            let f = new_function(body);
            &&& f.len() == 31
            &&& f[0] == Token::Ident("fn"@) && f[1] == Token::Ident("new"@)
            &&& f[15] matches Token::Group(delim, params) && delim == Delim::Paren && params.len() == 5 && params[0]
                == Token::Ident("buf"@) && params[1] == Token::Punct(':', false) && params[2] == Token::Punct('&', false)
                && params[3] == Token::Ident("mut"@) && params[4] == Token::Ident("S"@)
            &&& f[28] == Token::Ident("Self"@)
            &&& f[30] == Token::Group(Delim::Brace, body)
            &&& f.take(30) == new_function(Seq::empty()).take(30)
        }),
{
    assert(new_function(body).take(30) =~= new_function(Seq::empty()).take(30));
}

/// The item of a type is its documentation, its derives, `pub struct`, its name, and its fields
/// in braces.
pub proof fn law_struct_item(doc: DocModel, id: Seq<char>, fields: Seq<Seq<Token>>)
    ensures
        ({
            let item = struct_item(doc, id, fields);
            let d = doc.tokens().len() as int;
            &&& item.len() == d + 6
            &&& stands_at(item, 0, doc.tokens())
            &&& stands_at(item, d, crate::items::derives())
            &&& item[d + 2] == Token::Ident("pub"@)
            &&& item[d + 3] == Token::Ident("struct"@)
            &&& item[d + 4] == Token::Ident(id)
            &&& item[d + 5] == Token::Group(Delim::Brace, separated(fields, Token::Punct(',', false)))
        }),
{
    let item = struct_item(doc, id, fields);
    let d = doc.tokens().len() as int;
    assert(item.subrange(0, d) =~= doc.tokens());
    assert(item.subrange(d, d + 2) =~= crate::items::derives());
}

/// The trait is implemented for the type by `new` as given and the same `read` for all.
pub proof fn law_trait_impl(id: Seq<char>, new: Seq<Token>)
    ensures
        ({
            let item = trait_impl(id, new);
            &&& item.len() == 12
            &&& item[0] == Token::Punct('#', false)
            &&& item[1] matches Token::Group(delim, inner) && delim == Delim::Bracket && inner.len() == 1 && inner[0]
                == Token::Ident("automatically_derived"@)
            &&& item[2] == Token::Ident("impl"@)
            &&& item[3] == Token::Punct(':', true) && item[4] == Token::Punct(':', false)
            &&& item[5] == Token::Ident("kaitai"@)
            &&& item[6] == Token::Punct(':', true) && item[7] == Token::Punct(':', false)
            &&& item[8] == Token::Ident("KaitaiStruct"@) && item[9] == Token::Ident("for"@)
            &&& item[10] == Token::Ident(id)
            &&& item[11] matches Token::Group(delim, inner) && delim == Delim::Brace && inner.len() == new.len()
                + read_function().len() && stands_at(inner, 0, new) && stands_at(inner, new.len() as int, read_function())
        }),
{
    let inner = new + read_function();
    assert(inner.subrange(0, new.len() as int) =~= new);
    assert(inner.subrange(new.len() as int, inner.len() as int) =~= read_function());
}

/// A parameter is its name, a colon and its type.
pub proof fn law_parameter(name: Seq<char>, ty: Seq<Token>)
    ensures
        param(name, ty).len() == ty.len() + 2,
        param(name, ty)[0] == Token::Ident(name),
        param(name, ty)[1] == Token::Punct(':', false),
        stands_at(param(name, ty), 2, ty),
{
    assert(param(name, ty).subrange(2, 2 + ty.len() as int) =~= ty);
}

/// `new_with_root` takes the stream and the parameters, and has the body that it is given.
pub proof fn law_root_impl(id: Seq<char>, params: Seq<Seq<Token>>, body: Seq<Token>)
    ensures
        root_impl(id, params, body).len() == 3,
        root_impl(id, params, body)[0] == Token::Ident("impl"@),
        root_impl(id, params, body)[1] == Token::Ident(id),
        root_impl(id, params, body)[2] matches Token::Group(delim, f) && {
            &&& delim == Delim::Brace
            &&& f.len() == 32
            &&& f[0] == Token::Ident("pub"@) && f[1] == Token::Ident("fn"@) && f[2] == Token::Ident("new_with_root"@)
            &&& f.subrange(3, 16) == new_function(Seq::empty()).subrange(2, 15)
            &&& f[16] matches Token::Group(list_delim, list) && {
                let listed = separated(params, Token::Punct(',', false));
                &&& list_delim == Delim::Paren
                &&& list.len() == 6 + listed.len()
                &&& list[0] == Token::Ident("buf"@) && list[1] == Token::Punct(':', false)
                &&& list[2] == Token::Punct('&', false) && list[3] == Token::Ident("mut"@)
                &&& list[4] == Token::Ident("S"@) && list[5] == Token::Punct(',', false)
                &&& stands_at(list, 6, listed)
            }
            &&& f.subrange(17, 31) == new_function(Seq::empty()).subrange(16, 30)
            &&& f[31] == Token::Group(Delim::Brace, body)
        },
{
    let listed = separated(params, Token::Punct(',', false));
    if let Token::Group(_, f) = root_impl(id, params, body)[2] {
        assert(f.subrange(3, 16) =~= new_function(Seq::empty()).subrange(2, 15));
        assert(f.subrange(17, 31) =~= new_function(Seq::empty()).subrange(16, 30));
        if let Token::Group(_, list) = f[16] {
            assert(list.subrange(6, 6 + listed.len() as int) =~= listed);
        }
    }
}

} // verus!
