//! Fragments of the generated code: what tokens each one has, and a function that
//! builds it.
use proc_macro2::TokenStream;
use vstd::pervasive::unreached;
use vstd::prelude::*;

use crate::hir::builtin::BuiltInType;
use crate::hir::doc::{Doc, DocModel};
use crate::hir::meta::Endianness;
use crate::ident::Ident;
use crate::text::{ascii_ident, decimal, ident_continue, ident_prefix, lemma_ident_prefix};
use crate::tokens::{
    append, brace, bracket, call_text, call_tokens, called_method, empty, joint, lex, mark, paren, push_group,
    push_ident, push_joint, push_mark, push_str, push_u64_unsuffixed, push_u8, quoted, trees, valid_ident,
    word, Delim, Token,
};

verus! {

/// The fixed words of the generated code are identifiers.
proof fn lemma_words_1()
    ensures
        ascii_ident("Err"@),
        ascii_ident("Error"@),
        ascii_ident("KaitaiStruct"@),
        ascii_ident("NoEnumMatch"@),
        ascii_ident("Result"@),
        ascii_ident("Vec"@),
        ascii_ident("_"@),
        ascii_ident("_bits"@),
        ascii_ident("_bits_left"@),
        ascii_ident("align_to_byte"@),
        ascii_ident("as"@),
        ascii_ident("buf"@),
        ascii_ident("doc"@),
        ascii_ident("ensure_fixed_contents"@),
        ascii_ident("error"@),
        ascii_ident("is_eof"@),
        ascii_ident("kaitai"@),
        ascii_ident("let"@),
        ascii_ident("match"@),
        ascii_ident("mut"@),
        ascii_ident("n"@),
        ascii_ident("new"@),
        ascii_ident("new_with_root"@),
        ascii_ident("ok_or"@),
{
    reveal_with_fuel(ident_prefix, 22);
    reveal_strlit("Err");
    reveal_strlit("Error");
    reveal_strlit("KaitaiStruct");
    reveal_strlit("NoEnumMatch");
    reveal_strlit("Result");
    reveal_strlit("Vec");
    reveal_strlit("_");
    reveal_strlit("_bits");
    reveal_strlit("_bits_left");
    reveal_strlit("align_to_byte");
    reveal_strlit("as");
    reveal_strlit("buf");
    reveal_strlit("doc");
    reveal_strlit("ensure_fixed_contents");
    reveal_strlit("error");
    reveal_strlit("is_eof");
    reveal_strlit("kaitai");
    reveal_strlit("let");
    reveal_strlit("match");
    reveal_strlit("mut");
    reveal_strlit("n");
    reveal_strlit("new");
    reveal_strlit("new_with_root");
    reveal_strlit("ok_or");
}

proof fn lemma_words_2()
    ensures
        ascii_ident("pub"@),
        ascii_ident("push"@),
        ascii_ident("read_bits_be"@),
        ascii_ident("read_bytes"@),
        ascii_ident("read_bytes_full"@),
        ascii_ident("result"@),
        ascii_ident("return"@),
        ascii_ident("std"@),
        ascii_ident("usize"@),
        ascii_ident("vec"@),
        ascii_ident("while"@),
{
    reveal_with_fuel(ident_prefix, 16);
    reveal_strlit("pub");
    reveal_strlit("push");
    reveal_strlit("read_bits_be");
    reveal_strlit("read_bytes");
    reveal_strlit("read_bytes_full");
    reveal_strlit("result");
    reveal_strlit("return");
    reveal_strlit("std");
    reveal_strlit("usize");
    reveal_strlit("vec");
    reveal_strlit("while");
}

/// The tokens of each stream of a list.
pub open spec fn each_trees(streams: Seq<TokenStream>) -> Seq<Seq<Token>> {
    streams.map_values(|s: TokenStream| trees(s))
}

/// Lists of tokens with a separator between them.
pub open spec fn separated(items: Seq<Seq<Token>>, separator: Token) -> Seq<Token>
    decreases items.len(),
{
    if items.len() == 0 {
        Seq::empty()
    } else if items.len() == 1 {
        items[0]
    } else {
        separated(items.drop_last(), separator).push(separator) + items.last()
    }
}

/// Lists of tokens, one behind the other.
pub open spec fn concatenated(items: Seq<Seq<Token>>) -> Seq<Token>
    decreases items.len(),
{
    if items.len() == 0 {
        Seq::empty()
    } else {
        concatenated(items.drop_last()) + items.last()
    }
}

/// Puts a separator between the items of a list.
pub fn separate(items: &Vec<TokenStream>, separator: char) -> (r: TokenStream)
    requires
        crate::tokens::is_mark(separator),
    ensures
        trees(r) == separated(each_trees(items@), mark(separator)),
{
    let mut r = empty();
    let ghost all = each_trees(items@);
    for i in 0..items.len()
        invariant
            crate::tokens::is_mark(separator),
            all == each_trees(items@),
            trees(r) == separated(all.take(i as int), mark(separator)),
    {
        let ghost before = trees(r);
        if i > 0 {
            push_mark(&mut r, separator);
        }
        append(&mut r, &items[i]);
        proof {
            assert(all.take(i + 1).drop_last() =~= all.take(i as int));
            if i == 0 {
                assert(trees(r) =~= all[0]);
            }
        }
    }
    assert(all.take(items@.len() as int) =~= all);
    r
}

/// Appends `::`.
pub(crate) fn push_colons(stream: &mut TokenStream)
    ensures
        trees(*final(stream)) == trees(*old(stream)).push(joint(':')).push(mark(':')),
{
    push_joint(stream, ':');
    push_mark(stream, ':');
}

/// Appends `::` and an identifier.
pub(crate) fn push_path(stream: &mut TokenStream, name: &str)
    requires
        valid_ident(name@),
    ensures
        trees(*final(stream)) == trees(*old(stream)).push(joint(':')).push(mark(':')).push(Token::Ident(name@)),
{
    push_colons(stream);
    push_ident(stream, name);
}

/// `#[doc = "text"]`
pub open spec fn doc_attribute(text: Seq<char>) -> Seq<Token> {
    seq![mark('#'), bracket(seq![word("doc"), mark('='), Token::Literal(quoted(text))])]
}

pub fn doc_attribute_stream(text: &str) -> (r: TokenStream)
    ensures
        trees(r) == doc_attribute(text@),
{
    proof {
        lemma_words_1();
        lemma_words_2();
    }
    let mut inner = empty();
    push_ident(&mut inner, "doc");
    push_mark(&mut inner, '=');
    push_str(&mut inner, text);
    assert(trees(inner) =~= seq![word("doc"), mark('='), Token::Literal(quoted(text@))]);
    let mut r = empty();
    push_mark(&mut r, '#');
    push_group(&mut r, Delim::Bracket, inner);
    r
}

/// `pub id: ty`, behind its documentation.
pub open spec fn field(doc: DocModel, id: Seq<char>, ty: Seq<Token>) -> Seq<Token> {
    doc.tokens().push(word("pub")).push(Token::Ident(id)).push(mark(':')) + ty
}

pub fn field_stream(doc: &Doc, id: &Ident, ty: &TokenStream) -> (r: TokenStream)
    ensures
        trees(r) == field(doc@, id@, trees(*ty)),
{
    proof {
        lemma_words_1();
        lemma_words_2();
    }
    let mut r = empty();
    doc.to_tokens(&mut r);
    assert(trees(r) =~= doc@.tokens());
    push_ident(&mut r, "pub");
    id.to_tokens(&mut r);
    push_mark(&mut r, ':');
    append(&mut r, ty);
    r
}

/// `::std::vec::Vec<ty>`
pub open spec fn vec_of(ty: Seq<Token>) -> Seq<Token> {
    (seq![
        joint(':'),
        mark(':'),
        word("std"),
        joint(':'),
        mark(':'),
        word("vec"),
        joint(':'),
        mark(':'),
        word("Vec"),
        mark('<'),
    ] + ty).push(mark('>'))
}

pub fn vec_of_stream(ty: &TokenStream) -> (r: TokenStream)
    ensures
        trees(r) == vec_of(trees(*ty)),
{
    proof {
        lemma_words_1();
        lemma_words_2();
    }
    let mut r = empty();
    push_path(&mut r, "std");
    push_path(&mut r, "vec");
    push_path(&mut r, "Vec");
    push_mark(&mut r, '<');
    append(&mut r, ty);
    push_mark(&mut r, '>');
    r
}

/// `buf.method(arguments)`
pub open spec fn buf_call(method: Seq<char>, arguments: Seq<Token>) -> Seq<Token> {
    seq![word("buf"), mark('.'), Token::Ident(method), paren(arguments)]
}

pub fn buf_call_stream(method: &str, arguments: TokenStream) -> (r: TokenStream)
    requires
        valid_ident(method@),
    ensures
        trees(r) == buf_call(method@, trees(arguments)),
{
    proof {
        lemma_words_1();
        lemma_words_2();
    }
    let mut r = empty();
    push_ident(&mut r, "buf");
    push_mark(&mut r, '.');
    push_ident(&mut r, method);
    push_group(&mut r, Delim::Paren, arguments);
    r
}

/// `&mut name`
pub open spec fn mut_ref(name: Seq<char>) -> Seq<Token> {
    seq![mark('&'), word("mut"), Token::Ident(name)]
}

fn mut_ref_stream(name: &str) -> (r: TokenStream)
    requires
        valid_ident(name@),
    ensures
        trees(r) == mut_ref(name@),
{
    proof {
        lemma_words_1();
        lemma_words_2();
    }
    let mut r = empty();
    push_mark(&mut r, '&');
    push_ident(&mut r, "mut");
    push_ident(&mut r, name);
    r
}

/// `buf.align_to_byte(&mut _bits_left)`
pub open spec fn align_to_byte() -> Seq<Token> {
    buf_call("align_to_byte"@, mut_ref("_bits_left"@))
}

pub fn align_to_byte_stream() -> (r: TokenStream)
    ensures
        trees(r) == align_to_byte(),
{
    proof {
        lemma_words_1();
        lemma_words_2();
    }
    buf_call_stream("align_to_byte", mut_ref_stream("_bits_left"))
}

/// A byte as a literal with its type as suffix.
pub open spec fn byte_literal(n: u8) -> Token {
    Token::Literal(decimal(n as nat) + "u8"@)
}

/// `buf.ensure_fixed_contents(&[bytes])?;`
pub open spec fn ensure_contents(bytes: Seq<u8>) -> Seq<Token> {
    buf_call(
        "ensure_fixed_contents"@,
        seq![mark('&'), bracket(separated(bytes.map_values(|b: u8| seq![byte_literal(b)]), mark(',')))],
    ).push(mark('?')).push(mark(';'))
}

pub fn ensure_contents_stream(bytes: &Vec<u8>) -> (r: TokenStream)
    ensures
        trees(r) == ensure_contents(bytes@),
{
    proof {
        lemma_words_1();
        lemma_words_2();
    }
    let mut items: Vec<TokenStream> = Vec::new();
    let ghost want = bytes@.map_values(|b: u8| seq![byte_literal(b)]);
    for i in 0..bytes.len()
        invariant
            want == bytes@.map_values(|b: u8| seq![byte_literal(b)]),
            each_trees(items@) == want.take(i as int),
    {
        let mut item = empty();
        push_u8(&mut item, bytes[i]);
        let ghost before = items@;
        items.push(item);
        assert(each_trees(items@) =~= each_trees(before).push(trees(item)));
        assert(want.take(i + 1) =~= want.take(i as int).push(want[i as int]));
    }
    assert(want.take(bytes@.len() as int) =~= want);
    let mut arguments = empty();
    push_mark(&mut arguments, '&');
    push_group(&mut arguments, Delim::Bracket, separate(&items, ','));
    assert(trees(arguments) =~= seq![mark('&'), bracket(separated(want, mark(',')))]);
    let mut r = buf_call_stream("ensure_fixed_contents", arguments);
    push_mark(&mut r, '?');
    push_mark(&mut r, ';');
    r
}

/// `::kaitai::error::Error::NoEnumMatch`
pub open spec fn no_enum_match() -> Seq<Token> {
    seq![
        joint(':'),
        mark(':'),
        word("kaitai"),
        joint(':'),
        mark(':'),
        word("error"),
        joint(':'),
        mark(':'),
        word("Error"),
        joint(':'),
        mark(':'),
        word("NoEnumMatch"),
    ]
}

fn no_enum_match_stream() -> (r: TokenStream)
    ensures
        trees(r) == no_enum_match(),
{
    proof {
        lemma_words_1();
        lemma_words_2();
    }
    let mut r = empty();
    push_path(&mut r, "kaitai");
    push_path(&mut r, "error");
    push_path(&mut r, "Error");
    push_path(&mut r, "NoEnumMatch");
    r
}

/// `pattern => value`
pub open spec fn arm(pattern: Seq<Token>, value: Seq<Token>) -> Seq<Token> {
    pattern.push(joint('=')).push(mark('>')) + value
}

/// Completes an arm whose pattern is already there.
pub fn finish_arm(pattern: &mut TokenStream, value: &TokenStream)
    ensures
        trees(*final(pattern)) == arm(trees(*old(pattern)), trees(*value)),
{
    push_joint(pattern, '=');
    push_mark(pattern, '>');
    append(pattern, value);
}

/// `(value as ty)`
pub open spec fn cast(value: Seq<Token>, ty: Seq<char>) -> Seq<Token> {
    seq![paren(value.push(word("as")).push(Token::Ident(ty)))]
}

/// `match on { arms }`
pub open spec fn match_exact(on: Seq<Token>, arms: Seq<Seq<Token>>) -> Seq<Token> {
    (seq![word("match")] + on).push(brace(separated(arms, mark(','))))
}

pub fn match_exact_stream(on: &TokenStream, arms: &Vec<TokenStream>) -> (r: TokenStream)
    ensures
        trees(r) == match_exact(trees(*on), each_trees(arms@)),
{
    proof {
        lemma_words_1();
        lemma_words_2();
    }
    let mut r = empty();
    push_ident(&mut r, "match");
    append(&mut r, on);
    push_group(&mut r, Delim::Brace, separate(arms, ','));
    r
}

/// `_ => return ::std::result::Result::Err(::kaitai::error::Error::NoEnumMatch),` behind
/// the arms of a match.
pub open spec fn with_fallback(arms: Seq<Token>) -> Seq<Token> {
    arms.push(mark(',')).push(word("_")).push(joint('=')).push(mark('>')).push(word("return")).push(joint(':')).push(
        mark(':'),
    ).push(word("std")).push(joint(':')).push(mark(':')).push(word("result")).push(joint(':')).push(mark(':')).push(
        word("Result"),
    ).push(joint(':')).push(mark(':')).push(word("Err")).push(paren(no_enum_match())).push(mark(','))
}

/// `match on { arms, _ => return Err(NoEnumMatch), }`
pub open spec fn match_or_fail(on: Seq<Token>, arms: Seq<Seq<Token>>) -> Seq<Token> {
    (seq![word("match")] + on).push(brace(with_fallback(separated(arms, mark(',')))))
}

pub fn match_or_fail_stream(on: &TokenStream, arms: &Vec<TokenStream>) -> (r: TokenStream)
    ensures
        trees(r) == match_or_fail(trees(*on), each_trees(arms@)),
{
    proof {
        lemma_words_1();
        lemma_words_2();
    }
    let mut body = separate(arms, ',');
    push_mark(&mut body, ',');
    push_ident(&mut body, "_");
    push_joint(&mut body, '=');
    push_mark(&mut body, '>');
    push_ident(&mut body, "return");
    push_path(&mut body, "std");
    push_path(&mut body, "result");
    push_path(&mut body, "Result");
    push_path(&mut body, "Err");
    push_group(&mut body, Delim::Paren, no_enum_match_stream());
    push_mark(&mut body, ',');
    let mut r = empty();
    push_ident(&mut r, "match");
    append(&mut r, on);
    push_group(&mut r, Delim::Brace, body);
    r
}

/// `buf.read_bytes((count) as usize)?`
pub open spec fn read_bytes(count: Seq<Token>) -> Seq<Token> {
    buf_call("read_bytes"@, seq![paren(count), word("as"), word("usize")]).push(mark('?'))
}

pub fn read_bytes_stream(count: &TokenStream) -> (r: TokenStream)
    ensures
        trees(r) == read_bytes(trees(*count)),
{
    proof {
        lemma_words_1();
        lemma_words_2();
    }
    let mut inner = empty();
    append(&mut inner, count);
    assert(trees(inner) =~= trees(*count));
    let mut arguments = empty();
    push_group(&mut arguments, Delim::Paren, inner);
    push_ident(&mut arguments, "as");
    push_ident(&mut arguments, "usize");
    assert(trees(arguments) =~= seq![paren(trees(*count)), word("as"), word("usize")]);
    let mut r = buf_call_stream("read_bytes", arguments);
    push_mark(&mut r, '?');
    r
}

/// `buf.read_bytes_full()?`
pub open spec fn read_bytes_full() -> Seq<Token> {
    buf_call("read_bytes_full"@, Seq::empty()).push(mark('?'))
}

pub fn read_bytes_full_stream() -> (r: TokenStream)
    ensures
        trees(r) == read_bytes_full(),
{
    proof {
        lemma_words_1();
        lemma_words_2();
    }
    let mut r = buf_call_stream("read_bytes_full", empty());
    push_mark(&mut r, '?');
    r
}

/// `let mut result = Vec::new(); while !`
pub open spec fn repeat_head() -> Seq<Token> {
    seq![
        word("let"),
        word("mut"),
        word("result"),
        mark('='),
        word("Vec"),
        joint(':'),
        mark(':'),
        word("new"),
        paren(Seq::empty()),
        mark(';'),
        word("while"),
        mark('!'),
    ]
}

/// `{ let mut result = Vec::new(); while !buf.is_eof()? { result.push(item); } result }`
pub open spec fn repeat_to_end(item: Seq<Token>) -> Seq<Token> {
    seq![
        brace(
            (repeat_head() + buf_call("is_eof"@, Seq::empty())).push(mark('?')).push(
                brace(seq![word("result"), mark('.'), word("push"), paren(item), mark(';')]),
            ).push(word("result")),
        ),
    ]
}

pub fn repeat_to_end_stream(item: TokenStream) -> (r: TokenStream)
    ensures
        trees(r) == repeat_to_end(trees(item)),
{
    proof {
        lemma_words_1();
        lemma_words_2();
    }
    let mut step = empty();
    push_ident(&mut step, "result");
    push_mark(&mut step, '.');
    push_ident(&mut step, "push");
    push_group(&mut step, Delim::Paren, item);
    push_mark(&mut step, ';');
    assert(trees(step) =~= seq![word("result"), mark('.'), word("push"), paren(trees(item)), mark(';')]);
    let mut body = empty();
    push_ident(&mut body, "let");
    push_ident(&mut body, "mut");
    push_ident(&mut body, "result");
    push_mark(&mut body, '=');
    push_ident(&mut body, "Vec");
    push_path(&mut body, "new");
    push_group(&mut body, Delim::Paren, empty());
    push_mark(&mut body, ';');
    push_ident(&mut body, "while");
    push_mark(&mut body, '!');
    assert(trees(body) =~= repeat_head());
    append(&mut body, &buf_call_stream("is_eof", empty()));
    push_mark(&mut body, '?');
    push_group(&mut body, Delim::Brace, step);
    push_ident(&mut body, "result");
    let mut r = empty();
    push_group(&mut r, Delim::Brace, body);
    r
}

/// `let id = value;`
pub open spec fn let_statement(id: Seq<char>, value: Seq<Token>) -> Seq<Token> {
    (seq![word("let"), Token::Ident(id), mark('=')] + value).push(mark(';'))
}

pub fn let_statement_stream(id: &Ident, value: &TokenStream) -> (r: TokenStream)
    ensures
        trees(r) == let_statement(id@, trees(*value)),
{
    proof {
        lemma_words_1();
        lemma_words_2();
    }
    let mut r = empty();
    push_ident(&mut r, "let");
    id.to_tokens(&mut r);
    push_mark(&mut r, '=');
    append(&mut r, value);
    push_mark(&mut r, ';');
    r
}

/// `id::new_with_root(buf, arguments)?`
pub open spec fn new_with_root_call(id: Seq<char>, arguments: Seq<Seq<Token>>) -> Seq<Token> {
    seq![
        Token::Ident(id),
        joint(':'),
        mark(':'),
        word("new_with_root"),
        paren(seq![word("buf"), mark(',')] + separated(arguments, mark(','))),
        mark('?'),
    ]
}

pub fn new_with_root_call_stream(id: &Ident, arguments: &Vec<TokenStream>) -> (r: TokenStream)
    ensures
        trees(r) == new_with_root_call(id@, each_trees(arguments@)),
{
    proof {
        lemma_words_1();
        lemma_words_2();
    }
    let mut inner = empty();
    push_ident(&mut inner, "buf");
    push_mark(&mut inner, ',');
    assert(trees(inner) =~= seq![word("buf"), mark(',')]);
    append(&mut inner, &separate(arguments, ','));
    let mut r = empty();
    id.to_tokens(&mut r);
    push_path(&mut r, "new_with_root");
    push_group(&mut r, Delim::Paren, inner);
    push_mark(&mut r, '?');
    r
}

/// `<id as ::kaitai::KaitaiStruct>::new(buf)?`
pub open spec fn new_call(id: Seq<char>) -> Seq<Token> {
    seq![
        mark('<'),
        Token::Ident(id),
        word("as"),
        joint(':'),
        mark(':'),
        word("kaitai"),
        joint(':'),
        mark(':'),
        word("KaitaiStruct"),
        mark('>'),
        joint(':'),
        mark(':'),
        word("new"),
        paren(seq![word("buf")]),
        mark('?'),
    ]
}

pub fn new_call_stream(id: &Ident) -> (r: TokenStream)
    ensures
        trees(r) == new_call(id@),
{
    proof {
        lemma_words_1();
        lemma_words_2();
    }
    let mut inner = empty();
    push_ident(&mut inner, "buf");
    let mut r = empty();
    push_mark(&mut r, '<');
    id.to_tokens(&mut r);
    push_ident(&mut r, "as");
    push_path(&mut r, "kaitai");
    push_path(&mut r, "KaitaiStruct");
    push_mark(&mut r, '>');
    push_path(&mut r, "new");
    push_group(&mut r, Delim::Paren, inner);
    push_mark(&mut r, '?');
    r
}

/// `buf.read_bits_be(n, &mut _bits, &mut _bits_left)?`
pub open spec fn read_bits(n: u8) -> Seq<Token> {
    buf_call(
        "read_bits_be"@,
        (seq![byte_literal(n), mark(',')] + mut_ref("_bits"@)).push(mark(',')) + mut_ref("_bits_left"@),
    ).push(mark('?'))
}

fn read_bits_stream(n: u8) -> (r: TokenStream)
    ensures
        trees(r) == read_bits(n),
{
    proof {
        lemma_words_1();
        lemma_words_2();
    }
    let mut arguments = empty();
    push_u8(&mut arguments, n);
    push_mark(&mut arguments, ',');
    assert(trees(arguments) =~= seq![byte_literal(n), mark(',')]);
    append(&mut arguments, &mut_ref_stream("_bits"));
    push_mark(&mut arguments, ',');
    append(&mut arguments, &mut_ref_stream("_bits_left"));
    let mut r = buf_call_stream("read_bits_be", arguments);
    push_mark(&mut r, '?');
    r
}

/// `(buf.read_bits_be(n, &mut _bits, &mut _bits_left)? != 0)`
pub open spec fn read_flag(n: u8) -> Seq<Token> {
    seq![paren(read_bits(n).push(joint('!')).push(mark('=')).push(Token::Literal(decimal(0))))]
}

pub fn read_flag_stream(n: u8) -> (r: TokenStream)
    ensures
        trees(r) == read_flag(n),
{
    let mut inner = read_bits_stream(n);
    push_joint(&mut inner, '!');
    push_mark(&mut inner, '=');
    push_u64_unsuffixed(&mut inner, 0);
    let mut r = empty();
    push_group(&mut r, Delim::Paren, inner);
    r
}

/// `(buf.read_bits_be(n, &mut _bits, &mut _bits_left)? as ty)`
pub open spec fn read_bits_as(n: u8, ty: Seq<char>) -> Seq<Token> {
    cast(read_bits(n), ty)
}

/// Casts a value to a built-in type.
pub fn cast_stream(value: TokenStream, ty: BuiltInType) -> (r: TokenStream)
    ensures
        trees(r) == cast(trees(value), ty.rust_name()),
{
    proof {
        lemma_words_1();
        lemma_words_2();
    }
    let mut inner = value;
    push_ident(&mut inner, "as");
    ty.to_tokens(&mut inner);
    let mut r = empty();
    push_group(&mut r, Delim::Paren, inner);
    r
}

/// Reads a bit field as the integer type that is wide enough.
pub fn read_bits_as_stream(n: u8) -> (r: TokenStream)
    ensures
        trees(r) == read_bits_as(n, BuiltInType::Bits(n).rust_name()),
{
    cast_stream(read_bits_stream(n), BuiltInType::Bits(n))
}

/// The name of the method that reads a built-in type.
pub open spec fn read_method(ty: BuiltInType, endianness: Endianness) -> Seq<char> {
    "read_"@ + ty.ks_name() + ty.order_suffix(endianness)
}

/// `buf.read_type()?`
pub open spec fn read_call(ty: BuiltInType, endianness: Endianness) -> Seq<Token> {
    call_tokens(read_method(ty, endianness))
}

proof fn lemma_read_method(ty: BuiltInType, endianness: Endianness)
    requires
        !(ty is Bits),
    ensures
        ascii_ident(read_method(ty, endianness)),
{
    reveal_strlit("read_");
    reveal_strlit("be");
    reveal_strlit("le");
    reveal_strlit("u1");
    reveal_strlit("u2");
    reveal_strlit("u4");
    reveal_strlit("u8");
    reveal_strlit("s1");
    reveal_strlit("s2");
    reveal_strlit("s4");
    reveal_strlit("s8");
    reveal_strlit("f4");
    reveal_strlit("f8");
    let name = read_method(ty, endianness);
    let ks = ty.ks_name();
    let suffix = ty.order_suffix(endianness);
    assert(ks.len() == 2 && ident_continue(ks[0]) && ident_continue(ks[1]));
    assert(suffix.len() == 0 || (suffix.len() == 2 && ident_continue(suffix[0]) && ident_continue(suffix[1])));
    assert forall|i: int| 0 <= i < name.len() implies ident_continue(#[trigger] name[i]) by {
        if i < 5 {
            assert(name[i] == "read_"@[i]);
            assert(i == 0 || i == 1 || i == 2 || i == 3 || i == 4);
        } else if i < 7 {
            assert(name[i] == ks[i - 5]);
            assert(i == 5 || i == 6);
        } else {
            assert(name[i] == suffix[i - 7]);
            assert(i == 7 || i == 8);
        }
    }
    assert(name[0] == 'r');
    lemma_ident_prefix(name, name.len());
}

/// Reads a built-in type that takes whole bytes.
pub fn read_call_stream(ty: BuiltInType, endianness: Endianness) -> (r: TokenStream)
    requires
        !(ty is Bits),
    ensures
        trees(r) == read_call(ty, endianness),
{
    let mut call = String::new();
    call.append("buf.read_");
    call.append(ty.ks_type());
    call.append(ty.endianness(endianness));
    call.append("()?");
    proof {
        lemma_read_method(ty, endianness);
        reveal_strlit("buf.read_");
        reveal_strlit("buf.");
        reveal_strlit("read_");
        reveal_strlit("()?");
        assert(call@ =~= call_text(read_method(ty, endianness)));
        assert(called_method(call@) =~= read_method(ty, endianness));
    }
    match lex(call.as_str()) {
        Ok(r) => r,
        Err(_) => unreached(),
    }
}

/// `id::n(value).ok_or(::kaitai::error::Error::NoEnumMatch)?`
pub open spec fn enum_of(id: Seq<char>, value: Seq<Token>) -> Seq<Token> {
    seq![
        Token::Ident(id),
        joint(':'),
        mark(':'),
        word("n"),
        paren(value),
        mark('.'),
        word("ok_or"),
        paren(no_enum_match()),
        mark('?'),
    ]
}

pub fn enum_of_stream(id: &Ident, value: TokenStream) -> (r: TokenStream)
    ensures
        trees(r) == enum_of(id@, trees(value)),
{
    proof {
        lemma_words_1();
        lemma_words_2();
    }
    let mut r = empty();
    id.to_tokens(&mut r);
    push_path(&mut r, "n");
    push_group(&mut r, Delim::Paren, value);
    push_mark(&mut r, '.');
    push_ident(&mut r, "ok_or");
    push_group(&mut r, Delim::Paren, no_enum_match_stream());
    push_mark(&mut r, '?');
    r
}

} // verus!
