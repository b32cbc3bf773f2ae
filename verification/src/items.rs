//! The items of the generated code: the struct of a type, and the functions that read it.
use proc_macro2::TokenStream;
use vstd::prelude::*;

use crate::code::{each_trees, push_path, separate, separated};
use crate::hir::doc::{Doc, DocModel};
use crate::ident::{ident_texts, Ident};
use crate::text::{ascii_ident, decimal, ident_prefix};
use crate::tokens::{
    append, brace, bracket, empty, is_plain, joint, mark, paren, push_group, push_ident, push_joint, push_mark,
    push_str, push_u64, push_u8, trees, valid_ident, word, Delim, Token,
};

verus! {

/// The fixed words of the generated code are identifiers.
proof fn lemma_words_1()
    ensures
        ascii_ident("Debug"@),
        ascii_ident("Eq"@),
        ascii_ident("KaitaiStream"@),
        ascii_ident("KaitaiStruct"@),
        ascii_ident("Ok"@),
        ascii_ident("Ord"@),
        ascii_ident("PartialEq"@),
        ascii_ident("PartialOrd"@),
        ascii_ident("Result"@),
        ascii_ident("S"@),
        ascii_ident("Self"@),
        ascii_ident("_"@),
        ascii_ident("__private"@),
        ascii_ident("_bits"@),
        ascii_ident("_bits_left"@),
        ascii_ident("_buf"@),
        ascii_ident("automatically_derived"@),
        ascii_ident("buf"@),
        ascii_ident("derive"@),
        ascii_ident("error"@),
        ascii_ident("fn"@),
        ascii_ident("for"@),
        ascii_ident("impl"@),
        ascii_ident("kaitai"@),
{
    reveal_with_fuel(ident_prefix, 22);
    reveal_strlit("Debug");
    reveal_strlit("Eq");
    reveal_strlit("KaitaiStream");
    reveal_strlit("KaitaiStruct");
    reveal_strlit("Ok");
    reveal_strlit("Ord");
    reveal_strlit("PartialEq");
    reveal_strlit("PartialOrd");
    reveal_strlit("Result");
    reveal_strlit("S");
    reveal_strlit("Self");
    reveal_strlit("_");
    reveal_strlit("__private");
    reveal_strlit("_bits");
    reveal_strlit("_bits_left");
    reveal_strlit("_buf");
    reveal_strlit("automatically_derived");
    reveal_strlit("buf");
    reveal_strlit("derive");
    reveal_strlit("error");
    reveal_strlit("fn");
    reveal_strlit("for");
    reveal_strlit("impl");
    reveal_strlit("kaitai");
}

proof fn lemma_words_2()
    ensures
        ascii_ident("let"@),
        ascii_ident("mut"@),
        ascii_ident("new"@),
        ascii_ident("new_with_root"@),
        ascii_ident("pub"@),
        ascii_ident("read"@),
        ascii_ident("self"@),
        ascii_ident("struct"@),
        ascii_ident("todo"@),
        ascii_ident("u64"@),
        ascii_ident("u8"@),
        ascii_ident("unimplemented"@),
{
    reveal_with_fuel(ident_prefix, 14);
    reveal_strlit("let");
    reveal_strlit("mut");
    reveal_strlit("new");
    reveal_strlit("new_with_root");
    reveal_strlit("pub");
    reveal_strlit("read");
    reveal_strlit("self");
    reveal_strlit("struct");
    reveal_strlit("todo");
    reveal_strlit("u64");
    reveal_strlit("u8");
    reveal_strlit("unimplemented");
}

/// `<S: ::kaitai::__private::KaitaiStream>`
pub open spec fn stream_generic() -> Seq<Token> {
    seq![
        mark('<'),
        word("S"),
        mark(':'),
        joint(':'),
        mark(':'),
        word("kaitai"),
        joint(':'),
        mark(':'),
        word("__private"),
        joint(':'),
        mark(':'),
        word("KaitaiStream"),
        mark('>'),
    ]
}

fn stream_generic_tokens() -> (r: TokenStream)
    ensures
        trees(r) == stream_generic(),
{
    proof {
        lemma_words_1();
        lemma_words_2();
    }
    let mut r = empty();
    push_mark(&mut r, '<');
    push_ident(&mut r, "S");
    push_mark(&mut r, ':');
    push_path(&mut r, "kaitai");
    push_path(&mut r, "__private");
    push_path(&mut r, "KaitaiStream");
    push_mark(&mut r, '>');
    r
}

/// `-> ::kaitai::error::Result<value>`
pub open spec fn result_of(value: Token) -> Seq<Token> {
    seq![
        joint('-'),
        mark('>'),
        joint(':'),
        mark(':'),
        word("kaitai"),
        joint(':'),
        mark(':'),
        word("error"),
        joint(':'),
        mark(':'),
        word("Result"),
        mark('<'),
        value,
        mark('>'),
    ]
}

/// Appends `-> ::kaitai::error::Result<`.
fn push_result_head(stream: &mut TokenStream)
    ensures
        trees(*final(stream)) == trees(*old(stream)).push(joint('-')).push(mark('>')).push(joint(':')).push(
            mark(':'),
        ).push(word("kaitai")).push(joint(':')).push(mark(':')).push(word("error")).push(joint(':')).push(
            mark(':'),
        ).push(word("Result")).push(mark('<')),
{
    proof {
        lemma_words_1();
        lemma_words_2();
    }
    push_joint(stream, '-');
    push_mark(stream, '>');
    push_path(stream, "kaitai");
    push_path(stream, "error");
    push_path(stream, "Result");
    push_mark(stream, '<');
}

fn result_of_self() -> (r: TokenStream)
    ensures
        trees(r) == result_of(word("Self")),
{
    proof {
        lemma_words_1();
        lemma_words_2();
    }
    let mut r = empty();
    push_result_head(&mut r);
    push_ident(&mut r, "Self");
    push_mark(&mut r, '>');
    r
}

fn result_of_unit() -> (r: TokenStream)
    ensures
        trees(r) == result_of(paren(Seq::empty())),
{
    let mut r = empty();
    push_result_head(&mut r);
    push_group(&mut r, Delim::Paren, empty());
    push_mark(&mut r, '>');
    r
}

/// `name: &mut S`
pub open spec fn stream_param(name: Seq<char>) -> Seq<Token> {
    seq![Token::Ident(name), mark(':'), mark('&'), word("mut"), word("S")]
}

fn stream_param_stream(name: &str) -> (r: TokenStream)
    requires
        valid_ident(name@),
    ensures
        trees(r) == stream_param(name@),
{
    proof {
        lemma_words_1();
        lemma_words_2();
    }
    let mut r = empty();
    push_ident(&mut r, name);
    push_mark(&mut r, ':');
    push_mark(&mut r, '&');
    push_ident(&mut r, "mut");
    push_ident(&mut r, "S");
    r
}

/// `let mut _bits: u64 = 0u64; let mut _bits_left: u8 = 0u8;`
pub open spec fn bits_init() -> Seq<Token> {
    seq![
        word("let"),
        word("mut"),
        word("_bits"),
        mark(':'),
        word("u64"),
        mark('='),
        Token::Literal(decimal(0) + "u64"@),
        mark(';'),
        word("let"),
        word("mut"),
        word("_bits_left"),
        mark(':'),
        word("u8"),
        mark('='),
        Token::Literal(decimal(0) + "u8"@),
        mark(';'),
    ]
}

fn bits_init_stream() -> (r: TokenStream)
    ensures
        trees(r) == bits_init(),
{
    proof {
        lemma_words_1();
        lemma_words_2();
    }
    let mut r = empty();
    push_ident(&mut r, "let");
    push_ident(&mut r, "mut");
    push_ident(&mut r, "_bits");
    push_mark(&mut r, ':');
    push_ident(&mut r, "u64");
    push_mark(&mut r, '=');
    push_u64(&mut r, 0);
    push_mark(&mut r, ';');
    push_ident(&mut r, "let");
    push_ident(&mut r, "mut");
    push_ident(&mut r, "_bits_left");
    push_mark(&mut r, ':');
    push_ident(&mut r, "u8");
    push_mark(&mut r, '=');
    push_u8(&mut r, 0);
    push_mark(&mut r, ';');
    r
}

/// Each identifier as a list of one token.
pub open spec fn ident_tokens(ids: Seq<Seq<char>>) -> Seq<Seq<Token>> {
    ids.map_values(|id: Seq<char>| seq![Token::Ident(id)])
}

fn ident_streams(ids: &Vec<&Ident>) -> (r: Vec<TokenStream>)
    ensures
        each_trees(r@) == ident_tokens(ident_texts(ids@)),
{
    let ghost want = ident_tokens(ident_texts(ids@));
    let mut r: Vec<TokenStream> = Vec::new();
    for i in 0..ids.len()
        invariant
            want == ident_tokens(ident_texts(ids@)),
            each_trees(r@) == want.take(i as int),
    {
        let mut item = empty();
        ids[i].to_tokens(&mut item);
        let ghost before = r@;
        r.push(item);
        assert(each_trees(r@) =~= each_trees(before).push(trees(item)));
        assert(want.take(i + 1) =~= want.take(i as int).push(want[i as int]));
    }
    assert(want.take(ids@.len() as int) =~= want);
    r
}

/// `Ok(Self { fields })`
pub open spec fn ok_self(fields: Seq<Seq<char>>) -> Seq<Token> {
    seq![word("Ok"), paren(seq![word("Self"), brace(separated(ident_tokens(fields), mark(',')))])]
}

fn ok_self_stream(fields: &Vec<&Ident>) -> (r: TokenStream)
    ensures
        trees(r) == ok_self(ident_texts(fields@)),
{
    proof {
        lemma_words_1();
        lemma_words_2();
    }
    let mut inner = empty();
    push_ident(&mut inner, "Self");
    push_group(&mut inner, Delim::Brace, separate(&ident_streams(fields), ','));
    assert(trees(inner) =~= seq![
        word("Self"),
        brace(separated(ident_tokens(ident_texts(fields@)), mark(','))),
    ]);
    let mut r = empty();
    push_ident(&mut r, "Ok");
    push_group(&mut r, Delim::Paren, inner);
    r
}

/// The body of a function that reads a type: the state of bit fields where there are any,
/// the statements, and the struct made of the fields.
pub open spec fn reader_body(has_bits: bool, statements: Seq<Seq<Token>>, fields: Seq<Seq<char>>) -> Seq<Token> {
    (if has_bits {
        bits_init()
    } else {
        Seq::empty()
    } + separated(statements, mark(';'))).push(mark(';')) + ok_self(fields)
}

pub fn reader_body_stream(has_bits: bool, statements: &Vec<TokenStream>, fields: &Vec<&Ident>) -> (r: TokenStream)
    ensures
        trees(r) == reader_body(has_bits, each_trees(statements@), ident_texts(fields@)),
{
    let mut r = if has_bits {
        bits_init_stream()
    } else {
        empty()
    };
    append(&mut r, &separate(statements, ';'));
    push_mark(&mut r, ';');
    append(&mut r, &ok_self_stream(fields));
    r
}

/// `fn new<S>(buf: &mut S) -> Result<Self> { body }`
pub open spec fn new_function(body: Seq<Token>) -> Seq<Token> {
    (seq![word("fn"), word("new")] + stream_generic()).push(paren(stream_param("buf"@))) + result_of(
        word("Self"),
    ).push(brace(body))
}

pub fn new_function_stream(body: TokenStream) -> (r: TokenStream)
    ensures
        trees(r) == new_function(trees(body)),
{
    proof {
        lemma_words_1();
        lemma_words_2();
    }
    let mut r = empty();
    push_ident(&mut r, "fn");
    push_ident(&mut r, "new");
    append(&mut r, &stream_generic_tokens());
    push_group(&mut r, Delim::Paren, stream_param_stream("buf"));
    append(&mut r, &result_of_self());
    push_group(&mut r, Delim::Brace, body);
    r
}

/// What `new` of a type that needs values of the root type says.
pub open spec fn stub_message() -> Seq<char> {
    "this type requires _root context; call new_with_root instead"@
}

/// `fn new<S>(_buf: &mut S) -> Result<Self> { unimplemented!("message") }`
pub open spec fn new_stub() -> Seq<Token> {
    (seq![word("fn"), word("new")] + stream_generic()).push(paren(stream_param("_buf"@))) + result_of(
        word("Self"),
    ).push(
        brace(
            seq![
                word("unimplemented"),
                mark('!'),
                paren(seq![Token::Literal(seq!['"'] + stub_message() + seq!['"'])]),
            ],
        ),
    )
}

proof fn lemma_stub_message()
    ensures
        is_plain(stub_message()),
{
    reveal_strlit("this type requires _root context; call new_with_root instead");
    let s = stub_message();
    assert forall|i: int| 0 <= i < s.len() implies ' ' <= #[trigger] s[i] <= '~' && s[i] != '"' && s[i] != '\\' by {
    }
}

pub fn new_stub_stream() -> (r: TokenStream)
    ensures
        trees(r) == new_stub(),
{
    proof {
        lemma_words_1();
        lemma_words_2();
        lemma_stub_message();
    }
    let mut message = empty();
    push_str(&mut message, "this type requires _root context; call new_with_root instead");
    let mut body = empty();
    push_ident(&mut body, "unimplemented");
    push_mark(&mut body, '!');
    push_group(&mut body, Delim::Paren, message);
    assert(trees(body) =~= seq![
        word("unimplemented"),
        mark('!'),
        paren(seq![Token::Literal(seq!['"'] + stub_message() + seq!['"'])]),
    ]);
    let mut r = empty();
    push_ident(&mut r, "fn");
    push_ident(&mut r, "new");
    append(&mut r, &stream_generic_tokens());
    push_group(&mut r, Delim::Paren, stream_param_stream("_buf"));
    append(&mut r, &result_of_self());
    push_group(&mut r, Delim::Brace, body);
    r
}

/// `fn read<S>(&mut self, _: &mut S) -> Result<()> { todo!(); }`
pub open spec fn read_function() -> Seq<Token> {
    (seq![word("fn"), word("read")] + stream_generic()).push(
        paren(seq![mark('&'), word("mut"), word("self"), mark(',')] + stream_param("_"@)),
    ) + result_of(paren(Seq::empty())).push(brace(seq![word("todo"), mark('!'), paren(Seq::empty()), mark(';')]))
}

fn read_function_stream() -> (r: TokenStream)
    ensures
        trees(r) == read_function(),
{
    proof {
        lemma_words_1();
        lemma_words_2();
    }
    let mut params = empty();
    push_mark(&mut params, '&');
    push_ident(&mut params, "mut");
    push_ident(&mut params, "self");
    push_mark(&mut params, ',');
    assert(trees(params) =~= seq![mark('&'), word("mut"), word("self"), mark(',')]);
    append(&mut params, &stream_param_stream("_"));
    let mut body = empty();
    push_ident(&mut body, "todo");
    push_mark(&mut body, '!');
    push_group(&mut body, Delim::Paren, empty());
    push_mark(&mut body, ';');
    assert(trees(body) =~= seq![word("todo"), mark('!'), paren(Seq::empty()), mark(';')]);
    let mut r = empty();
    push_ident(&mut r, "fn");
    push_ident(&mut r, "read");
    append(&mut r, &stream_generic_tokens());
    push_group(&mut r, Delim::Paren, params);
    append(&mut r, &result_of_unit());
    push_group(&mut r, Delim::Brace, body);
    r
}

/// `#[derive(Debug, PartialEq, Eq, PartialOrd, Ord)]`
pub open spec fn derives() -> Seq<Token> {
    seq![
        mark('#'),
        bracket(
            seq![
                word("derive"),
                paren(
                    seq![
                        word("Debug"),
                        mark(','),
                        word("PartialEq"),
                        mark(','),
                        word("Eq"),
                        mark(','),
                        word("PartialOrd"),
                        mark(','),
                        word("Ord"),
                    ],
                ),
            ],
        ),
    ]
}

fn derives_stream() -> (r: TokenStream)
    ensures
        trees(r) == derives(),
{
    proof {
        lemma_words_1();
        lemma_words_2();
    }
    let mut traits = empty();
    push_ident(&mut traits, "Debug");
    push_mark(&mut traits, ',');
    push_ident(&mut traits, "PartialEq");
    push_mark(&mut traits, ',');
    push_ident(&mut traits, "Eq");
    push_mark(&mut traits, ',');
    push_ident(&mut traits, "PartialOrd");
    push_mark(&mut traits, ',');
    push_ident(&mut traits, "Ord");
    assert(trees(traits) =~= seq![
        word("Debug"),
        mark(','),
        word("PartialEq"),
        mark(','),
        word("Eq"),
        mark(','),
        word("PartialOrd"),
        mark(','),
        word("Ord"),
    ]);
    let mut inner = empty();
    push_ident(&mut inner, "derive");
    let ghost listed = trees(traits);
    push_group(&mut inner, Delim::Paren, traits);
    assert(trees(inner) =~= seq![word("derive"), paren(listed)]);
    let mut r = empty();
    push_mark(&mut r, '#');
    push_group(&mut r, Delim::Bracket, inner);
    r
}

/// The struct of a type, behind its documentation.
pub open spec fn struct_item(doc: DocModel, id: Seq<char>, fields: Seq<Seq<Token>>) -> Seq<Token> {
    (doc.tokens() + derives()).push(word("pub")).push(word("struct")).push(Token::Ident(id)).push(
        brace(separated(fields, mark(','))),
    )
}

pub fn struct_item_stream(doc: &Doc, id: &Ident, fields: &Vec<TokenStream>) -> (r: TokenStream)
    ensures
        trees(r) == struct_item(doc@, id@, each_trees(fields@)),
{
    proof {
        lemma_words_1();
        lemma_words_2();
    }
    let mut r = empty();
    doc.to_tokens(&mut r);
    assert(trees(r) =~= doc@.tokens());
    append(&mut r, &derives_stream());
    push_ident(&mut r, "pub");
    push_ident(&mut r, "struct");
    id.to_tokens(&mut r);
    push_group(&mut r, Delim::Brace, separate(fields, ','));
    r
}

/// `#[automatically_derived] impl ::kaitai::KaitaiStruct for id { new, read }`
pub open spec fn trait_impl(id: Seq<char>, new: Seq<Token>) -> Seq<Token> {
    seq![
        mark('#'),
        bracket(seq![word("automatically_derived")]),
        word("impl"),
        joint(':'),
        mark(':'),
        word("kaitai"),
        joint(':'),
        mark(':'),
        word("KaitaiStruct"),
        word("for"),
        Token::Ident(id),
        brace(new + read_function()),
    ]
}

pub fn trait_impl_stream(id: &Ident, new: &TokenStream) -> (r: TokenStream)
    ensures
        trees(r) == trait_impl(id@, trees(*new)),
{
    proof {
        lemma_words_1();
        lemma_words_2();
    }
    let mut marker = empty();
    push_ident(&mut marker, "automatically_derived");
    let mut body = empty();
    append(&mut body, new);
    assert(trees(body) =~= trees(*new));
    append(&mut body, &read_function_stream());
    let mut r = empty();
    push_mark(&mut r, '#');
    push_group(&mut r, Delim::Bracket, marker);
    push_ident(&mut r, "impl");
    push_path(&mut r, "kaitai");
    push_path(&mut r, "KaitaiStruct");
    push_ident(&mut r, "for");
    id.to_tokens(&mut r);
    push_group(&mut r, Delim::Brace, body);
    r
}

/// `name: ty`
pub open spec fn param(name: Seq<char>, ty: Seq<Token>) -> Seq<Token> {
    seq![Token::Ident(name), mark(':')] + ty
}

pub fn param_stream(name: &Ident, ty: &TokenStream) -> (r: TokenStream)
    ensures
        trees(r) == param(name@, trees(*ty)),
{
    let mut r = empty();
    name.to_tokens(&mut r);
    push_mark(&mut r, ':');
    append(&mut r, ty);
    r
}

/// `impl id { pub fn new_with_root<S>(buf: &mut S, params) -> Result<Self> { body } }`
pub open spec fn root_impl(id: Seq<char>, params: Seq<Seq<Token>>, body: Seq<Token>) -> Seq<Token> {
    seq![
        word("impl"),
        Token::Ident(id),
        brace(
            (seq![word("pub"), word("fn"), word("new_with_root")] + stream_generic()).push(
                paren(stream_param("buf"@).push(mark(',')) + separated(params, mark(','))),
            ) + result_of(word("Self")).push(brace(body)),
        ),
    ]
}

pub fn root_impl_stream(id: &Ident, params: &Vec<TokenStream>, body: TokenStream) -> (r: TokenStream)
    ensures
        trees(r) == root_impl(id@, each_trees(params@), trees(body)),
{
    proof {
        lemma_words_1();
        lemma_words_2();
    }
    let mut list = stream_param_stream("buf");
    push_mark(&mut list, ',');
    append(&mut list, &separate(params, ','));
    let mut function = empty();
    push_ident(&mut function, "pub");
    push_ident(&mut function, "fn");
    push_ident(&mut function, "new_with_root");
    assert(trees(function) =~= seq![word("pub"), word("fn"), word("new_with_root")]);
    append(&mut function, &stream_generic_tokens());
    push_group(&mut function, Delim::Paren, list);
    append(&mut function, &result_of_self());
    push_group(&mut function, Delim::Brace, body);
    let mut r = empty();
    push_ident(&mut r, "impl");
    id.to_tokens(&mut r);
    push_group(&mut r, Delim::Brace, function);
    r
}

} // verus!
