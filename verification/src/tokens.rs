//! Token streams: the mathematical model of `proc_macro2::TokenStream`, and the
//! calls into `proc_macro2` and `quote` that fill one.
use proc_macro2::{
    Delimiter, Group, Ident as RawIdent, LexError, Literal, Punct, Spacing, Span, TokenStream, TokenTree,
};
use quote::{ToTokens, TokenStreamExt};
use vstd::prelude::*;

use crate::text::{ascii_ident, decimal};

verus! {

/// The pair of delimiters around a group of tokens.
#[derive(Clone, Copy, Debug, PartialEq, Eq, Structural)]
pub enum Delim {
    Paren,
    Bracket,
    Brace,
    Invisible,
}

/// One token tree.
pub enum Token {
    /// An identifier or keyword, by its text.
    Ident(Seq<char>),
    /// A punctuation character, and whether it is joined to the next one.
    Punct(char, bool),
    /// A literal, by its source text.
    Literal(Seq<char>),
    /// A delimited group.
    Group(Delim, Seq<Token>),
}

#[verifier::external_type_specification]
#[verifier::external_body]
pub struct ExTokenStream(proc_macro2::TokenStream);

#[verifier::external_type_specification]
#[verifier::external_body]
pub struct ExLexError(proc_macro2::LexError);

/// The token trees that a stream holds, in order. Spans are not part of it.
pub uninterp spec fn trees(stream: TokenStream) -> Seq<Token>;

/// What lexing a text as Rust tokens gives: the token trees, or `None` where the
/// text is not a sequence of tokens.
pub uninterp spec fn lexed(text: Seq<char>) -> Option<Seq<Token>>;

/// The source text of the string literal that denotes a text.
pub uninterp spec fn string_literal(text: Seq<char>) -> Seq<char>;

pub open spec fn word(text: &str) -> Token {
    Token::Ident(text@)
}

/// A punctuation character that stands alone.
pub open spec fn mark(c: char) -> Token {
    Token::Punct(c, false)
}

/// A punctuation character that is joined to the next one.
pub open spec fn joint(c: char) -> Token {
    Token::Punct(c, true)
}

pub open spec fn paren(inner: Seq<Token>) -> Token {
    Token::Group(Delim::Paren, inner)
}

pub open spec fn bracket(inner: Seq<Token>) -> Token {
    Token::Group(Delim::Bracket, inner)
}

pub open spec fn brace(inner: Seq<Token>) -> Token {
    Token::Group(Delim::Brace, inner)
}

/// The characters that can stand as punctuation.
pub open spec fn is_mark(c: char) -> bool {
    ||| c == '!' || c == '#' || c == '$' || c == '%' || c == '&' || c == '\'' || c == '*'
    ||| c == '+' || c == ',' || c == '-' || c == '.' || c == '/' || c == ':' || c == ';'
    ||| c == '<' || c == '=' || c == '>' || c == '?' || c == '@' || c == '^' || c == '|' || c == '~'
}

/// A text that is an identifier: one over ASCII letters, digits and underscores, or
/// any other that lexes to the one identifier of that same text and is not raw.
pub open spec fn valid_ident(text: Seq<char>) -> bool {
    ||| ascii_ident(text)
    ||| lexed(text) == Some(seq![Token::Ident(text)]) && !(text.len() > 1 && text[0] == 'r' && text[1] == '#')
}

/// `<proc_macro2::TokenStream as Clone>::clone`: a stream that holds the same tokens.
pub assume_specification[ <proc_macro2::TokenStream as Clone>::clone ](stream: &proc_macro2::TokenStream) -> (r:
    proc_macro2::TokenStream)
    ensures
        trees(r) == trees(*stream),
;

/// `proc_macro2::TokenStream::new`: the stream without tokens.
#[verifier::external_body]
pub(crate) fn empty() -> (stream: TokenStream)
    ensures
        trees(stream) == Seq::<Token>::empty(),
{
    TokenStream::new()
}

/// The text of the call `buf.method()?`.
pub open spec fn call_text(method: Seq<char>) -> Seq<char> {
    "buf."@ + method + "()?"@
}

/// The method of a text that is such a call.
pub open spec fn called_method(text: Seq<char>) -> Seq<char> {
    text.subrange(4, text.len() - 3)
}

/// The text is `buf.method()?` for a method whose name is an identifier over ASCII characters.
pub open spec fn is_call(text: Seq<char>) -> bool {
    &&& text.len() >= 7
    &&& text == call_text(called_method(text))
    &&& ascii_ident(called_method(text))
}

/// The tokens of the call `buf.method()?`.
pub open spec fn call_tokens(method: Seq<char>) -> Seq<Token> {
    seq![word("buf"), mark('.'), Token::Ident(method), paren(Seq::empty()), mark('?')]
}

/// `<proc_macro2::TokenStream as FromStr>::from_str`: lexes a text. The result
/// depends on the text alone. Inside a compiler's macro the compiler lexes, elsewhere
/// `proc_macro2` itself; which of them is settled once per process. An identifier over
/// ASCII characters lexes to that identifier. The text `buf.method()?`, where the method's
/// name is such an identifier, lexes to the five tokens that it shows.
#[verifier::external_body]
pub(crate) fn lex(text: &str) -> (stream: Result<TokenStream, LexError>)
    ensures
        match stream {
            Ok(s) => lexed(text@) == Some(trees(s)),
            Err(_) => lexed(text@) is None,
        },
        ascii_ident(text@) ==> match stream {
            Ok(s) => trees(s) == seq![Token::Ident(text@)],
            Err(_) => false,
        },
        is_call(text@) ==> match stream {
            Ok(s) => trees(s) == call_tokens(called_method(text@)),
            Err(_) => false,
        },
{
    text.parse()
}

/// A text as Rust code, where it is any: an identifier over ASCII characters stands for
/// itself, anything else for what it lexes to.
pub open spec fn rust_code(text: Seq<char>) -> Option<Seq<Token>> {
    if ascii_ident(text) {
        Some(seq![Token::Ident(text)])
    } else {
        lexed(text)
    }
}

/// Reads a text as Rust code.
pub fn read_code(text: &str) -> (r: Option<TokenStream>)
    ensures
        match r {
            Some(stream) => rust_code(text@) == Some(trees(stream)),
            None => rust_code(text@) is None,
        },
{
    match lex(text) {
        Ok(stream) => Some(stream),
        Err(_) => None,
    }
}

/// One token tree that came out of a stream.
pub enum Piece {
    Ident(String),
    Punct(char),
    Literal(String),
    Group(TokenStream),
}

impl Piece {
    /// The piece stands for the given token.
    pub open spec fn is_of(self, token: Token) -> bool {
        match (self, token) {
            (Piece::Ident(text), Token::Ident(t)) => text@ == t,
            (Piece::Punct(c), Token::Punct(d, _)) => c == d,
            (Piece::Literal(text), Token::Literal(t)) => text@ == t,
            (Piece::Group(inner), Token::Group(_, ts)) => trees(inner) == ts,
            _ => false,
        }
    }
}

/// `<proc_macro2::TokenStream as IntoIterator>::into_iter`: hands the token trees out in
/// order.
#[verifier::external_body]
pub(crate) fn pieces(stream: TokenStream) -> (r: Vec<Piece>)
    ensures
        r@.len() == trees(stream).len(),
        forall|i: int| 0 <= i < r@.len() ==> (#[trigger] r@[i]).is_of(trees(stream)[i]),
{
    stream.into_iter().map(|tree| match tree {
        TokenTree::Ident(ident) => Piece::Ident(ident.to_string()),
        TokenTree::Punct(punct) => Piece::Punct(punct.as_char()),
        TokenTree::Literal(literal) => Piece::Literal(literal.to_string()),
        TokenTree::Group(group) => Piece::Group(group.stream()),
    }).collect()
}

/// `proc_macro2::Ident::new`, appended with `quote::TokenStreamExt::append`: one
/// identifier token. `Ident::new` panics on a text that is no identifier.
#[verifier::external_body]
pub(crate) fn push_ident(stream: &mut TokenStream, text: &str)
    requires
        valid_ident(text@),
    ensures
        trees(*final(stream)) == trees(*old(stream)).push(Token::Ident(text@)),
{
    stream.append(RawIdent::new(text, Span::call_site()));
}

/// `proc_macro2::Punct::new` with `Spacing::Alone`, appended with
/// `quote::TokenStreamExt::append`. `Punct::new` panics on other characters.
#[verifier::external_body]
pub(crate) fn push_mark(stream: &mut TokenStream, c: char)
    requires
        is_mark(c),
    ensures
        trees(*final(stream)) == trees(*old(stream)).push(mark(c)),
{
    stream.append(Punct::new(c, Spacing::Alone));
}

/// `proc_macro2::Punct::new` with `Spacing::Joint`, appended with
/// `quote::TokenStreamExt::append`. `Punct::new` panics on other characters.
#[verifier::external_body]
pub(crate) fn push_joint(stream: &mut TokenStream, c: char)
    requires
        is_mark(c),
    ensures
        trees(*final(stream)) == trees(*old(stream)).push(joint(c)),
{
    stream.append(Punct::new(c, Spacing::Joint));
}

/// `proc_macro2::Group::new`, appended with `quote::TokenStreamExt::append`: one
/// group that holds the tokens of `inner`.
#[verifier::external_body]
pub(crate) fn push_group(stream: &mut TokenStream, delim: Delim, inner: TokenStream)
    ensures
        trees(*final(stream)) == trees(*old(stream)).push(Token::Group(delim, trees(inner))),
{
    let delimiter = match delim {
        Delim::Paren => Delimiter::Parenthesis,
        Delim::Bracket => Delimiter::Bracket,
        Delim::Brace => Delimiter::Brace,
        Delim::Invisible => Delimiter::None,
    };
    stream.append(Group::new(delimiter, inner));
}

/// `<proc_macro2::TokenStream as quote::ToTokens>::to_tokens`: appends all tokens of
/// `other`.
#[verifier::external_body]
pub(crate) fn append(stream: &mut TokenStream, other: &TokenStream)
    ensures
        trees(*final(stream)) == trees(*old(stream)) + trees(*other),
{
    other.to_tokens(stream);
}

/// `<u8 as quote::ToTokens>::to_tokens`: the decimal literal with its type as suffix.
#[verifier::external_body]
pub(crate) fn push_u8(stream: &mut TokenStream, n: u8)
    ensures
        trees(*final(stream)) == trees(*old(stream)).push(Token::Literal(decimal(n as nat) + "u8"@)),
{
    n.to_tokens(stream);
}

/// `<u64 as quote::ToTokens>::to_tokens`: the decimal literal with its type as suffix.
#[verifier::external_body]
pub(crate) fn push_u64(stream: &mut TokenStream, n: u64)
    ensures
        trees(*final(stream)) == trees(*old(stream)).push(Token::Literal(decimal(n as nat) + "u64"@)),
{
    n.to_tokens(stream);
}

/// `proc_macro2::Literal::u64_unsuffixed`, appended with
/// `quote::TokenStreamExt::append`: the decimal literal without a suffix.
#[verifier::external_body]
pub(crate) fn push_u64_unsuffixed(stream: &mut TokenStream, n: u64)
    ensures
        trees(*final(stream)) == trees(*old(stream)).push(Token::Literal(decimal(n as nat))),
{
    stream.append(Literal::u64_unsuffixed(n));
}

/// A text of printable ASCII characters without `"` and `\`.
pub open spec fn is_plain(text: Seq<char>) -> bool {
    forall|i: int| 0 <= i < text.len() ==> ' ' <= #[trigger] text[i] <= '~' && text[i] != '"' && text[i] != '\\'
}

/// The source text of a string literal: a plain text stands between its quotes as it is.
pub open spec fn quoted(text: Seq<char>) -> Seq<char> {
    if is_plain(text) {
        seq!['"'] + text + seq!['"']
    } else {
        string_literal(text)
    }
}

/// `<str as quote::ToTokens>::to_tokens`: the string literal of a text. A plain text
/// stands between its quotes as it is; how other characters are escaped is not
/// stated. Inside a compiler's macro the compiler writes the literal, elsewhere
/// `proc_macro2` itself.
#[verifier::external_body]
pub(crate) fn push_str(stream: &mut TokenStream, text: &str)
    ensures
        trees(*final(stream)) == trees(*old(stream)).push(Token::Literal(string_literal(text@))),
        is_plain(text@) ==> trees(*final(stream)) == trees(*old(stream)).push(
            Token::Literal(seq!['"'] + text@ + seq!['"']),
        ),
{
    text.to_tokens(stream);
}

} // verus!
