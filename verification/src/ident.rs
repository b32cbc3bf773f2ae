//! Identifiers of the generated code.
use proc_macro2::TokenStream;
use vstd::prelude::*;

use crate::text::{is_ascii_ident, same_text};
use crate::tokens::{lex, pieces, push_ident, trees, valid_ident, Piece, Token};

verus! {

/// Tests whether a text is an identifier.
pub fn is_valid_ident(text: &str) -> (r: bool)
    ensures
        r == valid_ident(text@),
{
    if is_ascii_ident(text) {
        return true;
    }
    let n: usize = text.unicode_len();
    if n > 1 && text.get_char(0) == 'r' && text.get_char(1) == '#' {
        return false;
    }
    match lex(text) {
        Err(_) => false,
        Ok(stream) => {
            let ghost held = trees(stream);
            let found = pieces(stream);
            if found.len() != 1 {
                return false;
            }
            assert(found@[0].is_of(held[0]));
            match &found[0] {
                Piece::Ident(name) => {
                    let r = same_text(name.as_str(), text);
                    assert(r ==> held =~= seq![Token::Ident(text@)]);
                    r
                },
                _ => false,
            }
        },
    }
}

/// An identifier of the generated code.
#[derive(Debug)]
pub struct Ident {
    text: String,
}

impl View for Ident {
    type V = Seq<char>;

    /// The text of the identifier.
    closed spec fn view(&self) -> Seq<char> {
        self.text@
    }
}

impl Clone for Ident {
    fn clone(&self) -> (r: Self)
        ensures
            r@ == self@,
    {
        proof {
            use_type_invariant(self);
        }
        Ident { text: self.text.clone() }
    }
}

impl Ident {
    #[verifier::type_invariant]
    spec fn is_valid(self) -> bool {
        valid_ident(self.text@)
    }

    /// The identifier of a text.
    pub fn new(text: &str) -> (r: Ident)
        requires
            valid_ident(text@),
        ensures
            r@ == text@,
    {
        Ident { text: text.to_owned() }
    }

    /// The identifier of a text, where the text is one.
    pub fn checked(text: &str) -> (r: Option<Ident>)
        ensures
            r is Some <==> valid_ident(text@),
            r matches Some(ident) ==> ident@ == text@,
    {
        if is_valid_ident(text) {
            Some(Ident::new(text))
        } else {
            None
        }
    }

    /// The text of the identifier.
    pub fn as_str(&self) -> (r: &str)
        ensures
            r@ == self@,
            valid_ident(self@),
    {
        proof {
            use_type_invariant(self);
        }
        self.text.as_str()
    }

    /// Appends the identifier to a token stream.
    pub fn to_tokens(&self, tokens: &mut TokenStream)
        ensures
            trees(*final(tokens)) == trees(*old(tokens)).push(Token::Ident(self@)),
    {
        push_ident(tokens, self.as_str());
    }
}

/// The texts of identifiers.
pub open spec fn ident_texts(ids: Seq<&Ident>) -> Seq<Seq<char>> {
    ids.map_values(|id: &Ident| id@)
}

} // verus!
