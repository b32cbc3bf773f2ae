//! The patterns of the cases of a switch.
use proc_macro2::TokenStream;
use vstd::pervasive::unreached;
use vstd::prelude::*;

use crate::text::{
    camel_case_path, camel_path, decimal, ident_prefix, lemma_text_le_antisymmetric, lemma_text_le_total,
    lemma_text_le_transitive, parse_number, read_number, same_text, text_at_most, text_le,
};
use crate::tokens::{append, push_ident, push_u64_unsuffixed, read_code, rust_code, trees, Token};

verus! {

#[derive(Clone, Debug)]
pub enum Pattern {
    Enum(String),
    Int(u64),
    Bool(bool),
}

/// The mathematical model of a [`Pattern`].
pub enum PatternModel {
    Enum(Seq<char>),
    Int(u64),
    Bool(bool),
}

impl View for Pattern {
    type V = PatternModel;

    open spec fn view(&self) -> PatternModel {
        match self {
            Pattern::Enum(s) => PatternModel::Enum(s@),
            Pattern::Int(n) => PatternModel::Int(*n),
            Pattern::Bool(b) => PatternModel::Bool(*b),
        }
    }
}

impl PatternModel {
    /// The pattern that a case is written as: a truth value, a number, or the path of an
    /// enum value.
    pub open spec fn of_text(s: Seq<char>) -> PatternModel {
        if s == "true"@ {
            PatternModel::Bool(true)
        } else if s == "false"@ {
            PatternModel::Bool(false)
        } else {
            match parse_number(s, u64::MAX as nat) {
                Some(n) => PatternModel::Int(n as u64),
                None => PatternModel::Enum(s),
            }
        }
    }

    /// What patterns are ordered by: numbers come first, then truth values, then enum
    /// values.
    pub open spec fn key(self) -> (u8, u64, Seq<char>) {
        match self {
            PatternModel::Int(n) => (0, n, Seq::empty()),
            PatternModel::Bool(b) => (1, if b { 1 } else { 0 }, Seq::empty()),
            PatternModel::Enum(s) => (2, 0, s),
        }
    }

    /// The key of one pattern is at most that of another, part by part from the left.
    pub open spec fn at_most(self, other: PatternModel) -> bool {
        let a = self.key();
        let b = other.key();
        if a.0 != b.0 {
            a.0 < b.0
        } else if a.1 != b.1 {
            a.1 < b.1
        } else {
            text_le(a.2, b.2)
        }
    }

    /// The pattern can be written as Rust code.
    pub open spec fn renderable(self) -> bool {
        self matches PatternModel::Enum(s) ==> rust_code(camel_path(s)) is Some
    }

    /// The pattern as Rust code.
    pub open spec fn tokens(self) -> Seq<Token> {
        match self {
            PatternModel::Int(n) => seq![Token::Literal(decimal(n as nat))],
            PatternModel::Bool(b) => seq![Token::Ident(if b { "true"@ } else { "false"@ })],
            PatternModel::Enum(s) => rust_code(camel_path(s))->0,
        }
    }
}

impl From<String> for Pattern {
    fn from(s: String) -> (r: Self) {
        if same_text(s.as_str(), "true") {
            return Pattern::Bool(true);
        }
        if same_text(s.as_str(), "false") {
            return Pattern::Bool(false);
        }
        match read_number(s.as_str(), u64::MAX) {
            Some(n) => Pattern::Int(n),
            None => Pattern::Enum(s),
        }
    }
}

impl vstd::std_specs::convert::FromSpecImpl<String> for Pattern {
    open spec fn obeys_from_spec() -> bool {
        true
    }

    open spec fn from_spec(s: String) -> Pattern {
        match PatternModel::of_text(s@) {
            PatternModel::Bool(b) => Pattern::Bool(b),
            PatternModel::Int(n) => Pattern::Int(n),
            PatternModel::Enum(_) => Pattern::Enum(s),
        }
    }
}

impl Pattern {
    /// What patterns are ordered by.
    pub fn sort_key(&self) -> (r: (u8, u64, &str))
        ensures
            (r.0, r.1, r.2@) == self@.key(),
    {
        proof {
            reveal_strlit("");
            assert(""@ =~= Seq::<char>::empty());
        }
        match self {
            Pattern::Int(n) => (0, *n, ""),
            Pattern::Bool(b) => (1, if *b { 1 } else { 0 }, ""),
            Pattern::Enum(s) => (2, 0, s.as_str()),
        }
    }

    /// Tests whether the key of the pattern is at most that of another.
    pub fn at_most(&self, other: &Pattern) -> (r: bool)
        ensures
            r == self@.at_most(other@),
    {
        let a = self.sort_key();
        let b = other.sort_key();
        if a.0 != b.0 {
            a.0 < b.0
        } else if a.1 != b.1 {
            a.1 < b.1
        } else {
            text_at_most(a.2, b.2)
        }
    }

    /// Tests whether the pattern can be written as Rust code.
    pub fn is_renderable(&self) -> (r: bool)
        ensures
            r == self@.renderable(),
    {
        match self {
            Pattern::Enum(s) => read_code(camel_case_path(s.as_str()).as_str()).is_some(),
            _ => true,
        }
    }

    /// Appends the pattern as Rust code: the path `enum_name::value` becomes
    /// `EnumName::Value`.
    pub fn to_tokens(&self, tokens: &mut TokenStream)
        requires
            self@.renderable(),
        ensures
            trees(*final(tokens)) == trees(*old(tokens)) + self@.tokens(),
    {
        let ghost before = trees(*tokens);
        match self {
            Pattern::Int(n) => {
                push_u64_unsuffixed(tokens, *n);
                assert(trees(*tokens) =~= before + self@.tokens());
            },
            Pattern::Bool(b) => {
                proof {
                    reveal_with_fuel(ident_prefix, 6);
                    reveal_strlit("true");
                    reveal_strlit("false");
                }
                if *b {
                    push_ident(tokens, "true");
                } else {
                    push_ident(tokens, "false");
                }
                assert(trees(*tokens) =~= before + self@.tokens());
            },
            Pattern::Enum(s) => {
                let path = camel_case_path(s.as_str());
                match read_code(path.as_str()) {
                    Some(stream) => append(tokens, &stream),
                    None => unreached(),
                }
            },
        }
    }
}

/// Patterns are ordered in a line: of two, one is at most the other.
pub proof fn lemma_at_most_total(a: PatternModel, b: PatternModel)
    ensures
        a.at_most(b) || b.at_most(a),
{
    lemma_text_le_total(a.key().2, b.key().2);
}

/// The order of patterns is transitive.
pub proof fn lemma_at_most_transitive(a: PatternModel, b: PatternModel, c: PatternModel)
    requires
        a.at_most(b),
        b.at_most(c),
    ensures
        a.at_most(c),
{
    if a.key().0 == b.key().0 && b.key().0 == c.key().0 && a.key().1 == b.key().1 && b.key().1 == c.key().1 {
        lemma_text_le_transitive(a.key().2, b.key().2, c.key().2);
    }
}

/// Patterns that are at most each other are the same.
pub proof fn lemma_at_most_antisymmetric(a: PatternModel, b: PatternModel)
    requires
        a.at_most(b),
        b.at_most(a),
    ensures
        a == b,
{
    lemma_text_le_antisymmetric(a.key().2, b.key().2);
}

} // verus!
