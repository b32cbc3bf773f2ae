//! A format description as it was read, before it is checked.
use proc_macro2::TokenStream;
use vstd::prelude::*;

use crate::hir::meta::Endianness;
use crate::tokens::{trees, Token};

verus! {

/// An integer in a format description, as Rust code: a literal, or an expression over
/// earlier fields.
#[derive(Clone, Debug)]
pub struct IntegerValue {
    pub tokens: TokenStream,
}

impl View for IntegerValue {
    type V = Seq<Token>;

    open spec fn view(&self) -> Seq<Token> {
        trees(self.tokens)
    }
}

/// How a field says that it repeats.
#[derive(Clone, Copy, Debug)]
pub enum Repeat {
    Eos,
    Expr,
    Until,
}

/// The type of a field.
#[derive(Clone, Debug)]
pub enum AttrType {
    TypeRef(String),
    /// The cases stand in the order in which they were read.
    Switch { switch_on: String, cases: Vec<(String, String)> },
}

/// A field.
#[derive(Clone, Debug)]
pub struct Attr {
    pub id: Option<String>,
    pub doc: String,
    pub contents: Option<Vec<u8>>,
    pub ty: Option<AttrType>,
    pub repeat: Option<Repeat>,
    pub repeat_expr: Option<IntegerValue>,
    pub repeat_until: Option<String>,
    pub size: Option<IntegerValue>,
    pub size_eos: bool,
    pub en: Option<String>,
}

/// What a type as a whole is documented with.
#[derive(Debug)]
pub struct MetaDoc {
    pub text: Option<String>,
}

impl Clone for MetaDoc {
    fn clone(&self) -> (r: Self)
        ensures
            r == *self,
    {
        MetaDoc {
            text: match &self.text {
                Some(text) => Some(text.clone()),
                None => None,
            },
        }
    }
}

/// What a type says of itself as a whole.
#[derive(Clone, Debug)]
pub struct Meta {
    pub id: Option<String>,
    pub doc: MetaDoc,
    pub endianness: Option<Endianness>,
    pub bit_endian: Option<Endianness>,
}

/// The generated definition of an enumeration.
#[derive(Clone, Debug)]
pub struct Enumeration {
    pub definition: TokenStream,
}

/// A type, with the types declared in it.
#[derive(Debug)]
pub struct Type {
    pub meta: Option<Meta>,
    pub doc: String,
    pub seq: Vec<Attr>,
    pub types: Vec<(String, Type)>,
    pub enums: Vec<Enumeration>,
}

} // verus!
