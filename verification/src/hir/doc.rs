//! Documentation of the generated items.
use proc_macro2::TokenStream;
use vstd::prelude::*;

use crate::code::{doc_attribute, doc_attribute_stream};
use crate::de::MetaDoc;
use crate::tokens::{append, trees, Token};

verus! {

/// The documentation of a generated item: its own, and what the type as a whole is documented
/// with.
#[derive(Clone, Debug)]
pub struct Doc {
    pub meta: Option<String>,
    pub text: String,
}

/// The mathematical model of a [`Doc`].
pub struct DocModel {
    pub meta: Option<Seq<char>>,
    pub text: Seq<char>,
}

impl View for Doc {
    type V = DocModel;

    open spec fn view(&self) -> DocModel {
        DocModel {
            meta: match self.meta {
                Some(text) => Some(text@),
                None => None,
            },
            text: self.text@,
        }
    }
}

impl DocModel {
    /// The documentation that an item has from the type as a whole and from itself.
    pub open spec fn of(meta_doc: Option<MetaDoc>, text: Seq<char>) -> DocModel {
        DocModel {
            meta: match meta_doc {
                Some(MetaDoc { text: Some(text) }) => Some(text@),
                _ => None,
            },
            text,
        }
    }

    /// The documentation as attributes: what the type as a whole is documented with goes
    /// before the item's own.
    pub open spec fn tokens(self) -> Seq<Token> {
        match self.meta {
            Some(text) => doc_attribute(text) + doc_attribute(self.text),
            None => doc_attribute(self.text),
        }
    }
}

impl Doc {
    /// The empty documentation.
    pub fn new() -> (r: Doc)
        ensures
            r@ == (DocModel { meta: None, text: Seq::empty() }),
    {
        Doc { meta: None, text: String::new() }
    }

    /// The documentation that an item has from the type as a whole and from itself.
    pub fn from(parts: (Option<MetaDoc>, String)) -> (r: Doc)
        ensures
            r@ == DocModel::of(parts.0, parts.1@),
    {
        let (meta_doc, text) = parts;
        let meta = match meta_doc {
            Some(meta_doc) => meta_doc.text,
            None => None,
        };
        Doc { meta, text }
    }

    /// Appends the documentation as attributes.
    pub fn to_tokens(&self, tokens: &mut TokenStream)
        ensures
            trees(*final(tokens)) == trees(*old(tokens)) + self@.tokens(),
    {
        let ghost start = trees(*tokens);
        if let Some(text) = &self.meta {
            append(tokens, &doc_attribute_stream(text.as_str()));
        }
        append(tokens, &doc_attribute_stream(self.text.as_str()));
        assert(trees(*tokens) =~= start + self@.tokens());
    }
}

} // verus!
