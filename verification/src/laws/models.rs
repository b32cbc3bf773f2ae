//! The mathematical models keep all that the values hold.
use proc_macro2::TokenStream;
use vstd::prelude::*;

use crate::code::each_trees;
use crate::de::{Enumeration, IntegerValue};
use crate::hir::attr::{
    attrs_model, cases_model, deps_model, params_model, rewrite_model, Attribute, Attributes, Logic, Repeat, RootParam,
    Size, Type,
};
use crate::hir::builtin::BuiltInType;
use crate::hir::doc::Doc;
use crate::hir::lower::{case_texts, opt_text};
use crate::hir::model::{LogicModel, RepeatModel, SizeModel, TypeModel};
use crate::hir::pattern::{Pattern, PatternModel};
use crate::hir::ty;
use crate::hir::ty::{enums_model, InheritedMeta};
use crate::ident::{ident_texts, Ident};
use crate::tokens::trees;

verus! {

/// Patterns.
pub proof fn law_patterns_are_kept(path: String, n: u64, b: bool)
    ensures
        Pattern::Enum(path)@ == PatternModel::Enum(path@),
        Pattern::Int(n)@ == PatternModel::Int(n),
        Pattern::Bool(b)@ == PatternModel::Bool(b),
{
}

/// Types of fields.
pub proof fn law_types_are_kept(id: Ident, built_in: BuiltInType)
    ensures
        Type::UserDefined(id)@ == TypeModel::UserDefined(id@),
        (Type::BuiltIn { ty: built_in, en: None })@ == (TypeModel::BuiltIn { ty: built_in, en: None }),
        (Type::BuiltIn { ty: built_in, en: Some(id) })@ == (TypeModel::BuiltIn { ty: built_in, en: Some(id@) }),
{
}

/// Sizes and repetitions.
pub proof fn law_counts_are_kept(count: IntegerValue, condition: String)
    ensures
        count@ == trees(count.tokens),
        Size::Fixed(count)@ == SizeModel::Fixed(trees(count.tokens)),
        Size::Eos@ == SizeModel::Eos,
        Repeat::Eos@ == RepeatModel::Eos,
        Repeat::Expr(count)@ == RepeatModel::Expr(trees(count.tokens)),
        Repeat::Until(condition)@ == RepeatModel::Until(condition@),
{
}

/// How fields are read.
pub proof fn law_logic_is_kept(bytes: Vec<u8>, ty: Type, on: String, cases: Vec<(Pattern, Type)>, size: Size)
    ensures
        Logic::FixedContents(bytes)@ == LogicModel::FixedContents(bytes@),
        Logic::Type(ty)@ == LogicModel::Type(ty@),
        Logic::Size(size)@ == LogicModel::Size(size@),
        Logic::Process(on)@ == LogicModel::Process(on@),
        (Logic::Switch { on, cases })@ matches LogicModel::Switch { on: text, cases: model } && text == on@
            && model.len() == cases@.len() && forall|i: int|
            0 <= i < cases@.len() ==> #[trigger] model[i] == (cases@[i].0@, cases@[i].1@),
{
}

/// Fields, and lists of them.
pub proof fn law_fields_are_kept(attr: Attribute, attrs: Attributes)
    ensures
        attr@.id == attr.id@,
        attr@.doc == attr.doc@,
        attr@.logic == attr.logic@,
        attr.repeat is None ==> attr@.repeat is None,
        attr.repeat matches Some(repeat) ==> attr@.repeat == Some(repeat@),
        attrs@.len() == attrs.0@.len(),
        forall|i: int| 0 <= i < attrs.0@.len() ==> #[trigger] attrs@[i] == attrs.0@[i]@,
{
}

/// Documentation.
pub proof fn law_documentation_is_kept(doc: Doc)
    ensures
        doc@.text == doc.text@,
        doc@.meta == opt_text(doc.meta),
{
}

/// Texts that may be missing.
pub proof fn law_optional_texts_are_kept(text: String)
    ensures
        opt_text(None) is None,
        opt_text(Some(text)) == Some(text@),
{
}

/// Values of the root type.
pub proof fn law_parameters_are_kept(param: RootParam, params: Seq<RootParam>)
    ensures
        param@.path == param.path@,
        param@.param_ident == param.param_ident@,
        param@.param_ty == trees(param.param_ty),
        param@.accessor == trees(param.accessor),
        params_model(params).len() == params.len(),
        forall|i: int| 0 <= i < params.len() ==> #[trigger] params_model(params)[i] == params[i]@,
{
}

/// Maps.
pub proof fn law_maps_are_kept(deps: Map<Seq<char>, Vec<RootParam>>, rewrite: Map<Seq<char>, Ident>, key: Seq<char>)
    ensures
        deps_model(deps).contains_key(key) <==> deps.contains_key(key),
        deps.contains_key(key) ==> deps_model(deps)[key] == params_model(deps[key]@),
        rewrite_model(rewrite).contains_key(key) <==> rewrite.contains_key(key),
        rewrite.contains_key(key) ==> rewrite_model(rewrite)[key] == rewrite[key]@,
{
}

/// Lists.
pub proof fn law_lists_are_kept(
    cases: Seq<(Pattern, Type)>,
    attrs: Seq<Attribute>,
    texts: Seq<(String, String)>,
    ids: Seq<&Ident>,
    streams: Seq<TokenStream>,
    enums: Seq<Enumeration>,
)
    ensures
        cases_model(cases).len() == cases.len(),
        forall|i: int| 0 <= i < cases.len() ==> #[trigger] cases_model(cases)[i] == (cases[i].0@, cases[i].1@),
        attrs_model(attrs).len() == attrs.len(),
        forall|i: int| 0 <= i < attrs.len() ==> #[trigger] attrs_model(attrs)[i] == attrs[i]@,
        case_texts(texts).len() == texts.len(),
        forall|i: int| 0 <= i < texts.len() ==> #[trigger] case_texts(texts)[i] == (texts[i].0@, texts[i].1@),
        ident_texts(ids).len() == ids.len(),
        forall|i: int| 0 <= i < ids.len() ==> #[trigger] ident_texts(ids)[i] == ids[i]@,
        each_trees(streams).len() == streams.len(),
        forall|i: int| 0 <= i < streams.len() ==> #[trigger] each_trees(streams)[i] == trees(streams[i]),
        enums_model(enums).len() == enums.len(),
        forall|i: int| 0 <= i < enums.len() ==> #[trigger] enums_model(enums)[i] == trees(enums[i].definition),
{
}

/// Types.
pub proof fn law_structs_are_kept(ty: ty::Type)
    ensures
        ty@.id == ty.id@,
        ty@.endianness == ty.endianness,
        ty@.bit_endianness == ty.bit_endianness,
        ty@.doc == ty.doc@,
        ty@.seq == ty.seq@,
        ty@.types.len() == ty.types@.len(),
        forall|i: int| 0 <= i < ty.types@.len() ==> #[trigger] ty@.types[i] == ty.types@[i]@,
        ty@.enums == enums_model(ty.enums@),
{
}

/// What types inherit.
pub proof fn law_inheritance_is_kept(inherited: InheritedMeta)
    ensures
        inherited@.endianness == inherited.endianness,
        inherited@.bit_endianness == inherited.bit_endianness,
        inherited.id is None ==> inherited@.id is None,
        inherited.id matches Some((id, overwrite)) ==> inherited@.id == Some((id@, overwrite)),
{
}

} // verus!
