//! From a format description as it was read to its checked form.
use vstd::prelude::*;

use crate::de;
use crate::hir::attr::{attrs_model, cases_model, Attribute, Attributes, Logic, Repeat, Size, Type};
use crate::hir::builtin::BuiltInType;
use crate::hir::doc::{Doc, DocModel};
use crate::hir::model::{AttributeModel, LogicModel, RepeatModel, SizeModel, TypeModel};
use crate::hir::pattern::{Pattern, PatternModel};
use crate::ident::{is_valid_ident, Ident};
use crate::laws::order::{law_cases_are_kept, law_cases_are_ordered, ordered, read_cases};
use crate::text::{sc_to_ucc, upper_camel};
use crate::tokens::valid_ident;

verus! {

pub open spec fn opt_text(o: Option<String>) -> Option<Seq<char>> {
    match o {
        Some(s) => Some(s@),
        None => None,
    }
}

/// The type that a name refers to: a built-in one, over which an enumeration may be laid, or
/// one that the description declares.
pub open spec fn lowered_type(name: Seq<char>, en: Option<Seq<char>>) -> TypeModel {
    match BuiltInType::named(name) {
        Some(ty) => TypeModel::BuiltIn {
            ty,
            en: match en {
                Some(id) => Some(upper_camel(id)),
                None => None,
            },
        },
        None => TypeModel::UserDefined(upper_camel(name)),
    }
}

/// The names that the generated code uses for a type are identifiers.
pub open spec fn type_ok(name: Seq<char>, en: Option<Seq<char>>) -> bool {
    match BuiltInType::named(name) {
        Some(_) => en matches Some(id) ==> valid_ident(upper_camel(id)),
        None => valid_ident(upper_camel(name)),
    }
}

/// Tests whether the names that the generated code uses for a type are identifiers.
pub fn is_type_ok(name: &str, en: &Option<String>) -> (r: bool)
    ensures
        r == type_ok(name@, opt_text(*en)),
{
    match BuiltInType::try_from(name) {
        Ok(_) => match en {
            Some(id) => is_valid_ident(sc_to_ucc(id.as_str()).as_str()),
            None => true,
        },
        Err(_) => is_valid_ident(sc_to_ucc(name).as_str()),
    }
}

impl Type {
    /// The type that a name refers to, with the enumeration laid over it.
    pub fn from(reference: (String, Option<String>)) -> (r: Type)
        requires
            type_ok(reference.0@, opt_text(reference.1)),
        ensures
            r@ == lowered_type(reference.0@, opt_text(reference.1)),
    {
        let (type_ref, en) = reference;
        match BuiltInType::try_from(type_ref.as_str()) {
            Ok(built_in) => Type::BuiltIn {
                ty: built_in,
                en: match en {
                    Some(id) => Some(Ident::new(sc_to_ucc(id.as_str()).as_str())),
                    None => None,
                },
            },
            Err(_) => Type::UserDefined(Ident::new(sc_to_ucc(type_ref.as_str()).as_str())),
        }
    }
}

/// The pattern and the type of a case.
pub open spec fn lowered_case(case: (Seq<char>, Seq<char>)) -> (PatternModel, TypeModel) {
    (PatternModel::of_text(case.0), lowered_type(case.1, None))
}

/// A case put among ordered ones: behind those whose patterns are at most its own.
pub open spec fn insert_case(
    ordered: Seq<(PatternModel, TypeModel)>,
    case: (PatternModel, TypeModel),
) -> Seq<(PatternModel, TypeModel)>
    decreases ordered.len(),
{
    if ordered.len() == 0 || ordered.last().0.at_most(case.0) {
        ordered.push(case)
    } else {
        insert_case(ordered.drop_last(), case).push(ordered.last())
    }
}

/// The cases of a switch, ordered by their patterns. Cases with the same pattern keep their
/// order.
pub open spec fn lowered_cases(cases: Seq<(Seq<char>, Seq<char>)>) -> Seq<(PatternModel, TypeModel)>
    decreases cases.len(),
{
    if cases.len() == 0 {
        Seq::empty()
    } else {
        insert_case(lowered_cases(cases.drop_last()), lowered_case(cases.last()))
    }
}

pub open spec fn case_texts(cases: Seq<(String, String)>) -> Seq<(Seq<char>, Seq<char>)> {
    cases.map_values(|c: (String, String)| (c.0@, c.1@))
}

/// The names that the generated code uses for the types of the cases are identifiers.
pub open spec fn cases_ok(cases: Seq<(Seq<char>, Seq<char>)>) -> bool {
    forall|i: int| 0 <= i < cases.len() ==> type_ok((#[trigger] cases[i]).1, None)
}

/// Puts a case among ordered ones, behind those whose patterns are at most its own.
fn insert_ordered(ordered: &mut Vec<(Pattern, Type)>, case: (Pattern, Type))
    ensures
        cases_model(final(ordered)@) == insert_case(cases_model(old(ordered)@), (case.0@, case.1@)),
{
    let ghost model = cases_model(ordered@);
    let ghost new = (case.0@, case.1@);
    let mut at: usize = ordered.len();
    assert(model.take(at as int) =~= model);
    assert(model.skip(at as int) =~= Seq::empty());
    assert(insert_case(model, new) =~= insert_case(model.take(at as int), new) + model.skip(at as int));
    while at > 0 && !ordered[at - 1].0.at_most(&case.0)
        invariant
            at <= ordered@.len(),
            ordered@ == old(ordered)@,
            model == cases_model(ordered@),
            new == (case.0@, case.1@),
            insert_case(model, new) == insert_case(model.take(at as int), new) + model.skip(at as int),
        ensures
            at <= ordered@.len(),
            ordered@ == old(ordered)@,
            insert_case(model, new) == insert_case(model.take(at as int), new) + model.skip(at as int),
            at > 0 ==> model[at - 1].0.at_most(new.0),
        decreases at,
    {
        proof {
            assert(model[at - 1] == (ordered@[at - 1].0@, ordered@[at - 1].1@));
            assert(model.take(at as int).drop_last() =~= model.take(at - 1));
            assert(model.take(at as int).last() == model[at - 1]);
            assert(insert_case(model.take(at - 1), new).push(model[at - 1]) + model.skip(at as int) =~= insert_case(
                model.take(at - 1),
                new,
            ) + model.skip(at - 1));
        }
        at = at - 1;
    }
    ordered.insert(at, case);
    proof {
        assert(at > 0 ==> model.take(at as int).last() == model[at - 1]);
        assert(insert_case(model.take(at as int), new) == model.take(at as int).push(new));
        assert(cases_model(ordered@) =~= model.take(at as int).push(new) + model.skip(at as int));
    }
}

/// The cases of a switch, ordered by their patterns.
pub fn lower_cases(cases: Vec<(String, String)>) -> (r: Vec<(Pattern, Type)>)
    requires
        cases_ok(case_texts(cases@)),
    ensures
        cases_model(r@) == lowered_cases(case_texts(cases@)),
        ordered(cases_model(r@)),
        cases_model(r@).to_multiset() == read_cases(case_texts(cases@)).to_multiset(),
{
    let ghost texts = case_texts(cases@);
    let ghost all = cases@;
    let mut r: Vec<(Pattern, Type)> = Vec::new();
    assert(cases_model(r@) =~= lowered_cases(texts.take(0)));
    for case in it: cases.into_iter()
        invariant
            it.seq() == all,
            texts == case_texts(all),
            cases_ok(texts),
            cases_model(r@) == lowered_cases(texts.take(it.index() as int)),
    {
        proof {
            let i = it.index() as int;
            assert(texts[i] == (case.0@, case.1@));
            assert(texts.take(i + 1).drop_last() =~= texts.take(i));
            assert(texts.take(i + 1).last() == texts[i]);
        }
        let (pattern, name) = case;
        let lowered = (Pattern::from(pattern), Type::from((name, None)));
        insert_ordered(&mut r, lowered);
    }
    proof {
        assert(texts.take(all.len() as int) =~= texts);
        law_cases_are_ordered(texts);
        law_cases_are_kept(texts);
    }
    r
}

/// How often a field is read.
pub open spec fn lowered_repeat(attr: de::Attr) -> Option<RepeatModel> {
    match attr.repeat {
        Some(de::Repeat::Eos) => Some(RepeatModel::Eos),
        Some(de::Repeat::Expr) => Some(RepeatModel::Expr(attr.repeat_expr->0@)),
        Some(de::Repeat::Until) => Some(RepeatModel::Until(attr.repeat_until->0@)),
        None => None,
    }
}

/// How the value of a field is read: fixed contents go before a size, a size before the rest
/// of the stream, and that before a type.
pub open spec fn lowered_logic(attr: de::Attr) -> LogicModel {
    if attr.contents is Some {
        LogicModel::FixedContents(attr.contents->0@)
    } else if attr.size is Some {
        LogicModel::Size(SizeModel::Fixed(attr.size->0@))
    } else if attr.size_eos {
        LogicModel::Size(SizeModel::Eos)
    } else {
        match attr.ty->0 {
            de::AttrType::TypeRef(name) => LogicModel::Type(lowered_type(name@, opt_text(attr.en))),
            de::AttrType::Switch { switch_on, cases } => LogicModel::Switch {
                on: switch_on@,
                cases: lowered_cases(case_texts(cases@)),
            },
        }
    }
}

/// The checked form of a field of a type that is documented as given.
pub open spec fn lowered(meta_doc: Option<de::MetaDoc>, attr: de::Attr) -> AttributeModel {
    AttributeModel {
        id: attr.id->0@,
        doc: DocModel::of(meta_doc, attr.doc@),
        repeat: lowered_repeat(attr),
        logic: lowered_logic(attr),
    }
}

/// The field has a name that is an identifier, what its repetition needs, and contents, a
/// size or a type that the generated code can name.
pub open spec fn attr_ok(attr: de::Attr) -> bool {
    &&& attr.id is Some && valid_ident(attr.id->0@)
    &&& attr.repeat == Some(de::Repeat::Expr) ==> attr.repeat_expr is Some
    &&& attr.repeat == Some(de::Repeat::Until) ==> attr.repeat_until is Some
    &&& attr.contents is None && attr.size is None && !attr.size_eos ==> match attr.ty {
        Some(de::AttrType::TypeRef(name)) => type_ok(name@, opt_text(attr.en)),
        Some(de::AttrType::Switch { switch_on, cases }) => cases_ok(case_texts(cases@)),
        None => false,
    }
}

impl Attribute {
    /// The checked form of a field of a type that is documented as given.
    pub fn try_from(source: (Option<de::MetaDoc>, de::Attr)) -> (r: Result<Attribute, ()>)
        requires
            attr_ok(source.1),
        ensures
            r matches Ok(a) && a@ == lowered(source.0, source.1),
    {
        let (meta_doc, attr) = source;
        let id = Ident::new(attr.id.unwrap().as_str());
        let repeat: Option<Repeat> = match attr.repeat {
            Some(repeat) => Some(
                match repeat {
                    de::Repeat::Eos => Repeat::Eos,
                    de::Repeat::Expr => Repeat::Expr(attr.repeat_expr.unwrap()),
                    de::Repeat::Until => Repeat::Until(attr.repeat_until.unwrap()),
                },
            ),
            None => None,
        };
        let logic = if let Some(contents) = attr.contents {
            Logic::FixedContents(contents)
        } else if let Some(size) = attr.size {
            Logic::Size(Size::Fixed(size))
        } else if attr.size_eos {
            Logic::Size(Size::Eos)
        } else {
            match attr.ty.unwrap() {
                de::AttrType::TypeRef(type_ref) => Logic::Type(Type::from((type_ref, attr.en))),
                de::AttrType::Switch { switch_on, cases } => Logic::Switch { on: switch_on, cases: lower_cases(cases) },
            }
        };
        Ok(Attribute { id, doc: Doc::from((meta_doc, attr.doc)), repeat, logic })
    }

    /// Tests whether a field has a checked form.
    pub fn is_attr_ok(attr: &de::Attr) -> (r: bool)
        ensures
            r == attr_ok(*attr),
    {
        match &attr.id {
            Some(id) => {
                if !is_valid_ident(id.as_str()) {
                    return false;
                }
            },
            None => {
                return false;
            },
        }
        match attr.repeat {
            Some(de::Repeat::Expr) => {
                if attr.repeat_expr.is_none() {
                    return false;
                }
            },
            Some(de::Repeat::Until) => {
                if attr.repeat_until.is_none() {
                    return false;
                }
            },
            _ => {},
        }
        if attr.contents.is_some() || attr.size.is_some() || attr.size_eos {
            return true;
        }
        match &attr.ty {
            Some(de::AttrType::TypeRef(name)) => is_type_ok(name.as_str(), &attr.en),
            Some(de::AttrType::Switch { switch_on, cases }) => is_cases_ok(cases),
            None => false,
        }
    }
}

/// Tests whether the names that the generated code uses for the types of the cases are
/// identifiers.
pub fn is_cases_ok(cases: &Vec<(String, String)>) -> (r: bool)
    ensures
        r == cases_ok(case_texts(cases@)),
{
    let ghost texts = case_texts(cases@);
    for i in 0..cases.len()
        invariant
            texts == case_texts(cases@),
            forall|j: int| 0 <= j < i ==> type_ok((#[trigger] texts[j]).1, None),
    {
        assert(texts[i as int].1 == cases@[i as int].1@);
        if !is_type_ok(cases[i].1.as_str(), &None) {
            return false;
        }
    }
    true
}

/// The checked form of each field of a type that is documented as given.
pub open spec fn lowered_seq(meta_doc: Option<de::MetaDoc>, attrs: Seq<de::Attr>) -> Seq<AttributeModel> {
    attrs.map_values(|a: de::Attr| lowered(meta_doc, a))
}

pub open spec fn seq_ok(attrs: Seq<de::Attr>) -> bool {
    forall|i: int| 0 <= i < attrs.len() ==> attr_ok(#[trigger] attrs[i])
}

/// Tests whether each field has a checked form.
pub fn is_seq_ok(attrs: &Vec<de::Attr>) -> (r: bool)
    ensures
        r == seq_ok(attrs@),
{
    for i in 0..attrs.len()
        invariant
            forall|j: int| 0 <= j < i ==> attr_ok(#[trigger] attrs@[j]),
    {
        if !Attribute::is_attr_ok(&attrs[i]) {
            return false;
        }
    }
    true
}

impl Attributes {
    /// The checked form of each field of a type that is documented as given, in order.
    pub fn try_from(source: (Option<de::MetaDoc>, Vec<de::Attr>)) -> (r: Result<Attributes, ()>)
        requires
            seq_ok(source.1@),
        ensures
            r matches Ok(a) && a@ == lowered_seq(source.0, source.1@),
    {
        let (meta_doc, attrs) = source;
        let ghost all = attrs@;
        let mut r: Vec<Attribute> = Vec::new();
        for attr in it: attrs.into_iter()
            invariant
                it.seq() == all,
                seq_ok(all),
                attrs_model(r@) == lowered_seq(meta_doc, all).take(it.index() as int),
        {
            let ghost i = it.index() as int;
            assert(attr == all[i]);
            let ghost before = r@;
            match Attribute::try_from((meta_doc.clone(), attr)) {
                Ok(attribute) => r.push(attribute),
                Err(e) => {
                    return Err(e);
                },
            }
            assert(attrs_model(r@) =~= attrs_model(before).push(lowered(meta_doc, all[i])));
            assert(lowered_seq(meta_doc, all).take(i + 1) =~= lowered_seq(meta_doc, all).take(i).push(
                lowered(meta_doc, all[i]),
            ));
        }
        assert(lowered_seq(meta_doc, all).take(all.len() as int) =~= lowered_seq(meta_doc, all));
        Ok(Attributes(r))
    }
}

} // verus!
