//! From a description as it was read to its checked form.
use vstd::prelude::*;
use vstd::std_specs::convert::TryFromSpec;

use crate::de;
use crate::hir::builtin::{widenable, BuiltInType, MAX_BITS};
use crate::hir::doc::DocModel;
use crate::hir::lower::{
    attr_ok, cases_ok, case_texts, lowered, lowered_case, lowered_cases, lowered_seq, lowered_type, opt_text, seq_ok,
    type_ok,
};
use crate::hir::meta::Endianness;
use crate::hir::model::{LogicModel, RepeatModel, SizeModel, TypeModel};
use crate::hir::pattern::PatternModel;
use crate::text::{after_prefix, parse_number, upper_camel};
use crate::tokens::{trees, valid_ident};

verus! {

/// A name refers to a built-in type exactly where it is the name of one, or is `b` and a width
/// that is read as a number of bits from 1 to 64.
pub proof fn law_names_of_built_in_types(name: Seq<char>, ty: BuiltInType)
    ensures
        !(ty is Bits) ==> (BuiltInType::named(name) == Some(ty) <==> name == ty.ks_name()),
        ty matches BuiltInType::Bits(n) ==> (BuiltInType::named(name) == Some(ty) <==> exists|width: Seq<char>|
            name == "b"@ + width && #[trigger] parse_number(width, 64) == Some(n as nat) && n >= 1),
{
    reveal_strlit("b");
    reveal_strlit("u1");
    reveal_strlit("u2");
    reveal_strlit("u4");
    reveal_strlit("u8");
    reveal_strlit("s1");
    reveal_strlit("s2");
    reveal_strlit("s4");
    reveal_strlit("s8");
    reveal_strlit("f4");
    reveal_strlit("f8");
    if !(ty is Bits) {
        crate::laws::types::law_names_are_read_back(ty);
        if BuiltInType::named(name) == Some(ty) {
            assert(name == ty.ks_name());
        }
    } else {
        let n = ty->Bits_0;
        if BuiltInType::named(name) == Some(ty) {
            let width = after_prefix(name, "b"@)->0;
            crate::laws::text::law_prefixes_come_off(name, "b"@, width);
            assert(parse_number(width, MAX_BITS as nat) is Some);
            assert(parse_number(width, 64) == Some(n as nat));
        }
        if exists|width: Seq<char>|
            name == "b"@ + width && #[trigger] parse_number(width, 64) == Some(n as nat) && n >= 1 {
            let width = choose|width: Seq<char>|
                name == "b"@ + width && #[trigger] parse_number(width, 64) == Some(n as nat) && n >= 1;
            crate::laws::text::law_prefixes_come_off(name, "b"@, width);
            assert(name[0] == 'b');
            assert("u1"@[0] == 'u' && "u2"@[0] == 'u' && "u4"@[0] == 'u' && "u8"@[0] == 'u');
            assert("s1"@[0] == 's' && "s2"@[0] == 's' && "s4"@[0] == 's' && "s8"@[0] == 's');
            assert("f4"@[0] == 'f' && "f8"@[0] == 'f');
        }
    }
}

/// A name becomes the built-in type that it refers to, and an error where it refers to none.
pub proof fn law_names_become_types(name: &str)
    ensures
        <BuiltInType as TryFromSpec<&str>>::obeys_try_from_spec(),
        <BuiltInType as TryFromSpec<&str>>::try_from_spec(name) == (match BuiltInType::named(name@) {
            Some(ty) => Ok::<BuiltInType, ()>(ty),
            None => Err::<BuiltInType, ()>(()),
        }),
{
}

/// Of a bit field no more holds than that it is one, whatever its width: it is no integer type,
/// no floating-point type, unsigned and without a byte order. One that is wider than any integer
/// type is held by the widest, one without bits by the narrowest.
pub proof fn law_bit_fields_are_their_own_kind(n: u8, endianness: Endianness)
    ensures
        !BuiltInType::Bits(n).integer(),
        !BuiltInType::Bits(n).float(),
        !BuiltInType::Bits(n).signed(),
        BuiltInType::Bits(n).order_suffix(endianness).len() == 0,
        n > 64 ==> BuiltInType::Bits(n).rust_name() == "u64"@,
        n == 0 ==> BuiltInType::Bits(n).rust_name() == "u8"@,
{
}

/// Types of more than one byte have the byte order at the end of their method's name.
pub proof fn law_byte_order_suffixes(ty: BuiltInType)
    requires
        !(ty is Bits) && !(ty is U8) && !(ty is I8),
    ensures
        ty.order_suffix(Endianness::Be) == "be"@,
        ty.order_suffix(Endianness::Le) == "le"@,
{
}

/// Two types have a common one exactly where they are the same, or both integers of the same
/// signedness.
pub proof fn law_when_types_can_be_widened(a: BuiltInType, b: BuiltInType)
    ensures
        widenable(a, b) <==> {
            ||| a == b
            ||| (a is U8 || a is U16 || a is U32 || a is U64) && (b is U8 || b is U16 || b is U32 || b is U64)
            ||| (a is I8 || a is I16 || a is I32 || a is I64) && (b is I8 || b is I16 || b is I32 || b is I64)
        },
{
}

/// A bit field takes as many bytes as its bits fill, the last one perhaps in part.
pub proof fn law_bit_fields_fill_bytes(n: u8)
    ensures
        n <= 8 * BuiltInType::Bits(n).width(),
        8 * BuiltInType::Bits(n).width() < n + 8,
{
}

/// A reference to a built-in type is that type, with the enumeration in UpperCamelCase laid over
/// it; any other is the declared type of that name in UpperCamelCase.
pub proof fn law_references(name: Seq<char>, en: Seq<char>)
    ensures
        BuiltInType::named(name) matches Some(ty) ==> {
            &&& lowered_type(name, None) == (TypeModel::BuiltIn { ty, en: None })
            &&& lowered_type(name, Some(en)) == (TypeModel::BuiltIn { ty, en: Some(upper_camel(en)) })
            &&& type_ok(name, None)
            &&& type_ok(name, Some(en)) <==> valid_ident(upper_camel(en))
        },
        BuiltInType::named(name) is None ==> {
            &&& lowered_type(name, None) == TypeModel::UserDefined(upper_camel(name))
            &&& lowered_type(name, Some(en)) == TypeModel::UserDefined(upper_camel(name))
            &&& type_ok(name, None) <==> valid_ident(upper_camel(name))
            &&& type_ok(name, Some(en)) <==> valid_ident(upper_camel(name))
        },
{
}

/// A case has the pattern and the type that it is written with, and nothing is laid over it.
pub proof fn law_cases(pattern: Seq<char>, name: Seq<char>)
    ensures
        lowered_case((pattern, name)).0 == PatternModel::of_text(pattern),
        lowered_case((pattern, name)).1 == lowered_type(name, None),
{
}

/// The types of all cases can be named exactly where that of each can.
pub proof fn law_when_cases_are_checked(cases: Seq<(Seq<char>, Seq<char>)>)
    ensures
        cases_ok(cases) <==> forall|i: int| 0 <= i < cases.len() ==> type_ok((#[trigger] cases[i]).1, None),
{
}

/// A checked field has the name and the documentation that it is written with.
pub proof fn law_checked_fields(meta_doc: Option<de::MetaDoc>, attr: de::Attr)
    ensures
        attr.id matches Some(id) ==> lowered(meta_doc, attr).id == id@,
        lowered(meta_doc, attr).doc == DocModel::of(meta_doc, attr.doc@),
{
}

/// Documentation is kept as it is written: that of the type as a whole, where there is any, and
/// the item's own.
pub proof fn law_checked_documentation(meta_doc: Option<de::MetaDoc>, text: Seq<char>)
    ensures
        DocModel::of(meta_doc, text).text == text,
        meta_doc is None ==> DocModel::of(meta_doc, text).meta is None,
        meta_doc matches Some(doc) ==> DocModel::of(meta_doc, text).meta == opt_text(doc.text),
{
}

/// A checked field repeats as it is written to.
pub proof fn law_checked_repetition(meta_doc: Option<de::MetaDoc>, attr: de::Attr)
    ensures
        attr.repeat is None ==> lowered(meta_doc, attr).repeat is None,
        attr.repeat == Some(de::Repeat::Eos) ==> lowered(meta_doc, attr).repeat == Some(RepeatModel::Eos),
        attr.repeat == Some(de::Repeat::Expr) ==> (attr.repeat_expr matches Some(count) ==> lowered(
            meta_doc,
            attr,
        ).repeat == Some(RepeatModel::Expr(trees(count.tokens)))),
        attr.repeat == Some(de::Repeat::Until) ==> (attr.repeat_until matches Some(condition) ==> lowered(
            meta_doc,
            attr,
        ).repeat == Some(RepeatModel::Until(condition@))),
{
}

/// A checked field reads its contents where it has any, else by its size where it has one, else
/// all that is left where it says so, else by its type.
pub proof fn law_checked_logic(meta_doc: Option<de::MetaDoc>, attr: de::Attr)
    ensures
        attr.contents matches Some(bytes) ==> lowered(meta_doc, attr).logic == LogicModel::FixedContents(bytes@),
        attr.contents is None ==> (attr.size matches Some(count) ==> lowered(meta_doc, attr).logic == LogicModel::Size(
            SizeModel::Fixed(trees(count.tokens)),
        )),
        attr.contents is None && attr.size is None && attr.size_eos ==> lowered(meta_doc, attr).logic
            == LogicModel::Size(SizeModel::Eos),
        attr.contents is None && attr.size is None && !attr.size_eos ==> (attr.ty matches Some(
            de::AttrType::TypeRef(name),
        ) ==> lowered(meta_doc, attr).logic == LogicModel::Type(lowered_type(name@, opt_text(attr.en)))),
        attr.contents is None && attr.size is None && !attr.size_eos ==> (attr.ty matches Some(
            de::AttrType::Switch { switch_on, cases },
        ) ==> lowered(meta_doc, attr).logic == (LogicModel::Switch {
            on: switch_on@,
            cases: lowered_cases(case_texts(cases@)),
        })),
{
}

/// When a field has a checked form.
pub proof fn law_when_fields_are_checked(attr: de::Attr)
    ensures
        attr_ok(attr) <==> {
            &&& attr.id matches Some(id) && valid_ident(id@)
            &&& attr.repeat == Some(de::Repeat::Expr) ==> attr.repeat_expr is Some
            &&& attr.repeat == Some(de::Repeat::Until) ==> attr.repeat_until is Some
            &&& {
                ||| attr.contents is Some
                ||| attr.size is Some
                ||| attr.size_eos
                ||| attr.ty matches Some(de::AttrType::TypeRef(name)) && type_ok(name@, opt_text(attr.en))
                ||| attr.ty matches Some(de::AttrType::Switch { switch_on, cases }) && cases_ok(case_texts(cases@))
            }
        },
{
}

/// A list of fields is checked field by field, in order, with the same documentation of the type.
pub proof fn law_lists_are_checked_alike(meta_doc: Option<de::MetaDoc>, attrs: Seq<de::Attr>, i: int)
    requires
        0 <= i < attrs.len(),
    ensures
        lowered_seq(meta_doc, attrs).len() == attrs.len(),
        lowered_seq(meta_doc, attrs)[i] == lowered(meta_doc, attrs[i]),
        seq_ok(attrs) ==> attr_ok(attrs[i]),
        (forall|j: int| 0 <= j < attrs.len() ==> attr_ok(#[trigger] attrs[j])) ==> seq_ok(attrs),
{
}

} // verus!
