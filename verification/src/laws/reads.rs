//! How fields are read: the expressions, the statements and the matches of switches.
use vstd::prelude::*;
use vstd::std_specs::convert::FromSpec;

use crate::code::{
    ensure_contents, new_call, read_bits_as, read_bytes, read_bytes_full, read_flag, repeat_to_end, separated,
    vec_of,
};
use crate::hir::builtin::{widenable, BuiltInType};
use crate::hir::meta::Endianness;
use crate::hir::model::{
    all_assignable, all_bool, all_definable, case_arms, discriminant_type, field_definitions, field_ids,
    has_bit_fields, has_path, root_refs, root_refs_ok, stored, unifiable, unified, AttributeModel, LogicModel,
    RepeatModel, RootDeps, RootRewrite, SizeModel, TypeModel,
};
use crate::hir::pattern::{Pattern, PatternModel};
use crate::laws::fields::law_root_refs_are_complete;
use crate::laws::fragments::{
    fails_from, is_no_enum_match, law_arm, law_cast, law_enumeration_is_looked_up, law_exact_match,
    law_failing_match, law_field, law_let_statement, law_loop_to_the_end, law_number_is_read, stands_at,
};
use crate::laws::text::law_decimals_are_distinct;
use crate::laws::types::{
    law_number_patterns_are_read_back, law_numbers_are_read_back, law_unifiable_is_pairwise,
    law_unified_fits_every_case, law_unified_ignores_order,
};
use crate::text::{camel_path, dots_to_underscores, parse_number};
use crate::tokens::{rust_code, valid_ident, Delim, Token};

verus! {

/// The type of a value is named by one identifier: that of the declared type, of the enumeration
/// that is laid over it, or of the built-in type.
pub proof fn law_types_of_values(id: Seq<char>, ty: BuiltInType)
    ensures
        TypeModel::UserDefined(id).rust_type() == seq![Token::Ident(id)],
        (TypeModel::BuiltIn { ty, en: Some(id) }).rust_type() == seq![Token::Ident(id)],
        (TypeModel::BuiltIn { ty, en: None }).rust_type() == seq![Token::Ident(ty.rust_name())],
{
}

/// A declared type that is to be handed values of the root type is built with them, in their
/// order; any other is built from the stream alone.
pub proof fn law_declared_types_are_read(id: Seq<char>, endianness: Endianness, deps: RootDeps)
    ensures
        !deps.contains_key(id) ==> TypeModel::UserDefined(id).read(endianness, deps) == new_call(id),
        deps.contains_key(id) ==> {
            let read = TypeModel::UserDefined(id).read(endianness, deps);
            let values = separated(Seq::new(deps[id].len(), |i: int| deps[id][i].accessor), Token::Punct(',', false));
            &&& read.len() == 6
            &&& read[0] == Token::Ident(id)
            &&& read[1] == Token::Punct(':', true) && read[2] == Token::Punct(':', false)
            &&& read[3] == Token::Ident("new_with_root"@)
            &&& read[4] matches Token::Group(delim, inner) && delim == Delim::Paren && inner.len() == 2 + values.len()
                && inner[0] == Token::Ident("buf"@) && inner[1] == Token::Punct(',', false) && stands_at(
                inner,
                2,
                values,
            )
            &&& read[5] == Token::Punct('?', false)
        },
{
    if deps.contains_key(id) {
        let list = Seq::new(deps[id].len(), |i: int| deps[id][i].accessor);
        assert(crate::hir::model::accessors(deps[id]) =~= list);
        crate::laws::fragments::law_new_with_root_call(id, list);
    }
}

/// Bit fields are read from the most significant bit on, whatever is laid over them: a single
/// bit as a truth value, more as a number.
pub proof fn law_bit_fields_are_read(n: u8, en: Option<Seq<char>>, endianness: Endianness, deps: RootDeps)
    ensures
        n == 1 ==> (TypeModel::BuiltIn { ty: BuiltInType::Bits(n), en }).read(endianness, deps) == read_flag(n),
        n != 1 ==> (TypeModel::BuiltIn { ty: BuiltInType::Bits(n), en }).read(endianness, deps) == read_bits_as(
            n,
            BuiltInType::Bits(n).rust_name(),
        ),
{
}

/// Laying an enumeration over a type that takes whole bytes does not change how the number is
/// read: it is looked up by what reads the number without the enumeration, in the same byte
/// order.
pub proof fn law_enumerations_keep_the_read(ty: BuiltInType, id: Seq<char>, endianness: Endianness, deps: RootDeps)
    requires
        !(ty is Bits),
    ensures
        ({
            let looked_up = (TypeModel::BuiltIn { ty, en: Some(id) }).read(endianness, deps);
            let number = (TypeModel::BuiltIn { ty, en: None }).read(endianness, deps);
            &&& looked_up.len() == 9
            &&& looked_up[0] == Token::Ident(id)
            &&& looked_up[1] == Token::Punct(':', true) && looked_up[2] == Token::Punct(':', false)
            &&& looked_up[3] == Token::Ident("n"@)
            &&& looked_up[4] == Token::Group(Delim::Paren, number)
            &&& looked_up[5] == Token::Punct('.', false)
            &&& looked_up[6] == Token::Ident("ok_or"@)
            &&& is_no_enum_match(looked_up[7])
            &&& looked_up[8] == Token::Punct('?', false)
        }),
{
    law_enumeration_is_looked_up(id, (TypeModel::BuiltIn { ty, en: None }).read(endianness, deps));
}

/// A number is read by the method that is named after its type and its byte order.
pub proof fn law_numbers_are_read_by_name(ty: BuiltInType, endianness: Endianness, deps: RootDeps)
    requires
        !(ty is Bits),
    ensures
        ({
            let read = (TypeModel::BuiltIn { ty, en: None }).read(endianness, deps);
            &&& read.len() == 5
            &&& read[0] == Token::Ident("buf"@) && read[1] == Token::Punct('.', false)
            &&& read[2] == Token::Ident(
                "read_"@ + ty.ks_name() + (if ty is U8 || ty is I8 {
                    Seq::empty()
                } else if endianness == Endianness::Be {
                    "be"@
                } else {
                    "le"@
                }),
            )
            &&& read[3] == Token::Group(Delim::Paren, Seq::empty()) && read[4] == Token::Punct('?', false)
        }),
{
    law_number_is_read(ty, endianness);
}

/// The two byte orders of a type of more than one byte are read by different methods, of which
/// one ends in `be` and the other in `le`.
pub proof fn law_byte_orders_differ(ty: BuiltInType, deps: RootDeps)
    requires
        !(ty is Bits) && !(ty is U8) && !(ty is I8),
    ensures
        ({
            let big = (TypeModel::BuiltIn { ty, en: None }).read(Endianness::Be, deps);
            let little = (TypeModel::BuiltIn { ty, en: None }).read(Endianness::Le, deps);
            let stem = "read_"@ + ty.ks_name();
            &&& big[2] == Token::Ident(stem + "be"@)
            &&& little[2] == Token::Ident(stem + "le"@)
            &&& big[2] != little[2]
            &&& big != little
        }),
{
    law_number_is_read(ty, Endianness::Be);
    law_number_is_read(ty, Endianness::Le);
    let stem = "read_"@ + ty.ks_name();
    reveal_strlit("be");
    reveal_strlit("le");
    let k = stem.len() as int;
    assert((stem + "be"@)[k] == 'b');
    assert((stem + "le"@)[k] == 'l');
    let big = (TypeModel::BuiltIn { ty, en: None }).read(Endianness::Be, deps);
    let little = (TypeModel::BuiltIn { ty, en: None }).read(Endianness::Le, deps);
    assert(big[2] == Token::Ident(stem + "be"@));
    assert(little[2] == Token::Ident(stem + "le"@));
    assert(stem + "be"@ != stem + "le"@);
}

/// A number in a pattern is rendered as one literal that is read back as that same number.
pub proof fn law_number_patterns_denote(n: u64)
    ensures
        PatternModel::Int(n).tokens().len() == 1,
        PatternModel::Int(n).tokens()[0] matches Token::Literal(digits) && {
            &&& parse_number(digits, u64::MAX as nat) == Some(n as nat)
            &&& PatternModel::of_text(digits) == PatternModel::Int(n)
            &&& digits.len() > 0
            &&& forall|i: int| 0 <= i < digits.len() ==> '0' <= (#[trigger] digits[i]) <= '9'
            &&& digits[0] == '0' ==> n == 0
        },
{
    law_numbers_are_read_back(n as nat, u64::MAX as nat);
    law_number_patterns_are_read_back(n);
    law_decimals_are_distinct(n as nat, n as nat);
}

/// Different numbers have different patterns.
pub proof fn law_number_patterns_are_distinct(m: u64, n: u64)
    requires
        m != n,
    ensures
        PatternModel::Int(m).tokens() != PatternModel::Int(n).tokens(),
{
    law_number_patterns_denote(m);
    law_number_patterns_denote(n);
    if PatternModel::Int(m).tokens() == PatternModel::Int(n).tokens() {
        assert(PatternModel::Int(m).tokens()[0] == PatternModel::Int(n).tokens()[0]);
    }
}

/// What patterns are ordered by: their kind, their number, their path.
pub proof fn law_sort_keys(n: u64, path: Seq<char>)
    ensures
        PatternModel::Int(n).key() == (0u8, n, Seq::<char>::empty()),
        PatternModel::Bool(false).key() == (1u8, 0u64, Seq::<char>::empty()),
        PatternModel::Bool(true).key() == (1u8, 1u64, Seq::<char>::empty()),
        PatternModel::Enum(path).key() == (2u8, 0u64, path),
{
}

/// A text becomes the pattern that it is read as.
pub proof fn law_patterns_are_made(s: String)
    ensures
        <Pattern as FromSpec<String>>::obeys_from_spec(),
        <Pattern as FromSpec<String>>::from_spec(s)@ == PatternModel::of_text(s@),
{
    reveal_strlit("true");
    reveal_strlit("false");
}

/// All patterns are truth values exactly where each is, and a type is a plain built-in one
/// exactly where nothing is laid over it.
pub proof fn law_cases_are_looked_at(cases: Seq<(PatternModel, TypeModel)>, ty: TypeModel, built_in: BuiltInType)
    ensures
        all_bool(cases) <==> forall|i: int| 0 <= i < cases.len() ==> (#[trigger] cases[i]).0 is Bool,
        ty.plain() == Some(built_in) <==> ty == (TypeModel::BuiltIn { ty: built_in, en: None }),
{
}

/// A truth value is rendered as itself, an enum value as the code of its path in UpperCamelCase.
pub proof fn law_other_patterns(b: bool, path: Seq<char>)
    ensures
        PatternModel::Bool(b).tokens().len() == 1,
        b ==> PatternModel::Bool(b).tokens()[0] == Token::Ident("true"@),
        !b ==> PatternModel::Bool(b).tokens()[0] == Token::Ident("false"@),
        PatternModel::Enum(path).renderable() <==> rust_code(camel_path(path)) is Some,
        rust_code(camel_path(path)) == Some(PatternModel::Enum(path).tokens()) || rust_code(camel_path(path)) is None,
{
}

/// Numbers and truth values can always be rendered.
pub proof fn law_numbers_and_truth_values_are_code(n: u64, b: bool)
    ensures
        PatternModel::Int(n).renderable(),
        PatternModel::Bool(b).renderable(),
{
}

/// A case is a truth value where it is written as one, a number where it is read as one of up to
/// 64 bits, and otherwise an enum value with the path as it is written.
pub proof fn law_patterns_are_told_apart(text: Seq<char>)
    ensures
        PatternModel::of_text("true"@) == PatternModel::Bool(true),
        PatternModel::of_text("false"@) == PatternModel::Bool(false),
        text != "true"@ && text != "false"@ ==> match parse_number(text, u64::MAX as nat) {
            Some(n) => PatternModel::of_text(text) matches PatternModel::Int(m) && m as nat == n,
            None => PatternModel::of_text(text) == PatternModel::Enum(text),
        },
{
    reveal_strlit("true");
    reveal_strlit("false");
    assert("true"@[0] == 't' && "false"@[0] == 'f');
}

/// Numbers come before truth values, these before enum values; numbers are ordered by value,
/// `false` before `true`, and enum values as texts.
pub proof fn law_pattern_order(m: u64, n: u64, b: bool, s: Seq<char>, t: Seq<char>)
    ensures
        PatternModel::Int(n).at_most(PatternModel::Bool(b)) && !PatternModel::Bool(b).at_most(PatternModel::Int(n)),
        PatternModel::Int(n).at_most(PatternModel::Enum(s)) && !PatternModel::Enum(s).at_most(PatternModel::Int(n)),
        PatternModel::Bool(b).at_most(PatternModel::Enum(s)) && !PatternModel::Enum(s).at_most(PatternModel::Bool(b)),
        PatternModel::Int(m).at_most(PatternModel::Int(n)) <==> m <= n,
        PatternModel::Bool(false).at_most(PatternModel::Bool(true)),
        !PatternModel::Bool(true).at_most(PatternModel::Bool(false)),
        PatternModel::Enum(s).at_most(PatternModel::Enum(t)) <==> crate::text::text_le(s, t),
{
}

/// What a switch is on: the parameter that stands for it, else its code.
pub proof fn law_scrutinee(on: Seq<char>, rewrite: RootRewrite)
    ensures
        rewrite.contains_key(on) ==> AttributeModel::scrutinee(on, rewrite) == seq![Token::Ident(rewrite[on])],
        !rewrite.contains_key(on) && rust_code(on) is Some ==> rust_code(on) == Some(
            AttributeModel::scrutinee(on, rewrite),
        ),
{
}

/// One value of a field is read by its type, or as bytes: as many as are asked for, or all that
/// are left.
pub proof fn law_values_are_read(
    attr: AttributeModel,
    endianness: Endianness,
    deps: RootDeps,
    rewrite: RootRewrite,
)
    ensures
        attr.logic matches LogicModel::Type(ty) ==> attr.value(endianness, deps, rewrite) == ty.read(endianness, deps),
        attr.logic matches LogicModel::Size(SizeModel::Fixed(count)) ==> attr.value(endianness, deps, rewrite)
            == read_bytes(count),
        attr.logic matches LogicModel::Size(SizeModel::Eos) ==> attr.value(endianness, deps, rewrite)
            == read_bytes_full(),
{
}

/// One value of a switch is read by a match on what the switch is on, with one arm per case, in
/// their order: the pattern of the case, and what reads a value of its type, cast to the type of
/// the field where it has another. A match that is not over truth values alone has one arm more.
pub proof fn law_switches_are_matches(
    attr: AttributeModel,
    endianness: Endianness,
    deps: RootDeps,
    rewrite: RootRewrite,
) -> (arms: Seq<Seq<Token>>)
    requires
        attr.logic is Switch,
        unifiable(attr.logic->cases),
    ensures
        ({
            let value = attr.value(endianness, deps, rewrite);
            let on = AttributeModel::scrutinee(attr.logic->on, rewrite);
            let cases = attr.logic->cases;
            let listed = separated(arms, Token::Punct(',', false));
            &&& arms.len() == cases.len()
            &&& forall|i: int|
                0 <= i < cases.len() ==> is_arm(
                    #[trigger] arms[i],
                    cases[i].0.tokens(),
                    cases[i].1.read(endianness, deps),
                    cases[i].1.rust_type(),
                    attr.value_type(),
                )
            &&& value.len() == on.len() + 2
            &&& value[0] == Token::Ident("match"@)
            &&& stands_at(value, 1, on)
            &&& value.last() matches Token::Group(delim, inner) && {
                &&& delim == Delim::Brace
                &&& (forall|i: int| 0 <= i < cases.len() ==> (#[trigger] cases[i]).0 is Bool) ==> inner == listed
                &&& (exists|i: int| 0 <= i < cases.len() && !((#[trigger] cases[i]).0 is Bool)) ==> {
                    &&& stands_at(inner, 0, listed)
                    &&& fails_from(inner, listed.len() as int)
                }
            }
        }),
{
    let cases = attr.logic->cases;
    let on = AttributeModel::scrutinee(attr.logic->on, rewrite);
    let common = unified(cases);
    let arms = case_arms(cases, endianness, deps, common);
    law_exact_match(on, arms);
    law_failing_match(on, arms);
    law_unifiable_is_pairwise(cases);
    assert forall|i: int| 0 <= i < cases.len() implies is_arm(
        #[trigger] arms[i],
        cases[i].0.tokens(),
        cases[i].1.read(endianness, deps),
        cases[i].1.rust_type(),
        attr.value_type(),
    ) by {
        let read = cases[i].1.read(endianness, deps);
        law_unified_fits_every_case(cases, i);
        assert(cases[i].1.plain() is Some);
        let own = cases[i].1.plain()->0;
        assert(cases[i].1.rust_type() == seq![Token::Ident(own.rust_name())]);
        assert(cases[i].1.rust_type()[0] == Token::Ident(own.rust_name()));
        assert(attr.value_type()[0] == Token::Ident(common.rust_name()));
        lemma_integer_names(own, common);
        law_arm(cases[i].0.tokens(), read);
        let casted = crate::code::cast(read, common.rust_name());
        law_cast(read, common.rust_name());
        law_arm(cases[i].0.tokens(), casted);
        let k = cases[i].0.tokens().len() as int;
        if own != common {
            let a = arms[i];
            assert(a.subrange(k + 2, k + 2 + 1)[0] == casted[0]);
            assert(a[k + 2] == casted[0]);
        }
    }
    arms
}

/// The tokens are an arm with the pattern, and what is read as its value, cast to the wanted type
/// where it has another.
pub open spec fn is_arm(
    tokens: Seq<Token>,
    pattern: Seq<Token>,
    read: Seq<Token>,
    has: Seq<Token>,
    wanted: Seq<Token>,
) -> bool {
    let k = pattern.len() as int;
    &&& stands_at(tokens, 0, pattern)
    &&& tokens[k] == Token::Punct('=', true)
    &&& tokens[k + 1] == Token::Punct('>', false)
    &&& has == wanted ==> tokens.len() == k + 2 + read.len() && stands_at(tokens, k + 2, read)
    &&& has != wanted ==> tokens.len() == k + 3 && (tokens[k + 2] matches Token::Group(delim, inner) && delim
        == Delim::Paren && inner.len() == read.len() + 2 && stands_at(inner, 0, read) && inner[read.len() as int]
        == Token::Ident("as"@) && wanted.len() == 1 && inner[read.len() as int + 1] == wanted[0])
}

proof fn lemma_integer_names(a: BuiltInType, b: BuiltInType)
    requires
        a.integer(),
        b.integer(),
    ensures
        a != b ==> a.rust_name() != b.rust_name(),
{
    reveal_strlit("u8");
    reveal_strlit("u16");
    reveal_strlit("u32");
    reveal_strlit("u64");
    reveal_strlit("i8");
    reveal_strlit("i16");
    reveal_strlit("i32");
    reveal_strlit("i64");
    assert(a != b ==> a.rust_name()[0] != b.rust_name()[0] || a.rust_name()[1] != b.rust_name()[1]);
}

/// The statement of a stored field binds its value to its name: what reads one value, or, where
/// the field repeats to the end of the stream, the loop around what reads one value.
pub proof fn law_statements_bind_values(
    attr: AttributeModel,
    endianness: Endianness,
    deps: RootDeps,
    rewrite: RootRewrite,
)
    requires
        !(attr.logic is FixedContents),
    ensures
        ({
            let s = attr.assignment(endianness, deps, rewrite);
            let value = attr.value(endianness, deps, rewrite);
            &&& s[0] == Token::Ident("let"@)
            &&& s[1] == Token::Ident(attr.id)
            &&& s[2] == Token::Punct('=', false)
            &&& s.last() == Token::Punct(';', false)
            &&& attr.repeat is None ==> s.len() == value.len() + 4 && stands_at(s, 3, value)
            &&& attr.repeat == Some(RepeatModel::Eos) ==> stands_at(s, 3, repeat_to_end(value))
            &&& attr.repeat == Some(RepeatModel::Eos) ==> s.len() == 5 && (s[3] matches Token::Group(delim, block)
                && delim == Delim::Brace && block.len() == 19 && block[10] == Token::Ident("while"@) && block[11]
                == Token::Punct('!', false) && block[12] == Token::Ident("buf"@) && block[14] == Token::Ident(
                "is_eof"@,
            ) && block[18] == Token::Ident("result"@) && (block[17] matches Token::Group(round_delim, round)
                && round_delim == Delim::Brace && round.len() == 5 && round[0] == Token::Ident("result"@) && round[2]
                == Token::Ident("push"@) && round[3] == Token::Group(Delim::Paren, value)))
        }),
{
    let s = attr.assignment(endianness, deps, rewrite);
    let value = attr.value(endianness, deps, rewrite);
    law_let_statement(attr.id, value);
    law_loop_to_the_end(value);
    let looped = repeat_to_end(value);
    law_let_statement(attr.id, looped);
    if attr.repeat == Some(RepeatModel::Eos) {
        assert(s.subrange(3, 4)[0] == looped[0]);
    }
}

/// The statement of a field with fixed contents checks these contents.
pub proof fn law_contents_are_checked(
    attr: AttributeModel,
    endianness: Endianness,
    deps: RootDeps,
    rewrite: RootRewrite,
)
    requires
        attr.logic is FixedContents,
    ensures
        attr.assignment(endianness, deps, rewrite) == ensure_contents(attr.logic->FixedContents_0),
        attr.field_definition().len() == 0,
{
}

/// A stored field of the struct has its documentation, its name and its type: that of one value,
/// or a vector of it exactly where its statement binds the loop.
pub proof fn law_fields_are_defined(attr: AttributeModel)
    requires
        !(attr.logic is FixedContents),
    ensures
        ({
            let f = attr.field_definition();
            let d = attr.doc.tokens().len() as int;
            let ty = if attr.repeat is Some {
                vec_of(attr.value_type())
            } else {
                attr.value_type()
            };
            &&& f.len() == d + 3 + ty.len()
            &&& stands_at(f, 0, attr.doc.tokens())
            &&& f[d] == Token::Ident("pub"@)
            &&& f[d + 1] == Token::Ident(attr.id)
            &&& f[d + 2] == Token::Punct(':', false)
            &&& stands_at(f, d + 3, ty)
        }),
{
    law_field(attr.doc, attr.id, vec_of(attr.value_type()));
    law_field(attr.doc, attr.id, attr.value_type());
}

/// One value of a field has the type that it is given, or is a vector of bytes.
pub proof fn law_types_of_fields(attr: AttributeModel)
    ensures
        attr.logic matches LogicModel::Type(ty) ==> attr.value_type() == ty.rust_type(),
        attr.logic is Size ==> attr.value_type() == vec_of(seq![Token::Ident("u8"@)]),
{
}

/// The type is an integer type that some case has, and that no case is wider than or of another
/// signedness.
pub open spec fn is_widest(cases: Seq<(PatternModel, TypeModel)>, ty: BuiltInType) -> bool {
    &&& ty is U8 || ty is U16 || ty is U32 || ty is U64 || ty is I8 || ty is I16 || ty is I32 || ty is I64
    &&& exists|i: int| 0 <= i < cases.len() && (#[trigger] cases[i]).1 == (TypeModel::BuiltIn { ty, en: None })
    &&& forall|i: int|
        0 <= i < cases.len() ==> ((#[trigger] cases[i]).1 matches TypeModel::BuiltIn { ty: own, en: None }
            && own.width() <= ty.width() && own.signed() == ty.signed())
}

/// The common type of the cases is the widest of their types.
pub proof fn law_common_types_are_widest(cases: Seq<(PatternModel, TypeModel)>)
    requires
        unifiable(cases),
    ensures
        is_widest(cases, unified(cases)),
{
    let ty = unified(cases);
    law_unifiable_is_pairwise(cases);
    assert forall|i: int| 0 <= i < cases.len() implies ((#[trigger] cases[i]).1 matches TypeModel::BuiltIn {
        ty: own,
        en: None,
    } && own.width() <= ty.width() && own.signed() == ty.signed()) by {
        law_unified_fits_every_case(cases, i);
    }
    let k = choose|k: int| 0 <= k < cases.len() && (#[trigger] cases[k]).1.plain() == Some(ty);
    law_unified_fits_every_case(cases, k);
    assert(cases[k].1 == (TypeModel::BuiltIn { ty, en: None }));
}

/// The field of a switch has the widest type of its cases.
pub proof fn law_types_of_switches(attr: AttributeModel)
    requires
        attr.logic is Switch,
        unifiable(attr.logic->cases),
    ensures
        exists|ty: BuiltInType| #[trigger]
            is_widest(attr.logic->cases, ty) && attr.value_type() == seq![Token::Ident(ty.rust_name())],
{
    law_common_types_are_widest(attr.logic->cases);
}

/// What a switch is on is a `bool` where all its patterns are truth values, and else has the
/// widest type of its cases.
pub proof fn law_types_of_discriminants(cases: Seq<(PatternModel, TypeModel)>)
    ensures
        (forall|i: int| 0 <= i < cases.len() ==> (#[trigger] cases[i]).0 is Bool) ==> discriminant_type(cases) == seq![
            Token::Ident("bool"@),
        ],
        unifiable(cases) && (exists|i: int| 0 <= i < cases.len() && !((#[trigger] cases[i]).0 is Bool)) ==> exists|
            ty: BuiltInType,
        | #[trigger]
            is_widest(cases, ty) && discriminant_type(cases) == seq![Token::Ident(ty.rust_name())],
{
    if unifiable(cases) {
        law_common_types_are_widest(cases);
    }
}

/// The type of what a switch is on does not depend on the order of the cases.
pub proof fn law_discriminants_ignore_order(
    a: Seq<(PatternModel, TypeModel)>,
    b: Seq<(PatternModel, TypeModel)>,
)
    requires
        a.to_multiset() == b.to_multiset(),
        unifiable(a),
    ensures
        discriminant_type(a) == discriminant_type(b),
{
    law_unified_ignores_order(a, b);
    if all_bool(a) {
        assert forall|i: int| 0 <= i < b.len() implies (#[trigger] b[i]).0 is Bool by {
            let k = crate::laws::types::lemma_permuted_member(b, a, i);
            assert(a[k].0 is Bool);
        }
    }
    if all_bool(b) {
        assert forall|i: int| 0 <= i < a.len() implies (#[trigger] a[i]).0 is Bool by {
            let k = crate::laws::types::lemma_permuted_member(a, b, i);
            assert(b[k].0 is Bool);
        }
    }
}

/// A switch has a common type exactly where it has a case and all cases are integers of one
/// signedness, with nothing laid over them.
pub proof fn law_when_switches_have_a_type(cases: Seq<(PatternModel, TypeModel)>)
    ensures
        unifiable(cases) <==> {
            &&& cases.len() > 0
            &&& forall|i: int|
                0 <= i < cases.len() ==> ((#[trigger] cases[i]).1 matches TypeModel::BuiltIn { ty, en: None } && (ty is U8
                    || ty is U16 || ty is U32 || ty is U64 || ty is I8 || ty is I16 || ty is I32 || ty is I64))
            &&& forall|i: int, j: int|
                0 <= i < cases.len() && 0 <= j < cases.len() ==> ((#[trigger] cases[i]).1->ty.signed() == (
                #[trigger] cases[j]).1->ty.signed())
        },
{
    law_unifiable_is_pairwise(cases);
    if unifiable(cases) {
        assert forall|i: int| 0 <= i < cases.len() implies ((#[trigger] cases[i]).1 matches TypeModel::BuiltIn {
            ty,
            en: None,
        } && (ty is U8 || ty is U16 || ty is U32 || ty is U64 || ty is I8 || ty is I16 || ty is I32 || ty is I64)) by {
            law_unified_fits_every_case(cases, i);
        }
        assert forall|i: int, j: int| 0 <= i < cases.len() && 0 <= j < cases.len() implies ((
        #[trigger] cases[i]).1->ty.signed() == (#[trigger] cases[j]).1->ty.signed()) by {
            assert(widenable(cases[i].1.plain()->0, cases[j].1.plain()->0));
        }
    }
}

/// When the generator has code for reading a field: always for fixed contents; for a type or
/// bytes where the field does not repeat or repeats to the end of the stream; for a switch where
/// furthermore it has a common type and what it is on and its patterns are code.
pub proof fn law_when_fields_have_code(attr: AttributeModel, rewrite: RootRewrite)
    ensures
        attr.logic is FixedContents ==> attr.assignable(rewrite),
        attr.logic is Type || attr.logic is Size ==> (attr.assignable(rewrite) <==> attr.repeat is None || attr.repeat
            == Some(RepeatModel::Eos)),
        attr.logic is Process ==> !attr.assignable(rewrite) && !attr.definable(),
        attr.logic matches LogicModel::Switch { on, cases } ==> {
            &&& attr.definable() <==> unifiable(cases)
            &&& attr.assignable(rewrite) <==> {
                &&& unifiable(cases)
                &&& attr.repeat is None || attr.repeat == Some(RepeatModel::Eos)
                &&& rewrite.contains_key(on) || rust_code(on) is Some
                &&& forall|i: int| 0 <= i < cases.len() ==> (#[trigger] cases[i]).0.renderable()
            }
        },
        !(attr.logic is Switch) && !(attr.logic is Process) ==> attr.definable(),
{
}

/// The fields of the struct and their names are those of the fields without fixed contents, in
/// order: one more field adds its own behind the others, or nothing.
pub proof fn law_fields_are_listed(attrs: Seq<AttributeModel>, attr: AttributeModel)
    ensures
        field_ids(Seq::empty()) == Seq::<Seq<char>>::empty(),
        field_definitions(Seq::empty()) == Seq::<Seq<Token>>::empty(),
        attr.logic is FixedContents ==> field_ids(attrs.push(attr)) == field_ids(attrs),
        attr.logic is FixedContents ==> field_definitions(attrs.push(attr)) == field_definitions(attrs),
        !(attr.logic is FixedContents) ==> field_ids(attrs.push(attr)) == field_ids(attrs).push(attr.id),
        !(attr.logic is FixedContents) ==> field_definitions(attrs.push(attr)) == field_definitions(attrs).push(
            attr.field_definition(),
        ),
{
    reveal(Seq::filter);
    assert(attrs.push(attr).drop_last() =~= attrs);
    assert(stored(Seq::empty()) =~= Seq::<AttributeModel>::empty());
    assert(field_ids(Seq::empty()) =~= Seq::<Seq<char>>::empty());
    assert(field_definitions(Seq::empty()) =~= Seq::<Seq<Token>>::empty());
    if !(attr.logic is FixedContents) {
        assert(stored(attrs.push(attr)) =~= stored(attrs).push(attr));
        assert(field_ids(attrs.push(attr)) =~= field_ids(attrs).push(attr.id));
        assert(field_definitions(attrs.push(attr)) =~= field_definitions(attrs).push(attr.field_definition()));
    } else {
        assert(stored(attrs.push(attr)) =~= stored(attrs));
    }
}

/// A bit field is one whose type is a width in bits, and there are bit fields where one of the
/// fields is.
pub proof fn law_bit_fields_are_found(attr: AttributeModel, attrs: Seq<AttributeModel>)
    ensures
        attr.bit_field() <==> (attr.logic matches LogicModel::Type(TypeModel::BuiltIn { ty, .. }) && ty is Bits),
        has_bit_fields(attrs) <==> exists|i: int| 0 <= i < attrs.len() && (#[trigger] attrs[i]).bit_field(),
        attr.stored() <==> !(attr.logic is FixedContents),
{
}

/// The generator has code for a list of fields exactly where it has code for each.
pub proof fn law_lists_have_code_where_fields_have(attrs: Seq<AttributeModel>, rewrite: RootRewrite)
    ensures
        all_assignable(attrs, rewrite) <==> forall|i: int|
            0 <= i < attrs.len() ==> (#[trigger] attrs[i]).assignable(rewrite),
        all_definable(attrs) <==> forall|i: int| 0 <= i < attrs.len() ==> (#[trigger] attrs[i]).definable(),
{
}

/// A field switches on a path into the root type where it is a switch on a text that starts with
/// `_root.`; the path is what follows.
pub proof fn law_root_paths(attr: AttributeModel, below: Seq<char>)
    ensures
        !(attr.logic is Switch) ==> attr.root_path() is None,
        attr.logic is Switch ==> (attr.root_path() == Some(below) <==> attr.logic->on == "_root."@ + below),
{
    if attr.logic is Switch {
        crate::laws::text::law_prefixes_come_off(attr.logic->on, "_root."@, below);
    }
}

/// The value of the root type that a field switches on: its path as it is written, a parameter
/// that is named after it, the type of what the switch is on, and the code of the path below the
/// root.
pub proof fn law_root_params(attr: AttributeModel, below: Seq<char>)
    requires
        attr.root_path() == Some(below),
    ensures
        attr.root_param().path == "_root."@ + below,
        attr.root_param().param_ident.len() == 5 + below.len(),
        attr.root_param().param_ident.take(5) == "root_"@,
        forall|i: int|
            0 <= i < below.len() ==> attr.root_param().param_ident[5 + i] == (if #[trigger] below[i] == '.' {
                '_'
            } else {
                below[i]
            }),
        attr.root_param().param_ty == discriminant_type(attr.logic->cases),
        rust_code(below) is Some ==> rust_code(below) == Some(attr.root_param().accessor),
        attr.root_param_ok() <==> {
            &&& valid_ident(attr.root_param().param_ident)
            &&& unifiable(attr.logic->cases) || forall|i: int|
                0 <= i < attr.logic->cases.len() ==> (#[trigger] attr.logic->cases[i]).0 is Bool
            &&& rust_code(below) is Some
        },
{
    reveal_strlit("root_");
    crate::laws::text::law_prefixes_come_off(attr.logic->on, "_root."@, below);
    let name = "root_"@ + dots_to_underscores(below);
    assert(name.take(5) =~= "root_"@);
    assert forall|i: int| 0 <= i < below.len() implies name[5 + i] == (if #[trigger] below[i] == '.' {
        '_'
    } else {
        below[i]
    }) by {
        assert(name[5 + i] == dots_to_underscores(below)[i]);
    }
}

/// One more field adds its value of the root type behind the others where its path is new, and
/// nothing otherwise; all of them can be used where those before it can and the one added can.
pub proof fn law_root_refs_grow(attrs: Seq<AttributeModel>, attr: AttributeModel)
    ensures
        root_refs(Seq::empty()).len() == 0,
        root_refs_ok(Seq::empty()),
        attr.root_path() is Some && !(exists|i: int|
            0 <= i < attrs.len() && (#[trigger] attrs[i]).root_path() is Some && attrs[i].logic->on == attr.logic->on)
            ==> root_refs(attrs.push(attr)) == root_refs(attrs).push(attr.root_param()) && (root_refs_ok(
            attrs.push(attr),
        ) <==> root_refs_ok(attrs) && attr.root_param_ok()),
        attr.root_path() is None || (exists|i: int|
            0 <= i < attrs.len() && (#[trigger] attrs[i]).root_path() is Some && attrs[i].logic->on == attr.logic->on)
            ==> root_refs(attrs.push(attr)) == root_refs(attrs) && (root_refs_ok(attrs.push(attr)) <==> root_refs_ok(
            attrs,
        )),
{
    let more = attrs.push(attr);
    assert(more.drop_last() =~= attrs);
    if attr.root_path() is Some {
        let on = attr.logic->on;
        if has_path(root_refs(attrs), on) {
            let refs = root_refs(attrs);
            let k = choose|k: int| 0 <= k < refs.len() && (#[trigger] refs[k]).path == on;
            let i = crate::laws::fields::law_root_refs_come_from_fields(attrs, k);
            assert(attrs[i].logic->on == on);
        }
        if exists|i: int| 0 <= i < attrs.len() && (#[trigger] attrs[i]).root_path() is Some && attrs[i].logic->on == on {
            let i = choose|i: int|
                0 <= i < attrs.len() && (#[trigger] attrs[i]).root_path() is Some && attrs[i].logic->on == on;
            law_root_refs_are_complete(attrs, i);
        }
    }
}

} // verus!
