//! Types: what those declared in a type inherit from it, and how they come by the values of
//! the root type.
use vstd::prelude::*;

use crate::code::{concatenated, new_call, new_with_root_call};
use crate::de;
use crate::hir::doc::DocModel;
use crate::hir::lower::{attr_ok, lowered, seq_ok};
use crate::hir::meta::Endianness;
use crate::hir::model::{
    accessors, assignments, field_definitions, field_ids, has_bit_fields, has_path, root_refs, root_refs_ok,
    AttributeModel, RootParamModel, RootRewrite, TypeModel,
};
use crate::hir::ty::{
    deps_in_root, deps_of, each_tokens, in_root, lowered_struct, own_bit_endianness, own_doc, own_endianness, own_id,
    rewrites_of, root_params, struct_ok, types_ok, InheritedModel, StructModel,
};
use crate::items::{new_function, new_stub, param, reader_body, root_impl, struct_item, trait_impl};
use crate::laws::fields::{law_root_refs_come_from_fields, law_root_switches_are_rewritten, lemma_rewrites_of};
use crate::laws::fragments::stands_at;
use crate::text::upper_camel;
use crate::tokens::{trees, valid_ident, Token};

verus! {

proof fn lemma_deps_of(types: Seq<StructModel>, k: int)
    requires
        0 <= k < types.len(),
        root_refs(types[k].seq).len() > 0,
        forall|j: int|
            k < j < types.len() && (#[trigger] types[j]).id == types[k].id ==> root_refs(types[j].seq).len() == 0,
    ensures
        deps_of(types).contains_key(types[k].id),
        deps_of(types)[types[k].id] == root_refs(types[k].seq),
    decreases types.len(),
{
    let front = types.drop_last();
    if k < front.len() {
        assert(front[k] == types[k]);
        assert forall|j: int| k < j < front.len() && (#[trigger] front[j]).id == front[k].id implies root_refs(
            front[j].seq,
        ).len() == 0 by {
            assert(front[j] == types[j]);
        }
        lemma_deps_of(front, k);
        assert(types[types.len() - 1] == types.last());
    }
}

proof fn lemma_no_deps_of(types: Seq<StructModel>, id: Seq<char>)
    requires
        forall|j: int| 0 <= j < types.len() && (#[trigger] types[j]).id == id ==> root_refs(types[j].seq).len() == 0,
    ensures
        !deps_of(types).contains_key(id),
    decreases types.len(),
{
    if types.len() > 0 {
        let front = types.drop_last();
        assert forall|j: int| 0 <= j < front.len() && (#[trigger] front[j]).id == id implies root_refs(
            front[j].seq,
        ).len() == 0 by {
            assert(front[j] == types[j]);
        }
        lemma_no_deps_of(front, id);
        assert(types[types.len() - 1] == types.last());
    }
}

/// A type that is declared in another and needs values of the root type is built in the `new`
/// of that one with `new_with_root`, which is handed exactly those values. Of types with the
/// same identifier this holds for the last one that needs values.
pub proof fn law_parent_hands_root_values(ty: StructModel, k: int)
    requires
        0 <= k < ty.types.len(),
        root_refs(ty.types[k].seq).len() > 0,
        forall|j: int|
            k < j < ty.types.len() && (#[trigger] ty.types[j]).id == ty.types[k].id ==> root_refs(
                ty.types[j].seq,
            ).len() == 0,
    ensures
        TypeModel::UserDefined(ty.types[k].id).read(ty.endianness, deps_of(ty.types)) == new_with_root_call(
            ty.types[k].id,
            accessors(root_refs(ty.types[k].seq)),
        ),
{
    lemma_deps_of(ty.types, k);
}

/// In the `new` and the `new_with_root` of a type, a type that is built there and is not one
/// declared in it that needs values of the root type is built with its own `new`.
pub proof fn law_other_types_are_built_alone(ty: StructModel, id: Seq<char>, rewrite: RootRewrite)
    requires
        forall|j: int|
            0 <= j < ty.types.len() && (#[trigger] ty.types[j]).id == id ==> root_refs(ty.types[j].seq).len() == 0,
    ensures
        TypeModel::UserDefined(id).read(ty.endianness, deps_of(ty.types)) == new_call(id),
        TypeModel::UserDefined(id).read(ty.endianness, deps_in_root(ty.types, rewrite)) == new_call(id),
{
    lemma_no_deps_of(ty.types, id);
}

/// A type that is declared in another and needs values of the root type is built with
/// `new_with_root` in the `new_with_root` of that one too. Of types with the same identifier
/// this holds for the last one that needs values.
pub proof fn law_root_values_are_passed_on(ty: StructModel, k: int)
    requires
        0 <= k < ty.types.len(),
        root_refs(ty.types[k].seq).len() > 0,
        forall|j: int|
            k < j < ty.types.len() && (#[trigger] ty.types[j]).id == ty.types[k].id ==> root_refs(
                ty.types[j].seq,
            ).len() == 0,
    ensures
        TypeModel::UserDefined(ty.types[k].id).read(
            ty.endianness,
            deps_in_root(ty.types, rewrites_of(root_refs(ty.seq))),
        ) == new_with_root_call(
            ty.types[k].id,
            accessors(in_root(root_refs(ty.types[k].seq), rewrites_of(root_refs(ty.seq)))),
        ),
{
    lemma_deps_of(ty.types, k);
}

/// In the `new_with_root` of a type, a value of the root type that the type itself is handed is
/// passed on under the name of the parameter, which is the same for both types.
pub proof fn law_parameters_are_passed_on(outer: Seq<AttributeModel>, inner: Seq<AttributeModel>, i: int)
    requires
        0 <= i < root_refs(inner).len(),
        has_path(root_refs(outer), root_refs(inner)[i].path),
    ensures
        accessors(in_root(root_refs(inner), rewrites_of(root_refs(outer))))[i] == seq![
            Token::Ident(root_refs(inner)[i].param_ident),
        ],
{
    let path = root_refs(inner)[i].path;
    let refs = root_refs(outer);
    let own = law_root_refs_come_from_fields(inner, i);
    let k = choose|k: int| 0 <= k < refs.len() && (#[trigger] refs[k]).path == path;
    let j = law_root_refs_come_from_fields(outer, k);
    law_root_switches_are_rewritten(outer, j);
    lemma_rewrites_of(refs);
    assert(AttributeModel::scrutinee(path, rewrites_of(refs)) == seq![Token::Ident(rewrites_of(refs)[path])]);
    assert(seq![Token::Ident(rewrites_of(refs)[path])][0] == seq![Token::Ident(root_refs(inner)[i].param_ident)][0]);
}

/// In the `new_with_root` of a type, a value of the root type that the type itself is not handed
/// is reached as in `new`.
pub proof fn law_other_values_are_reached_as_before(
    params: Seq<RootParamModel>,
    own: Seq<RootParamModel>,
    i: int,
)
    requires
        0 <= i < params.len(),
        !has_path(own, params[i].path),
    ensures
        accessors(in_root(params, rewrites_of(own)))[i] == params[i].accessor,
{
    lemma_rewrites_of(own);
}

/// The values that a parent hands to `new_with_root` and the parameters that it declares are
/// as many, and stand in the same order.
pub proof fn law_arguments_match_parameters(refs: Seq<RootParamModel>, i: int)
    requires
        0 <= i < refs.len(),
    ensures
        accessors(refs).len() == root_params(refs).len(),
        accessors(refs)[i] == refs[i].accessor,
        root_params(refs)[i] == param(refs[i].param_ident, refs[i].param_ty),
{
}

/// A type that needs values of the root type has a stub for `new` and reads itself in
/// `new_with_root`; any other reads itself in `new` and has no `new_with_root`.
pub proof fn law_root_values_decide_the_constructor(ty: StructModel)
    ensures
        root_refs(ty.seq).len() > 0 ==> ty.new_tokens() == new_stub() && ty.root_tokens() == root_impl(
            ty.id,
            root_params(root_refs(ty.seq)),
            reader_body(
                has_bit_fields(ty.seq),
                assignments(
                    ty.seq,
                    ty.endianness,
                    deps_in_root(ty.types, rewrites_of(root_refs(ty.seq))),
                    rewrites_of(root_refs(ty.seq)),
                ),
                field_ids(ty.seq),
            ),
        ),
        root_refs(ty.seq).len() == 0 ==> ty.root_tokens() == Seq::<Token>::empty() && ty.new_tokens() == new_function(
            reader_body(
                has_bit_fields(ty.seq),
                assignments(ty.seq, ty.endianness, deps_of(ty.types), Map::empty()),
                field_ids(ty.seq),
            ),
        ),
{
}

proof fn lemma_concatenated_part(items: Seq<Seq<Token>>, i: int) -> (r: (Seq<Token>, Seq<Token>))
    requires
        0 <= i < items.len(),
    ensures
        concatenated(items) == r.0 + items[i] + r.1,
    decreases items.len(),
{
    if i == items.len() - 1 {
        let r = (concatenated(items.drop_last()), Seq::<Token>::empty());
        assert(concatenated(items) =~= r.0 + items[i] + r.1);
        r
    } else {
        let inner = lemma_concatenated_part(items.drop_last(), i);
        let r = (inner.0, inner.1 + items.last());
        assert(concatenated(items) =~= r.0 + items[i] + r.1);
        r
    }
}

/// The generated code of a type holds that of each type declared in it.
pub proof fn law_declared_types_are_generated(ty: StructModel, i: int) -> (r: (Seq<Token>, Seq<Token>))
    requires
        0 <= i < ty.types.len(),
    ensures
        ty.tokens() == r.0 + ty.types[i].tokens() + r.1,
{
    let inner = lemma_concatenated_part(each_tokens(ty.types), i);
    let enums = concatenated(ty.enums);
    let own = ty.own_tokens();
    lemma_regrouped(inner.0, ty.types[i].tokens(), inner.1, enums, own);
    (inner.0, inner.1 + enums + own)
}

/// The generated code of a type holds each of its enumerations.
pub proof fn law_enumerations_are_generated(ty: StructModel, i: int) -> (r: (Seq<Token>, Seq<Token>))
    requires
        0 <= i < ty.enums.len(),
    ensures
        ty.tokens() == r.0 + ty.enums[i] + r.1,
{
    let inner = lemma_concatenated_part(ty.enums, i);
    let types = concatenated(each_tokens(ty.types));
    let own = ty.own_tokens();
    lemma_regrouped_middle(types, inner.0, ty.enums[i], inner.1, own);
    (types + inner.0, inner.1 + own)
}

proof fn lemma_regrouped(a: Seq<Token>, b: Seq<Token>, c: Seq<Token>, d: Seq<Token>, e: Seq<Token>)
    ensures
        a + b + c + d + e == a + b + (c + d + e),
{
    assert(a + b + c + d + e =~= a + b + (c + d + e));
}

proof fn lemma_regrouped_middle(a: Seq<Token>, b: Seq<Token>, c: Seq<Token>, d: Seq<Token>, e: Seq<Token>)
    ensures
        a + (b + c + d) + e == a + b + c + (d + e),
{
    assert(a + (b + c + d) + e =~= a + b + c + (d + e));
}

/// A type has its own identifier, byte order and bit order where it gives them. Else it has
/// the name under which it is declared and the orders of the type that it is declared in.
pub proof fn law_declared_types_inherit(inherited: InheritedModel, ty: de::Type, i: int)
    requires
        0 <= i < ty.types@.len(),
    ensures
        lowered_struct(inherited, ty).types.len() == ty.types@.len(),
        lowered_struct(inherited, ty).types[i].id == (match own_id(ty.types@[i].1) {
            Some(id) => id,
            None => upper_camel(ty.types@[i].0@),
        }),
        lowered_struct(inherited, ty).types[i].endianness == (match own_endianness(ty.types@[i].1) {
            Some(e) => e,
            None => lowered_struct(inherited, ty).endianness,
        }),
        lowered_struct(inherited, ty).types[i].bit_endianness == (match own_bit_endianness(ty.types@[i].1) {
            Some(e) => e,
            None => lowered_struct(inherited, ty).bit_endianness,
        }),
{
    reveal_with_fuel(lowered_struct, 2);
}

/// What a type as a whole is documented with is handed to the type and to each of its fields.
pub proof fn law_documentation_is_handed_to_fields(inherited: InheritedModel, ty: de::Type, i: int)
    requires
        0 <= i < ty.seq@.len(),
    ensures
        lowered_struct(inherited, ty).doc == DocModel::of(own_doc(ty), ty.doc@),
        lowered_struct(inherited, ty).seq.len() == ty.seq@.len(),
        lowered_struct(inherited, ty).seq[i].doc == DocModel::of(own_doc(ty), ty.seq@[i].doc@),
{
}

/// An inherited identifier that goes before the type's own is the type's identifier.
pub proof fn law_overwriting_identifiers_win(inherited: InheritedModel, ty: de::Type, id: Seq<char>)
    requires
        inherited.id == Some((id, true)),
    ensures
        lowered_struct(inherited, ty).id == id,
{
}

/// The most significant bit comes first where nothing gives another bit order.
pub proof fn law_bits_default_to_most_significant_first(inherited: InheritedModel, ty: de::Type)
    requires
        own_bit_endianness(ty) is None,
        inherited.bit_endianness is None,
    ensures
        lowered_struct(inherited, ty).bit_endianness == Endianness::Be,
{
}

/// How many tokens the first `n` of some parts have.
pub open spec fn parts_len(parts: Seq<Seq<Token>>, n: int) -> int
    decreases n,
{
    if n <= 0 {
        0
    } else {
        parts_len(parts, n - 1) + parts[n - 1].len()
    }
}

/// How many tokens the generated code of the first `n` of some types has.
pub open spec fn types_len(types: Seq<StructModel>, n: int) -> int
    decreases n,
{
    if n <= 0 {
        0
    } else {
        types_len(types, n - 1) + types[n - 1].tokens().len()
    }
}

proof fn lemma_parts_len_front(parts: Seq<Seq<Token>>, n: int)
    requires
        parts.len() > 0,
        0 <= n < parts.len(),
    ensures
        parts_len(parts.drop_last(), n) == parts_len(parts, n),
    decreases n,
{
    if n > 0 {
        lemma_parts_len_front(parts, n - 1);
    }
}

proof fn lemma_parts_len_grows(parts: Seq<Seq<Token>>, m: int, n: int)
    requires
        0 <= m <= n,
    ensures
        0 <= parts_len(parts, m) <= parts_len(parts, n),
    decreases n,
{
    if n > 0 {
        if m < n {
            lemma_parts_len_grows(parts, m, n - 1);
        } else {
            lemma_parts_len_grows(parts, m - 1, n - 1);
        }
    }
}

proof fn lemma_concatenated_parts(parts: Seq<Seq<Token>>)
    ensures
        concatenated(parts).len() == parts_len(parts, parts.len() as int),
        forall|i: int| 0 <= i < parts.len() ==> stands_at(concatenated(parts), parts_len(parts, i), #[trigger] parts[i]),
    decreases parts.len(),
{
    if parts.len() > 0 {
        let front = parts.drop_last();
        lemma_concatenated_parts(front);
        lemma_parts_len_front(parts, parts.len() - 1);
        assert forall|i: int| 0 <= i < parts.len() implies stands_at(
            concatenated(parts),
            parts_len(parts, i),
            #[trigger] parts[i],
        ) by {
            let at = parts_len(parts, i);
            lemma_parts_len_grows(parts, i, parts.len() as int);
            if i < front.len() {
                lemma_parts_len_front(parts, i);
                assert(front[i] == parts[i]);
                assert(stands_at(concatenated(front), parts_len(front, i), front[i]));
                assert(concatenated(parts).subrange(at, at + parts[i].len() as int) =~= concatenated(front).subrange(
                    at,
                    at + parts[i].len() as int,
                ));
            } else {
                assert(concatenated(parts).subrange(at, at + parts[i].len() as int) =~= parts[i]);
            }
        }
    }
}

proof fn lemma_types_len(types: Seq<StructModel>, n: int)
    requires
        0 <= n <= types.len(),
    ensures
        types_len(types, n) == parts_len(each_tokens(types), n),
    decreases n,
{
    if n > 0 {
        lemma_types_len(types, n - 1);
        assert(each_tokens(types)[n - 1] == types[n - 1].tokens());
    }
}

proof fn lemma_stands_later(a: Seq<Token>, b: Seq<Token>, c: Seq<Token>, at: int, part: Seq<Token>)
    requires
        stands_at(b, at, part),
    ensures
        stands_at(a + b + c, a.len() + at, part),
{
    assert((a + b + c).subrange(a.len() + at, a.len() + at + part.len() as int) =~= b.subrange(
        at,
        at + part.len() as int,
    ));
}

/// The generated code of a type is exactly that of each type declared in it, once, then each
/// enumeration, once, then the type's own: each part stands behind those before it, and the
/// parts are all that there is.
pub proof fn law_code_is_made_of_its_parts(ty: StructModel)
    ensures
        ({
            let code = ty.tokens();
            let types = types_len(ty.types, ty.types.len() as int);
            let enums = parts_len(ty.enums, ty.enums.len() as int);
            &&& code.len() == types + enums + ty.own_tokens().len()
            &&& forall|i: int|
                0 <= i < ty.types.len() ==> stands_at(
                    code,
                    types_len(ty.types, i),
                    (#[trigger] ty.types[i]).tokens(),
                )
            &&& forall|i: int|
                0 <= i < ty.enums.len() ==> stands_at(code, types + parts_len(ty.enums, i), #[trigger] ty.enums[i])
            &&& stands_at(code, types + enums, ty.own_tokens())
        }),
{
    let code = ty.tokens();
    let nested = each_tokens(ty.types);
    let types = concatenated(nested);
    let enums = concatenated(ty.enums);
    let own = ty.own_tokens();
    lemma_concatenated_parts(nested);
    lemma_concatenated_parts(ty.enums);
    lemma_types_len(ty.types, ty.types.len() as int);
    assert forall|i: int| 0 <= i < ty.types.len() implies stands_at(
        code,
        types_len(ty.types, i),
        (#[trigger] ty.types[i]).tokens(),
    ) by {
        lemma_types_len(ty.types, i);
        assert(nested[i] == ty.types[i].tokens());
        lemma_stands_later(Seq::empty(), types, enums + own, parts_len(nested, i), nested[i]);
        lemma_three_parts(types, enums, own);
    }
    assert forall|i: int| 0 <= i < ty.enums.len() implies stands_at(
        code,
        types.len() + parts_len(ty.enums, i),
        #[trigger] ty.enums[i],
    ) by {
        lemma_stands_later(types, enums, own, parts_len(ty.enums, i), ty.enums[i]);
    }
    lemma_three_parts(types, enums, own);
}

proof fn lemma_three_parts(a: Seq<Token>, b: Seq<Token>, c: Seq<Token>)
    ensures
        Seq::empty() + a + (b + c) == a + b + c,
        stands_at(a + b + c, 0, a),
        stands_at(a + b + c, a.len() as int, b),
        stands_at(a + b + c, a.len() as int + b.len(), c),
        (a + b + c).len() == a.len() + b.len() + c.len(),
{
    assert(Seq::empty() + a + (b + c) =~= a + b + c);
    assert((a + b + c).subrange(0, a.len() as int) =~= a);
    assert((a + b + c).subrange(a.len() as int, a.len() as int + b.len()) =~= b);
    assert((a + b + c).subrange(a.len() as int + b.len(), a.len() as int + b.len() + c.len()) =~= c);
}

/// The own code of a type is its struct with its fields, then the implementation of the trait
/// for it, then `new_with_root` where values of the root type are needed: nothing else.
pub proof fn law_own_code_is_made_of_its_parts(ty: StructModel)
    ensures
        ({
            let own = ty.own_tokens();
            let item = struct_item(ty.doc, ty.id, field_definitions(ty.seq));
            let implemented = trait_impl(ty.id, ty.new_tokens());
            &&& own.len() == item.len() + implemented.len() + ty.root_tokens().len()
            &&& stands_at(own, 0, item)
            &&& stands_at(own, item.len() as int, implemented)
            &&& stands_at(own, item.len() as int + implemented.len(), ty.root_tokens())
            &&& ty.root_tokens().len() == (if root_refs(ty.seq).len() > 0 {
                3int
            } else {
                0int
            })
        }),
{
    lemma_three_parts(
        struct_item(ty.doc, ty.id, field_definitions(ty.seq)),
        trait_impl(ty.id, ty.new_tokens()),
        ty.root_tokens(),
    );
}

/// When the generator has code for a type: where it has code for its fields, the values of the
/// root type that they switch on can be used, and it has code for the types declared in it.
pub proof fn law_when_types_have_code(ty: StructModel)
    ensures
        ty.renderable() <==> {
            &&& forall|i: int| 0 <= i < ty.seq.len() ==> (#[trigger] ty.seq[i]).assignable(Map::empty())
            &&& root_refs_ok(ty.seq)
            &&& forall|i: int| 0 <= i < ty.types.len() ==> (#[trigger] ty.types[i]).renderable()
        },
{
}

/// Where paths are rewritten, only how values are reached changes, each in its place.
pub proof fn law_rewriting_keeps_parameters(params: Seq<RootParamModel>, rewrite: RootRewrite, i: int)
    requires
        0 <= i < params.len(),
    ensures
        in_root(params, rewrite).len() == params.len(),
        in_root(params, rewrite)[i].path == params[i].path,
        in_root(params, rewrite)[i].param_ident == params[i].param_ident,
        in_root(params, rewrite)[i].param_ty == params[i].param_ty,
        rewrite.contains_key(params[i].path) ==> in_root(params, rewrite)[i].accessor == seq![
            Token::Ident(rewrite[params[i].path]),
        ],
        !rewrite.contains_key(params[i].path) ==> in_root(params, rewrite)[i].accessor == params[i].accessor,
{
}

/// What a type gives itself is what its meta section says.
pub proof fn law_own_properties(ty: de::Type)
    ensures
        ty.meta is None ==> own_id(ty) is None && own_endianness(ty) is None && own_bit_endianness(ty) is None
            && own_doc(ty) is None,
        ty.meta matches Some(meta) ==> own_endianness(ty) == meta.endianness && own_bit_endianness(ty)
            == meta.bit_endian && own_doc(ty) == Some(meta.doc),
        ty.meta matches Some(meta) ==> (meta.id matches Some(id) ==> own_id(ty) == Some(upper_camel(id@))),
        ty.meta matches Some(meta) ==> (meta.id is None ==> own_id(ty) is None),
{
}

/// A type's identifier, byte order and bit order: its own go before inherited ones, but for an
/// inherited identifier that overwrites.
pub proof fn law_properties_are_chosen(inherited: InheritedModel, ty: de::Type)
    ensures
        own_id(ty) matches Some(own) ==> (inherited.id matches Some((_, overwrite)) ==> !overwrite) ==> lowered_struct(
            inherited,
            ty,
        ).id == own,
        own_id(ty) is None ==> (inherited.id matches Some((id, _)) ==> lowered_struct(inherited, ty).id == id),
        own_endianness(ty) matches Some(e) ==> lowered_struct(inherited, ty).endianness == e,
        own_endianness(ty) is None ==> (inherited.endianness matches Some(e) ==> lowered_struct(
            inherited,
            ty,
        ).endianness == e),
        own_bit_endianness(ty) matches Some(e) ==> lowered_struct(inherited, ty).bit_endianness == e,
        own_bit_endianness(ty) is None ==> (inherited.bit_endianness matches Some(e) ==> lowered_struct(
            inherited,
            ty,
        ).bit_endianness == e),
{
}

/// A declared type is checked like any other, with the name under which it is declared and the
/// orders of the type that it is declared in as what it inherits.
pub proof fn law_declared_types_are_checked_alike(inherited: InheritedModel, ty: de::Type, i: int)
    requires
        0 <= i < ty.types@.len(),
    ensures
        lowered_struct(inherited, ty).types.len() == ty.types@.len(),
        lowered_struct(inherited, ty).types[i] == lowered_struct(
            (InheritedModel {
                id: Some((upper_camel(ty.types@[i].0@), false)),
                endianness: Some(lowered_struct(inherited, ty).endianness),
                bit_endianness: Some(lowered_struct(inherited, ty).bit_endianness),
            }),
            ty.types@[i].1,
        ),
{
    reveal_with_fuel(lowered_struct, 2);
}

/// The fields of a checked type are its fields, each checked with the documentation of the type,
/// in their order; its enumerations are taken over.
pub proof fn law_fields_are_checked_alike(inherited: InheritedModel, ty: de::Type)
    ensures
        lowered_struct(inherited, ty).seq.len() == ty.seq@.len(),
        forall|i: int|
            0 <= i < ty.seq@.len() ==> lowered_struct(inherited, ty).seq[i] == lowered(
                own_doc(ty),
                #[trigger] ty.seq@[i],
            ),
        lowered_struct(inherited, ty).enums.len() == ty.enums@.len(),
        forall|i: int|
            0 <= i < ty.enums@.len() ==> lowered_struct(inherited, ty).enums[i] == trees(
                (#[trigger] ty.enums@[i]).definition,
            ),
{
}

/// When a type has a checked form: where all names are identifiers, it has an identifier and a
/// byte order, and its fields and the types declared in it have a checked form.
pub proof fn law_when_types_are_checked(inherited: InheritedModel, ty: de::Type)
    ensures
        struct_ok(inherited, ty) <==> {
            &&& own_id(ty) is None || valid_ident(own_id(ty)->0)
            &&& own_id(ty) is Some || inherited.id is Some
            &&& own_endianness(ty) is Some || inherited.endianness is Some
            &&& forall|i: int| 0 <= i < ty.seq@.len() ==> attr_ok(#[trigger] ty.seq@[i])
            &&& forall|i: int|
                0 <= i < ty.types@.len() ==> valid_ident(upper_camel((#[trigger] ty.types@[i]).0@)) && struct_ok(
                    (InheritedModel {
                        id: Some((upper_camel(ty.types@[i].0@), false)),
                        endianness: Some(lowered_struct(inherited, ty).endianness),
                        bit_endianness: Some(lowered_struct(inherited, ty).bit_endianness),
                    }),
                    ty.types@[i].1,
                )
        },
{
    reveal_with_fuel(struct_ok, 2);
    let endianness = lowered_struct(inherited, ty).endianness;
    let bit_endianness = lowered_struct(inherited, ty).bit_endianness;
    assert(struct_ok(inherited, ty) <==> {
        &&& own_id(ty) is None || valid_ident(own_id(ty)->0)
        &&& own_id(ty) is Some || inherited.id is Some
        &&& own_endianness(ty) is Some || inherited.endianness is Some
        &&& seq_ok(ty.seq@)
        &&& types_ok(ty.types@, endianness, bit_endianness)
    });
}

} // verus!
