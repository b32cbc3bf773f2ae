//! The statements that read the fields of a type, and the values that they need of the root
//! type.
use vstd::prelude::*;

use crate::code::{align_to_byte, arm, cast, ensure_contents, field, let_statement};
use crate::hir::meta::Endianness;
use crate::hir::model::{
    all_assignable, assignments, case_arms, field_definitions, field_ids, has_bit_fields, has_path, leaves_bit_run,
    root_refs, stored, unified, AttributeModel, RootDeps, RootParamModel, RootRewrite,
};
use crate::hir::ty::rewrites_of;
use crate::text::{after_prefix, dots_to_underscores};
use crate::tokens::Token;

verus! {

/// The field at a position is read bytewise, and the one before it bitwise.
pub open spec fn ends_bit_run(attrs: Seq<AttributeModel>, i: int) -> bool {
    0 < i < attrs.len() && attrs[i - 1].bit_field() && !attrs[i].bit_field()
}

/// How many of the first `n` fields stand behind a run of bit fields.
pub open spec fn bit_runs_ended(attrs: Seq<AttributeModel>, n: int) -> int
    decreases n,
{
    if n <= 0 {
        0
    } else if ends_bit_run(attrs, n - 1) {
        bit_runs_ended(attrs, n - 1) + 1
    } else {
        bit_runs_ended(attrs, n - 1)
    }
}

proof fn lemma_bit_runs_prefix(attrs: Seq<AttributeModel>, n: int)
    requires
        attrs.len() > 0,
        0 <= n < attrs.len(),
    ensures
        bit_runs_ended(attrs.drop_last(), n) == bit_runs_ended(attrs, n),
    decreases n,
{
    if n > 0 {
        lemma_bit_runs_prefix(attrs, n - 1);
    }
}

proof fn lemma_bit_runs_grow(attrs: Seq<AttributeModel>, m: int, n: int)
    requires
        0 <= m <= n,
    ensures
        0 <= bit_runs_ended(attrs, m) <= bit_runs_ended(attrs, n),
    decreases n,
{
    if n > 0 {
        if m < n {
            lemma_bit_runs_grow(attrs, m, n - 1);
        } else {
            lemma_bit_runs_grow(attrs, m - 1, n - 1);
        }
    }
}

/// There is one statement per field, and one alignment to a byte per run of bit fields that
/// a bytewise field follows: nothing else.
pub proof fn law_statements_are_counted(
    attrs: Seq<AttributeModel>,
    endianness: Endianness,
    deps: RootDeps,
    rewrite: RootRewrite,
)
    ensures
        assignments(attrs, endianness, deps, rewrite).len() == attrs.len() + bit_runs_ended(attrs, attrs.len() as int),
    decreases attrs.len(),
{
    if attrs.len() > 0 {
        law_statements_are_counted(attrs.drop_last(), endianness, deps, rewrite);
        lemma_bit_runs_prefix(attrs, attrs.len() - 1);
    }
}

/// The fields are read in their order, each by its own statement.
pub proof fn law_fields_are_read_in_order(
    attrs: Seq<AttributeModel>,
    endianness: Endianness,
    deps: RootDeps,
    rewrite: RootRewrite,
    i: int,
)
    requires
        0 <= i < attrs.len(),
    ensures
        assignments(attrs, endianness, deps, rewrite)[i + bit_runs_ended(attrs, i + 1)] == attrs[i].assignment(
            endianness,
            deps,
            rewrite,
        ),
        0 <= i + bit_runs_ended(attrs, i + 1) < assignments(attrs, endianness, deps, rewrite).len(),
    decreases attrs.len(),
{
    let front = attrs.drop_last();
    law_statements_are_counted(attrs, endianness, deps, rewrite);
    law_statements_are_counted(front, endianness, deps, rewrite);
    lemma_bit_runs_prefix(attrs, attrs.len() - 1);
    lemma_bit_runs_grow(attrs, i + 1, attrs.len() as int);
    if i < front.len() {
        law_fields_are_read_in_order(front, endianness, deps, rewrite, i);
        lemma_bit_runs_prefix(attrs, i + 1);
        assert(front[i] == attrs[i]);
    }
}

/// Directly before a bytewise field that follows a bit field, the stream is aligned to a
/// byte.
pub proof fn law_bit_runs_are_aligned(
    attrs: Seq<AttributeModel>,
    endianness: Endianness,
    deps: RootDeps,
    rewrite: RootRewrite,
    i: int,
)
    requires
        ends_bit_run(attrs, i),
    ensures
        assignments(attrs, endianness, deps, rewrite)[i + bit_runs_ended(attrs, i + 1) - 1] == align_to_byte(),
    decreases attrs.len(),
{
    let front = attrs.drop_last();
    law_statements_are_counted(attrs, endianness, deps, rewrite);
    law_statements_are_counted(front, endianness, deps, rewrite);
    lemma_bit_runs_prefix(attrs, attrs.len() - 1);
    if i < front.len() {
        law_bit_runs_are_aligned(front, endianness, deps, rewrite, i);
        lemma_bit_runs_prefix(attrs, i + 1);
        law_fields_are_read_in_order(front, endianness, deps, rewrite, i);
        lemma_bit_runs_grow(attrs, 0, i);
    }
}

/// Without bit fields the stream is never aligned: the statements are those of the fields.
pub proof fn law_no_bit_fields_no_alignment(
    attrs: Seq<AttributeModel>,
    endianness: Endianness,
    deps: RootDeps,
    rewrite: RootRewrite,
)
    requires
        !has_bit_fields(attrs),
    ensures
        assignments(attrs, endianness, deps, rewrite) == attrs.map_values(
            |a: AttributeModel| a.assignment(endianness, deps, rewrite),
        ),
    decreases attrs.len(),
{
    let read = |a: AttributeModel| a.assignment(endianness, deps, rewrite);
    if attrs.len() > 0 {
        let front = attrs.drop_last();
        assert forall|i: int| 0 <= i < front.len() implies !(#[trigger] front[i]).bit_field() by {
            assert(!attrs[i].bit_field());
        }
        law_no_bit_fields_no_alignment(front, endianness, deps, rewrite);
        assert(!leaves_bit_run(attrs));
        assert(attrs.map_values(read) =~= front.map_values(read).push(read(attrs.last())));
    } else {
        assert(attrs.map_values(read) =~= Seq::empty());
    }
}

/// The fields of the generated struct and the identifiers that it is built from belong
/// together one to one, in the order of the stored fields.
pub proof fn law_fields_match_identifiers(attrs: Seq<AttributeModel>, i: int)
    requires
        0 <= i < stored(attrs).len(),
    ensures
        field_definitions(attrs).len() == field_ids(attrs).len(),
        field_ids(attrs)[i] == stored(attrs)[i].id,
        exists|ty: Seq<Token>|
            field_definitions(attrs)[i] == #[trigger] field(stored(attrs)[i].doc, field_ids(attrs)[i], ty),
{
    let attr = stored(attrs)[i];
    attrs.lemma_filter_pred(|a: AttributeModel| a.stored(), i);
    let ty = if attr.repeat is Some {
        crate::code::vec_of(attr.value_type())
    } else {
        attr.value_type()
    };
    assert(field_definitions(attrs)[i] == field(attr.doc, field_ids(attrs)[i], ty));
}

/// A field is stored, and its statement binds its identifier, or it has fixed contents, which
/// its statement only checks.
pub proof fn law_stored_fields_are_bound(
    attr: AttributeModel,
    endianness: Endianness,
    deps: RootDeps,
    rewrite: RootRewrite,
)
    ensures
        attr.stored() ==> exists|value: Seq<Token>|
            attr.assignment(endianness, deps, rewrite) == #[trigger] let_statement(attr.id, value),
        !attr.stored() ==> attr.field_definition() == Seq::<Token>::empty() && exists|bytes: Seq<u8>|
            attr.assignment(endianness, deps, rewrite) == #[trigger] ensure_contents(bytes),
{
    if attr.stored() {
        let value = if attr.repeat is Some {
            crate::code::repeat_to_end(attr.value(endianness, deps, rewrite))
        } else {
            attr.value(endianness, deps, rewrite)
        };
        assert(attr.assignment(endianness, deps, rewrite) == let_statement(attr.id, value));
    } else {
        assert(attr.assignment(endianness, deps, rewrite) == ensure_contents(attr.logic->FixedContents_0));
    }
}

/// Each case of a switch gives a value of the type that the field has: what is read is of that
/// type, or is cast to it.
pub proof fn law_cases_have_the_field_type(
    attr: AttributeModel,
    endianness: Endianness,
    deps: RootDeps,
    i: int,
)
    requires
        attr.logic is Switch,
        0 <= i < attr.logic->cases.len(),
    ensures
        attr.value_type() == seq![Token::Ident(unified(attr.logic->cases).rust_name())],
        case_arms(attr.logic->cases, endianness, deps, unified(attr.logic->cases))[i] == (if attr.logic->cases[
            i
        ].1.plain() == Some(unified(attr.logic->cases)) {
            arm(attr.logic->cases[i].0.tokens(), attr.logic->cases[i].1.read(endianness, deps))
        } else {
            arm(
                attr.logic->cases[i].0.tokens(),
                cast(attr.logic->cases[i].1.read(endianness, deps), unified(attr.logic->cases).rust_name()),
            )
        }),
{
}

/// Each path into the root type that a field switches on is among the values that are needed
/// of it.
pub proof fn law_root_refs_are_complete(attrs: Seq<AttributeModel>, i: int)
    requires
        0 <= i < attrs.len(),
        attrs[i].root_path() is Some,
    ensures
        has_path(root_refs(attrs), attrs[i].logic->on),
    decreases attrs.len(),
{
    let before = root_refs(attrs.drop_last());
    let all = root_refs(attrs);
    let on = attrs[i].logic->on;
    if i < attrs.len() - 1 {
        law_root_refs_are_complete(attrs.drop_last(), i);
    }
    if has_path(before, on) {
        let k = choose|k: int| 0 <= k < before.len() && (#[trigger] before[k]).path == on;
        assert(all[k] == before[k]);
    } else {
        assert(all.last() == attrs.last().root_param());
        assert(all[all.len() - 1].path == on);
    }
}

/// The values that are needed of the root type are those of fields that switch on a path
/// into it, and no others. Of fields that switch on the same path the first one counts.
pub proof fn law_root_refs_come_from_fields(attrs: Seq<AttributeModel>, k: int) -> (i: int)
    requires
        0 <= k < root_refs(attrs).len(),
    ensures
        0 <= i < attrs.len(),
        attrs[i].root_path() is Some,
        root_refs(attrs)[k] == attrs[i].root_param(),
        forall|j: int|
            0 <= j < i && (#[trigger] attrs[j]).root_path() is Some ==> attrs[j].logic->on != attrs[i].logic->on,
    decreases attrs.len(),
{
    let front = attrs.drop_last();
    if k < root_refs(front).len() {
        let i = law_root_refs_come_from_fields(front, k);
        assert forall|j: int| 0 <= j < i && (#[trigger] attrs[j]).root_path() is Some implies attrs[j].logic->on
            != attrs[i].logic->on by {
            assert(front[j] == attrs[j]);
        }
        i
    } else {
        assert forall|j: int| 0 <= j < front.len() && (#[trigger] attrs[j]).root_path() is Some implies attrs[
            j
        ].logic->on != attrs.last().logic->on by {
            assert(front[j] == attrs[j]);
            law_root_refs_are_complete(front, j);
        }
        attrs.len() - 1
    }
}

/// Each path into the root type occurs once among the values that are needed of it.
pub proof fn law_root_refs_are_unique(attrs: Seq<AttributeModel>, i: int, j: int)
    requires
        0 <= i < j < root_refs(attrs).len(),
    ensures
        root_refs(attrs)[i].path != root_refs(attrs)[j].path,
    decreases attrs.len(),
{
    let before = root_refs(attrs.drop_last());
    if j < before.len() {
        law_root_refs_are_unique(attrs.drop_last(), i, j);
    } else {
        assert(root_refs(attrs)[i] == before[i]);
    }
}

pub proof fn lemma_rewrites_of(params: Seq<RootParamModel>)
    ensures
        forall|path: Seq<char>| rewrites_of(params).contains_key(path) <==> #[trigger] has_path(params, path),
        forall|path: Seq<char>| #[trigger]
            rewrites_of(params).contains_key(path) ==> exists|k: int|
                0 <= k < params.len() && (#[trigger] params[k]).path == path && params[k].param_ident
                    == rewrites_of(params)[path],
    decreases params.len(),
{
    if params.len() > 0 {
        let front = params.drop_last();
        lemma_rewrites_of(front);
        assert forall|path: Seq<char>| rewrites_of(params).contains_key(path) <==> #[trigger] has_path(
            params,
            path,
        ) by {
            if has_path(params, path) {
                let k = choose|k: int| 0 <= k < params.len() && (#[trigger] params[k]).path == path;
                if k < front.len() {
                    assert(front[k].path == path);
                    assert(has_path(front, path));
                }
            }
            if rewrites_of(params).contains_key(path) {
                if path == params.last().path {
                    assert(params[params.len() - 1].path == path);
                } else {
                    assert(has_path(front, path));
                    let k = choose|k: int| 0 <= k < front.len() && (#[trigger] front[k]).path == path;
                    assert(params[k].path == path);
                }
            }
        }
        assert forall|path: Seq<char>| #[trigger] rewrites_of(params).contains_key(path) implies exists|k: int|
            0 <= k < params.len() && (#[trigger] params[k]).path == path && params[k].param_ident == rewrites_of(
                params,
            )[path] by {
            if path == params.last().path {
                assert(params[params.len() - 1].param_ident == rewrites_of(params)[path]);
            } else {
                assert(rewrites_of(front).contains_key(path));
                let k = choose|k: int|
                    0 <= k < front.len() && (#[trigger] front[k]).path == path && front[k].param_ident
                        == rewrites_of(front)[path];
                assert(params[k].path == path);
            }
        }
    }
}

/// In `new_with_root` each switch on a path into the root type is on the parameter that is
/// named after the path.
pub proof fn law_root_switches_are_rewritten(attrs: Seq<AttributeModel>, i: int)
    requires
        0 <= i < attrs.len(),
        attrs[i].root_path() is Some,
    ensures
        AttributeModel::scrutinee(attrs[i].logic->on, rewrites_of(root_refs(attrs))) == seq![
            Token::Ident("root_"@ + dots_to_underscores(attrs[i].root_path()->0)),
        ],
{
    let on = attrs[i].logic->on;
    let refs = root_refs(attrs);
    lemma_rewrites_of(refs);
    law_root_refs_are_complete(attrs, i);
    assert(has_path(refs, on));
    let k = choose|k: int|
        0 <= k < refs.len() && (#[trigger] refs[k]).path == on && refs[k].param_ident == rewrites_of(refs)[on];
    let j = law_root_refs_come_from_fields(attrs, k);
    assert(attrs[j].root_path() == after_prefix(on, "_root."@));
}

/// In `new_with_root` a switch on anything else stays as it is.
pub proof fn law_other_switches_stay(attrs: Seq<AttributeModel>, on: Seq<char>)
    requires
        after_prefix(on, "_root."@) is None,
    ensures
        AttributeModel::scrutinee(on, rewrites_of(root_refs(attrs))) == AttributeModel::scrutinee(on, Map::empty()),
{
    let refs = root_refs(attrs);
    lemma_rewrites_of(refs);
    if rewrites_of(refs).contains_key(on) {
        assert(has_path(refs, on));
        let k = choose|k: int| 0 <= k < refs.len() && (#[trigger] refs[k]).path == on;
        let j = law_root_refs_come_from_fields(attrs, k);
    }
}

/// Fields that the generator has code for in `new` it has code for in `new_with_root` too,
/// whatever is rewritten.
pub proof fn law_rewriting_is_harmless(attrs: Seq<AttributeModel>, rewrite: RootRewrite)
    requires
        all_assignable(attrs, Map::empty()),
    ensures
        all_assignable(attrs, rewrite),
{
    assert forall|i: int| 0 <= i < attrs.len() implies (#[trigger] attrs[i]).assignable(rewrite) by {
        assert(attrs[i].assignable(Map::empty()));
    }
}

} // verus!
