//! The types of a format description.
use proc_macro2::TokenStream;
use vstd::hash_map::StringHashMap;
use vstd::pervasive::unreached;
use vstd::prelude::*;

use crate::code::{concatenated, each_trees};
use crate::de;
use crate::de::Enumeration;
use crate::hir::attr::{
    deps_model, params_model, rewrite_model, Attributes, RootDepMap, RootParam, RootRewriteMap,
};
use crate::hir::doc::{Doc, DocModel};
use crate::hir::lower::{is_seq_ok, lowered_seq, seq_ok};
use crate::hir::meta::Endianness;
use crate::hir::model::{
    all_assignable, assignments, field_definitions, field_ids, has_bit_fields, root_refs, root_refs_ok, AttributeModel,
    RootDeps, RootParamModel, RootRewrite,
};
use crate::ident::{is_valid_ident, Ident};
use crate::items::{
    new_function, new_function_stream, new_stub, new_stub_stream, param, param_stream, reader_body, reader_body_stream,
    root_impl, root_impl_stream, struct_item, struct_item_stream, trait_impl, trait_impl_stream,
};
use crate::text::{sc_to_ucc, upper_camel};
use crate::tokens::{append, empty, trees, valid_ident, Token};

verus! {

/// A type, with the types declared in it.
#[derive(Debug)]
pub struct Type {
    pub id: Ident,
    pub endianness: Endianness,
    pub bit_endianness: Endianness,
    pub doc: Doc,
    pub seq: Attributes,
    pub types: Vec<Type>,
    pub enums: Vec<Enumeration>,
}

/// The mathematical model of a [`Type`].
pub struct StructModel {
    pub id: Seq<char>,
    pub endianness: Endianness,
    pub bit_endianness: Endianness,
    pub doc: DocModel,
    pub seq: Seq<AttributeModel>,
    pub types: Seq<StructModel>,
    pub enums: Seq<Seq<Token>>,
}

pub open spec fn enums_model(enums: Seq<Enumeration>) -> Seq<Seq<Token>> {
    enums.map_values(|e: Enumeration| trees(e.definition))
}

/// The model of a type.
pub open spec fn struct_model(ty: Type) -> StructModel
    decreases ty,
{
    StructModel {
        id: ty.id@,
        endianness: ty.endianness,
        bit_endianness: ty.bit_endianness,
        doc: ty.doc@,
        seq: ty.seq@,
        types: Seq::new(
            ty.types@.len(),
            |i: int|
                if 0 <= i < ty.types@.len() {
                    struct_model(ty.types@[i])
                } else {
                    vstd::pervasive::arbitrary()
                },
        ),
        enums: enums_model(ty.enums@),
    }
}

impl View for Type {
    type V = StructModel;

    open spec fn view(&self) -> StructModel {
        struct_model(*self)
    }
}

/// The values that each of some types needs of the root type. Of types with the same
/// identifier the last one counts.
pub open spec fn deps_of(types: Seq<StructModel>) -> RootDeps
    decreases types.len(),
{
    if types.len() == 0 {
        Map::empty()
    } else {
        let before = deps_of(types.drop_last());
        let refs = root_refs(types.last().seq);
        if refs.len() > 0 {
            before.insert(types.last().id, refs)
        } else {
            before
        }
    }
}

/// The parameter that stands for each path into the root type.
pub open spec fn rewrites_of(params: Seq<RootParamModel>) -> RootRewrite
    decreases params.len(),
{
    if params.len() == 0 {
        Map::empty()
    } else {
        rewrites_of(params.drop_last()).insert(params.last().path, params.last().param_ident)
    }
}

/// Values of the root type as they are reached where paths are rewritten as given: a path that
/// is rewritten is reached by what stands for it.
pub open spec fn in_root(params: Seq<RootParamModel>, rewrite: RootRewrite) -> Seq<RootParamModel> {
    params.map_values(
        |p: RootParamModel|
            RootParamModel {
                accessor: if rewrite.contains_key(p.path) {
                    seq![Token::Ident(rewrite[p.path])]
                } else {
                    p.accessor
                },
                ..p
            },
    )
}

/// The values that each of some types needs of the root type, as they are reached where paths
/// are rewritten as given.
pub open spec fn deps_in_root(types: Seq<StructModel>, rewrite: RootRewrite) -> RootDeps {
    deps_of(types).map_values(|params: Seq<RootParamModel>| in_root(params, rewrite))
}

/// The parameters of `new_with_root`.
pub open spec fn root_params(params: Seq<RootParamModel>) -> Seq<Seq<Token>> {
    params.map_values(|p: RootParamModel| param(p.param_ident, p.param_ty))
}

impl StructModel {
    /// The generator has code for the type and for the types declared in it.
    pub open spec fn renderable(self) -> bool
        decreases self,
    {
        &&& all_assignable(self.seq, Map::empty())
        &&& root_refs_ok(self.seq)
        &&& forall|i: int| 0 <= i < self.types.len() ==> (#[trigger] self.types[i]).renderable()
    }

    /// The function `new`: a stub where values of the root type are needed.
    pub open spec fn new_tokens(self) -> Seq<Token> {
        if root_refs(self.seq).len() > 0 {
            new_stub()
        } else {
            new_function(
                reader_body(
                    has_bit_fields(self.seq),
                    assignments(self.seq, self.endianness, deps_of(self.types), Map::empty()),
                    field_ids(self.seq),
                ),
            )
        }
    }

    /// The function `new_with_root`, where values of the root type are needed. A type declared
    /// in this one that needs such values too is handed the parameters for the paths that both
    /// switch on; for another path it is handed what is at that path in the scope of the
    /// function.
    pub open spec fn root_tokens(self) -> Seq<Token> {
        let refs = root_refs(self.seq);
        if refs.len() > 0 {
            root_impl(
                self.id,
                root_params(refs),
                reader_body(
                    has_bit_fields(self.seq),
                    assignments(
                        self.seq,
                        self.endianness,
                        deps_in_root(self.types, rewrites_of(refs)),
                        rewrites_of(refs),
                    ),
                    field_ids(self.seq),
                ),
            )
        } else {
            Seq::empty()
        }
    }

    /// The struct of the type and the functions that read it.
    pub open spec fn own_tokens(self) -> Seq<Token> {
        struct_item(self.doc, self.id, field_definitions(self.seq)) + trait_impl(self.id, self.new_tokens())
            + self.root_tokens()
    }

    /// The generated code: that of the types declared in the type, the enumerations, and the
    /// type's own.
    pub open spec fn tokens(self) -> Seq<Token>
        decreases self,
    {
        concatenated(each_tokens(self.types)) + concatenated(self.enums) + self.own_tokens()
    }
}

/// The generated code of each of some types.
pub open spec fn each_tokens(types: Seq<StructModel>) -> Seq<Seq<Token>>
    decreases types,
{
    Seq::new(
        types.len(),
        |i: int|
            if 0 <= i < types.len() {
                types[i].tokens()
            } else {
                Seq::empty()
            },
    )
}

pub open spec fn types_model(types: Seq<Type>) -> Seq<StructModel> {
    types.map_values(|t: Type| t@)
}

proof fn lemma_types_model(ty: Type)
    ensures
        ty@.types == types_model(ty.types@),
{
    assert(ty@.types =~= types_model(ty.types@));
}

proof fn lemma_deps_alone(types: Seq<StructModel>)
    ensures
        deps_in_root(types, Map::empty()) == deps_of(types),
{
    assert forall|id: Seq<char>| #[trigger] deps_of(types).contains_key(id) implies in_root(
        deps_of(types)[id],
        Map::empty(),
    ) == deps_of(types)[id] by {
        assert(in_root(deps_of(types)[id], Map::empty()) =~= deps_of(types)[id]);
    }
    assert(deps_in_root(types, Map::empty()) =~= deps_of(types));
}

proof fn lemma_joined(a: Seq<Token>, b: Seq<Token>, c: Seq<Token>, d: Seq<Token>)
    ensures
        a + b + c + d == a + (b + c + d),
{
    assert(a + b + c + d =~= a + (b + c + d));
}

/// The values that each of some types needs of the root type, as they are reached where paths
/// are rewritten as given.
fn root_dep_map(types: &Vec<Type>, root_rewrite: &RootRewriteMap) -> (r: RootDepMap)
    requires
        forall|i: int| 0 <= i < types@.len() ==> root_refs_ok((#[trigger] types_model(types@)[i]).seq),
    ensures
        deps_model(r@) == deps_in_root(types_model(types@), rewrite_model(root_rewrite@)),
{
    let ghost model = types_model(types@);
    let ghost rewrite = rewrite_model(root_rewrite@);
    let mut r: RootDepMap = StringHashMap::new();
    assert(deps_model(r@) =~= deps_in_root(model.take(0), rewrite));
    for i in 0..types.len()
        invariant
            model == types_model(types@),
            rewrite == rewrite_model(root_rewrite@),
            forall|i: int| 0 <= i < types@.len() ==> root_refs_ok((#[trigger] model[i]).seq),
            deps_model(r@) == deps_in_root(model.take(i as int), rewrite),
    {
        proof {
            assert(model[i as int] == types@[i as int]@);
            assert(model.take(i + 1).drop_last() =~= model.take(i as int));
            assert(model.take(i + 1).last() == model[i as int]);
        }
        let refs = types[i].root_refs();
        if refs.len() > 0 {
            let ghost before = r@;
            let params = rewritten_params(&refs, root_rewrite);
            let ghost reached = params_model(params@);
            r.insert(types[i].id.as_str().to_owned(), params);
            assert(deps_model(r@) =~= deps_model(before).insert(model[i as int].id, reached));
            assert(deps_in_root(model.take(i + 1), rewrite) =~= deps_in_root(model.take(i as int), rewrite).insert(
                model[i as int].id,
                reached,
            ));
        }
    }
    assert(model.take(types@.len() as int) =~= model);
    r
}

/// Values of the root type as they are reached where paths are rewritten as given.
fn rewritten_params(params: &Vec<RootParam>, root_rewrite: &RootRewriteMap) -> (r: Vec<RootParam>)
    ensures
        params_model(r@) == in_root(params_model(params@), rewrite_model(root_rewrite@)),
{
    let ghost want = in_root(params_model(params@), rewrite_model(root_rewrite@));
    let mut r: Vec<RootParam> = Vec::new();
    for i in 0..params.len()
        invariant
            want == in_root(params_model(params@), rewrite_model(root_rewrite@)),
            params_model(r@) == want.take(i as int),
    {
        let param = &params[i];
        assert(params_model(params@)[i as int] == param@);
        let accessor = match root_rewrite.get(param.path.as_str()) {
            Some(ident) => {
                let mut tokens = empty();
                ident.to_tokens(&mut tokens);
                assert(trees(tokens) =~= seq![Token::Ident(ident@)]);
                tokens
            },
            None => param.accessor.clone(),
        };
        let ghost before = r@;
        r.push(
            RootParam {
                path: param.path.clone(),
                param_ident: param.param_ident.clone(),
                param_ty: param.param_ty.clone(),
                accessor,
            },
        );
        assert(params_model(r@) =~= params_model(before).push(r@.last()@));
        assert(want.take(i + 1) =~= want.take(i as int).push(want[i as int]));
    }
    assert(want.take(params@.len() as int) =~= want);
    r
}

/// The parameter that stands for each path into the root type.
fn root_rewrite_map(params: &Vec<RootParam>) -> (r: RootRewriteMap)
    ensures
        rewrite_model(r@) == rewrites_of(params_model(params@)),
{
    let ghost model = params_model(params@);
    let mut r: RootRewriteMap = StringHashMap::new();
    assert(rewrite_model(r@) =~= rewrites_of(model.take(0)));
    for i in 0..params.len()
        invariant
            model == params_model(params@),
            rewrite_model(r@) == rewrites_of(model.take(i as int)),
    {
        proof {
            assert(model[i as int] == params@[i as int]@);
            assert(model.take(i + 1).drop_last() =~= model.take(i as int));
            assert(model.take(i + 1).last() == model[i as int]);
        }
        let ghost before = r@;
        let ident = params[i].param_ident.clone();
        r.insert(params[i].path.clone(), ident);
        assert(rewrite_model(r@) =~= rewrite_model(before).insert(model[i as int].path, model[i as int].param_ident));
    }
    assert(model.take(params@.len() as int) =~= model);
    r
}

/// The parameters of `new_with_root`.
fn root_param_streams(params: &Vec<RootParam>) -> (r: Vec<TokenStream>)
    ensures
        each_trees(r@) == root_params(params_model(params@)),
{
    let ghost want = root_params(params_model(params@));
    let mut r: Vec<TokenStream> = Vec::new();
    for i in 0..params.len()
        invariant
            want == root_params(params_model(params@)),
            each_trees(r@) == want.take(i as int),
    {
        assert(params_model(params@)[i as int] == params@[i as int]@);
        let ghost before = r@;
        r.push(param_stream(&params[i].param_ident, &params[i].param_ty));
        assert(each_trees(r@) =~= each_trees(before).push(trees(r@.last())));
        assert(want.take(i + 1) =~= want.take(i as int).push(want[i as int]));
    }
    assert(want.take(params@.len() as int) =~= want);
    r
}

impl Type {
    /// The values of the root type that the type's own fields switch on.
    pub fn root_refs(&self) -> (r: Vec<RootParam>)
        requires
            root_refs_ok(self@.seq),
        ensures
            params_model(r@) == root_refs(self@.seq),
    {
        self.seq.root_refs()
    }

    pub fn type_ident(&self) -> (r: &Ident)
        ensures
            r@ == self@.id,
    {
        &self.id
    }

    /// The struct of the type and the functions that read it.
    fn own_stream(&self) -> (r: TokenStream)
        requires
            self@.renderable(),
        ensures
            trees(r) == self@.own_tokens(),
    {
        proof {
            lemma_types_model(*self);
            assert forall|i: int| 0 <= i < self.types@.len() implies root_refs_ok(
                (#[trigger] types_model(self.types@)[i]).seq,
            ) by {
                assert(self@.types[i].renderable());
            }
        }
        let field_defs = self.seq.field_definitions();
        let has_bits = self.seq.has_bit_fields();
        let field_assignments = self.seq.field_assignments();
        let own_root_refs = self.seq.root_refs();
        assert(params_model(own_root_refs@).len() == own_root_refs@.len());
        let has_root_deps = own_root_refs.len() > 0;
        let root_rewrite = root_rewrite_map(&own_root_refs);
        let root_dep_map = root_dep_map(&self.types, &root_rewrite);
        let new_impl = if has_root_deps {
            new_stub_stream()
        } else {
            proof {
                lemma_deps_alone(self@.types);
            }
            let var_assignments = self.seq.variable_assignments(self.endianness, self.bit_endianness, &root_dep_map);
            new_function_stream(reader_body_stream(has_bits, &var_assignments, &field_assignments))
        };
        let mut r = struct_item_stream(&self.doc, &self.id, &field_defs);
        append(&mut r, &trait_impl_stream(&self.id, &new_impl));
        if has_root_deps {
            let var_assignments = self.seq.statements(
                self.endianness,
                self.bit_endianness,
                &root_dep_map,
                &root_rewrite,
            );
            let params = root_param_streams(&own_root_refs);
            let body = reader_body_stream(has_bits, &var_assignments, &field_assignments);
            append(&mut r, &root_impl_stream(&self.id, &params, body));
        } else {
            assert(trees(r) =~= self@.own_tokens());
        }
        r
    }

    /// Appends the generated code of the type, of the types declared in it and of the
    /// enumerations.
    pub fn to_tokens(&self, tokens: &mut TokenStream)
        requires
            self@.renderable(),
        ensures
            trees(*final(tokens)) == trees(*old(tokens)) + self@.tokens(),
        decreases self,
    {
        let ghost start = trees(*tokens);
        let ghost model = self@;
        let ghost nested = each_tokens(model.types);
        proof {
            lemma_types_model(*self);
        }
        assert(trees(*tokens) =~= start + concatenated(nested.take(0)));
        for i in 0..self.types.len()
            invariant
                model == self@,
                model.renderable(),
                model.types == types_model(self.types@),
                nested.len() == self.types@.len(),
                forall|j: int| 0 <= j < nested.len() ==> nested[j] == (#[trigger] model.types[j]).tokens(),
                trees(*tokens) == start + concatenated(nested.take(i as int)),
        {
            proof {
                assert(model.types[i as int] == self.types@[i as int]@);
                assert(model.types[i as int].renderable());
                assert(nested.take(i + 1).drop_last() =~= nested.take(i as int));
            }
            self.types[i].to_tokens(tokens);
            assert(trees(*tokens) =~= start + concatenated(nested.take(i + 1)));
        }
        assert(nested.take(self.types@.len() as int) =~= nested);
        let ghost typed = trees(*tokens);
        let ghost enums = model.enums;
        assert(trees(*tokens) =~= typed + concatenated(enums.take(0)));
        for i in 0..self.enums.len()
            invariant
                enums == enums_model(self.enums@),
                trees(*tokens) == typed + concatenated(enums.take(i as int)),
        {
            assert(enums.take(i + 1).drop_last() =~= enums.take(i as int));
            append(tokens, &self.enums[i].definition);
            assert(trees(*tokens) =~= typed + concatenated(enums.take(i + 1)));
        }
        assert(enums.take(self.enums@.len() as int) =~= enums);
        let ghost listed = trees(*tokens);
        let own = self.own_stream();
        append(tokens, &own);
        proof {
            lemma_joined(start, concatenated(nested), concatenated(model.enums), model.own_tokens());
            assert(listed == start + concatenated(nested) + concatenated(model.enums));
        }
    }

    /// Tests whether the generator has code for the type and for the types declared in it.
    pub fn is_renderable(&self) -> (r: bool)
        ensures
            r == self@.renderable(),
        decreases self,
    {
        let empty_rewrite: RootRewriteMap = StringHashMap::new();
        assert(rewrite_model(empty_rewrite@) =~= Map::empty());
        if !self.seq.is_all_assignable(&empty_rewrite) || self.seq.checked_root_refs().is_none() {
            return false;
        }
        proof {
            lemma_types_model(*self);
        }
        for i in 0..self.types.len()
            invariant
                self@.types == types_model(self.types@),
                forall|j: int| 0 <= j < i ==> (#[trigger] self@.types[j]).renderable(),
        {
            assert(self@.types[i as int] == self.types@[i as int]@);
            if !self.types[i].is_renderable() {
                return false;
            }
        }
        true
    }

    /// The generated code, where the generator has code for all that the type holds.
    pub fn checked_tokens(&self) -> (r: Option<TokenStream>)
        ensures
            r is Some <==> self@.renderable(),
            r matches Some(tokens) ==> trees(tokens) == self@.tokens(),
    {
        if !self.is_renderable() {
            return None;
        }
        let mut tokens = empty();
        self.to_tokens(&mut tokens);
        assert(trees(tokens) =~= self@.tokens());
        Some(tokens)
    }
}

/// What a type inherits from the one that it is declared in.
pub struct InheritedMeta {
    /// The identifier, and whether it goes before the type's own.
    pub id: Option<(Ident, bool)>,
    pub endianness: Option<Endianness>,
    pub bit_endianness: Option<Endianness>,
}

/// The mathematical model of an [`InheritedMeta`].
pub struct InheritedModel {
    pub id: Option<(Seq<char>, bool)>,
    pub endianness: Option<Endianness>,
    pub bit_endianness: Option<Endianness>,
}

impl View for InheritedMeta {
    type V = InheritedModel;

    open spec fn view(&self) -> InheritedModel {
        InheritedModel {
            id: match self.id {
                Some((id, overwrite)) => Some((id@, overwrite)),
                None => None,
            },
            endianness: self.endianness,
            bit_endianness: self.bit_endianness,
        }
    }
}

/// The identifier that a type gives itself.
pub open spec fn own_id(ty: de::Type) -> Option<Seq<char>> {
    match ty.meta {
        Some(meta) => match meta.id {
            Some(id) => Some(upper_camel(id@)),
            None => None,
        },
        None => None,
    }
}

/// The byte order that a type gives itself.
pub open spec fn own_endianness(ty: de::Type) -> Option<Endianness> {
    match ty.meta {
        Some(meta) => meta.endianness,
        None => None,
    }
}

/// The bit order that a type gives itself.
pub open spec fn own_bit_endianness(ty: de::Type) -> Option<Endianness> {
    match ty.meta {
        Some(meta) => meta.bit_endian,
        None => None,
    }
}

/// What a type as a whole is documented with.
pub open spec fn own_doc(ty: de::Type) -> Option<de::MetaDoc> {
    match ty.meta {
        Some(meta) => Some(meta.doc),
        None => None,
    }
}

/// A type's identifier: the inherited one where it goes before the type's own or the type has
/// none, else its own.
pub open spec fn chosen_id(inherited: InheritedModel, ty: de::Type) -> Seq<char> {
    match inherited.id {
        Some((id, overwrite)) => if !overwrite && own_id(ty) is Some {
            own_id(ty)->0
        } else {
            id
        },
        None => own_id(ty)->0,
    }
}

/// A type's byte order: its own, else the inherited one.
pub open spec fn chosen_endianness(inherited: InheritedModel, ty: de::Type) -> Endianness {
    match own_endianness(ty) {
        Some(e) => e,
        None => inherited.endianness->0,
    }
}

/// A type's bit order: its own, else the inherited one, else most significant bit first.
pub open spec fn chosen_bit_endianness(inherited: InheritedModel, ty: de::Type) -> Endianness {
    match own_bit_endianness(ty) {
        Some(e) => e,
        None => match inherited.bit_endianness {
            Some(e) => e,
            None => Endianness::Be,
        },
    }
}

/// What a type declared under a name inherits from a type with these byte and bit orders.
pub open spec fn handed_down(name: Seq<char>, endianness: Endianness, bit_endianness: Endianness) -> InheritedModel {
    InheritedModel {
        id: Some((upper_camel(name), false)),
        endianness: Some(endianness),
        bit_endianness: Some(bit_endianness),
    }
}

/// The checked form of a type.
pub open spec fn lowered_struct(inherited: InheritedModel, ty: de::Type) -> StructModel
    decreases ty,
{
    let endianness = chosen_endianness(inherited, ty);
    let bit_endianness = chosen_bit_endianness(inherited, ty);
    StructModel {
        id: chosen_id(inherited, ty),
        endianness,
        bit_endianness,
        doc: DocModel::of(own_doc(ty), ty.doc@),
        seq: lowered_seq(own_doc(ty), ty.seq@),
        types: lowered_types(ty.types@, endianness, bit_endianness),
        enums: enums_model(ty.enums@),
    }
}

/// The checked forms of the types that are declared in a type with these byte and bit orders.
pub open spec fn lowered_types(
    types: Seq<(String, de::Type)>,
    endianness: Endianness,
    bit_endianness: Endianness,
) -> Seq<StructModel>
    decreases types,
{
    Seq::new(
        types.len(),
        |i: int|
            if 0 <= i < types.len() {
                lowered_struct(handed_down(types[i].0@, endianness, bit_endianness), types[i].1)
            } else {
                vstd::pervasive::arbitrary()
            },
    )
}

/// The type has an identifier and a byte order, its own or an inherited one, all names are
/// identifiers, and its fields and the types declared in it have a checked form.
pub open spec fn struct_ok(inherited: InheritedModel, ty: de::Type) -> bool
    decreases ty,
{
    &&& own_id(ty) matches Some(id) ==> valid_ident(id)
    &&& inherited.id is Some || own_id(ty) is Some
    &&& own_endianness(ty) is Some || inherited.endianness is Some
    &&& seq_ok(ty.seq@)
    &&& types_ok(ty.types@, chosen_endianness(inherited, ty), chosen_bit_endianness(inherited, ty))
}

/// The types that are declared in a type with these byte and bit orders have a checked form.
pub open spec fn types_ok(
    types: Seq<(String, de::Type)>,
    endianness: Endianness,
    bit_endianness: Endianness,
) -> bool
    decreases types,
{
    forall|i: int|
        0 <= i < types.len() ==> valid_ident(upper_camel((#[trigger] types[i]).0@)) && struct_ok(
            handed_down(types[i].0@, endianness, bit_endianness),
            types[i].1,
        )
}

/// The identifier that a type gives itself.
fn own_ident(ty: &de::Type) -> (r: Option<Ident>)
    requires
        own_id(*ty) matches Some(id) ==> valid_ident(id),
    ensures
        match r {
            Some(id) => own_id(*ty) == Some(id@),
            None => own_id(*ty) is None,
        },
{
    match &ty.meta {
        Some(meta) => match &meta.id {
            Some(id) => {
                let name = sc_to_ucc(id.as_str());
                Some(Ident::new(name.as_str()))
            },
            None => None,
        },
        None => None,
    }
}

/// The byte order of a type, where it has one.
fn byte_order(inherited: &InheritedMeta, ty: &de::Type) -> (r: Option<Endianness>)
    ensures
        r is Some <==> own_endianness(*ty) is Some || inherited@.endianness is Some,
        r matches Some(e) ==> e == chosen_endianness(inherited@, *ty),
{
    match &ty.meta {
        Some(meta) => match meta.endianness {
            Some(e) => Some(e),
            None => inherited.endianness,
        },
        None => inherited.endianness,
    }
}

/// The bit order of a type.
fn bit_order(inherited: &InheritedMeta, ty: &de::Type) -> (r: Endianness)
    ensures
        r == chosen_bit_endianness(inherited@, *ty),
{
    let own = match &ty.meta {
        Some(meta) => meta.bit_endian,
        None => None,
    };
    match own {
        Some(e) => e,
        None => match inherited.bit_endianness {
            Some(e) => e,
            None => Endianness::Be,
        },
    }
}

/// What a type declared under a name inherits from a type with these byte and bit orders.
fn hand_down(name: &str, endianness: Endianness, bit_endianness: Endianness) -> (r: InheritedMeta)
    requires
        valid_ident(upper_camel(name@)),
    ensures
        r@ == handed_down(name@, endianness, bit_endianness),
{
    let id = sc_to_ucc(name);
    InheritedMeta {
        id: Some((Ident::new(id.as_str()), false)),
        endianness: Some(endianness),
        bit_endianness: Some(bit_endianness),
    }
}

/// Tests whether a type has a checked form.
pub fn is_struct_ok(inherited: &InheritedMeta, ty: &de::Type) -> (r: bool)
    ensures
        r == struct_ok(inherited@, *ty),
    decreases ty,
{
    let named = match &ty.meta {
        Some(meta) => match &meta.id {
            Some(id) => {
                let name = sc_to_ucc(id.as_str());
                if !is_valid_ident(name.as_str()) {
                    return false;
                }
                true
            },
            None => false,
        },
        None => false,
    };
    if !named && inherited.id.is_none() {
        return false;
    }
    let endianness = match byte_order(inherited, ty) {
        Some(e) => e,
        None => {
            return false;
        },
    };
    if !is_seq_ok(&ty.seq) {
        return false;
    }
    let bit_endianness = bit_order(inherited, ty);
    for i in 0..ty.types.len()
        invariant
            endianness == chosen_endianness(inherited@, *ty),
            bit_endianness == chosen_bit_endianness(inherited@, *ty),
            forall|j: int|
                0 <= j < i ==> valid_ident(upper_camel((#[trigger] ty.types@[j]).0@)) && struct_ok(
                    handed_down(ty.types@[j].0@, endianness, bit_endianness),
                    ty.types@[j].1,
                ),
    {
        let name = sc_to_ucc(ty.types[i].0.as_str());
        if !is_valid_ident(name.as_str()) {
            assert(!valid_ident(upper_camel(ty.types@[i as int].0@)));
            return false;
        }
        let below = hand_down(ty.types[i].0.as_str(), endianness, bit_endianness);
        if !is_struct_ok(&below, &ty.types[i].1) {
            return false;
        }
    }
    true
}

impl Type {
    /// Checks a type.
    pub fn try_from(source: (InheritedMeta, de::Type)) -> (r: Result<Type, ()>)
        requires
            struct_ok(source.0@, source.1),
        ensures
            r matches Ok(ty) && ty@ == lowered_struct(source.0@, source.1),
        decreases source.1,
    {
        let ghost whole = source.1;
        let (inherited, ty) = source;
        let own = own_ident(&ty);
        let endianness = match byte_order(&inherited, &ty) {
            Some(e) => e,
            None => unreached(),
        };
        let bit_endianness = bit_order(&inherited, &ty);
        let id = match inherited.id {
            Some((id, overwrite)) => if overwrite {
                id
            } else {
                match own {
                    Some(own) => own,
                    None => id,
                }
            },
            None => match own {
                Some(own) => own,
                None => unreached(),
            },
        };
        let meta_doc = match &ty.meta {
            Some(meta) => Some(meta.doc.clone()),
            None => None,
        };
        let doc = Doc::from((meta_doc.clone(), ty.doc));
        let seq = Attributes::try_from((meta_doc, ty.seq))?;
        let ghost lowered = lowered_types(whole.types@, endianness, bit_endianness);
        let mut types: Vec<Type> = Vec::new();
        for entry in it: ty.types.into_iter()
            invariant
                source.1 == whole,
                it.seq() == whole.types@,
                types_ok(whole.types@, endianness, bit_endianness),
                lowered == lowered_types(whole.types@, endianness, bit_endianness),
                types@.len() == it.index(),
                forall|j: int| 0 <= j < types@.len() ==> (#[trigger] types@[j])@ == lowered[j],
        {
            let ghost i = it.index();
            assert(entry == whole.types@[i]);
            assert(decreases_to!(whole => whole.types@[i].1));
            let (name, nested) = entry;
            let below = hand_down(name.as_str(), endianness, bit_endianness);
            types.push(Type::try_from((below, nested))?);
        }
        let r = Type { id, endianness, bit_endianness, doc, seq, types, enums: ty.enums };
        proof {
            lemma_types_model(r);
            assert(r@.types =~= lowered);
        }
        Ok(r)
    }

    /// Checks a type that may have no checked form.
    pub fn checked_from(inherited: InheritedMeta, ty: de::Type) -> (r: Option<Type>)
        ensures
            r is Some <==> struct_ok(inherited@, ty),
            r matches Some(checked) ==> checked@ == lowered_struct(inherited@, ty),
    {
        if !is_struct_ok(&inherited, &ty) {
            return None;
        }
        match Type::try_from((inherited, ty)) {
            Ok(checked) => Some(checked),
            Err(_) => None,
        }
    }
}

} // verus!
