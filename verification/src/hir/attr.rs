//! The fields of a type.
use proc_macro2::TokenStream;
use vstd::hash_map::StringHashMap;
use vstd::pervasive::unreached;
use vstd::prelude::*;

use crate::code::{
    align_to_byte, align_to_byte_stream, cast_stream, each_trees, ensure_contents_stream, enum_of_stream,
    field_stream, finish_arm, let_statement_stream, match_exact_stream, match_or_fail_stream, new_call_stream,
    new_with_root_call_stream, read_bits_as_stream, read_bytes_full_stream, read_bytes_stream, read_call_stream,
    read_flag_stream, repeat_to_end_stream, vec_of, vec_of_stream,
};
pub use crate::de::IntegerValue;
pub use crate::hir::builtin::BuiltInType;
use crate::hir::builtin::{widen, widenable};
use crate::hir::doc::Doc;
use crate::hir::meta::Endianness;
use crate::hir::model::{
    accessors, all_assignable, all_bool, all_definable, assignments, case_arms, discriminant_type,
    field_definitions, field_ids, has_bit_fields, has_path, root_refs, root_refs_ok, stored, unifiable, unified,
    AttributeModel, LogicModel, RepeatModel, RootDeps, RootParamModel, RootRewrite, SizeModel, TypeModel,
};
pub use crate::hir::pattern::Pattern;
use crate::hir::pattern::PatternModel;
use crate::ident::{ident_texts, Ident};
use crate::text::{dots_to_underscores, ident_prefix, same_text, strip, undot};
use crate::tokens::{empty, push_ident, read_code, rust_code, trees, valid_ident, word};

verus! {

/// A value of the root type that a type's fields switch on. The type is built with
/// `new_with_root`, to which its parent hands the value.
#[derive(Clone, Debug)]
pub struct RootParam {
    /// The full `_root.…` path of the switch.
    pub path: String,
    /// The parameter's identifier: `_root.flags.wide` becomes `root_flags_wide`.
    pub param_ident: Ident,
    /// The Rust type of the parameter.
    pub param_ty: TokenStream,
    /// The expression that gives the value in the parent's scope: `flags.wide`.
    pub accessor: TokenStream,
}

impl View for RootParam {
    type V = RootParamModel;

    open spec fn view(&self) -> RootParamModel {
        RootParamModel {
            path: self.path@,
            param_ident: self.param_ident@,
            param_ty: trees(self.param_ty),
            accessor: trees(self.accessor),
        }
    }
}

pub open spec fn params_model(params: Seq<RootParam>) -> Seq<RootParamModel> {
    params.map_values(|p: RootParam| p@)
}

/// The values that each type needs of the root type, by the type's identifier.
pub type RootDepMap = StringHashMap<Vec<RootParam>>;

pub open spec fn deps_model(m: Map<Seq<char>, Vec<RootParam>>) -> RootDeps {
    m.map_values(|v: Vec<RootParam>| params_model(v@))
}

/// The local identifier that stands for each path into the root type.
pub type RootRewriteMap = StringHashMap<Ident>;

pub open spec fn rewrite_model(m: Map<Seq<char>, Ident>) -> RootRewrite {
    m.map_values(|i: Ident| i@)
}

#[derive(Clone, Debug)]
pub enum Type {
    UserDefined(Ident),
    BuiltIn { ty: BuiltInType, en: Option<Ident> },
}

impl View for Type {
    type V = TypeModel;

    open spec fn view(&self) -> TypeModel {
        match self {
            Type::UserDefined(id) => TypeModel::UserDefined(id@),
            Type::BuiltIn { ty, en } => TypeModel::BuiltIn {
                ty: *ty,
                en: match en {
                    Some(id) => Some(id@),
                    None => None,
                },
            },
        }
    }
}

impl Type {
    /// The Rust type of a value.
    pub fn ty(&self) -> (r: TokenStream)
        ensures
            trees(r) == self@.rust_type(),
    {
        let mut r = empty();
        match self {
            Type::UserDefined(id) => id.to_tokens(&mut r),
            Type::BuiltIn { ty, en } => {
                if let Some(enum_id) = en {
                    enum_id.to_tokens(&mut r)
                } else {
                    ty.to_tokens(&mut r)
                }
            },
        }
        r
    }

    /// The expression that reads a value. Bit fields are read from the most significant bit
    /// on, whatever the bit order.
    pub fn expr(
        &self,
        endianness: Endianness,
        bit_endianness: Endianness,
        root_dep_map: &RootDepMap,
    ) -> (r: TokenStream)
        ensures
            trees(r) == self@.read(endianness, deps_model(root_dep_map@)),
    {
        match self {
            Type::UserDefined(id) => {
                if let Some(params) = root_dep_map.get(id.as_str()) {
                    let arguments = accessor_streams(params);
                    new_with_root_call_stream(id, &arguments)
                } else {
                    new_call_stream(id)
                }
            },
            Type::BuiltIn { ty, en } => match *ty {
                BuiltInType::Bits(n) => {
                    if n == 1 {
                        read_flag_stream(n)
                    } else {
                        read_bits_as_stream(n)
                    }
                },
                _ => {
                    let read_call = read_call_stream(*ty, endianness);
                    if let Some(enum_ident) = en {
                        enum_of_stream(enum_ident, read_call)
                    } else {
                        read_call
                    }
                },
            },
        }
    }

    /// The built-in type, where it is one that no enumeration is laid over.
    pub fn plain(&self) -> (r: Option<BuiltInType>)
        ensures
            r == self@.plain(),
    {
        match self {
            Type::BuiltIn { ty, en: None } => Some(*ty),
            _ => None,
        }
    }
}

/// The expressions that reach the values which a type needs of the root type.
fn accessor_streams(params: &Vec<RootParam>) -> (r: Vec<TokenStream>)
    ensures
        each_trees(r@) == accessors(params_model(params@)),
{
    let mut r: Vec<TokenStream> = Vec::new();
    let ghost want = accessors(params_model(params@));
    for i in 0..params.len()
        invariant
            want == accessors(params_model(params@)),
            each_trees(r@) == want.take(i as int),
    {
        let ghost before = r@;
        r.push(params[i].accessor.clone());
        assert(each_trees(r@) =~= each_trees(before).push(trees(r@.last())));
        assert(want.take(i + 1) =~= want.take(i as int).push(want[i as int]));
    }
    assert(want.take(params@.len() as int) =~= want);
    r
}

pub open spec fn cases_model(cases: Seq<(Pattern, Type)>) -> Seq<(PatternModel, TypeModel)> {
    cases.map_values(|c: (Pattern, Type)| (c.0@, c.1@))
}

/// Tests whether all patterns are truth values.
pub fn is_all_bool(cases: &Vec<(Pattern, Type)>) -> (r: bool)
    ensures
        r == all_bool(cases_model(cases@)),
{
    let ghost model = cases_model(cases@);
    for i in 0..cases.len()
        invariant
            model == cases_model(cases@),
            forall|j: int| 0 <= j < i ==> (#[trigger] model[j]).0 is Bool,
    {
        assert(model[i as int].0 == cases@[i as int].0@);
        match &cases[i].0 {
            Pattern::Bool(_) => {},
            _ => {
                return false;
            },
        }
    }
    true
}

/// The type that the types of all cases are widened to: the smallest that fits every case
/// (`u1` and `u2` give `u16`). Only integer types are supported.
pub fn unify_switch_cases(cases: &Vec<(Pattern, Type)>) -> (r: BuiltInType)
    requires
        unifiable(cases_model(cases@)),
    ensures
        r == unified(cases_model(cases@)),
{
    match checked_unify(cases) {
        Some(ty) => ty,
        None => unreached(),
    }
}

/// The type that the types of all cases are widened to, where there is one.
pub fn checked_unify(cases: &Vec<(Pattern, Type)>) -> (r: Option<BuiltInType>)
    ensures
        r is Some <==> unifiable(cases_model(cases@)),
        r matches Some(ty) ==> ty == unified(cases_model(cases@)),
{
    let ghost model = cases_model(cases@);
    let mut r: Option<BuiltInType> = None;
    for i in 0..cases.len()
        invariant
            model == cases_model(cases@),
            i > 0 ==> r is Some,
            i == 0 ==> r is None,
            i > 0 ==> unifiable(model.take(i as int)),
            r matches Some(ty) ==> ty == unified(model.take(i as int)),
    {
        proof {
            assert(model[i as int].1 == cases@[i as int].1@);
            assert(model.take(i + 1).drop_last() =~= model.take(i as int));
            assert(model.take(i + 1).last() == model[i as int]);
            if !unifiable(model.take(i + 1)) {
                lemma_unifiable_prefix(model, i + 1);
            }
        }
        match cases[i].1.plain() {
            None => {
                return None;
            },
            Some(ty) => match r {
                None => {
                    if !ty.is_integer() {
                        return None;
                    }
                    assert(model.take(i + 1)[0] == model[0]);
                    r = Some(ty);
                },
                Some(so_far) => {
                    if !ty.is_integer() || !can_widen(so_far, ty) {
                        return None;
                    }
                    r = Some(widen(so_far, ty));
                },
            },
        }
    }
    assert(model.take(cases@.len() as int) =~= model);
    r
}

proof fn lemma_unifiable_prefix(cases: Seq<(PatternModel, TypeModel)>, n: int)
    requires
        0 < n <= cases.len(),
        !unifiable(cases.take(n)),
    ensures
        !unifiable(cases),
    decreases cases.len() - n,
{
    if n == cases.len() {
        assert(cases.take(n) =~= cases);
    } else {
        assert(cases.take(n + 1).drop_last() =~= cases.take(n));
        lemma_unifiable_prefix(cases, n + 1);
    }
}

/// Tests whether two types can be widened to a common one.
pub fn can_widen(a: BuiltInType, b: BuiltInType) -> (r: bool)
    ensures
        r == widenable(a, b),
{
    if a == b {
        return true;
    }
    let bits = matches!(a, BuiltInType::Bits(_)) || matches!(b, BuiltInType::Bits(_));
    !bits && !a.is_float() && !b.is_float() && a.is_signed() == b.is_signed()
}

/// The Rust type of what a switch is on: `bool` where all patterns are truth values, else a
/// widened integer type.
pub fn discriminant_type_from_cases(cases: &Vec<(Pattern, Type)>) -> (r: TokenStream)
    requires
        all_bool(cases_model(cases@)) || unifiable(cases_model(cases@)),
    ensures
        trees(r) == discriminant_type(cases_model(cases@)),
{
    let mut r = empty();
    if is_all_bool(cases) {
        proof {
            reveal_with_fuel(ident_prefix, 5);
            reveal_strlit("bool");
        }
        push_ident(&mut r, "bool");
    } else {
        unify_switch_cases(cases).to_tokens(&mut r);
    }
    r
}

#[derive(Clone, Debug)]
pub enum Size {
    Fixed(IntegerValue),
    Eos,
}

impl View for Size {
    type V = SizeModel;

    open spec fn view(&self) -> SizeModel {
        match self {
            Size::Fixed(count) => SizeModel::Fixed(count@),
            Size::Eos => SizeModel::Eos,
        }
    }
}

#[derive(Clone, Debug)]
pub enum Repeat {
    Eos,
    Expr(IntegerValue),
    Until(String),
}

impl View for Repeat {
    type V = RepeatModel;

    open spec fn view(&self) -> RepeatModel {
        match self {
            Repeat::Eos => RepeatModel::Eos,
            Repeat::Expr(count) => RepeatModel::Expr(count@),
            Repeat::Until(condition) => RepeatModel::Until(condition@),
        }
    }
}

/// How the value of a field is read.
#[derive(Clone, Debug)]
pub enum Logic {
    FixedContents(Vec<u8>),
    Type(Type),
    Switch { on: String, cases: Vec<(Pattern, Type)> },
    Size(Size),
    Process(String),
}

impl View for Logic {
    type V = LogicModel;

    open spec fn view(&self) -> LogicModel {
        match self {
            Logic::FixedContents(bytes) => LogicModel::FixedContents(bytes@),
            Logic::Type(ty) => LogicModel::Type(ty@),
            Logic::Switch { on, cases } => LogicModel::Switch { on: on@, cases: cases_model(cases@) },
            Logic::Size(size) => LogicModel::Size(size@),
            Logic::Process(routine) => LogicModel::Process(routine@),
        }
    }
}

#[derive(Clone, Debug)]
pub struct Attribute {
    pub id: Ident,
    pub doc: Doc,
    pub repeat: Option<Repeat>,
    pub logic: Logic,
}

impl View for Attribute {
    type V = AttributeModel;

    open spec fn view(&self) -> AttributeModel {
        AttributeModel {
            id: self.id@,
            doc: self.doc@,
            repeat: match self.repeat {
                Some(repeat) => Some(repeat@),
                None => None,
            },
            logic: self.logic@,
        }
    }
}

impl Attribute {
    /// Tests whether the field has a place in the generated struct.
    pub fn is_stored(&self) -> (r: bool)
        requires
            !(self.logic is Process),
        ensures
            r == self@.stored(),
    {
        !matches!(&self.logic, Logic::FixedContents(_))
    }

    /// Tests whether the field is a bit-width field (`b1` to `b64`).
    pub fn is_bit_field(&self) -> (r: bool)
        ensures
            r == self@.bit_field(),
    {
        match &self.logic {
            Logic::Type(Type::BuiltIn { ty, en }) => matches!(ty, BuiltInType::Bits(_)),
            _ => false,
        }
    }

    /// Tests whether the generator has code for the field's type.
    pub fn is_definable(&self) -> (r: bool)
        ensures
            r == self@.definable(),
    {
        match &self.logic {
            Logic::Switch { on, cases } => checked_unify(cases).is_some(),
            Logic::Process(_) => false,
            _ => true,
        }
    }

    /// The field of the generated struct; nothing for one that is not stored.
    pub fn field_definition(&self) -> (r: TokenStream)
        requires
            self@.definable(),
        ensures
            trees(r) == self@.field_definition(),
    {
        let mut ty = match &self.logic {
            Logic::FixedContents(_) => {
                return empty();
            },
            Logic::Type(ty) => ty.ty(),
            Logic::Switch { on, cases } => {
                let mut unified = empty();
                unify_switch_cases(cases).to_tokens(&mut unified);
                unified
            },
            _ => byte_vec_stream(),
        };
        if self.repeat.is_some() {
            ty = vec_of_stream(&ty);
        }
        field_stream(&self.doc, &self.id, &ty)
    }

    /// Tests whether the generator has code for reading the field, where paths into the root
    /// type are rewritten as given.
    pub fn is_assignable(&self, root_rewrite: &RootRewriteMap) -> (r: bool)
        ensures
            r == self@.assignable(rewrite_model(root_rewrite@)),
    {
        if !self.is_definable() {
            return false;
        }
        if self.is_stored() {
            match &self.repeat {
                None | Some(Repeat::Eos) => {},
                _ => {
                    return false;
                },
            }
        }
        match &self.logic {
            Logic::Switch { on, cases } => {
                if !root_rewrite.contains_key(on.as_str()) && read_code(on.as_str()).is_none() {
                    return false;
                }
                let ghost model = cases_model(cases@);
                for i in 0..cases.len()
                    invariant
                        model == cases_model(cases@),
                        self@.logic == (LogicModel::Switch { on: on@, cases: model }),
                        forall|j: int| 0 <= j < i ==> (#[trigger] model[j]).0.renderable(),
                {
                    assert(model[i as int].0 == cases@[i as int].0@);
                    if !cases[i].0.is_renderable() {
                        return false;
                    }
                }
                true
            },
            _ => true,
        }
    }

    /// The `let` statement that reads the field.
    ///
    /// `root_dep_map` holds, for a type that is built with `new_with_root`, the values to
    /// hand it. `root_rewrite` holds the local identifier that stands for a path into the
    /// root type.
    pub fn variable_assignment(
        &self,
        endianness: Endianness,
        bit_endianness: Endianness,
        root_dep_map: &RootDepMap,
        root_rewrite: &RootRewriteMap,
    ) -> (r: TokenStream)
        requires
            self@.assignable(rewrite_model(root_rewrite@)),
        ensures
            trees(r) == self@.assignment(endianness, deps_model(root_dep_map@), rewrite_model(root_rewrite@)),
    {
        let mut expr = match &self.logic {
            Logic::FixedContents(contents) => {
                return ensure_contents_stream(contents);
            },
            Logic::Type(ty) => ty.expr(endianness, bit_endianness, root_dep_map),
            Logic::Switch { on, cases } => {
                let on_tokens = scrutinee_stream(on.as_str(), root_rewrite);
                switch_stream(&on_tokens, cases, endianness, bit_endianness, root_dep_map)
            },
            Logic::Size(Size::Fixed(count)) => read_bytes_stream(&count.tokens),
            _ => read_bytes_full_stream(),
        };
        if self.repeat.is_some() {
            expr = repeat_to_end_stream(expr);
        }
        let_statement_stream(&self.id, &expr)
    }
}

/// `::std::vec::Vec<u8>`
fn byte_vec_stream() -> (r: TokenStream)
    ensures
        trees(r) == vec_of(seq![word("u8")]),
{
    let mut byte = empty();
    BuiltInType::U8.to_tokens(&mut byte);
    vec_of_stream(&byte)
}

/// What a switch is on, as Rust code.
fn scrutinee_stream(on: &str, root_rewrite: &RootRewriteMap) -> (r: TokenStream)
    requires
        rewrite_model(root_rewrite@).contains_key(on@) || rust_code(on@) is Some,
    ensures
        trees(r) == AttributeModel::scrutinee(on@, rewrite_model(root_rewrite@)),
{
    if let Some(rewrite_ident) = root_rewrite.get(on) {
        let mut r = empty();
        rewrite_ident.to_tokens(&mut r);
        r
    } else {
        match read_code(on) {
            Some(stream) => stream,
            None => unreached(),
        }
    }
}

/// The match of a switch.
fn switch_stream(
    on: &TokenStream,
    cases: &Vec<(Pattern, Type)>,
    endianness: Endianness,
    bit_endianness: Endianness,
    root_dep_map: &RootDepMap,
) -> (r: TokenStream)
    requires
        unifiable(cases_model(cases@)),
        forall|i: int| 0 <= i < cases@.len() ==> (#[trigger] cases_model(cases@)[i]).0.renderable(),
    ensures
        trees(r) == crate::hir::model::switch(
            trees(*on),
            cases_model(cases@),
            endianness,
            deps_model(root_dep_map@),
        ),
{
    let unified = unify_switch_cases(cases);
    let all_bool = is_all_bool(cases);
    let ghost model = cases_model(cases@);
    let ghost deps = deps_model(root_dep_map@);
    let ghost want = case_arms(model, endianness, deps, unified);
    let mut arms: Vec<TokenStream> = Vec::new();
    for i in 0..cases.len()
        invariant
            model == cases_model(cases@),
            deps == deps_model(root_dep_map@),
            want == case_arms(model, endianness, deps, unified),
            forall|i: int| 0 <= i < cases@.len() ==> (#[trigger] cases_model(cases@)[i]).0.renderable(),
            each_trees(arms@) == want.take(i as int),
    {
        assert(model[i as int] == (cases@[i as int].0@, cases@[i as int].1@));
        assert(cases_model(cases@)[i as int].0.renderable());
        let read = cases[i].1.expr(endianness, bit_endianness, root_dep_map);
        let same = match cases[i].1.plain() {
            Some(own) => own == unified,
            None => false,
        };
        let value = if same {
            read
        } else {
            cast_stream(read, unified)
        };
        let mut arm = empty();
        cases[i].0.to_tokens(&mut arm);
        assert(trees(arm) =~= model[i as int].0.tokens());
        finish_arm(&mut arm, &value);
        let ghost before = arms@;
        arms.push(arm);
        assert(each_trees(arms@) =~= each_trees(before).push(trees(arm)));
        assert(want.take(i + 1) =~= want.take(i as int).push(want[i as int]));
    }
    assert(want.take(cases@.len() as int) =~= want);
    if all_bool {
        match_exact_stream(on, &arms)
    } else {
        match_or_fail_stream(on, &arms)
    }
}

/// The fields of a type, in the order in which they are read.
#[derive(Clone, Debug)]
pub struct Attributes(pub Vec<Attribute>);

pub open spec fn attrs_model(attrs: Seq<Attribute>) -> Seq<AttributeModel> {
    attrs.map_values(|a: Attribute| a@)
}

impl View for Attributes {
    type V = Seq<AttributeModel>;

    open spec fn view(&self) -> Seq<AttributeModel> {
        attrs_model(self.0@)
    }
}

/// Tests whether a parameter for the path is among the parameters.
fn contains_path(params: &Vec<RootParam>, path: &str) -> (r: bool)
    ensures
        r == has_path(params_model(params@), path@),
{
    let ghost model = params_model(params@);
    for i in 0..params.len()
        invariant
            model == params_model(params@),
            forall|j: int| 0 <= j < i ==> (#[trigger] model[j]).path != path@,
    {
        assert(model[i as int] == params@[i as int]@);
        if same_text(params[i].path.as_str(), path) {
            return true;
        }
    }
    false
}

impl Attributes {
    /// The fields of the generated struct.
    pub fn field_definitions(&self) -> (r: Vec<TokenStream>)
        requires
            all_definable(self@),
        ensures
            each_trees(r@) == field_definitions(self@),
    {
        let ghost model = self@;
        let mut r: Vec<TokenStream> = Vec::new();
        for i in 0..self.0.len()
            invariant
                model == self@,
                all_definable(model),
                each_trees(r@) == field_definitions(model.take(i as int)),
        {
            proof {
                assert(model[i as int] == self.0@[i as int]@);
                lemma_stored_step(model, i as int);
            }
            let ghost before = r@;
            if self.0[i].is_stored() {
                r.push(self.0[i].field_definition());
                assert(each_trees(r@) =~= each_trees(before).push(trees(r@.last())));
                assert(field_definitions(model.take(i + 1)) =~= field_definitions(model.take(i as int)).push(
                    model[i as int].field_definition(),
                ));
            }
        }
        assert(model.take(self.0@.len() as int) =~= model);
        r
    }

    /// The identifiers of the fields of the generated struct.
    pub fn field_assignments(&self) -> (r: Vec<&Ident>)
        requires
            forall|i: int| 0 <= i < self@.len() ==> !((#[trigger] self@[i]).logic is Process),
        ensures
            ident_texts(r@) == field_ids(self@),
    {
        let ghost model = self@;
        let mut r: Vec<&Ident> = Vec::new();
        for i in 0..self.0.len()
            invariant
                model == self@,
                forall|i: int| 0 <= i < model.len() ==> !((#[trigger] model[i]).logic is Process),
                ident_texts(r@) == field_ids(model.take(i as int)),
        {
            proof {
                assert(model[i as int] == self.0@[i as int]@);
                lemma_stored_step(model, i as int);
            }
            let ghost before = r@;
            if self.0[i].is_stored() {
                r.push(&self.0[i].id);
                assert(ident_texts(r@) =~= ident_texts(before).push(model[i as int].id));
                assert(field_ids(model.take(i + 1)) =~= field_ids(model.take(i as int)).push(model[i as int].id));
            }
        }
        assert(model.take(self.0@.len() as int) =~= model);
        r
    }

    /// Tests whether a field is a bit-width field.
    pub fn has_bit_fields(&self) -> (r: bool)
        ensures
            r == has_bit_fields(self@),
    {
        let ghost model = self@;
        for i in 0..self.0.len()
            invariant
                model == self@,
                forall|j: int| 0 <= j < i ==> !(#[trigger] model[j]).bit_field(),
        {
            assert(model[i as int] == self.0@[i as int]@);
            if self.0[i].is_bit_field() {
                return true;
            }
        }
        false
    }

    /// The values of the root type that the fields switch on, each path once.
    pub fn root_refs(&self) -> (r: Vec<RootParam>)
        requires
            root_refs_ok(self@),
        ensures
            params_model(r@) == root_refs(self@),
    {
        match self.checked_root_refs() {
            Some(params) => params,
            None => unreached(),
        }
    }

    /// The values of the root type that the fields switch on, where each can be named, typed
    /// and reached.
    pub fn checked_root_refs(&self) -> (r: Option<Vec<RootParam>>)
        ensures
            r is Some <==> root_refs_ok(self@),
            r matches Some(params) ==> params_model(params@) == root_refs(self@),
    {
        let ghost model = self@;
        let mut r: Vec<RootParam> = Vec::new();
        assert(params_model(r@) =~= root_refs(model.take(0)));
        for i in 0..self.0.len()
            invariant
                model == self@,
                root_refs_ok(model.take(i as int)),
                params_model(r@) == root_refs(model.take(i as int)),
        {
            proof {
                assert(model[i as int] == self.0@[i as int]@);
                assert(model.take(i + 1).drop_last() =~= model.take(i as int));
                assert(model.take(i + 1).last() == model[i as int]);
                if !root_refs_ok(model.take(i + 1)) {
                    lemma_root_refs_ok_prefix(model, i + 1);
                }
            }
            if let Logic::Switch { on, cases } = &self.0[i].logic {
                if let Some(below) = strip(on.as_str(), "_root.") {
                    if !contains_path(&r, on.as_str()) {
                        match root_param(on.as_str(), below, cases) {
                            None => {
                                return None;
                            },
                            Some(param) => {
                                let ghost before = r@;
                                r.push(param);
                                assert(params_model(r@) =~= params_model(before).push(param@));
                            },
                        }
                    }
                }
            }
        }
        assert(model.take(self.0@.len() as int) =~= model);
        Some(r)
    }

    /// Tests whether the generator has code for each field.
    pub fn is_all_assignable(&self, root_rewrite: &RootRewriteMap) -> (r: bool)
        ensures
            r == all_assignable(self@, rewrite_model(root_rewrite@)),
    {
        let ghost model = self@;
        for i in 0..self.0.len()
            invariant
                model == self@,
                forall|j: int| 0 <= j < i ==> (#[trigger] model[j]).assignable(rewrite_model(root_rewrite@)),
        {
            assert(model[i as int] == self.0@[i as int]@);
            if !self.0[i].is_assignable(root_rewrite) {
                return false;
            }
        }
        true
    }

    /// The statements that read the fields, for the body of `new`.
    ///
    /// Behind a run of bit fields the stream is aligned to a byte. A type that
    /// `root_dep_map` has an entry for is built with `new_with_root`.
    pub fn variable_assignments(
        &self,
        endianness: Endianness,
        bit_endianness: Endianness,
        root_dep_map: &RootDepMap,
    ) -> (r: Vec<TokenStream>)
        requires
            all_assignable(self@, Map::empty()),
        ensures
            each_trees(r@) == assignments(self@, endianness, deps_model(root_dep_map@), Map::empty()),
    {
        let empty_rewrite: RootRewriteMap = StringHashMap::new();
        assert(rewrite_model(empty_rewrite@) =~= Map::empty());
        self.statements(endianness, bit_endianness, root_dep_map, &empty_rewrite)
    }

    /// The statements that read the fields, for the body of `new_with_root` of a type in which
    /// none is declared that needs values of the root type: a path into the root type is replaced
    /// by the parameter that stands for it.
    pub fn variable_assignments_with_root_rewrite(
        &self,
        endianness: Endianness,
        bit_endianness: Endianness,
        root_rewrite: &RootRewriteMap,
    ) -> (r: Vec<TokenStream>)
        requires
            all_assignable(self@, rewrite_model(root_rewrite@)),
        ensures
            each_trees(r@) == assignments(self@, endianness, Map::empty(), rewrite_model(root_rewrite@)),
    {
        let empty_root_dep: RootDepMap = StringHashMap::new();
        assert(deps_model(empty_root_dep@) =~= Map::empty());
        self.statements(endianness, bit_endianness, &empty_root_dep, root_rewrite)
    }

    /// The statements that read the fields, where paths into the root type are rewritten as
    /// given and types are handed values of the root type as given.
    pub(crate) fn statements(
        &self,
        endianness: Endianness,
        bit_endianness: Endianness,
        root_dep_map: &RootDepMap,
        root_rewrite: &RootRewriteMap,
    ) -> (r: Vec<TokenStream>)
        requires
            all_assignable(self@, rewrite_model(root_rewrite@)),
        ensures
            each_trees(r@) == assignments(
                self@,
                endianness,
                deps_model(root_dep_map@),
                rewrite_model(root_rewrite@),
            ),
    {
        let ghost model = self@;
        let ghost deps = deps_model(root_dep_map@);
        let ghost rewrite = rewrite_model(root_rewrite@);
        let mut r: Vec<TokenStream> = Vec::new();
        let mut in_bit_run: bool = false;
        assert(each_trees(r@) =~= assignments(model.take(0), endianness, deps, rewrite));
        for i in 0..self.0.len()
            invariant
                model == self@,
                deps == deps_model(root_dep_map@),
                rewrite == rewrite_model(root_rewrite@),
                all_assignable(model, rewrite),
                in_bit_run == (i > 0 && model[i - 1].bit_field()),
                each_trees(r@) == assignments(model.take(i as int), endianness, deps, rewrite),
        {
            proof {
                assert(model[i as int] == self.0@[i as int]@);
                assert(model.take(i + 1).drop_last() =~= model.take(i as int));
                assert(model.take(i + 1).last() == model[i as int]);
                assert(i > 0 ==> model.take(i + 1)[i - 1] == model[i - 1]);
            }
            let ghost before = r@;
            let is_bit = self.0[i].is_bit_field();
            if in_bit_run && !is_bit {
                r.push(align_to_byte_stream());
                assert(each_trees(r@) =~= each_trees(before).push(align_to_byte()));
            }
            in_bit_run = is_bit;
            let ghost aligned = r@;
            r.push(self.0[i].variable_assignment(endianness, bit_endianness, root_dep_map, root_rewrite));
            assert(each_trees(r@) =~= each_trees(aligned).push(trees(r@.last())));
        }
        assert(model.take(self.0@.len() as int) =~= model);
        r
    }
}

/// The value of the root type at the path `on`, which is `below` under the root, where it can
/// be named, typed and reached.
fn root_param(on: &str, below: &str, cases: &Vec<(Pattern, Type)>) -> (r: Option<RootParam>)
    ensures
        r is Some <==> {
            &&& valid_ident("root_"@ + dots_to_underscores(below@))
            &&& all_bool(cases_model(cases@)) || unifiable(cases_model(cases@))
            &&& rust_code(below@) is Some
        },
        r matches Some(param) ==> param@ == (RootParamModel {
            path: on@,
            param_ident: "root_"@ + dots_to_underscores(below@),
            param_ty: discriminant_type(cases_model(cases@)),
            accessor: rust_code(below@)->0,
        }),
{
    let mut name = String::new();
    name.append("root_");
    name.append(undot(below).as_str());
    assert(name@ =~= "root_"@ + dots_to_underscores(below@));
    if !is_all_bool(cases) && checked_unify(cases).is_none() {
        return None;
    }
    match (Ident::checked(name.as_str()), read_code(below)) {
        (Some(param_ident), Some(accessor)) => Some(
            RootParam { path: on.to_owned(), param_ident, param_ty: discriminant_type_from_cases(cases), accessor },
        ),
        _ => None,
    }
}

proof fn lemma_stored_step(attrs: Seq<AttributeModel>, i: int)
    requires
        0 <= i < attrs.len(),
    ensures
        stored(attrs.take(i + 1)) == if attrs[i].stored() {
            stored(attrs.take(i)).push(attrs[i])
        } else {
            stored(attrs.take(i))
        },
{
    reveal(Seq::filter);
    assert(attrs.take(i + 1).drop_last() =~= attrs.take(i));
}

proof fn lemma_root_refs_ok_prefix(attrs: Seq<AttributeModel>, n: int)
    requires
        0 <= n <= attrs.len(),
        !root_refs_ok(attrs.take(n)),
    ensures
        !root_refs_ok(attrs),
    decreases attrs.len() - n,
{
    if n == attrs.len() {
        assert(attrs.take(n) =~= attrs);
    } else {
        assert(attrs.take(n + 1).drop_last() =~= attrs.take(n));
        lemma_root_refs_ok_prefix(attrs, n + 1);
    }
}

} // verus!
