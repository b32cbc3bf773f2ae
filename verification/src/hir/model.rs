//! The mathematical model of fields, and the code that is generated for them.
use vstd::prelude::*;

use crate::code::{
    align_to_byte, arm, cast, ensure_contents, enum_of, field, let_statement, match_exact, match_or_fail, new_call,
    new_with_root_call, read_bits_as, read_bytes, read_bytes_full, read_call, read_flag, repeat_to_end, vec_of,
};
use crate::hir::builtin::{widenable, widened, BuiltInType};
use crate::hir::doc::DocModel;
use crate::hir::meta::Endianness;
use crate::hir::pattern::PatternModel;
use crate::text::{after_prefix, dots_to_underscores};
use crate::tokens::{rust_code, valid_ident, word, Token};

verus! {

/// A field's type.
pub enum TypeModel {
    UserDefined(Seq<char>),
    BuiltIn { ty: BuiltInType, en: Option<Seq<char>> },
}

pub enum SizeModel {
    Fixed(Seq<Token>),
    Eos,
}

pub enum RepeatModel {
    Eos,
    Expr(Seq<Token>),
    Until(Seq<char>),
}

pub enum LogicModel {
    FixedContents(Seq<u8>),
    Type(TypeModel),
    Switch { on: Seq<char>, cases: Seq<(PatternModel, TypeModel)> },
    Size(SizeModel),
    Process(Seq<char>),
}

pub struct AttributeModel {
    pub id: Seq<char>,
    pub doc: DocModel,
    pub repeat: Option<RepeatModel>,
    pub logic: LogicModel,
}

/// A value of the root type that a type needs.
pub struct RootParamModel {
    pub path: Seq<char>,
    pub param_ident: Seq<char>,
    pub param_ty: Seq<Token>,
    pub accessor: Seq<Token>,
}

/// The values that each type needs of the root type, by the type's identifier.
pub type RootDeps = Map<Seq<char>, Seq<RootParamModel>>;

/// The local identifier that stands for each path into the root type.
pub type RootRewrite = Map<Seq<char>, Seq<char>>;

pub open spec fn accessors(params: Seq<RootParamModel>) -> Seq<Seq<Token>> {
    params.map_values(|p: RootParamModel| p.accessor)
}

impl TypeModel {
    /// The built-in type, where it is one that no enumeration is laid over.
    pub open spec fn plain(self) -> Option<BuiltInType> {
        match self {
            TypeModel::BuiltIn { ty, en: None } => Some(ty),
            _ => None,
        }
    }

    pub open spec fn is_bits(self) -> bool {
        self matches TypeModel::BuiltIn { ty, .. } && ty is Bits
    }

    /// The Rust type of a value.
    pub open spec fn rust_type(self) -> Seq<Token> {
        match self {
            TypeModel::UserDefined(id) => seq![Token::Ident(id)],
            TypeModel::BuiltIn { ty, en } => match en {
                Some(id) => seq![Token::Ident(id)],
                None => seq![Token::Ident(ty.rust_name())],
            },
        }
    }

    /// The expression that reads a value. A type that needs values of the root type is
    /// handed them.
    pub open spec fn read(self, endianness: Endianness, deps: RootDeps) -> Seq<Token> {
        match self {
            TypeModel::UserDefined(id) => if deps.contains_key(id) {
                new_with_root_call(id, accessors(deps[id]))
            } else {
                new_call(id)
            },
            TypeModel::BuiltIn { ty, en } => match ty {
                BuiltInType::Bits(n) => if n == 1 {
                    read_flag(n)
                } else {
                    read_bits_as(n, ty.rust_name())
                },
                _ => match en {
                    Some(id) => enum_of(id, read_call(ty, endianness)),
                    None => read_call(ty, endianness),
                },
            },
        }
    }
}

/// All patterns of the cases are truth values.
pub open spec fn all_bool(cases: Seq<(PatternModel, TypeModel)>) -> bool {
    forall|i: int| 0 <= i < cases.len() ==> (#[trigger] cases[i]).0 is Bool
}

/// The type that the types of all cases are widened to.
pub open spec fn unified(cases: Seq<(PatternModel, TypeModel)>) -> BuiltInType
    decreases cases.len(),
{
    if cases.len() <= 1 {
        cases[0].1.plain()->0
    } else {
        widened(unified(cases.drop_last()), cases.last().1.plain()->0)
    }
}

/// There is a case, all cases have plain integer types, and these can be widened to one.
pub open spec fn unifiable(cases: Seq<(PatternModel, TypeModel)>) -> bool
    decreases cases.len(),
{
    &&& cases.len() > 0
    &&& cases.last().1.plain() matches Some(ty) && ty.integer()
    &&& cases.len() > 1 ==> unifiable(cases.drop_last()) && widenable(
        unified(cases.drop_last()),
        cases.last().1.plain()->0,
    )
}

/// The Rust type of what a switch is on.
pub open spec fn discriminant_type(cases: Seq<(PatternModel, TypeModel)>) -> Seq<Token> {
    if all_bool(cases) {
        seq![word("bool")]
    } else {
        seq![Token::Ident(unified(cases).rust_name())]
    }
}

/// The match arm of a case: what is read is cast to the common type where it has another.
pub open spec fn case_arm(
    case: (PatternModel, TypeModel),
    endianness: Endianness,
    deps: RootDeps,
    common: BuiltInType,
) -> Seq<Token> {
    let read = case.1.read(endianness, deps);
    arm(
        case.0.tokens(),
        if case.1.plain() == Some(common) {
            read
        } else {
            cast(read, common.rust_name())
        },
    )
}

pub open spec fn case_arms(
    cases: Seq<(PatternModel, TypeModel)>,
    endianness: Endianness,
    deps: RootDeps,
    common: BuiltInType,
) -> Seq<Seq<Token>> {
    cases.map_values(|c: (PatternModel, TypeModel)| case_arm(c, endianness, deps, common))
}

/// The match of a switch, with each value widened to the common type. Where not all patterns
/// are truth values, what no case covers is an error.
pub open spec fn switch(
    on: Seq<Token>,
    cases: Seq<(PatternModel, TypeModel)>,
    endianness: Endianness,
    deps: RootDeps,
) -> Seq<Token> {
    if all_bool(cases) {
        match_exact(on, case_arms(cases, endianness, deps, unified(cases)))
    } else {
        match_or_fail(on, case_arms(cases, endianness, deps, unified(cases)))
    }
}

impl AttributeModel {
    /// The field has a place in the generated struct.
    pub open spec fn stored(self) -> bool {
        !(self.logic is FixedContents)
    }

    pub open spec fn bit_field(self) -> bool {
        self.logic matches LogicModel::Type(ty) && ty.is_bits()
    }

    /// The generator has code for the field's type.
    pub open spec fn definable(self) -> bool {
        match self.logic {
            LogicModel::Switch { on, cases } => unifiable(cases),
            LogicModel::Process(_) => false,
            _ => true,
        }
    }

    /// The Rust type of one value of the field.
    pub open spec fn value_type(self) -> Seq<Token> {
        match self.logic {
            LogicModel::Type(ty) => ty.rust_type(),
            LogicModel::Switch { on, cases } => seq![Token::Ident(unified(cases).rust_name())],
            _ => vec_of(seq![word("u8")]),
        }
    }

    /// The field of the generated struct; nothing for one that is not stored.
    pub open spec fn field_definition(self) -> Seq<Token> {
        if !self.stored() {
            Seq::empty()
        } else {
            field(
                self.doc,
                self.id,
                if self.repeat is Some {
                    vec_of(self.value_type())
                } else {
                    self.value_type()
                },
            )
        }
    }

    /// The generator has code for reading the field, where paths into the root type are
    /// rewritten as given.
    pub open spec fn assignable(self, rewrite: RootRewrite) -> bool {
        &&& self.definable()
        &&& self.stored() ==> (self.repeat is None || self.repeat == Some(RepeatModel::Eos))
        &&& self.logic matches LogicModel::Switch { on, cases } ==> {
            &&& rewrite.contains_key(on) || rust_code(on) is Some
            &&& forall|i: int| 0 <= i < cases.len() ==> (#[trigger] cases[i]).0.renderable()
        }
    }

    /// What a switch is on, as Rust code.
    pub open spec fn scrutinee(on: Seq<char>, rewrite: RootRewrite) -> Seq<Token> {
        if rewrite.contains_key(on) {
            seq![Token::Ident(rewrite[on])]
        } else {
            rust_code(on)->0
        }
    }

    /// The expression that reads one value of the field.
    pub open spec fn value(self, endianness: Endianness, deps: RootDeps, rewrite: RootRewrite) -> Seq<Token> {
        match self.logic {
            LogicModel::Type(ty) => ty.read(endianness, deps),
            LogicModel::Switch { on, cases } => switch(Self::scrutinee(on, rewrite), cases, endianness, deps),
            LogicModel::Size(SizeModel::Fixed(count)) => read_bytes(count),
            _ => read_bytes_full(),
        }
    }

    /// The statement that reads the field.
    pub open spec fn assignment(self, endianness: Endianness, deps: RootDeps, rewrite: RootRewrite) -> Seq<Token> {
        match self.logic {
            LogicModel::FixedContents(bytes) => ensure_contents(bytes),
            _ => let_statement(
                self.id,
                if self.repeat is Some {
                    repeat_to_end(self.value(endianness, deps, rewrite))
                } else {
                    self.value(endianness, deps, rewrite)
                },
            ),
        }
    }

    /// The path into the root type, below the root, that the field switches on.
    pub open spec fn root_path(self) -> Option<Seq<char>> {
        match self.logic {
            LogicModel::Switch { on, cases } => after_prefix(on, "_root."@),
            _ => None,
        }
    }

    /// The value of the root type that the field switches on.
    pub open spec fn root_param(self) -> RootParamModel
        recommends
            self.root_path() is Some,
    {
        let below = self.root_path()->0;
        RootParamModel {
            path: self.logic->on,
            param_ident: "root_"@ + dots_to_underscores(below),
            param_ty: discriminant_type(self.logic->cases),
            accessor: rust_code(below)->0,
        }
    }

    /// The value of the root type that the field switches on can be named, typed and
    /// reached.
    pub open spec fn root_param_ok(self) -> bool {
        let below = self.root_path()->0;
        &&& valid_ident("root_"@ + dots_to_underscores(below))
        &&& all_bool(self.logic->cases) || unifiable(self.logic->cases)
        &&& rust_code(below) is Some
    }
}

/// A parameter for the path is among the parameters.
pub open spec fn has_path(params: Seq<RootParamModel>, path: Seq<char>) -> bool {
    exists|i: int| 0 <= i < params.len() && (#[trigger] params[i]).path == path
}

/// The values of the root type that fields switch on, each path once, in the order in
/// which they are met.
pub open spec fn root_refs(attrs: Seq<AttributeModel>) -> Seq<RootParamModel>
    decreases attrs.len(),
{
    if attrs.len() == 0 {
        Seq::empty()
    } else {
        let before = root_refs(attrs.drop_last());
        if attrs.last().root_path() is Some && !has_path(before, attrs.last().logic->on) {
            before.push(attrs.last().root_param())
        } else {
            before
        }
    }
}

/// The last field switches on a path into the root type that no earlier field switches on.
pub open spec fn adds_root_ref(attrs: Seq<AttributeModel>) -> bool {
    attrs.last().root_path() is Some && !has_path(root_refs(attrs.drop_last()), attrs.last().logic->on)
}

/// Each value of the root type that fields switch on can be named, typed and reached.
pub open spec fn root_refs_ok(attrs: Seq<AttributeModel>) -> bool
    decreases attrs.len(),
{
    attrs.len() == 0 || {
        &&& root_refs_ok(attrs.drop_last())
        &&& adds_root_ref(attrs) ==> attrs.last().root_param_ok()
    }
}

/// The fields that have a place in the generated struct.
pub open spec fn stored(attrs: Seq<AttributeModel>) -> Seq<AttributeModel> {
    attrs.filter(|a: AttributeModel| a.stored())
}

pub open spec fn field_definitions(attrs: Seq<AttributeModel>) -> Seq<Seq<Token>> {
    stored(attrs).map_values(|a: AttributeModel| a.field_definition())
}

/// The identifiers of the fields that have a place in the generated struct.
pub open spec fn field_ids(attrs: Seq<AttributeModel>) -> Seq<Seq<char>> {
    stored(attrs).map_values(|a: AttributeModel| a.id)
}

pub open spec fn has_bit_fields(attrs: Seq<AttributeModel>) -> bool {
    exists|i: int| 0 <= i < attrs.len() && (#[trigger] attrs[i]).bit_field()
}

/// The last field is read bytewise, and the one before it bitwise.
pub open spec fn leaves_bit_run(attrs: Seq<AttributeModel>) -> bool {
    attrs.len() > 1 && attrs[attrs.len() - 2].bit_field() && !attrs.last().bit_field()
}

/// The statements that read the fields in order. Behind a run of bit fields the stream is
/// aligned to a byte before the next field is read.
pub open spec fn assignments(
    attrs: Seq<AttributeModel>,
    endianness: Endianness,
    deps: RootDeps,
    rewrite: RootRewrite,
) -> Seq<Seq<Token>>
    decreases attrs.len(),
{
    if attrs.len() == 0 {
        Seq::empty()
    } else {
        let before = assignments(attrs.drop_last(), endianness, deps, rewrite);
        let last = attrs.last().assignment(endianness, deps, rewrite);
        if leaves_bit_run(attrs) {
            before.push(align_to_byte()).push(last)
        } else {
            before.push(last)
        }
    }
}

/// The generator has code for each field.
pub open spec fn all_assignable(attrs: Seq<AttributeModel>, rewrite: RootRewrite) -> bool {
    forall|i: int| 0 <= i < attrs.len() ==> (#[trigger] attrs[i]).assignable(rewrite)
}

pub open spec fn all_definable(attrs: Seq<AttributeModel>) -> bool {
    forall|i: int| 0 <= i < attrs.len() ==> (#[trigger] attrs[i]).definable()
}

} // verus!
