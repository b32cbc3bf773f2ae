//! The built-in types of a format description.
use proc_macro2::TokenStream;
use vstd::pervasive::unreached;
use vstd::prelude::*;

use crate::hir::meta::Endianness;
use crate::text::{after_prefix, ascii_ident, ident_prefix, parse_number, read_number, same_text, strip};
use crate::tokens::{push_ident, trees, Token};

verus! {

#[derive(Clone, Copy, Debug, PartialEq, Eq, Structural)]
pub enum BuiltInType {
    U8,
    U16,
    U32,
    U64,
    I8,
    I16,
    I32,
    I64,
    F32,
    F64,
    /// A bit-width field: `b1` to `b64`. Maps to `bool` for `b1`, and to a widened
    /// unsigned integer for larger widths.
    Bits(u8),
}

/// The widest bit-width field.
pub const MAX_BITS: u64 = 64;

impl BuiltInType {
    /// The built-in type of a name, where the name is one: a letter and a width in bytes,
    /// or `b` and a width in bits from 1 to 64.
    pub open spec fn named(s: Seq<char>) -> Option<BuiltInType> {
        if s == "u1"@ {
            Some(BuiltInType::U8)
        } else if s == "u2"@ {
            Some(BuiltInType::U16)
        } else if s == "u4"@ {
            Some(BuiltInType::U32)
        } else if s == "u8"@ {
            Some(BuiltInType::U64)
        } else if s == "s1"@ {
            Some(BuiltInType::I8)
        } else if s == "s2"@ {
            Some(BuiltInType::I16)
        } else if s == "s4"@ {
            Some(BuiltInType::I32)
        } else if s == "s8"@ {
            Some(BuiltInType::I64)
        } else if s == "f4"@ {
            Some(BuiltInType::F32)
        } else if s == "f8"@ {
            Some(BuiltInType::F64)
        } else {
            match after_prefix(s, "b"@) {
                Some(width) => match parse_number(width, MAX_BITS as nat) {
                    Some(n) => if n >= 1 {
                        Some(BuiltInType::Bits(n as u8))
                    } else {
                        None
                    },
                    None => None,
                },
                None => None,
            }
        }
    }

    /// The name of a type that takes whole bytes.
    pub open spec fn ks_name(self) -> Seq<char> {
        match self {
            BuiltInType::U8 => "u1"@,
            BuiltInType::U16 => "u2"@,
            BuiltInType::U32 => "u4"@,
            BuiltInType::U64 => "u8"@,
            BuiltInType::I8 => "s1"@,
            BuiltInType::I16 => "s2"@,
            BuiltInType::I32 => "s4"@,
            BuiltInType::I64 => "s8"@,
            BuiltInType::F32 => "f4"@,
            BuiltInType::F64 => "f8"@,
            BuiltInType::Bits(_) => Seq::empty(),
        }
    }

    /// The Rust type that holds a value of the type.
    pub open spec fn rust_name(self) -> Seq<char> {
        match self {
            BuiltInType::U8 => "u8"@,
            BuiltInType::U16 => "u16"@,
            BuiltInType::U32 => "u32"@,
            BuiltInType::U64 => "u64"@,
            BuiltInType::I8 => "i8"@,
            BuiltInType::I16 => "i16"@,
            BuiltInType::I32 => "i32"@,
            BuiltInType::I64 => "i64"@,
            BuiltInType::F32 => "f32"@,
            BuiltInType::F64 => "f64"@,
            BuiltInType::Bits(n) => if n == 1 {
                "bool"@
            } else if n <= 8 {
                "u8"@
            } else if n <= 16 {
                "u16"@
            } else if n <= 32 {
                "u32"@
            } else {
                "u64"@
            },
        }
    }

    /// How the name of the read method ends for a byte order: single bytes and bit fields
    /// have none.
    pub open spec fn order_suffix(self, endianness: Endianness) -> Seq<char> {
        match self {
            BuiltInType::U8 | BuiltInType::I8 | BuiltInType::Bits(_) => Seq::empty(),
            _ => endianness.suffix_text(),
        }
    }

    /// The number of bytes that a value takes.
    pub open spec fn width(self) -> nat {
        match self {
            BuiltInType::U8 | BuiltInType::I8 => 1,
            BuiltInType::U16 | BuiltInType::I16 => 2,
            BuiltInType::U32 | BuiltInType::I32 | BuiltInType::F32 => 4,
            BuiltInType::U64 | BuiltInType::I64 | BuiltInType::F64 => 8,
            BuiltInType::Bits(n) => ((n + 7) / 8) as nat,
        }
    }

    pub open spec fn signed(self) -> bool {
        self is I8 || self is I16 || self is I32 || self is I64 || self.float()
    }

    pub open spec fn float(self) -> bool {
        self is F32 || self is F64
    }

    /// Neither a bit field nor a floating-point type.
    pub open spec fn integer(self) -> bool {
        !(self is Bits) && !self.float()
    }

    /// The integer type of a width in bytes and a signedness.
    pub open spec fn of_width(width: nat, signed: bool) -> BuiltInType {
        if signed {
            if width == 1 {
                BuiltInType::I8
            } else if width == 2 {
                BuiltInType::I16
            } else if width == 4 {
                BuiltInType::I32
            } else {
                BuiltInType::I64
            }
        } else {
            if width == 1 {
                BuiltInType::U8
            } else if width == 2 {
                BuiltInType::U16
            } else if width == 4 {
                BuiltInType::U32
            } else {
                BuiltInType::U64
            }
        }
    }

    /// The name by which the type is written in a format description.
    pub fn ks_type(&self) -> (r: &'static str)
        requires
            !(self is Bits),
        ensures
            r@ == self.ks_name(),
    {
        match self {
            BuiltInType::U8 => "u1",
            BuiltInType::U16 => "u2",
            BuiltInType::U32 => "u4",
            BuiltInType::U64 => "u8",
            BuiltInType::I8 => "s1",
            BuiltInType::I16 => "s2",
            BuiltInType::I32 => "s4",
            BuiltInType::I64 => "s8",
            BuiltInType::F32 => "f4",
            BuiltInType::F64 => "f8",
            BuiltInType::Bits(_) => unreached(),
        }
    }

    /// How the name of the read method ends for a byte order.
    pub fn endianness(&self, endianness: Endianness) -> (r: &'static str)
        ensures
            r@ == self.order_suffix(endianness),
    {
        match self {
            BuiltInType::U8 | BuiltInType::I8 | BuiltInType::Bits(_) => {
                proof {
                    reveal_strlit("");
                    assert(""@ =~= Seq::<char>::empty());
                }
                ""
            },
            _ => endianness.suffix(),
        }
    }

    /// The number of bytes that a value takes.
    pub fn byte_width(self) -> (r: u8)
        requires
            self matches BuiltInType::Bits(n) ==> n <= 248,
        ensures
            r == self.width(),
    {
        match self {
            BuiltInType::U8 | BuiltInType::I8 => 1,
            BuiltInType::U16 | BuiltInType::I16 => 2,
            BuiltInType::U32 | BuiltInType::I32 | BuiltInType::F32 => 4,
            BuiltInType::U64 | BuiltInType::I64 | BuiltInType::F64 => 8,
            BuiltInType::Bits(n) => (n + 7) / 8,
        }
    }

    pub fn is_signed(self) -> (r: bool)
        ensures
            r == self.signed(),
    {
        matches!(
            self,
            BuiltInType::I8
                | BuiltInType::I16
                | BuiltInType::I32
                | BuiltInType::I64
                | BuiltInType::F32
                | BuiltInType::F64
        )
    }

    pub fn is_float(self) -> (r: bool)
        ensures
            r == self.float(),
    {
        matches!(self, BuiltInType::F32 | BuiltInType::F64)
    }

    /// Tests whether the type is neither a bit field nor a floating-point type.
    pub fn is_integer(self) -> (r: bool)
        ensures
            r == self.integer(),
    {
        !matches!(self, BuiltInType::Bits(_)) && !self.is_float()
    }

    /// The integer type of a width in bytes and a signedness.
    pub fn from_width_signed(width: u8, signed: bool) -> (r: BuiltInType)
        requires
            width == 1 || width == 2 || width == 4 || width == 8,
        ensures
            r == BuiltInType::of_width(width as nat, signed),
    {
        match (width, signed) {
            (1, false) => BuiltInType::U8,
            (2, false) => BuiltInType::U16,
            (4, false) => BuiltInType::U32,
            (8, false) => BuiltInType::U64,
            (1, true) => BuiltInType::I8,
            (2, true) => BuiltInType::I16,
            (4, true) => BuiltInType::I32,
            (8, true) => BuiltInType::I64,
            _ => unreached(),
        }
    }

    /// Appends the Rust type that holds a value of the type.
    pub fn to_tokens(&self, tokens: &mut TokenStream)
        ensures
            trees(*final(tokens)) == trees(*old(tokens)).push(Token::Ident(self.rust_name())),
    {
        proof {
            lemma_rust_names();
        }
        match self {
            BuiltInType::U8 => push_ident(tokens, "u8"),
            BuiltInType::U16 => push_ident(tokens, "u16"),
            BuiltInType::U32 => push_ident(tokens, "u32"),
            BuiltInType::U64 => push_ident(tokens, "u64"),
            BuiltInType::I8 => push_ident(tokens, "i8"),
            BuiltInType::I16 => push_ident(tokens, "i16"),
            BuiltInType::I32 => push_ident(tokens, "i32"),
            BuiltInType::I64 => push_ident(tokens, "i64"),
            BuiltInType::F32 => push_ident(tokens, "f32"),
            BuiltInType::F64 => push_ident(tokens, "f64"),
            BuiltInType::Bits(n) => {
                if *n == 1 {
                    push_ident(tokens, "bool")
                } else if *n <= 8 {
                    push_ident(tokens, "u8")
                } else if *n <= 16 {
                    push_ident(tokens, "u16")
                } else if *n <= 32 {
                    push_ident(tokens, "u32")
                } else {
                    push_ident(tokens, "u64")
                }
            },
        }
    }
}

proof fn lemma_rust_names()
    ensures
        ascii_ident("u8"@),
        ascii_ident("u16"@),
        ascii_ident("u32"@),
        ascii_ident("u64"@),
        ascii_ident("i8"@),
        ascii_ident("i16"@),
        ascii_ident("i32"@),
        ascii_ident("i64"@),
        ascii_ident("f32"@),
        ascii_ident("f64"@),
        ascii_ident("bool"@),
{
    reveal_with_fuel(ident_prefix, 5);
    reveal_strlit("u8");
    reveal_strlit("u16");
    reveal_strlit("u32");
    reveal_strlit("u64");
    reveal_strlit("i8");
    reveal_strlit("i16");
    reveal_strlit("i32");
    reveal_strlit("i64");
    reveal_strlit("f32");
    reveal_strlit("f64");
    reveal_strlit("bool");
}

impl TryFrom<&str> for BuiltInType {
    type Error = ();

    fn try_from(s: &str) -> (r: Result<Self, ()>) {
        if same_text(s, "u1") {
            Ok(BuiltInType::U8)
        } else if same_text(s, "u2") {
            Ok(BuiltInType::U16)
        } else if same_text(s, "u4") {
            Ok(BuiltInType::U32)
        } else if same_text(s, "u8") {
            Ok(BuiltInType::U64)
        } else if same_text(s, "s1") {
            Ok(BuiltInType::I8)
        } else if same_text(s, "s2") {
            Ok(BuiltInType::I16)
        } else if same_text(s, "s4") {
            Ok(BuiltInType::I32)
        } else if same_text(s, "s8") {
            Ok(BuiltInType::I64)
        } else if same_text(s, "f4") {
            Ok(BuiltInType::F32)
        } else if same_text(s, "f8") {
            Ok(BuiltInType::F64)
        } else {
            if let Some(width) = strip(s, "b") {
                if let Some(n) = read_number(width, MAX_BITS) {
                    if n >= 1 {
                        return Ok(BuiltInType::Bits(n as u8));
                    }
                }
            }
            Err(())
        }
    }
}

impl vstd::std_specs::convert::TryFromSpecImpl<&str> for BuiltInType {
    open spec fn obeys_try_from_spec() -> bool {
        true
    }

    open spec fn try_from_spec(s: &str) -> Result<Self, ()> {
        match BuiltInType::named(s@) {
            Some(ty) => Ok(ty),
            None => Err(()),
        }
    }
}

/// Two types can be widened to a common one: they are the same, or integers of the same
/// signedness.
pub open spec fn widenable(a: BuiltInType, b: BuiltInType) -> bool {
    a == b || (a.integer() && b.integer() && a.signed() == b.signed())
}

/// The wider of two types.
pub open spec fn widened(a: BuiltInType, b: BuiltInType) -> BuiltInType {
    if a == b {
        a
    } else {
        BuiltInType::of_width(if a.width() >= b.width() { a.width() } else { b.width() }, a.signed())
    }
}

/// The wider of two types.
pub fn widen(a: BuiltInType, b: BuiltInType) -> (r: BuiltInType)
    requires
        widenable(a, b),
    ensures
        r == widened(a, b),
{
    if a == b {
        return a;
    }
    let left: u8 = a.byte_width();
    let right: u8 = b.byte_width();
    BuiltInType::from_width_signed(if left >= right { left } else { right }, a.is_signed())
}

} // verus!
