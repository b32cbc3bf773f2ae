use std::convert::TryFrom;

use kaitai_hir::hir::attr::{can_widen, RootDepMap, Type};
use kaitai_hir::hir::builtin::{widen, BuiltInType};
use kaitai_hir::hir::meta::Endianness;
use proc_macro2::TokenStream;

const BYTEWISE: [(BuiltInType, &str, &str, u8, bool); 10] = [
    (BuiltInType::U8, "u1", "u8", 1, false),
    (BuiltInType::U16, "u2", "u16", 2, false),
    (BuiltInType::U32, "u4", "u32", 4, false),
    (BuiltInType::U64, "u8", "u64", 8, false),
    (BuiltInType::I8, "s1", "i8", 1, true),
    (BuiltInType::I16, "s2", "i16", 2, true),
    (BuiltInType::I32, "s4", "i32", 4, true),
    (BuiltInType::I64, "s8", "i64", 8, true),
    (BuiltInType::F32, "f4", "f32", 4, true),
    (BuiltInType::F64, "f8", "f64", 8, true),
];

fn rendered(ty: BuiltInType) -> String {
    let mut tokens = TokenStream::new();
    ty.to_tokens(&mut tokens);
    tokens.to_string()
}

#[test]
fn names_refer_to_their_types() {
    for (ty, name, _, _, _) in BYTEWISE {
        assert_eq!(BuiltInType::try_from(name), Ok(ty));
        assert_eq!(ty.ks_type(), name);
    }
}

#[test]
fn other_names_are_refused() {
    for name in ["", "u", "u3", "U1", "u1 ", "s16", "f2", "b", "b0", "bx", "b-1", "b1x", "b 1", "my_type"] {
        assert_eq!(BuiltInType::try_from(name), Err(()));
    }
}

#[test]
fn bit_fields_go_from_one_to_sixty_four() {
    for n in 1u8..=64 {
        assert_eq!(BuiltInType::try_from(format!("b{n}").as_str()), Ok(BuiltInType::Bits(n)));
    }
    for n in 65u32..=300 {
        assert_eq!(BuiltInType::try_from(format!("b{n}").as_str()), Err(()));
    }
    assert_eq!(BuiltInType::try_from("b007"), Ok(BuiltInType::Bits(7)));
    assert_eq!(BuiltInType::try_from("b+7"), Ok(BuiltInType::Bits(7)));
    assert_eq!(BuiltInType::try_from("b++7"), Err(()));
    assert_eq!(BuiltInType::try_from("b18446744073709551617"), Err(()));
}

#[test]
fn rust_types_are_as_wide_as_needed() {
    for (ty, _, rust, _, _) in BYTEWISE {
        assert_eq!(rendered(ty), rust);
    }
    for (n, rust) in [
        (1, "bool"),
        (2, "u8"),
        (8, "u8"),
        (9, "u16"),
        (16, "u16"),
        (17, "u32"),
        (32, "u32"),
        (33, "u64"),
        (64, "u64"),
    ] {
        assert_eq!(rendered(BuiltInType::Bits(n)), rust);
    }
}

#[test]
fn types_are_appended_behind_what_is_there() {
    let mut tokens: TokenStream = "x :".parse().unwrap();
    BuiltInType::U16.to_tokens(&mut tokens);
    assert_eq!(tokens.to_string(), "x : u16");
}

#[test]
fn widths_and_signs() {
    for (ty, _, _, width, signed) in BYTEWISE {
        assert_eq!(ty.byte_width(), width);
        assert_eq!(ty.is_signed(), signed);
        assert_eq!(ty.is_float(), matches!(ty, BuiltInType::F32 | BuiltInType::F64));
        assert_eq!(ty.is_integer(), !ty.is_float());
        if !ty.is_float() {
            assert_eq!(BuiltInType::from_width_signed(width, signed), ty);
        }
    }
    for (n, width) in [(1, 1), (8, 1), (9, 2), (16, 2), (17, 3), (64, 8)] {
        assert_eq!(BuiltInType::Bits(n).byte_width(), width);
    }
    assert!(!BuiltInType::Bits(5).is_signed());
    assert!(!BuiltInType::Bits(5).is_float());
    assert!(!BuiltInType::Bits(5).is_integer());
}

#[test]
fn byte_order_is_left_out_for_single_bytes() {
    assert_eq!(BuiltInType::U8.endianness(Endianness::Be), "");
    assert_eq!(BuiltInType::I8.endianness(Endianness::Le), "");
    assert_eq!(BuiltInType::Bits(12).endianness(Endianness::Le), "");
    assert_eq!(BuiltInType::U16.endianness(Endianness::Be), "be");
    assert_eq!(BuiltInType::F64.endianness(Endianness::Le), "le");
}

#[test]
fn widening_takes_the_wider_type() {
    let unsigned = [BuiltInType::U8, BuiltInType::U16, BuiltInType::U32, BuiltInType::U64];
    let signed = [BuiltInType::I8, BuiltInType::I16, BuiltInType::I32, BuiltInType::I64];
    for family in [unsigned, signed] {
        for i in 0..4 {
            for j in 0..4 {
                assert!(can_widen(family[i], family[j]));
                assert_eq!(widen(family[i], family[j]), family[i.max(j)]);
                for k in 0..4 {
                    assert_eq!(
                        widen(widen(family[i], family[j]), family[k]),
                        widen(family[i], widen(family[j], family[k]))
                    );
                }
            }
        }
    }
    assert_eq!(widen(BuiltInType::F32, BuiltInType::F32), BuiltInType::F32);
    assert_eq!(widen(BuiltInType::Bits(3), BuiltInType::Bits(3)), BuiltInType::Bits(3));
}

#[test]
fn some_types_have_no_common_type() {
    for (a, b) in [
        (BuiltInType::U8, BuiltInType::I8),
        (BuiltInType::I64, BuiltInType::U16),
        (BuiltInType::F32, BuiltInType::F64),
        (BuiltInType::F32, BuiltInType::U32),
        (BuiltInType::I32, BuiltInType::F32),
        (BuiltInType::Bits(3), BuiltInType::Bits(4)),
        (BuiltInType::Bits(8), BuiltInType::U8),
    ] {
        assert!(!can_widen(a, b));
        assert!(!can_widen(b, a));
    }
}

fn read(ty: BuiltInType, endianness: Endianness) -> String {
    Type::BuiltIn { ty, en: None }.expr(endianness, Endianness::Be, &RootDepMap::new()).to_string()
}

#[test]
fn reading_calls_the_method_of_the_type() {
    for (ty, name, _, width, _) in BYTEWISE {
        for (endianness, suffix) in [(Endianness::Be, "be"), (Endianness::Le, "le")] {
            let suffix = if width == 1 { "" } else { suffix };
            let call: TokenStream = format!("buf.read_{name}{suffix}()?").parse().unwrap();
            assert_eq!(read(ty, endianness), call.to_string());
        }
    }
}
