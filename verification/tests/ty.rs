use kaitai_hir::de;
use kaitai_hir::hir::meta::Endianness;
use kaitai_hir::hir::ty::{is_struct_ok, InheritedMeta, Type};
use kaitai_hir::ident::Ident;
use proc_macro2::TokenStream;

/// The text of the tokens of a text.
fn text(code: &str) -> String {
    code.parse::<TokenStream>().unwrap().to_string()
}

fn attr(id: &str, ty: &str) -> de::Attr {
    de::Attr {
        id: Some(id.to_string()),
        doc: String::new(),
        contents: None,
        ty: Some(de::AttrType::TypeRef(ty.to_string())),
        repeat: None,
        repeat_expr: None,
        repeat_until: None,
        size: None,
        size_eos: false,
        en: None,
    }
}

fn switch_attr(id: &str, on: &str, cases: &[(&str, &str)]) -> de::Attr {
    let cases = cases.iter().map(|(p, t)| (p.to_string(), t.to_string())).collect();
    de::Attr { ty: Some(de::AttrType::Switch { switch_on: on.to_string(), cases }), ..attr(id, "u1") }
}

fn meta(id: Option<&str>, endianness: Option<Endianness>, bit_endian: Option<Endianness>) -> Option<de::Meta> {
    let doc = de::MetaDoc { text: None };
    Some(de::Meta { id: id.map(|id| id.to_string()), doc, endianness, bit_endian })
}

fn described(meta: Option<de::Meta>, seq: Vec<de::Attr>, types: Vec<(&str, de::Type)>) -> de::Type {
    de::Type {
        meta,
        doc: String::new(),
        seq,
        types: types.into_iter().map(|(name, ty)| (name.to_string(), ty)).collect(),
        enums: vec![],
    }
}

fn nothing() -> InheritedMeta {
    InheritedMeta { id: None, endianness: None, bit_endianness: None }
}

fn code(ty: &Type) -> String {
    ty.checked_tokens().unwrap().to_string()
}

const READ: &str = "fn read<S: ::kaitai::__private::KaitaiStream>(&mut self, _: &mut S)
    -> ::kaitai::error::Result<()> { todo!(); }";

#[test]
fn a_type_becomes_a_struct_that_reads_itself() {
    let mut ty = described(
        meta(Some("my_format"), Some(Endianness::Le), None),
        vec![
            de::Attr { contents: Some(vec![1]), ..attr("magic", "u1") },
            attr("a", "u2"),
            attr("b", "my_type"),
        ],
        vec![],
    );
    ty.doc = "A format.".to_string();
    let checked = Type::checked_from(nothing(), ty).unwrap();
    assert_eq!(checked.type_ident().as_str(), "MyFormat");
    let expected = format!(
        "#[doc = \"A format.\"]
        #[derive(Debug, PartialEq, Eq, PartialOrd, Ord)]
        pub struct MyFormat {{
            #[doc = \"\"] pub a: u16,
            #[doc = \"\"] pub b: MyType
        }}
        #[automatically_derived]
        impl ::kaitai::KaitaiStruct for MyFormat {{
            fn new<S: ::kaitai::__private::KaitaiStream>(buf: &mut S) -> ::kaitai::error::Result<Self> {{
                buf.ensure_fixed_contents(& [1u8]) ? ; ;
                let a = buf.read_u2le() ? ; ;
                let b = <MyType as ::kaitai::KaitaiStruct> ::new(buf) ? ; ;
                Ok(Self {{ a, b }})
            }}
            {READ}
        }}"
    );
    assert_eq!(code(&checked), text(&expected));
    let mut tokens: TokenStream = "use x ;".parse().unwrap();
    checked.to_tokens(&mut tokens);
    assert_eq!(tokens.to_string(), text(&format!("use x ; {expected}")));
}

#[test]
fn a_type_without_fields() {
    let ty = described(meta(Some("e"), Some(Endianness::Be), None), vec![], vec![]);
    let expected = format!(
        "#[doc = \"\"]
        #[derive(Debug, PartialEq, Eq, PartialOrd, Ord)]
        pub struct E {{}}
        #[automatically_derived]
        impl ::kaitai::KaitaiStruct for E {{
            fn new<S: ::kaitai::__private::KaitaiStream>(buf: &mut S) -> ::kaitai::error::Result<Self> {{
                ;
                Ok(Self {{}})
            }}
            {READ}
        }}"
    );
    assert_eq!(code(&Type::checked_from(nothing(), ty).unwrap()), text(&expected));
}

#[test]
fn bit_fields_bring_their_state() {
    let ty = described(
        meta(Some("bits"), Some(Endianness::Be), Some(Endianness::Le)),
        vec![attr("flag", "b1"), attr("rest", "b7"), attr("next", "u1")],
        vec![],
    );
    let expected = format!(
        "#[doc = \"\"]
        #[derive(Debug, PartialEq, Eq, PartialOrd, Ord)]
        pub struct Bits {{
            #[doc = \"\"] pub flag: bool,
            #[doc = \"\"] pub rest: u8,
            #[doc = \"\"] pub next: u8
        }}
        #[automatically_derived]
        impl ::kaitai::KaitaiStruct for Bits {{
            fn new<S: ::kaitai::__private::KaitaiStream>(buf: &mut S) -> ::kaitai::error::Result<Self> {{
                let mut _bits: u64 = 0u64;
                let mut _bits_left: u8 = 0u8;
                let flag = (buf.read_bits_be(1u8, &mut _bits, &mut _bits_left) ? != 0) ; ;
                let rest = (buf.read_bits_be(7u8, &mut _bits, &mut _bits_left) ? as u8) ; ;
                buf.align_to_byte(&mut _bits_left) ;
                let next = buf.read_u1() ? ; ;
                Ok(Self {{ flag, rest, next }})
            }}
            {READ}
        }}"
    );
    assert_eq!(code(&Type::checked_from(nothing(), ty).unwrap()), text(&expected));
}

#[test]
fn values_of_the_root_are_handed_down() {
    let entry = described(
        None,
        vec![switch_attr("time", "_root.flags.wide", &[("true", "u8"), ("false", "u4")]), attr("last", "b2")],
        vec![],
    );
    let root = described(
        meta(Some("root"), Some(Endianness::Be), None),
        vec![attr("flags", "flags"), attr("entry", "entry")],
        vec![("entry", entry)],
    );
    let checked = Type::checked_from(nothing(), root).unwrap();
    assert!(checked.root_refs().is_empty());
    assert_eq!(checked.types[0].root_refs().len(), 1);
    let expected = format!(
        "#[doc = \"\"]
        #[derive(Debug, PartialEq, Eq, PartialOrd, Ord)]
        pub struct Entry {{
            #[doc = \"\"] pub time: u64,
            #[doc = \"\"] pub last: u8
        }}
        #[automatically_derived]
        impl ::kaitai::KaitaiStruct for Entry {{
            fn new<S: ::kaitai::__private::KaitaiStream>(_buf: &mut S) -> ::kaitai::error::Result<Self> {{
                unimplemented!(\"this type requires _root context; call new_with_root instead\")
            }}
            {READ}
        }}
        impl Entry {{
            pub fn new_with_root<S: ::kaitai::__private::KaitaiStream>(
                buf: &mut S,
                root_flags_wide: bool
            ) -> ::kaitai::error::Result<Self> {{
                let mut _bits: u64 = 0u64;
                let mut _bits_left: u8 = 0u8;
                let time = match root_flags_wide {{
                    false => (buf.read_u4be() ? as u64), true => buf.read_u8be() ?
                }} ; ;
                let last = (buf.read_bits_be(2u8, &mut _bits, &mut _bits_left) ? as u8) ; ;
                Ok(Self {{ time, last }})
            }}
        }}
        #[doc = \"\"]
        #[derive(Debug, PartialEq, Eq, PartialOrd, Ord)]
        pub struct Root {{
            #[doc = \"\"] pub flags: Flags,
            #[doc = \"\"] pub entry: Entry
        }}
        #[automatically_derived]
        impl ::kaitai::KaitaiStruct for Root {{
            fn new<S: ::kaitai::__private::KaitaiStream>(buf: &mut S) -> ::kaitai::error::Result<Self> {{
                let flags = <Flags as ::kaitai::KaitaiStruct> ::new(buf) ? ; ;
                let entry = Entry::new_with_root(buf, flags.wide) ? ; ;
                Ok(Self {{ flags, entry }})
            }}
            {READ}
        }}"
    );
    assert_eq!(code(&checked), text(&expected));
}

#[test]
fn arguments_and_parameters_stand_in_the_same_order() {
    let inner = described(
        None,
        vec![
            switch_attr("a", "_root.x", &[("0", "u1")]),
            switch_attr("b", "_root.y.z", &[("true", "u1"), ("false", "u1")]),
        ],
        vec![],
    );
    let root = described(
        meta(Some("root"), Some(Endianness::Be), None),
        vec![attr("inner", "inner")],
        vec![("inner", inner)],
    );
    let code = code(&Type::checked_from(nothing(), root).unwrap());
    assert!(code.contains(&text("(buf: &mut S, root_x: u8, root_y_z: bool)")));
    assert!(code.contains(&text("Inner::new_with_root(buf, x, y.z)")));
}

#[test]
fn values_of_the_root_are_passed_on() {
    let deep = described(
        None,
        vec![
            switch_attr("a", "_root.flags.wide", &[("true", "u1"), ("false", "u1")]),
            switch_attr("b", "_root.other", &[("0", "u1")]),
        ],
        vec![],
    );
    let middle = described(
        None,
        vec![
            switch_attr("c", "_root.flags.wide", &[("true", "u1"), ("false", "u1")]),
            attr("deep", "deep"),
            attr("plain", "plain"),
        ],
        vec![("deep", deep)],
    );
    let root = described(
        meta(Some("root"), Some(Endianness::Be), None),
        vec![attr("middle", "middle")],
        vec![("middle", middle)],
    );
    let code = code(&Type::checked_from(nothing(), root).unwrap());
    let body = "let deep = Deep::new_with_root(buf, root_flags_wide, other) ? ; ;
        let plain = <Plain as ::kaitai::KaitaiStruct> ::new(buf) ? ; ;";
    assert!(code.contains(&text(body)));
    assert!(!code.contains(&text("<Deep as ::kaitai::KaitaiStruct>")));
    assert!(code.contains(&text("Middle::new_with_root(buf, flags.wide)")));
}

#[test]
fn documentation_of_the_type_is_handed_to_its_fields() {
    let mut ty = described(
        meta(Some("t"), Some(Endianness::Be), None),
        vec![attr("a", "u1")],
        vec![("inner", described(None, vec![attr("b", "u1")], vec![]))],
    );
    ty.doc = "Own.".to_string();
    ty.meta.as_mut().unwrap().doc = de::MetaDoc { text: Some("All.".to_string()) };
    let code = code(&Type::checked_from(nothing(), ty).unwrap());
    assert!(code.contains(&text("#[doc = \"All.\"] #[doc = \"Own.\"] #[derive(Debug, PartialEq, Eq, PartialOrd, Ord)]")));
    assert!(code.contains(&text("#[doc = \"All.\"] #[doc = \"\"] pub a: u8")));
    assert!(code.contains(&text("pub struct Inner { #[doc = \"\"] pub b: u8 }")));
}

#[test]
fn enumerations_come_before_the_struct() {
    let mut ty = described(meta(Some("t"), Some(Endianness::Be), None), vec![], vec![]);
    ty.enums = vec![
        de::Enumeration { definition: "enum A {}".parse().unwrap() },
        de::Enumeration { definition: "enum B {}".parse().unwrap() },
    ];
    let inner = described(None, vec![], vec![]);
    ty.types = vec![("inner".to_string(), inner)];
    let code = code(&Type::checked_from(nothing(), ty).unwrap());
    let inner = code.find("pub struct Inner").unwrap();
    let enums = code.find(&text("enum A {} enum B {}")).unwrap();
    let own = code.find("pub struct T").unwrap();
    assert!(inner < enums && enums < own);
}

#[test]
fn declared_types_inherit_from_their_parent() {
    let deep = described(None, vec![], vec![]);
    let other = described(meta(Some("own_name"), Some(Endianness::Be), Some(Endianness::Be)), vec![], vec![]);
    let plain = described(meta(None, None, None), vec![], vec![("deep_one", deep)]);
    let root = described(
        meta(Some("root"), Some(Endianness::Le), Some(Endianness::Le)),
        vec![],
        vec![("plain_type", plain), ("other", other)],
    );
    let checked = Type::checked_from(nothing(), root).unwrap();
    let plain = &checked.types[0];
    assert_eq!(plain.type_ident().as_str(), "PlainType");
    assert!(matches!((plain.endianness, plain.bit_endianness), (Endianness::Le, Endianness::Le)));
    let deep = &plain.types[0];
    assert_eq!(deep.type_ident().as_str(), "DeepOne");
    assert!(matches!((deep.endianness, deep.bit_endianness), (Endianness::Le, Endianness::Le)));
    let other = &checked.types[1];
    assert_eq!(other.type_ident().as_str(), "OwnName");
    assert!(matches!((other.endianness, other.bit_endianness), (Endianness::Be, Endianness::Be)));
}

#[test]
fn inherited_identifiers() {
    let ty = || described(meta(Some("own"), Some(Endianness::Be), None), vec![], vec![]);
    let anonymous = || described(meta(None, Some(Endianness::Be), None), vec![], vec![]);
    let given = |overwrite| InheritedMeta { id: Some((Ident::new("Given"), overwrite)), ..nothing() };
    assert_eq!(Type::checked_from(given(true), ty()).unwrap().type_ident().as_str(), "Given");
    assert_eq!(Type::checked_from(given(false), ty()).unwrap().type_ident().as_str(), "Own");
    assert_eq!(Type::checked_from(given(true), anonymous()).unwrap().type_ident().as_str(), "Given");
    assert_eq!(Type::checked_from(given(false), anonymous()).unwrap().type_ident().as_str(), "Given");
    assert_eq!(Type::checked_from(nothing(), ty()).unwrap().type_ident().as_str(), "Own");
    assert!(Type::checked_from(nothing(), anonymous()).is_none());
}

#[test]
fn bits_default_to_the_most_significant_first() {
    let ty = described(meta(Some("t"), Some(Endianness::Le), None), vec![], vec![]);
    assert!(matches!(Type::checked_from(nothing(), ty).unwrap().bit_endianness, Endianness::Be));
    let ty = described(meta(Some("t"), Some(Endianness::Be), None), vec![], vec![]);
    let inherited = InheritedMeta { bit_endianness: Some(Endianness::Le), ..nothing() };
    assert!(matches!(Type::checked_from(inherited, ty).unwrap().bit_endianness, Endianness::Le));
}

#[test]
fn types_without_a_checked_form() {
    let be = Some(Endianness::Be);
    for bad in [
        described(None, vec![], vec![]),
        described(meta(Some("t"), None, None), vec![], vec![]),
        described(meta(Some("a-b"), be, None), vec![], vec![]),
        described(meta(Some("t"), be, None), vec![attr("a b", "u1")], vec![]),
        described(meta(Some("t"), be, None), vec![], vec![("a-b", described(None, vec![], vec![]))]),
        described(
            meta(Some("t"), be, None),
            vec![],
            vec![("inner", described(None, vec![attr("1", "u1")], vec![]))],
        ),
    ] {
        assert!(!is_struct_ok(&nothing(), &bad));
        assert!(Type::checked_from(nothing(), bad).is_none());
    }
    let overwritten = InheritedMeta { id: Some((Ident::new("T"), true)), ..nothing() };
    let bad = described(meta(Some("a-b"), be, None), vec![], vec![]);
    assert!(!is_struct_ok(&overwritten, &bad));
}

#[test]
fn types_without_code() {
    let be = Some(Endianness::Be);
    let bad = || vec![switch_attr("x", "k", &[("0", "u1"), ("1", "s1")])];
    let own = Type::checked_from(nothing(), described(meta(Some("t"), be, None), bad(), vec![])).unwrap();
    assert!(!own.is_renderable());
    assert!(own.checked_tokens().is_none());
    let nested = described(None, bad(), vec![]);
    let outer = described(meta(Some("t"), be, None), vec![], vec![("inner", nested)]);
    let outer = Type::checked_from(nothing(), outer).unwrap();
    assert!(!outer.is_renderable());
    assert!(outer.checked_tokens().is_none());
    let unnamed = vec![switch_attr("x", "_root.a + b", &[("0", "u1")])];
    let unnamed = Type::checked_from(nothing(), described(meta(Some("t"), be, None), unnamed, vec![])).unwrap();
    assert!(!unnamed.is_renderable());
}

#[test]
fn conversion_and_rendering_agree_with_the_checked_forms() {
    let ty = || described(meta(Some("t"), Some(Endianness::Be), None), vec![attr("a", "u4")], vec![]);
    let direct = Type::try_from((nothing(), ty())).unwrap();
    let checked = Type::checked_from(nothing(), ty()).unwrap();
    let mut tokens = TokenStream::new();
    direct.to_tokens(&mut tokens);
    assert_eq!(tokens.to_string(), code(&checked));
}
