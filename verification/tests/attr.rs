use kaitai_hir::de::{self, IntegerValue, MetaDoc};
use kaitai_hir::hir::attr::{
    checked_unify, discriminant_type_from_cases, is_all_bool, unify_switch_cases, Attribute, Attributes, Logic, Repeat,
    RootDepMap, RootRewriteMap, Size, Type,
};
use kaitai_hir::hir::builtin::BuiltInType;
use kaitai_hir::hir::doc::Doc;
use kaitai_hir::hir::lower::{is_cases_ok, is_seq_ok, is_type_ok, lower_cases};
use kaitai_hir::hir::meta::Endianness;
use kaitai_hir::hir::pattern::Pattern;
use kaitai_hir::ident::Ident;
use proc_macro2::TokenStream;

/// The text of the tokens of a text.
fn text(code: &str) -> String {
    code.parse::<TokenStream>().unwrap().to_string()
}

fn built_in(ty: BuiltInType) -> Type {
    Type::BuiltIn { ty, en: None }
}

fn attribute(id: &str, repeat: Option<Repeat>, logic: Logic) -> Attribute {
    Attribute { id: Ident::new(id), doc: Doc::new(), repeat, logic }
}

fn attr(id: &str, ty: &str) -> de::Attr {
    de::Attr {
        id: Some(id.to_string()),
        doc: String::new(),
        contents: None,
        ty: Some(de::AttrType::TypeRef(ty.to_string())),
        repeat: None,
        repeat_expr: None,
        repeat_until: None,
        size: None,
        size_eos: false,
        en: None,
    }
}

fn switch_attr(id: &str, on: &str, cases: &[(&str, &str)]) -> de::Attr {
    let cases = cases.iter().map(|(p, t)| (p.to_string(), t.to_string())).collect();
    de::Attr { ty: Some(de::AttrType::Switch { switch_on: on.to_string(), cases }), ..attr(id, "u1") }
}

fn cases(list: &[(&str, &str)]) -> Vec<(Pattern, Type)> {
    lower_cases(list.iter().map(|(p, t)| (p.to_string(), t.to_string())).collect())
}

fn checked(attr: de::Attr) -> Attribute {
    assert!(Attribute::is_attr_ok(&attr));
    Attribute::try_from((None, attr)).unwrap()
}

fn sequence(attrs: Vec<de::Attr>) -> Attributes {
    assert!(is_seq_ok(&attrs));
    Attributes::try_from((None, attrs)).unwrap()
}

fn statement(attribute: &Attribute, endianness: Endianness) -> String {
    let rewrite = RootRewriteMap::new();
    assert!(attribute.is_assignable(&rewrite));
    attribute.variable_assignment(endianness, Endianness::Be, &RootDepMap::new(), &rewrite).to_string()
}

fn strings(streams: Vec<TokenStream>) -> Vec<String> {
    streams.iter().map(|s| s.to_string()).collect()
}

#[test]
fn attribute_field_definitions() {
    let docs = (0..5).map(|_| Doc::new());
    let repeats = vec![Some(Repeat::Eos), None, None, Some(Repeat::Eos), Some(Repeat::Eos)];
    let logics = vec![
        Logic::FixedContents(vec![0, 1]),
        Logic::Type(Type::UserDefined(Ident::new("MyType"))),
        Logic::Type(Type::BuiltIn { ty: BuiltInType::U16, en: None }),
        Logic::Type(Type::BuiltIn { ty: BuiltInType::U16, en: Some(Ident::new("MyEnum")) }),
        Logic::Size(Size::Eos),
    ];
    let expected = vec![
        "",
        "#[doc = \"\"] pub dont: MyType",
        "#[doc = \"\"] pub kill: u16",
        "#[doc = \"\"] pub my: ::std::vec::Vec<MyEnum>",
        "#[doc = \"\"] pub vibe: ::std::vec::Vec< ::std::vec::Vec<u8> >",
    ];
    let spelled = vec![
        "",
        "# [doc = \"\"] pub dont : MyType",
        "# [doc = \"\"] pub kill : u16",
        "# [doc = \"\"] pub my : :: std :: vec :: Vec < MyEnum >",
        "# [doc = \"\"] pub vibe : :: std :: vec :: Vec < :: std :: vec :: Vec < u8 > >",
    ];
    vec!["bitch", "dont", "kill", "my", "vibe"]
        .iter()
        .map(|id| Ident::new(id))
        .zip(docs)
        .zip(repeats)
        .zip(logics)
        .map(|(((id, doc), repeat), logic)| Attribute { id, doc, repeat, logic }.field_definition())
        .zip(expected)
        .zip(spelled)
        .for_each(|((def, expected), spelled)| {
            assert_eq!(def.to_string(), text(expected));
            assert_eq!(def.to_string(), spelled);
        });
}

#[test]
fn field_documentation_is_quoted() {
    let mut field = attribute("x", None, Logic::Type(built_in(BuiltInType::U8)));
    field.doc = Doc::from((None, "a \"b\" \\ c\n".to_string()));
    assert_eq!(field.field_definition().to_string(), text("#[doc = \"a \\\"b\\\" \\\\ c\\n\"] pub x: u8"));
}

#[test]
fn plain_documentation_is_quoted_as_it_is() {
    let mut field = attribute("x", None, Logic::Type(built_in(BuiltInType::U8)));
    field.doc = Doc::from((None, "A plain text.".to_string()));
    assert_eq!(field.field_definition().to_string(), "# [doc = \"A plain text.\"] pub x : u8");
}

#[test]
fn documentation_of_the_type_goes_before_that_of_the_field() {
    let meta_doc = || Some(MetaDoc { text: Some("All.".to_string()) });
    let own = de::Attr { doc: "One.".to_string(), ..attr("x", "u1") };
    let field = Attribute::try_from((meta_doc(), own)).unwrap();
    assert_eq!(field.field_definition().to_string(), text("#[doc = \"All.\"] #[doc = \"One.\"] pub x: u8"));
    let fields = Attributes::try_from((meta_doc(), vec![attr("x", "u1"), attr("y", "u1")])).unwrap();
    assert_eq!(
        strings(fields.field_definitions()),
        vec![
            text("#[doc = \"All.\"] #[doc = \"\"] pub x: u8"),
            text("#[doc = \"All.\"] #[doc = \"\"] pub y: u8"),
        ]
    );
    let silent = Attribute::try_from((Some(MetaDoc { text: None }), attr("x", "u1"))).unwrap();
    assert_eq!(silent.field_definition().to_string(), text("#[doc = \"\"] pub x: u8"));
}

#[test]
fn switch_fields_have_the_common_type() {
    let field = checked(switch_attr("x", "kind", &[("0", "u1"), ("1", "u2")]));
    assert!(field.is_definable());
    assert_eq!(field.field_definition().to_string(), text("#[doc = \"\"] pub x: u16"));
}

#[test]
fn stored_and_bit_fields() {
    let fixed = attribute("a", None, Logic::FixedContents(vec![1]));
    let bits = attribute("b", None, Logic::Type(built_in(BuiltInType::Bits(3))));
    let byte = attribute("c", None, Logic::Type(built_in(BuiltInType::U8)));
    let switch = checked(switch_attr("d", "k", &[("0", "b3")]));
    let rest = attribute("e", None, Logic::Size(Size::Eos));
    assert!(!fixed.is_stored());
    assert!(bits.is_stored() && byte.is_stored() && switch.is_stored() && rest.is_stored());
    assert!(bits.is_bit_field());
    assert!(!fixed.is_bit_field() && !byte.is_bit_field() && !switch.is_bit_field() && !rest.is_bit_field());
}

#[test]
fn fixed_contents_are_checked() {
    let field = attribute("magic", None, Logic::FixedContents(vec![0x7f, 0, 255]));
    assert_eq!(
        statement(&field, Endianness::Be),
        text("buf.ensure_fixed_contents(& [127u8, 0u8, 255u8]) ? ;")
    );
    let none = attribute("magic", None, Logic::FixedContents(vec![]));
    assert_eq!(statement(&none, Endianness::Be), text("buf.ensure_fixed_contents(& []) ? ;"));
}

#[test]
fn values_are_bound_to_the_field() {
    for (ty, endianness, code) in [
        ("u1", Endianness::Le, "let x = buf.read_u1() ? ;"),
        ("u2", Endianness::Le, "let x = buf.read_u2le() ? ;"),
        ("s4", Endianness::Be, "let x = buf.read_s4be() ? ;"),
        ("f8", Endianness::Le, "let x = buf.read_f8le() ? ;"),
        ("b1", Endianness::Le, "let x = (buf.read_bits_be(1u8, &mut _bits, &mut _bits_left) ? != 0) ;"),
        ("b12", Endianness::Le, "let x = (buf.read_bits_be(12u8, &mut _bits, &mut _bits_left) ? as u16) ;"),
        ("my_type", Endianness::Le, "let x = <MyType as ::kaitai::KaitaiStruct> ::new(buf) ? ;"),
    ] {
        assert_eq!(statement(&checked(attr("x", ty)), endianness), text(code));
    }
}

#[test]
fn enumerations_are_laid_over_numbers() {
    let field = checked(de::Attr { en: Some("my_enum".to_string()), ..attr("x", "u2") });
    assert_eq!(
        statement(&field, Endianness::Be),
        text("let x = MyEnum::n(buf.read_u2be() ?).ok_or(::kaitai::error::Error::NoEnumMatch) ? ;")
    );
    assert_eq!(field.field_definition().to_string(), text("#[doc = \"\"] pub x: MyEnum"));
    let bits = checked(de::Attr { en: Some("my_enum".to_string()), ..attr("x", "b3") });
    assert_eq!(
        statement(&bits, Endianness::Be),
        text("let x = (buf.read_bits_be(3u8, &mut _bits, &mut _bits_left) ? as u8) ;")
    );
}

#[test]
fn sizes_are_read_as_bytes() {
    let count = IntegerValue { tokens: "len + 1".parse().unwrap() };
    let fixed = checked(de::Attr { size: Some(count), ..attr("x", "u1") });
    assert_eq!(statement(&fixed, Endianness::Be), text("let x = buf.read_bytes((len + 1) as usize) ? ;"));
    let rest = checked(de::Attr { size_eos: true, ..attr("x", "u1") });
    assert_eq!(statement(&rest, Endianness::Be), text("let x = buf.read_bytes_full() ? ;"));
}

#[test]
fn repetition_goes_on_to_the_end() {
    let field = checked(de::Attr { repeat: Some(de::Repeat::Eos), ..attr("x", "u1") });
    assert_eq!(
        statement(&field, Endianness::Be),
        text(
            "let x = { let mut result = Vec::new(); while !buf.is_eof() ? { result.push(buf.read_u1() ?); } result } ;"
        )
    );
}

#[test]
fn other_repetitions_have_no_code() {
    let count = IntegerValue { tokens: "3".parse().unwrap() };
    let counted =
        checked(de::Attr { repeat: Some(de::Repeat::Expr), repeat_expr: Some(count), ..attr("x", "u1") });
    let until = checked(de::Attr {
        repeat: Some(de::Repeat::Until),
        repeat_until: Some("_ == 0".to_string()),
        ..attr("x", "u1")
    });
    for field in [counted, until] {
        assert!(field.is_definable());
        assert!(!field.is_assignable(&RootRewriteMap::new()));
        assert_eq!(field.field_definition().to_string(), text("#[doc = \"\"] pub x: ::std::vec::Vec<u8>"));
    }
    let process = attribute("x", None, Logic::Process("zlib".to_string()));
    assert!(!process.is_definable());
    assert!(!process.is_assignable(&RootRewriteMap::new()));
}

#[test]
fn switches_cast_to_the_common_type() {
    let field = checked(switch_attr("x", "header.kind", &[("kind::big", "u4"), ("2", "u2"), ("1", "u1")]));
    assert_eq!(
        statement(&field, Endianness::Le),
        text(
            "let x = match header.kind {
                1 => (buf.read_u1() ? as u32),
                2 => (buf.read_u2le() ? as u32),
                Kind::Big => buf.read_u4le() ? ,
                _ => return ::std::result::Result::Err(::kaitai::error::Error::NoEnumMatch),
            } ;"
        )
    );
}

#[test]
fn switches_over_truth_values_are_exhaustive() {
    let field = checked(switch_attr("x", "wide", &[("true", "u8"), ("false", "u4")]));
    assert_eq!(
        statement(&field, Endianness::Be),
        text("let x = match wide { false => (buf.read_u4be() ? as u64), true => buf.read_u8be() ? } ;")
    );
    assert_eq!(field.field_definition().to_string(), text("#[doc = \"\"] pub x: u64"));
}

#[test]
fn truth_values_are_widened_too() {
    let field = attribute(
        "v",
        None,
        Logic::Switch {
            on: "wide".to_string(),
            cases: vec![
                (Pattern::Bool(false), built_in(BuiltInType::U8)),
                (Pattern::Bool(true), built_in(BuiltInType::U16)),
            ],
        },
    );
    assert_eq!(field.field_definition().to_string(), text("#[doc = \"\"] pub v: u16"));
    assert_eq!(
        statement(&field, Endianness::Be),
        text("let v = match wide { false => (buf.read_u1() ? as u16), true => buf.read_u2be() ? } ;")
    );
    let same = checked(switch_attr("v", "wide", &[("true", "s2"), ("false", "s2")]));
    assert_eq!(
        statement(&same, Endianness::Le),
        text("let v = match wide { false => buf.read_s2le() ? , true => buf.read_s2le() ? } ;")
    );
}

#[test]
fn switches_on_what_is_no_code_are_refused() {
    let rewrite = RootRewriteMap::new();
    assert!(!checked(switch_attr("x", "(", &[("0", "u1")])).is_assignable(&rewrite));
    assert!(!checked(switch_attr("x", "k", &[("a::(", "u1")])).is_assignable(&rewrite));
    assert!(!checked(switch_attr("x", "k", &[])).is_assignable(&rewrite));
    assert!(!checked(switch_attr("x", "k", &[("0", "u1"), ("1", "s1")])).is_assignable(&rewrite));
    assert!(!checked(switch_attr("x", "k", &[("0", "my_type")])).is_assignable(&rewrite));
    assert!(!checked(switch_attr("x", "k", &[("0", "f4"), ("1", "f4")])).is_definable());
    assert!(!checked(switch_attr("x", "k", &[("true", "b3"), ("false", "b3")])).is_definable());
    assert!(checked(switch_attr("x", "k", &[("0", "u1")])).is_assignable(&rewrite));
}

#[test]
fn rewritten_switches_are_on_the_parameter() {
    let field = checked(switch_attr("x", "_root.flags.wide", &[("true", "u8"), ("false", "u4")]));
    let mut rewrite = RootRewriteMap::new();
    rewrite.insert("_root.flags.wide".to_string(), Ident::new("root_flags_wide"));
    let code = field.variable_assignment(Endianness::Be, Endianness::Be, &RootDepMap::new(), &rewrite);
    assert_eq!(
        code.to_string(),
        text("let x = match root_flags_wide { false => (buf.read_u4be() ? as u64), true => buf.read_u8be() ? } ;")
    );
}

#[test]
fn cases_are_put_in_order() {
    let ordered = cases(&[("b::x", "u1"), ("true", "u1"), ("10", "u2"), ("a::x", "u1"), ("9", "u1"), ("false", "u1")]);
    let keys: Vec<_> = ordered.iter().map(|(p, _)| p.sort_key()).collect();
    assert_eq!(
        keys,
        vec![(0, 9, ""), (0, 10, ""), (1, 0, ""), (1, 1, ""), (2, 0, "a::x"), (2, 0, "b::x")]
    );
    assert_eq!(ordered[1].1.plain(), Some(BuiltInType::U16));
}

#[test]
fn the_reading_order_of_cases_is_irrelevant() {
    let list = [("a::x", "u1"), ("1", "u2"), ("0", "u4"), ("b::y", "u2")];
    let expected = statement(&checked(switch_attr("x", "k", &list)), Endianness::Be);
    for i in 0..4 {
        for j in 0..4 {
            let mut shuffled = list;
            shuffled.swap(i, j);
            shuffled.rotate_left(i);
            assert_eq!(statement(&checked(switch_attr("x", "k", &shuffled)), Endianness::Be), expected);
        }
    }
}

#[test]
fn cases_with_the_same_pattern_keep_their_order() {
    let ordered = cases(&[("1", "u1"), ("0", "u1"), ("01", "u2"), ("+1", "u4")]);
    let types: Vec<_> = ordered.iter().map(|(_, t)| t.plain().unwrap()).collect();
    assert_eq!(types, vec![BuiltInType::U8, BuiltInType::U8, BuiltInType::U16, BuiltInType::U32]);
}

#[test]
fn common_types_of_cases() {
    let two = cases(&[("0", "u1"), ("1", "u2")]);
    assert_eq!(unify_switch_cases(&two), BuiltInType::U16);
    assert_eq!(checked_unify(&cases(&[("0", "s8"), ("1", "s2"), ("2", "s1")])), Some(BuiltInType::I64));
    assert_eq!(checked_unify(&cases(&[("2", "s8"), ("1", "s2"), ("0", "s1")])), Some(BuiltInType::I64));
    for list in [
        vec![],
        vec![("0", "u1"), ("1", "s1")],
        vec![("0", "f4")],
        vec![("0", "f4"), ("1", "f4")],
        vec![("0", "f4"), ("1", "f8")],
        vec![("0", "b3")],
        vec![("0", "b3"), ("1", "b3")],
        vec![("0", "u1"), ("1", "b3")],
        vec![("0", "f4"), ("1", "u4")],
        vec![("0", "b3"), ("1", "u1")],
        vec![("0", "u1"), ("1", "my_type")],
    ] {
        assert_eq!(checked_unify(&cases(&list)), None);
    }
    let with_enum = vec![(Pattern::Int(0), Type::BuiltIn { ty: BuiltInType::U8, en: Some(Ident::new("E")) })];
    assert_eq!(checked_unify(&with_enum), None);
}

#[test]
fn discriminants_are_typed_by_the_patterns() {
    let flags = cases(&[("true", "u8"), ("false", "my_type")]);
    assert!(is_all_bool(&flags));
    assert_eq!(discriminant_type_from_cases(&flags).to_string(), "bool");
    let numbers = cases(&[("0", "u1"), ("true", "u4")]);
    assert!(!is_all_bool(&numbers));
    assert_eq!(discriminant_type_from_cases(&numbers).to_string(), "u32");
    assert!(is_all_bool(&vec![]));
}

#[test]
fn root_references_are_collected_once() {
    let fields = sequence(vec![
        switch_attr("a", "_root.flags.timestamps_64bit", &[("true", "u8"), ("false", "u4")]),
        switch_attr("b", "local.kind", &[("0", "u1")]),
        switch_attr("c", "_root.kind", &[("0", "u1"), ("1", "u2")]),
        switch_attr("d", "_root.flags.timestamps_64bit", &[("0", "u1")]),
        attr("e", "u1"),
    ]);
    let refs = fields.root_refs();
    assert_eq!(refs.len(), 2);
    assert_eq!(refs[0].path, "_root.flags.timestamps_64bit");
    assert_eq!(refs[0].param_ident.as_str(), "root_flags_timestamps_64bit");
    assert_eq!(refs[0].param_ty.to_string(), "bool");
    assert_eq!(refs[0].accessor.to_string(), text("flags.timestamps_64bit"));
    assert_eq!(refs[1].path, "_root.kind");
    assert_eq!(refs[1].param_ident.as_str(), "root_kind");
    assert_eq!(refs[1].param_ty.to_string(), "u16");
    assert_eq!(refs[1].accessor.to_string(), "kind");
}

#[test]
fn root_references_that_cannot_be_used_are_refused() {
    for (on, list) in [
        ("_root.a-b", vec![("0", "u1")]),
        ("_root.(", vec![("0", "u1")]),
        ("_root.a", vec![("0", "u1"), ("1", "s1")]),
    ] {
        assert!(sequence(vec![switch_attr("x", on, &list)]).checked_root_refs().is_none());
    }
    let repeated = sequence(vec![
        switch_attr("x", "_root.a", &[("0", "u1")]),
        switch_attr("y", "_root.a", &[("0", "u1"), ("1", "s1")]),
    ]);
    assert_eq!(repeated.checked_root_refs().unwrap().len(), 1);
    assert!(sequence(vec![attr("x", "u1")]).checked_root_refs().unwrap().is_empty());
}

#[test]
fn streams_are_aligned_behind_bit_fields() {
    let fields = sequence(vec![
        attr("a", "b4"),
        attr("b", "b4"),
        attr("c", "u1"),
        attr("d", "u1"),
        attr("e", "b1"),
        attr("f", "u2"),
        attr("g", "b7"),
    ]);
    let align = text("buf.align_to_byte(&mut _bits_left)");
    let code = strings(fields.variable_assignments(Endianness::Le, Endianness::Be, &RootDepMap::new()));
    assert_eq!(code.len(), 9);
    let aligned: Vec<usize> = (0..code.len()).filter(|i| code[*i] == align).collect();
    assert_eq!(aligned, vec![2, 6]);
    assert_eq!(code[3], text("let c = buf.read_u1() ? ;"));
    assert_eq!(code[7], text("let f = buf.read_u2le() ? ;"));
    let rewritten =
        strings(fields.variable_assignments_with_root_rewrite(Endianness::Le, Endianness::Be, &RootRewriteMap::new()));
    assert_eq!(rewritten, code);
    assert!(fields.has_bit_fields());
}

#[test]
fn without_bit_fields_nothing_is_aligned() {
    let fields = sequence(vec![attr("a", "u1"), attr("b", "my_type"), attr("c", "f4")]);
    let code = strings(fields.variable_assignments(Endianness::Le, Endianness::Le, &RootDepMap::new()));
    assert_eq!(
        code,
        vec![
            text("let a = buf.read_u1() ? ;"),
            text("let b = <MyType as ::kaitai::KaitaiStruct> ::new(buf) ? ;"),
            text("let c = buf.read_f4le() ? ;"),
        ]
    );
    assert!(!fields.has_bit_fields());
    assert!(!sequence(vec![]).has_bit_fields());
}

#[test]
fn fields_and_identifiers_belong_together() {
    let fields = sequence(vec![
        attr("a", "u1"),
        de::Attr { contents: Some(vec![1, 2]), ..attr("magic", "u1") },
        attr("b", "u2"),
    ]);
    let ids: Vec<&str> = fields.field_assignments().iter().map(|id| id.as_str()).collect();
    assert_eq!(ids, vec!["a", "b"]);
    assert_eq!(
        strings(fields.field_definitions()),
        vec![text("#[doc = \"\"] pub a: u8"), text("#[doc = \"\"] pub b: u16")]
    );
}

#[test]
fn types_with_root_references_are_handed_the_values() {
    let inner = sequence(vec![
        switch_attr("a", "_root.flags.wide", &[("true", "u8"), ("false", "u4")]),
        switch_attr("b", "_root.kind", &[("0", "u1")]),
    ]);
    let mut deps = RootDepMap::new();
    deps.insert("Inner".to_string(), inner.root_refs());
    let outer = sequence(vec![attr("x", "inner"), attr("y", "other")]);
    let code = strings(outer.variable_assignments(Endianness::Be, Endianness::Be, &deps));
    assert_eq!(
        code,
        vec![
            text("let x = Inner::new_with_root(buf, flags.wide, kind) ? ;"),
            text("let y = <Other as ::kaitai::KaitaiStruct> ::new(buf) ? ;"),
        ]
    );
}

#[test]
fn contents_go_before_sizes_before_types() {
    let size = || Some(IntegerValue { tokens: "4".parse().unwrap() });
    let all = checked(de::Attr { contents: Some(vec![9]), size: size(), size_eos: true, ..attr("x", "u1") });
    assert!(matches!(all.logic, Logic::FixedContents(_)));
    let sized = checked(de::Attr { size: size(), size_eos: true, ..attr("x", "u1") });
    assert!(matches!(sized.logic, Logic::Size(Size::Fixed(_))));
    let rest = checked(de::Attr { size_eos: true, ..attr("x", "u1") });
    assert!(matches!(rest.logic, Logic::Size(Size::Eos)));
    let typed = checked(attr("x", "u1"));
    assert!(matches!(typed.logic, Logic::Type(Type::BuiltIn { ty: BuiltInType::U8, en: None })));
}

#[test]
fn fields_without_a_checked_form() {
    for bad in [
        de::Attr { id: None, ..attr("x", "u1") },
        attr("not an id", "u1"),
        attr("x", "not-a-type"),
        de::Attr { ty: None, ..attr("x", "u1") },
        de::Attr { en: Some("a-b".to_string()), ..attr("x", "u1") },
        de::Attr { repeat: Some(de::Repeat::Expr), ..attr("x", "u1") },
        de::Attr { repeat: Some(de::Repeat::Until), ..attr("x", "u1") },
        switch_attr("x", "k", &[("0", "a-b")]),
    ] {
        assert!(!Attribute::is_attr_ok(&bad));
        assert!(!is_seq_ok(&vec![attr("y", "u1"), bad]));
    }
    assert!(Attribute::is_attr_ok(&de::Attr { ty: None, size_eos: true, ..attr("x", "u1") }));
    assert!(Attribute::is_attr_ok(&de::Attr { en: Some("a-b".to_string()), ..attr("x", "my_type") }));
}

#[test]
fn type_references() {
    assert!(is_type_ok("u1", &None));
    assert!(is_type_ok("my_type", &Some("a-b".to_string())));
    assert!(!is_type_ok("", &None));
    assert!(is_cases_ok(&vec![("0".to_string(), "u1".to_string())]));
    assert!(!is_cases_ok(&vec![("0".to_string(), "1".to_string())]));
    assert_eq!(Type::from(("my_type".to_string(), None)).ty().to_string(), "MyType");
    assert_eq!(Type::from(("u2".to_string(), Some("my_enum".to_string()))).ty().to_string(), "MyEnum");
    assert_eq!(Type::from(("u2".to_string(), None)).ty().to_string(), "u16");
    assert_eq!(Type::from(("b65".to_string(), None)).ty().to_string(), "B65");
    assert_eq!(Type::from(("my_type".to_string(), None)).plain(), None);
    assert_eq!(Type::from(("s2".to_string(), None)).plain(), Some(BuiltInType::I16));
}
