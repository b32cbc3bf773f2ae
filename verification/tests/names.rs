use kaitai_hir::ident::{is_valid_ident, Ident};
use kaitai_hir::text::{
    camel_case_path, is_ascii_ident, read_number, same_text, sc_to_ucc, strip, text_at_most, undot,
};
use proc_macro2::TokenStream;

#[test]
fn snake_case_becomes_upper_camel_case() {
    for (snake, camel) in [
        ("", ""),
        ("my_type", "MyType"),
        ("header", "Header"),
        ("a_b_c", "ABC"),
        ("_leading", "Leading"),
        ("trailing_", "Trailing"),
        ("two__marks", "TwoMarks"),
        ("timestamps_64bit", "Timestamps64bit"),
        ("MyType", "MyType"),
        ("___", ""),
        ("straße_öl", "Straßeöl"),
    ] {
        assert_eq!(sc_to_ucc(snake), camel);
        assert_eq!(sc_to_ucc(camel), camel);
    }
}

#[test]
fn paths_are_put_in_camel_case_piece_by_piece() {
    for (path, camel) in [
        ("enum_name::value", "EnumName::Value"),
        ("value", "Value"),
        ("a_b::c_d::e_f", "AB::CD::EF"),
        ("::x_y", "::XY"),
        ("x_y::", "XY::"),
        ("a:::b", "A:::b"),
        ("a::::b", "A::::B"),
        ("a:b", "A:b"),
        ("", ""),
    ] {
        assert_eq!(camel_case_path(path), camel);
    }
}

#[test]
fn dots_become_underscores() {
    assert_eq!(undot("flags.timestamps_64bit"), "flags_timestamps_64bit");
    assert_eq!(undot("..."), "___");
    assert_eq!(undot("plain"), "plain");
}

#[test]
fn numbers_are_read_up_to_a_bound() {
    assert_eq!(read_number("0", u64::MAX), Some(0));
    assert_eq!(read_number("+12", u64::MAX), Some(12));
    assert_eq!(read_number("0012", u64::MAX), Some(12));
    assert_eq!(read_number("18446744073709551615", u64::MAX), Some(u64::MAX));
    assert_eq!(read_number("18446744073709551616", u64::MAX), None);
    assert_eq!(read_number("64", 64), Some(64));
    assert_eq!(read_number("65", 64), None);
    assert_eq!(read_number("5", 3), None);
    for text in ["", "+", "-1", "1 ", " 1", "1_0", "0x1", "++1", "1+", "x"] {
        assert_eq!(read_number(text, u64::MAX), None);
    }
}

#[test]
fn numbers_are_read_like_the_standard_library_reads_them() {
    for text in ["0", "7", "+7", "007", "18446744073709551615", "18446744073709551616", "", "+", "-0", "1a", "٣"] {
        assert_eq!(read_number(text, u64::MAX), text.parse::<u64>().ok());
        assert_eq!(read_number(text, 255), text.parse::<u8>().ok().map(u64::from));
    }
}

#[test]
fn texts_are_ordered_like_the_standard_library_orders_them() {
    let texts = ["", "a", "aa", "ab", "b", "B", "a::b", "a_b", "ä", "z", "zz", "\u{10000}", "\u{ffff}"];
    for a in texts {
        for b in texts {
            assert_eq!(text_at_most(a, b), a <= b);
            assert_eq!(same_text(a, b), a == b);
        }
    }
}

#[test]
fn prefixes_are_stripped() {
    assert_eq!(strip("_root.flags", "_root."), Some("flags"));
    assert_eq!(strip("_root.", "_root."), Some(""));
    assert_eq!(strip("_root", "_root."), None);
    assert_eq!(strip("x._root.", "_root."), None);
    assert_eq!(strip("öl", "ö"), Some("l"));
}

#[test]
fn identifiers_are_told_from_other_texts() {
    for text in ["a", "_", "_x1", "MyType", "self", "fn", "öl", "ñ_1"] {
        assert!(is_valid_ident(text));
        assert_eq!(Ident::checked(text).unwrap().as_str(), text);
    }
    for text in ["", "1a", "a b", "a-b", "a.b", " a", "a ", "r#fn", "r#x", "'a", "a::b", "\"a\"", "(", "a/**/", "1"] {
        assert!(!is_valid_ident(text));
        assert!(Ident::checked(text).is_none());
    }
    assert!(is_ascii_ident("x_1"));
    assert!(!is_ascii_ident("öl"));
}

#[test]
fn identifiers_are_appended_as_one_token() {
    let mut tokens: TokenStream = "pub".parse().unwrap();
    let ident = Ident::new("öl");
    ident.to_tokens(&mut tokens);
    ident.clone().to_tokens(&mut tokens);
    assert_eq!(tokens.to_string(), "pub öl öl");
}
