use kaitai_hir::hir::pattern::Pattern;
use proc_macro2::TokenStream;

fn rendered(text: &str) -> Option<String> {
    let pattern = Pattern::from(text.to_string());
    if !pattern.is_renderable() {
        return None;
    }
    let mut tokens = TokenStream::new();
    pattern.to_tokens(&mut tokens);
    Some(tokens.to_string())
}

#[test]
fn patterns_are_told_apart() {
    assert!(matches!(Pattern::from("true".to_string()), Pattern::Bool(true)));
    assert!(matches!(Pattern::from("false".to_string()), Pattern::Bool(false)));
    assert!(matches!(Pattern::from("0".to_string()), Pattern::Int(0)));
    assert!(matches!(Pattern::from("+42".to_string()), Pattern::Int(42)));
    assert!(matches!(Pattern::from("18446744073709551615".to_string()), Pattern::Int(u64::MAX)));
    for text in ["True", "", "-1", "0x10", "18446744073709551616", "kind::small"] {
        match Pattern::from(text.to_string()) {
            Pattern::Enum(path) => assert_eq!(path, text),
            other => panic!("{other:?}"),
        }
    }
}

#[test]
fn every_number_is_read_back() {
    for n in [0, 1, 9, 10, 11, 99, 100, 65535, u64::MAX - 1, u64::MAX] {
        match Pattern::from(n.to_string()) {
            Pattern::Int(m) => assert_eq!(m, n),
            other => panic!("{other:?}"),
        }
    }
}

#[test]
fn keys_order_numbers_before_truth_values_before_enum_values() {
    assert_eq!(Pattern::Int(7).sort_key(), (0, 7, ""));
    assert_eq!(Pattern::Bool(true).sort_key(), (1, 1, ""));
    assert_eq!(Pattern::Bool(false).sort_key(), (1, 0, ""));
    assert_eq!(Pattern::Enum("a::b".to_string()).sort_key(), (2, 0, "a::b"));
    let texts = ["0", "2", "10", "false", "true", "", "a", "b::c"];
    for i in 0..texts.len() {
        for j in 0..texts.len() {
            let a = Pattern::from(texts[i].to_string());
            let b = Pattern::from(texts[j].to_string());
            assert_eq!(a.at_most(&b), i <= j);
            assert_eq!(a.at_most(&b), a.sort_key() <= b.sort_key());
        }
    }
}

#[test]
fn patterns_become_code() {
    assert_eq!(rendered("12").unwrap(), "12");
    assert_eq!(rendered("+0012").unwrap(), "12");
    assert_eq!(rendered("true").unwrap(), "true");
    assert_eq!(rendered("false").unwrap(), "false");
    let path: TokenStream = "EnumName::Value".parse().unwrap();
    assert_eq!(rendered("enum_name::value").unwrap(), path.to_string());
    assert_eq!(rendered("value").unwrap(), "Value");
    assert_eq!(rendered("").unwrap(), "");
}

#[test]
fn some_patterns_are_no_code() {
    assert!(rendered("kind::(small").is_none());
    assert!(rendered("\"open").is_none());
}

#[test]
fn patterns_are_appended_behind_what_is_there() {
    for (pattern, end) in
        [(Pattern::Int(1), "1"), (Pattern::Bool(true), "true"), (Pattern::Enum("x".to_string()), "X")]
    {
        let mut tokens: TokenStream = "0 |".parse().unwrap();
        pattern.to_tokens(&mut tokens);
        assert_eq!(tokens.to_string(), format!("0 | {end}"));
    }
}
