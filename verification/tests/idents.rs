use const_format::format_args::idents::{
    can_name_variable, local_variable, local_variable_from_text, variable_from_bytes,
};
use const_format::format_args::local_variable_name;
use proc_macro2::{Ident, Span};

#[test]
fn names_of_local_variables() {
    assert_eq!(
        local_variable_name(b"const_fmt_local_", 0, None),
        b"const_fmt_local_0"
    );
    assert_eq!(
        local_variable_name(b"const_fmt_local_", 1234, None),
        b"const_fmt_local_1234"
    );
    assert_eq!(
        local_variable_name(b"const_fmt_local_", usize::MAX, None),
        format!("const_fmt_local_{}", usize::MAX).as_bytes()
    );
    assert_eq!(
        local_variable_name(b"const_fmt_local_", 7, Some(b"foo")),
        b"const_fmt_local_foo"
    );
    assert_eq!(local_variable_name(b"", 7, Some(b"")), b"");
}

#[test]
fn what_can_name_a_variable() {
    for name in ["a", "_a", "a_", "A0", "_0", "__", "fn", "const_fmt_local_12", "Z"] {
        assert!(can_name_variable(name.as_bytes()), "{}", name);
        let made = variable_from_bytes(name.as_bytes(), Span::call_site()).unwrap();
        assert_eq!(made.to_string(), name);
    }
    for name in ["", "_", "0", "0a", "a-b", "a b", "é", "aé", "a.b", " a"] {
        assert!(!can_name_variable(name.as_bytes()), "{}", name);
        assert!(variable_from_bytes(name.as_bytes(), Span::call_site()).is_none());
    }
}

#[test]
fn identifiers_of_local_variables() {
    let span = Span::call_site();
    let prefix = Ident::new("const_fmt_local_", span);
    let name = Ident::new("foo", span);
    assert_eq!(
        local_variable(&prefix, 3, None, span).unwrap().to_string(),
        "const_fmt_local_3"
    );
    assert_eq!(
        local_variable(&prefix, 3, Some(&name), span).unwrap().to_string(),
        "const_fmt_local_foo"
    );
    assert_eq!(
        local_variable_from_text("x", 10, None, span).unwrap().to_string(),
        "x10"
    );
    assert_eq!(
        local_variable_from_text("_", 0, Some("_"), span).unwrap().to_string(),
        "__"
    );
    // the text of a raw identifier begins with `r#`, which no name holds
    let raw = Ident::new_raw("foo", span);
    assert!(local_variable(&prefix, 3, Some(&raw), span).is_none());
    assert!(local_variable(&raw, 3, None, span).is_none());
    // a prefix that is no name makes no variable
    assert!(local_variable_from_text("", 10, None, span).is_none());
    assert!(local_variable_from_text("1", 10, None, span).is_none());
    assert!(local_variable_from_text("", 0, Some("_"), span).is_none());
    assert!(local_variable_from_text("a-", 0, Some("b"), span).is_none());
}
