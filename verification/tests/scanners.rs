use cwdemangle::{parse_digits, parse_qualifiers, DemangleOptions};

fn with_extensions() -> DemangleOptions {
    DemangleOptions { omit_empty_parameters: true, mw_extensions: true }
}

#[test]
fn default_options() {
    let options = DemangleOptions::default();
    assert!(options.omit_empty_parameters);
    assert!(!options.mw_extensions);
}

#[test]
fn digits_then_text() {
    assert_eq!(parse_digits("123abc"), Some((123, "abc")));
    assert_eq!(parse_digits("5"), Some((5, "")));
    assert_eq!(parse_digits("0x"), Some((0, "x")));
}

#[test]
fn digits_drop_leading_zeros() {
    assert_eq!(parse_digits("007_"), Some((7, "_")));
}

#[test]
fn digits_need_a_digit() {
    assert_eq!(parse_digits("abc"), None);
    assert_eq!(parse_digits(""), None);
    assert_eq!(parse_digits("+1"), None);
}

#[test]
fn digits_reject_what_does_not_fit() {
    assert_eq!(parse_digits("99999999999999999999999999999999999999999x"), None);
    assert_eq!(parse_digits("4294967295"), Some((4294967295usize, "")));
}

#[test]
fn qualifiers_of_nothing() {
    let options = DemangleOptions::default();
    assert_eq!(parse_qualifiers("", &options), (String::new(), String::new(), ""));
    assert_eq!(parse_qualifiers("i", &options), (String::new(), String::new(), "i"));
}

#[test]
fn pointer_to_const() {
    let options = DemangleOptions::default();
    assert_eq!(
        parse_qualifiers("PCv", &options),
        ("const ".to_string(), "*".to_string(), "v")
    );
}

#[test]
fn const_pointer() {
    let options = DemangleOptions::default();
    assert_eq!(
        parse_qualifiers("CPv", &options),
        (String::new(), "* const".to_string(), "v")
    );
}

#[test]
fn reference_and_signedness() {
    let options = DemangleOptions::default();
    assert_eq!(
        parse_qualifiers("RUc", &options),
        ("unsigned ".to_string(), "&".to_string(), "c")
    );
    assert_eq!(
        parse_qualifiers("Sc", &options),
        ("signed ".to_string(), String::new(), "c")
    );
}

#[test]
fn nested_pointers_bind_their_own_qualifiers() {
    let options = DemangleOptions::default();
    assert_eq!(
        parse_qualifiers("RCPCPCi", &options),
        ("const ".to_string(), "* const* const&".to_string(), "i")
    );
    assert_eq!(
        parse_qualifiers("PPCPi", &options),
        (String::new(), "* const**".to_string(), "i")
    );
}

#[test]
fn several_pending_keywords() {
    let options = DemangleOptions::default();
    assert_eq!(
        parse_qualifiers("CUPi", &options),
        (String::new(), "* const unsigned".to_string(), "i")
    );
}

#[test]
fn volatile_is_an_extension() {
    let options = DemangleOptions::default();
    assert_eq!(parse_qualifiers("Vi", &options), (String::new(), String::new(), "Vi"));
    assert_eq!(
        parse_qualifiers("CVi", &options),
        ("const ".to_string(), String::new(), "Vi")
    );
    assert_eq!(
        parse_qualifiers("Vi", &with_extensions()),
        ("volatile ".to_string(), String::new(), "i")
    );
    assert_eq!(
        parse_qualifiers("PCVi", &with_extensions()),
        ("const volatile ".to_string(), "*".to_string(), "i")
    );
}
