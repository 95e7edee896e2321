use cwdemangle::{
    demangle_arg, demangle_function_args, demangle_name, demangle_qualified_name,
    demangle_template_args, DemangleOptions,
};

fn fragment(pre: &str, post: &str, rest: &'static str) -> Option<(String, String, &'static str)> {
    Some((pre.to_string(), post.to_string(), rest))
}

fn with_extensions() -> DemangleOptions {
    DemangleOptions { omit_empty_parameters: true, mw_extensions: true }
}

#[test]
fn every_builtin_type() {
    let options = DemangleOptions::default();
    assert_eq!(demangle_arg("i", &options), fragment("int", "", ""));
    assert_eq!(demangle_arg("b", &options), fragment("bool", "", ""));
    assert_eq!(demangle_arg("c", &options), fragment("char", "", ""));
    assert_eq!(demangle_arg("s", &options), fragment("short", "", ""));
    assert_eq!(demangle_arg("l", &options), fragment("long", "", ""));
    assert_eq!(demangle_arg("x", &options), fragment("long long", "", ""));
    assert_eq!(demangle_arg("f", &options), fragment("float", "", ""));
    assert_eq!(demangle_arg("d", &options), fragment("double", "", ""));
    assert_eq!(demangle_arg("w", &options), fragment("wchar_t", "", ""));
    assert_eq!(demangle_arg("v", &options), fragment("void", "", ""));
    assert_eq!(demangle_arg("e", &options), fragment("...", "", ""));
}

#[test]
fn unknown_letter_is_no_type() {
    let options = DemangleOptions::default();
    assert_eq!(demangle_arg("z", &options), None);
    assert_eq!(demangle_arg("Pz", &options), None);
    assert_eq!(demangle_arg(",", &options), None);
}

#[test]
fn end_of_text_is_no_type() {
    let options = DemangleOptions::default();
    assert_eq!(demangle_arg("", &options), None);
    assert_eq!(demangle_arg("PC", &options), None);
}

#[test]
fn nothing_is_read_before_an_underscore() {
    let options = DemangleOptions::default();
    assert_eq!(demangle_arg("_x", &options), fragment("", "", "_x"));
}

#[test]
fn pointer_to_const_and_const_pointer() {
    let options = DemangleOptions::default();
    assert_eq!(demangle_arg("PCv", &options), fragment("const void*", "", ""));
    assert_eq!(demangle_arg("CPv", &options), fragment("void* const", "", ""));
}

#[test]
fn volatile_needs_the_extensions() {
    assert_eq!(demangle_arg("Vi", &DemangleOptions::default()), None);
    assert_eq!(demangle_arg("RCPCVPCVUi", &DemangleOptions::default()), None);
    assert_eq!(demangle_arg("Vi", &with_extensions()), fragment("volatile int", "", ""));
    assert_eq!(demangle_arg("i", &with_extensions()), fragment("int", "", ""));
}

#[test]
fn class_type_takes_the_indirections() {
    let options = DemangleOptions::default();
    assert_eq!(demangle_arg("P6CActor", &options), fragment("CActor*", "", ""));
    assert_eq!(
        demangle_arg("RCQ24rstl6stringi", &options),
        fragment("const rstl::string&", "", "i")
    );
}

#[test]
fn plain_array() {
    let options = DemangleOptions::default();
    assert_eq!(demangle_arg("A3_i", &options), fragment("int", "[3]", ""));
    assert_eq!(demangle_arg("A2_A3_f", &options), fragment("float", "[2][3]", ""));
}

#[test]
fn pointer_to_array_is_parenthesized() {
    let options = DemangleOptions::default();
    assert_eq!(demangle_arg("PA2_f", &options), fragment("float(*)", "[2]", ""));
    assert_eq!(demangle_arg("RA4_Ci", &options), fragment("const int(&)", "[4]", ""));
}

#[test]
fn array_of_pointers() {
    let options = DemangleOptions::default();
    assert_eq!(demangle_arg("A4_Pc", &options), fragment("char*", "[4]", ""));
}

#[test]
fn array_bound_is_written_without_leading_zeros() {
    let options = DemangleOptions::default();
    assert_eq!(demangle_arg("A010_i", &options), fragment("int", "[10]", ""));
}

#[test]
fn malformed_arrays() {
    let options = DemangleOptions::default();
    assert_eq!(demangle_arg("A_i", &options), None);
    assert_eq!(demangle_arg("A3i", &options), None);
    assert_eq!(demangle_arg("A3_", &options), None);
    assert_eq!(demangle_arg("A3", &options), None);
}

#[test]
fn function_pointer() {
    let options = DemangleOptions::default();
    assert_eq!(demangle_arg("PFi_v", &options), fragment("void (*", ")(int)", ""));
    assert_eq!(demangle_arg("PFv_v", &options), fragment("void (*", ")(void)", ""));
    assert_eq!(demangle_arg("PF_v", &options), fragment("void (*", ")()", ""));
}

#[test]
fn function_pointer_keeps_the_rest_of_the_chain() {
    let options = DemangleOptions::default();
    assert_eq!(demangle_arg("RCPFi_v", &options), fragment("void (*const&", ")(int)", ""));
    assert_eq!(demangle_arg("PPFi_v", &options), fragment("void (**", ")(int)", ""));
}

#[test]
fn function_needs_a_pointer() {
    let options = DemangleOptions::default();
    assert_eq!(demangle_arg("Fi_v", &options), None);
    assert_eq!(demangle_arg("RFi_v", &options), None);
    assert_eq!(demangle_arg("CFi_v", &options), None);
}

#[test]
fn function_needs_a_return_type() {
    let options = DemangleOptions::default();
    assert_eq!(demangle_arg("PFi", &options), None);
    assert_eq!(demangle_arg("PFi_", &options), None);
    assert_eq!(demangle_arg("PFi,v", &options), None);
}

#[test]
fn member_function_pointer() {
    let options = DemangleOptions::default();
    assert_eq!(
        demangle_arg("M6CActorFPCvPvi_v", &options),
        fragment("void (CActor::*", ")(int)", "")
    );
    assert_eq!(
        demangle_arg("M6CActorFPCvPv_v", &options),
        fragment("void (CActor::*", ")()", "")
    );
}

#[test]
fn const_member_function_pointer() {
    let options = DemangleOptions::default();
    assert_eq!(
        demangle_arg("M6CActorFPCvPCvi_b", &options),
        fragment("bool (CActor::*", ")(int) const", "")
    );
}

#[test]
fn qualified_member_function_pointer() {
    let options = DemangleOptions::default();
    assert_eq!(
        demangle_arg("RCMQ21a1bFPCvPvPc_ix", &options),
        fragment("int (a::b::*const &", ")(char*)", "x")
    );
}

#[test]
fn member_pointer_needs_its_function() {
    let options = DemangleOptions::default();
    assert_eq!(demangle_arg("M6CActori", &options), None);
    assert_eq!(demangle_arg("M6CActor", &options), None);
    assert_eq!(demangle_arg("Mi", &options), None);
}

#[test]
fn member_pointer_needs_its_hidden_parameters() {
    let options = DemangleOptions::default();
    assert_eq!(demangle_arg("M6CActorFi_v", &options), None);
    assert_eq!(demangle_arg("M6CActorFPCvi_v", &options), None);
    assert_eq!(demangle_arg("M6CActorFPvPCvi_v", &options), None);
    assert_eq!(demangle_arg("M6CActorF", &options), None);
}

#[test]
fn identifier_without_arguments() {
    let options = DemangleOptions::default();
    assert_eq!(demangle_template_args("plain", &options), Some(("plain", String::new())));
    assert_eq!(demangle_template_args("", &options), Some(("", String::new())));
    assert_eq!(demangle_template_args("a>b", &options), Some(("a>b", String::new())));
}

#[test]
fn unmatched_brackets() {
    let options = DemangleOptions::default();
    assert_eq!(demangle_template_args("foo<i", &options), None);
    assert_eq!(demangle_template_args("foo>i<", &options), None);
    assert_eq!(demangle_template_args("foo<z>", &options), None);
}

#[test]
fn empty_and_literal_arguments() {
    let options = DemangleOptions::default();
    assert_eq!(demangle_template_args("foo<>", &options), Some(("foo", "<>".to_string())));
    assert_eq!(demangle_template_args("foo<3>", &options), Some(("foo", "<3>".to_string())));
    assert_eq!(
        demangle_template_args("foo<i,007,b>", &options),
        Some(("foo", "<int, 7, bool>".to_string()))
    );
}

#[test]
fn text_behind_the_last_bracket_is_dropped() {
    let options = DemangleOptions::default();
    assert_eq!(demangle_template_args("foo<i>bar", &options), Some(("foo", "<int>".to_string())));
}

#[test]
fn nested_closing_brackets_are_adjacent() {
    let options = DemangleOptions::default();
    assert_eq!(
        demangle_template_args("a<4b<i>>", &options),
        Some(("a", "<b<int>>".to_string()))
    );
    assert_eq!(
        demangle_template_args("a<i,8b<4c<f>>>", &options),
        Some(("a", "<int, b<c<float>>>".to_string()))
    );
    assert_eq!(
        demangle_name("12a<8b<4c<f>>>", &options),
        Some(("a".to_string(), "a<b<c<float>>>".to_string(), ""))
    );
}

#[test]
fn plain_names() {
    let options = DemangleOptions::default();
    assert_eq!(demangle_name("3foo", &options), Some(("foo".to_string(), "foo".to_string(), "")));
    assert_eq!(
        demangle_name("3foobar", &options),
        Some(("foo".to_string(), "foo".to_string(), "bar"))
    );
    assert_eq!(demangle_name("0x", &options), Some((String::new(), String::new(), "x")));
}

#[test]
fn literal_values() {
    let options = DemangleOptions::default();
    assert_eq!(demangle_name("10", &options), Some(("10".to_string(), "10".to_string(), "")));
    assert_eq!(demangle_name("5,i", &options), Some(("5".to_string(), "5".to_string(), ",i")));
    assert_eq!(demangle_name("007", &options), Some(("7".to_string(), "7".to_string(), "")));
}

#[test]
fn names_that_are_cut_short() {
    let options = DemangleOptions::default();
    assert_eq!(demangle_name("9foo", &options), None);
    assert_eq!(demangle_name("foo", &options), None);
    assert_eq!(demangle_name("", &options), None);
    assert_eq!(demangle_name("99999999999999999999999999999999999999999foo", &options), None);
}

#[test]
fn qualified_names() {
    let options = DemangleOptions::default();
    assert_eq!(
        demangle_qualified_name("Q13foo", &options),
        Some(("foo".to_string(), "foo".to_string(), ""))
    );
    assert_eq!(
        demangle_qualified_name("Q31a1b1cFv", &options),
        Some(("c".to_string(), "a::b::c".to_string(), "Fv"))
    );
    assert_eq!(
        demangle_qualified_name("Q0x", &options),
        Some((String::new(), String::new(), "x"))
    );
}

#[test]
fn short_name_is_the_bare_last_segment() {
    let options = DemangleOptions::default();
    assert_eq!(
        demangle_qualified_name("Q21a4b<i>", &options),
        Some(("b".to_string(), "a::b<int>".to_string(), ""))
    );
}

#[test]
fn malformed_qualified_names() {
    let options = DemangleOptions::default();
    assert_eq!(demangle_qualified_name("Q", &options), None);
    assert_eq!(demangle_qualified_name("Q2", &options), None);
    assert_eq!(demangle_qualified_name("Q0", &options), None);
    assert_eq!(demangle_qualified_name("Qx3foo", &options), None);
    assert_eq!(demangle_qualified_name("Q23foo", &options), None);
    assert_eq!(demangle_qualified_name("Q+3foo", &options), None);
}

#[test]
fn parameter_lists() {
    let options = DemangleOptions::default();
    assert_eq!(demangle_function_args("", &options), Some((String::new(), "")));
    assert_eq!(demangle_function_args("ii", &options), Some(("int, int".to_string(), "")));
    assert_eq!(demangle_function_args("i_v", &options), Some(("int".to_string(), "_v")));
    assert_eq!(demangle_function_args("i,x", &options), Some(("int".to_string(), ",x")));
    assert_eq!(demangle_function_args("_v", &options), Some((String::new(), "_v")));
    assert_eq!(
        demangle_function_args("PFi_vA2_c", &options),
        Some(("void (*)(int), char[2]".to_string(), ""))
    );
}

#[test]
fn parameter_list_with_a_bad_type() {
    let options = DemangleOptions::default();
    assert_eq!(demangle_function_args("iz", &options), None);
    assert_eq!(demangle_function_args(",", &options), None);
}
