use cwdemangle::{demangle, parse_symbol, render, DemangleOptions, Signature};

fn keep_void() -> DemangleOptions {
    DemangleOptions { omit_empty_parameters: false, mw_extensions: false }
}

fn with_extensions() -> DemangleOptions {
    DemangleOptions { omit_empty_parameters: true, mw_extensions: true }
}

fn decoded(symbol: &str) -> Option<String> {
    demangle(symbol, &DemangleOptions::default())
}

#[test]
fn same_symbol_same_declaration() {
    let options = DemangleOptions::default();
    let symbol = "execCommand__12JASSeqParserFP8JASTrackM12JASSeqParserFPCvPvP8JASTrackPUl_lUlPUl";
    let first = demangle(symbol, &options);
    let second = demangle(symbol, &DemangleOptions::default());
    assert!(first.is_some());
    assert_eq!(first, second);
    assert_eq!(demangle("cfunction", &options), demangle("cfunction", &options));
}

#[test]
fn symbol_outside_ascii_is_not_decoded() {
    assert_eq!(decoded("GetSfxHandle__6CActorCFv\u{e9}"), None);
    assert_eq!(decoded("Get\u{e9}__Fv"), None);
    assert_eq!(decoded("\u{1f600}"), None);
    assert_eq!(demangle("f\u{f6}o__Fv", &keep_void()), None);
    assert_eq!(demangle("f\u{f6}o__Fv", &with_extensions()), None);
    assert_eq!(decoded("foo__Fv"), Some("foo()".to_string()));
}

#[test]
fn empty_parameter_list_follows_the_option() {
    assert_eq!(decoded("GetSfxHandle__6CActorCFv"), Some("CActor::GetSfxHandle() const".to_string()));
    assert_eq!(
        demangle("GetSfxHandle__6CActorCFv", &keep_void()),
        Some("CActor::GetSfxHandle(void) const".to_string())
    );
    assert_eq!(decoded("foo__Fv_i"), Some("int foo()".to_string()));
    assert_eq!(demangle("foo__Fv_i", &keep_void()), Some("int foo(void)".to_string()));
}

#[test]
fn other_parameter_lists_ignore_the_option() {
    let symbols = [
        "foo__Fi",
        "foo__FPv",
        "foo__Fiv",
        "foo__FPFv_v",
        "foo__F_v",
        "__pl__FRC9CRelAngleRC9CRelAngle",
        "Matrix__FfPA2_A3_f",
        "mNull__6CActor",
        "cfunction",
        "foo__Fz",
    ];
    for symbol in symbols {
        assert_eq!(demangle(symbol, &DemangleOptions::default()), demangle(symbol, &keep_void()));
    }
    assert_eq!(decoded("foo__FPv"), Some("foo(void*)".to_string()));
    assert_eq!(decoded("foo__Fiv"), Some("foo(int, void)".to_string()));
    assert_eq!(decoded("foo__FPFv_v"), Some("foo(void (*)(void))".to_string()));
    assert_eq!(decoded("foo__F_v"), Some("void foo()".to_string()));
    assert_eq!(demangle("foo__F_v", &keep_void()), Some("void foo()".to_string()));
}

#[test]
fn trailing_text_is_rejected() {
    assert_eq!(decoded("foo__Fv_i"), Some("int foo()".to_string()));
    assert_eq!(decoded("foo__Fv_i!"), None);
    assert_eq!(decoded("foo__Fv_ii"), None);
    assert_eq!(decoded("foo__6CActor"), Some("CActor::foo".to_string()));
    assert_eq!(decoded("foo__6CActorX"), None);
    assert_eq!(decoded("foo__6CActorCX"), None);
    assert_eq!(decoded("GetSfxHandle__6CActorCFvz"), None);
    assert_eq!(decoded("foo__Fi,"), None);
}

#[test]
fn nested_template_brackets_in_a_declaration() {
    assert_eq!(
        decoded("foo<Q24rstl9vector<i>>__Fv"),
        Some("foo<rstl::vector<int>>()".to_string())
    );
    assert_eq!(
        decoded("bar__16a<Q21b8c<4d<i>>>Fv"),
        Some("a<b::c<d<int>>>::bar()".to_string())
    );
}

#[test]
fn scenarios() {
    assert_eq!(decoded("GetSfxHandle__6CActorCFv"), Some("CActor::GetSfxHandle() const".to_string()));
    assert_eq!(
        demangle("GetSfxHandle__6CActorCFv", &keep_void()),
        Some("CActor::GetSfxHandle(void) const".to_string())
    );
    assert_eq!(decoded("__dt__6CActorFv"), Some("CActor::~CActor()".to_string()));
    assert_eq!(
        decoded("__pl__FRC9CRelAngleRC9CRelAngle"),
        Some("operator+(const CRelAngle&, const CRelAngle&)".to_string())
    );
    assert_eq!(decoded("cfunction"), None);
    assert_eq!(decoded("Matrix__FfPA2_A3_f"), Some("Matrix(float, float(*)[2][3])".to_string()));
    assert_eq!(
        decoded("destroy<PUi>__4rstlFPUiPUi"),
        Some("rstl::destroy<unsigned int*>(unsigned int*, unsigned int*)".to_string())
    );
}

#[test]
fn volatile_in_a_declaration() {
    assert_eq!(decoded("foo__FVi"), None);
    assert_eq!(decoded("foo__FPCVc"), None);
    assert_eq!(demangle("foo__FVi", &with_extensions()), Some("foo(volatile int)".to_string()));
    assert_eq!(
        demangle("foo__FPCVc", &with_extensions()),
        Some("foo(const volatile char*)".to_string())
    );
    assert_eq!(demangle("foo__Fv", &with_extensions()), Some("foo()".to_string()));
}

#[test]
fn symbols_without_a_separator() {
    assert_eq!(decoded(""), None);
    assert_eq!(decoded("_"), None);
    assert_eq!(decoded("__"), None);
    assert_eq!(decoded("foo_Fv"), None);
    assert_eq!(decoded("@LOCAL@foo"), None);
    assert_eq!(decoded("@LOCAL@foo__Fv"), None);
}

#[test]
fn separator_is_the_first_double_underscore() {
    assert_eq!(decoded("a__b__Fv"), None);
    assert_eq!(decoded("a__1bFv"), Some("b::a()".to_string()));
    assert_eq!(decoded("__Fv"), None);
    assert_eq!(decoded("____Fv"), Some("__()".to_string()));
}

#[test]
fn init_reaches_to_the_next_separator() {
    assert_eq!(
        decoded("__init__mNull__6CActor"),
        Some("CActor::__init__mNull".to_string())
    );
    assert_eq!(decoded("__init__mNull"), None);
    assert_eq!(decoded("init__6CActorFv"), Some("CActor::init()".to_string()));
}

#[test]
fn free_functions_and_objects() {
    assert_eq!(decoded("foo__Fv"), Some("foo()".to_string()));
    assert_eq!(decoded("foo__Fif"), Some("foo(int, float)".to_string()));
    assert_eq!(decoded("foo__Fe"), Some("foo(...)".to_string()));
    assert_eq!(decoded("mNull__6CActor"), Some("CActor::mNull".to_string()));
    assert_eq!(decoded("mNull__Q21a1b"), Some("a::b::mNull".to_string()));
}

#[test]
fn return_types() {
    assert_eq!(decoded("foo__Fi_Pc"), Some("char* foo(int)".to_string()));
    assert_eq!(decoded("foo__6CActorCFi_RC6CActor"), Some("const CActor& CActor::foo(int) const".to_string()));
    assert_eq!(decoded("foo__Fi_PA3_i"), Some("int(*) foo(int)[3]".to_string()));
    assert_eq!(decoded("foo__Fi_"), None);
    assert_eq!(decoded("foo__Fi_z"), None);
}

#[test]
fn special_functions_in_a_class() {
    assert_eq!(decoded("__ct__6CActorFi"), Some("CActor::CActor(int)".to_string()));
    assert_eq!(decoded("__dt__Q21a1bFv"), Some("a::b::~b()".to_string()));
    assert_eq!(decoded("__as__6CActorFRC6CActor"), Some("CActor::operator=(const CActor&)".to_string()));
    assert_eq!(decoded("__vc__6CActorCFi"), Some("CActor::operator[](int) const".to_string()));
    assert_eq!(decoded("__opi__6CActorCFv"), Some("CActor::operator int() const".to_string()));
    assert_eq!(decoded("__zz__6CActorFv"), Some("CActor::__zz()".to_string()));
    assert_eq!(decoded("__ct__4a<i>Fv"), Some("a<int>::a()".to_string()));
    assert_eq!(decoded("__opz__6CActorCFv"), None);
}

#[test]
fn static_locals_by_marker() {
    assert_eq!(decoded("@LOCAL@foo__Fv@var"), Some("foo()::var".to_string()));
    assert_eq!(decoded("@GUARD@foo__Fv@var"), Some("foo()::var guard".to_string()));
    assert_eq!(decoded("@GUARD@foo__6CActorCFi@x"), Some("CActor::foo(int) const::x guard".to_string()));
    assert_eq!(decoded("@LOCAL@foo__Fv@"), Some("foo()".to_string()));
    assert_eq!(decoded("@GUARD@foo__Fv@"), Some("foo():: guard".to_string()));
    assert_eq!(decoded("@LOCAL@foo__Fv@a@b"), None);
    assert_eq!(decoded("@OTHER@foo__Fv@var"), None);
}

#[test]
fn static_locals_in_the_name() {
    assert_eq!(decoded("x$localstatic0$foo__Fv"), Some("foo()::x".to_string()));
    assert_eq!(decoded("init$localstatic7$foo__Fv"), Some("foo()::localstatic7 guard".to_string()));
    assert_eq!(decoded("x$localstatic0$foo__6CActorFv_i"), Some("int CActor::foo()::x".to_string()));
    assert_eq!(decoded("x$other0$foo__Fv"), None);
    assert_eq!(decoded("x$localstatic0foo__Fv"), None);
    assert_eq!(decoded("$localstatic0$foo__Fv"), Some("foo()".to_string()));
}

#[test]
fn parsed_signature() {
    let options = DemangleOptions::default();
    let signature = parse_symbol("@GUARD@get__Q21a1bCFv_PCc@table", &options);
    let signature = match signature {
        Some(signature) => signature,
        None => panic!("the symbol is well formed"),
    };
    assert_eq!(signature.return_pre, "const char*");
    assert_eq!(signature.return_post, "");
    assert_eq!(signature.qualified, "a::b");
    assert_eq!(signature.name, "get");
    assert_eq!(signature.params, Some("void".to_string()));
    assert!(signature.is_const);
    assert_eq!(signature.static_var, "table guard");
    assert_eq!(render(&signature, true), "const char* a::b::get() const::table guard");
    assert_eq!(render(&signature, false), "const char* a::b::get(void) const::table guard");
}

#[test]
fn signature_of_an_object() {
    let options = DemangleOptions::default();
    let signature = match parse_symbol("mNull__6CActor", &options) {
        Some(signature) => signature,
        None => panic!("the symbol is well formed"),
    };
    assert_eq!(signature.params, None);
    assert!(!signature.is_const);
    assert_eq!(signature.static_var, "");
    assert_eq!(render(&signature, true), "CActor::mNull");
    assert_eq!(render(&signature, true), render(&signature, false));
    assert!(parse_symbol("mNull__6CActor!", &options).is_none());
}

#[test]
fn rendering_a_signature() {
    let signature = Signature {
        return_pre: "void (*".to_string(),
        return_post: ")(int)".to_string(),
        qualified: String::new(),
        name: "handler".to_string(),
        params: Some("int, char".to_string()),
        is_const: false,
        static_var: "cache".to_string(),
    };
    assert_eq!(render(&signature, true), "void (* handler(int, char))(int)::cache");
    assert_eq!(render(&signature, false), "void (* handler(int, char))(int)::cache");
    let signature = Signature {
        return_pre: String::new(),
        return_post: "[3]".to_string(),
        qualified: "ns".to_string(),
        name: "f".to_string(),
        params: Some("void".to_string()),
        is_const: true,
        static_var: String::new(),
    };
    assert_eq!(render(&signature, true), "ns::f() const");
    assert_eq!(render(&signature, false), "ns::f(void) const");
}
