use flapigen::dotnet::{DotNetConfig, DotNetGenerator};
use flapigen::graph::Direction;
use flapigen::seed::seed_dotnet_typemap;
use flapigen::types::{
    EnumItem, ForeignClassInfo, ForeignEnumInfo, ForeignMethod, ItemToExpand, MethodAccess,
    MethodVariant,
};

fn config() -> DotNetConfig {
    DotNetConfig {
        managed_lib_name: "MyLib".to_string(),
        native_lib_name: "my_native".to_string(),
    }
}

fn generator() -> DotNetGenerator {
    DotNetGenerator::new(config(), seed_dotnet_typemap().expect("seeding never fails"))
}

fn color_enum() -> ForeignEnumInfo {
    ForeignEnumInfo {
        name: "Color".to_string(),
        src_id: 0,
        span: flapigen::Span { lo: 0, hi: 0 },
        items: vec![
            EnumItem {
                name: "red".to_string(),
                rust_name: "Color::Red".to_string(),
                doc_comments: Vec::new(),
            },
            EnumItem {
                name: "green".to_string(),
                rust_name: "Color::Green".to_string(),
                doc_comments: Vec::new(),
            },
            EnumItem {
                name: "blue".to_string(),
                rust_name: "Color::Blue".to_string(),
                doc_comments: Vec::new(),
            },
        ],
        doc_comments: Vec::new(),
    }
}

#[test]
fn seeded_primitive_pairs_resolve_both_directions() {
    let g = seed_dotnet_typemap().expect("seeding never fails");
    for (rust, foreign) in [
        ("i32", "int"),
        ("u8", "byte"),
        ("u64", "ulong"),
        ("f64", "double"),
        ("()", "void"),
    ] {
        let n = g.find_native(rust).expect("seeded native type");
        let f_out = g.find_foreign_for_native(n, Direction::Outgoing).expect("outgoing image");
        let f_in = g.find_foreign_for_native(n, Direction::Incoming).expect("incoming image");
        assert_eq!(f_out, f_in, "both directions land on one image for {rust}");
        assert_eq!(g.ftypes[f_out].name, foreign);
    }
}

#[test]
fn seeded_bool_rule_crosses_as_byte_with_inverse_templates() {
    let g = seed_dotnet_typemap().expect("seeding never fails");
    let b = g.find_native("bool").expect("bool seeded");
    let u8n = g.find_native("u8").expect("u8 seeded");
    let out = g.search_path(b, u8n).expect("bool to u8");
    let back = g.search_path(u8n, b).expect("u8 to bool");
    assert_eq!(out.len(), 1);
    assert_eq!(back.len(), 1);
    assert_eq!(g.edges[out[0]].code, "let {to_var} = if {from_var} { 1 } else { 0 };");
    assert_eq!(g.edges[back[0]].code, "let {to_var} = {from_var} != 0;");
}

#[test]
fn enum_round_trip_is_emitted() {
    let mut gen = generator();
    gen.generate_enum(&color_enum()).expect("enum generates");
    assert!(gen.cs_file.contains("public enum Color {"));
    assert!(gen.cs_file.contains("Red = 0,Green = 1,Blue = 2"));
    let glue = gen.rust_code.last().expect("glue pushed");
    assert!(glue.contains("impl SwigForeignEnum for Color"));
    assert!(glue.contains("Color::Red => 0u32"));
    assert!(glue.contains("0u32 => Color::Red"));
    assert!(glue.contains("2u32 => Color::Blue"));
    assert!(glue.contains("{} not expected for Color"));
}

#[test]
fn enum_crosses_the_abi_as_the_integer_carrier() {
    let mut gen = generator();
    gen.generate_enum(&color_enum()).expect("enum generates");
    let n = gen.conv_map.find_native("Color").expect("enum type registered");
    let f = gen.conv_map.find_foreign_for_native(n, Direction::Outgoing).expect("image");
    let rule = gen.conv_map.ftypes[f].into_from_rust.as_ref().unwrap();
    let inter = rule.intermediate.as_ref().expect("enum goes through the carrier");
    assert_eq!(gen.conv_map.ntypes[inter.intermediate_ty].text, "u32");
    let u32n = gen.conv_map.find_native("u32").unwrap();
    let to_enum = gen.conv_map.search_path(u32n, n).expect("wire to enum");
    assert_eq!(gen.conv_map.edges[to_enum[0]].code, "let {to_var} = Color::from_u32({from_var});");
    let to_wire = gen.conv_map.search_path(n, u32n).expect("enum to wire");
    assert_eq!(gen.conv_map.edges[to_wire[0]].code, "let {to_var} = {from_var}.as_u32();");
}

fn bool_method() -> ForeignMethod {
    ForeignMethod {
        variant: MethodVariant::StaticMethod,
        access: MethodAccess::Public,
        name: "f".to_string(),
        rust_name: "f".to_string(),
        rust_call: "crate::f".to_string(),
        arg_names: vec!["b".to_string()],
        arg_types: vec!["bool".to_string()],
        ret_type: Some("bool".to_string()),
        doc_comments: Vec::new(),
    }
}

fn utils_class(m: ForeignMethod) -> ForeignClassInfo {
    ForeignClassInfo {
        name: "Utils".to_string(),
        src_id: 0,
        span: flapigen::Span { lo: 0, hi: 0 },
        doc_comments: Vec::new(),
        methods: vec![m],
        self_desc: None,
        clone_derived: false,
        copy_derived: false,
        smart_ptr_copy_derived: false,
    }
}

#[test]
fn bool_abi_crosses_as_byte() {
    let mut gen = generator();
    let class = utils_class(bool_method());
    gen.generate_method(&class, &class.methods[0]).expect("method generates");
    let glue = gen.rust_code.last().expect("glue pushed");
    assert!(glue.contains("fn Utils_f(b: u8) -> u8"), "glue was: {glue}");
    assert!(glue.contains("let b_1 = b != 0;"));
    assert!(glue.contains("let mut __ret = crate::f(b_1);"));
    assert!(glue.contains("let __ret_1 = if __ret { 1 } else { 0 };"));
    assert!(glue.contains("__ret_1\n}"));
    let pinvoke_line = "byte Utils_f(byte b);";
    assert!(gen.cs_file.contains(pinvoke_line), "cs was: {}", gen.cs_file);
    // managed wrapper converts both ways
    assert!(gen.cs_file.contains("public static bool F(bool b_0)"));
    assert!(gen.cs_file.contains("var b_1 = (byte) (b_0 ? 1 : 0);"));
    assert!(gen.cs_file.contains("var __ret_1 = (__ret_0 != 0);"));
    assert!(gen.cs_file.contains("return __ret_1;"));
}

#[test]
fn generated_glue_parses_as_rust_items() {
    let mut gen = generator();
    let class = utils_class(bool_method());
    gen.generate_method(&class, &class.methods[0]).expect("method generates");
    for item in &gen.rust_code {
        assert!(syn::parse_str::<syn::Item>(item).is_ok(), "does not parse: {item}");
    }
}

#[test]
fn whole_run_produces_project_and_source() {
    let items = vec![
        ItemToExpand::Enum(color_enum()),
        ItemToExpand::Class(utils_class(bool_method())),
    ];
    let out = config()
        .expand_items(seed_dotnet_typemap().expect("seeding never fails"), &items)
        .expect("run succeeds");
    assert!(out.csproj_content.contains("netstandard2.0"));
    assert!(out.cs_file_content.contains("namespace MyLib"));
    assert!(out.cs_file_content.contains("public enum Color"));
    assert!(out.cs_file_content.contains("public static class Utils"));
    assert!(out.cs_file_content.trim_end().ends_with("} // namespace"));
    assert!(out.rust_code.iter().any(|i| i.contains("impl SwigForeignEnum for Color")));
    assert!(out.rust_code.iter().any(|i| i.contains("fn Utils_f")));
    assert!(out.warnings.is_empty());
}

#[test]
fn string_method_uses_the_utf16_abi() {
    let mut gen = generator();
    let m = ForeignMethod {
        variant: MethodVariant::StaticMethod,
        access: MethodAccess::Public,
        name: "greet".to_string(),
        rust_name: "greet".to_string(),
        rust_call: "crate::greet".to_string(),
        arg_names: vec![],
        arg_types: vec![],
        ret_type: Some("String".to_string()),
        doc_comments: Vec::new(),
    };
    let class = utils_class(m);
    gen.generate_method(&class, &class.methods[0]).expect("method generates");
    let glue = gen.rust_code.last().unwrap();
    assert!(glue.contains("-> * const u16"), "glue was: {glue}");
    assert!(glue.contains("let __ret_1 = alloc_c_str_u16(&__ret);"));
    assert!(gen.cs_file.contains("RustString.rust_to_dotnet(__ret_0)"));
}

#[test]
fn destructor_and_clone_exports_for_smart_pointer_class() {
    let mut gen = generator();
    let class = ForeignClassInfo {
        name: "Session".to_string(),
        src_id: 0,
        span: flapigen::Span { lo: 0, hi: 0 },
        doc_comments: Vec::new(),
        methods: Vec::new(),
        self_desc: Some(flapigen::types::SelfTypeDesc {
            self_type: "Session".to_string(),
            constructor_ret_type: "Rc<Inner>".to_string(),
        }),
        clone_derived: false,
        copy_derived: false,
        smart_ptr_copy_derived: true,
    };
    gen.generate_rust_destructor(&class).expect("destructor generates");
    assert_eq!(gen.rust_code.len(), 2);
    assert!(gen.rust_code[0].contains("fn Session_delete(this: * mut Rc < Inner >)"));
    assert!(gen.rust_code[1].contains("fn Session_clone(this: * mut Rc < Inner >)"));
    assert!(gen.rust_code[1].contains("Box::into_raw(Box::new(_this_ref.clone()))"));
}

#[test]
fn error_messages_join_their_source_chain() {
    let chain = vec!["top failed".to_string(), "root cause".to_string()];
    let msg = flapigen::dotnet::swig_collect_error_message(&chain);
    assert_eq!(msg, "top failed\nCaused by:\nroot cause");
    let single = vec!["alone".to_string()];
    assert_eq!(flapigen::dotnet::swig_collect_error_message(&single), "alone");
}

#[test]
fn utf16_units_are_zero_terminated() {
    let units = flapigen::ext::utf16_nul_units("hi");
    assert_eq!(units, vec![104u16, 105u16, 0u16]);
    let n = flapigen::text::nul_len(&units);
    assert_eq!(n, 2);
    assert_eq!(flapigen::text::nul_len(&flapigen::ext::utf16_nul_units("")), 0);
}

#[test]
fn utf16_units_encode_a_surrogate_pair() {
    let units = flapigen::ext::utf16_nul_units("a\u{1D11E}");
    assert_eq!(units, vec![0x0061u16, 0xD834u16, 0xDD1Eu16, 0u16]);
}

#[test]
fn c_abi_names_carry_the_access_prefix() {
    let class = utils_class(bool_method());
    let name = flapigen::sig::c_func_name(&class, &class.methods[0]);
    assert_eq!(name, "Utils_f");
    let prot = flapigen::sig::do_c_func_name(&class, MethodAccess::Protected, "f");
    assert_eq!(prot, "protected_Utils_f");
    let priv_name = flapigen::sig::do_c_func_name(&class, MethodAccess::Private, "f");
    assert_eq!(priv_name, "private_Utils_f");
}

#[test]
fn cpp_signature_maps_arguments_and_return() {
    let mut g = seed_dotnet_typemap().expect("seeding never fails");
    let m = ForeignMethod {
        variant: MethodVariant::StaticMethod,
        access: MethodAccess::Public,
        name: "add".to_string(),
        rust_name: "add".to_string(),
        rust_call: "crate::add_nums".to_string(),
        arg_names: vec!["x".to_string(), "y".to_string()],
        arg_types: vec!["i32".to_string(), "u64".to_string()],
        ret_type: Some("u8".to_string()),
        doc_comments: Vec::new(),
    };
    let class = utils_class(m);
    let sig = flapigen::sig::make_foreign_method_signature(&mut g, &class, &class.methods[0])
        .expect("all types are seeded");
    assert_eq!(sig.input.len(), 2);
    assert_eq!(sig.input[0].base.name, "int");
    assert_eq!(sig.input[1].base.name, "ulong");
    assert_eq!(sig.output.base.name, "byte");
    let args = flapigen::sig::rust_generate_args_with_types(&g, &sig);
    assert_eq!(args, "a0: i32, a1: u64, ");
}

#[test]
fn instance_method_wrapper_passes_the_receiver_pointer() {
    let mut g = seed_dotnet_typemap().expect("seeding never fails");
    let class = ForeignClassInfo {
        name: "Counter".to_string(),
        src_id: 0,
        span: flapigen::Span { lo: 0, hi: 0 },
        doc_comments: Vec::new(),
        methods: vec![ForeignMethod {
            variant: MethodVariant::Method,
            access: MethodAccess::Public,
            name: "get".to_string(),
            rust_name: "get".to_string(),
            rust_call: "Counter::get".to_string(),
            arg_names: vec!["__this".to_string()],
            arg_types: vec!["Box < Inner >".to_string()],
            ret_type: Some("i32".to_string()),
            doc_comments: Vec::new(),
        }],
        self_desc: Some(flapigen::types::SelfTypeDesc {
            self_type: "Inner".to_string(),
            constructor_ret_type: "Box<Inner>".to_string(),
        }),
        clone_derived: false,
        copy_derived: false,
        smart_ptr_copy_derived: false,
    };
    let items = vec![ItemToExpand::Class(class)];
    let out = config().expand_items(g, &items).expect("run succeeds");
    let cs = &out.cs_file_content;
    // the receiver is hidden from the declared parameters and passed
    // in its only bound form
    assert!(cs.contains("public  int Get() {"), "cs was: {cs}");
    assert!(cs.contains("var __this_0 = this.nativePtr;"));
    assert!(cs.contains("Counter_get(__this_0);"), "cs was: {cs}");
    assert!(!cs.contains("__this_1"), "an unbound receiver variable is named: {cs}");
    // the native export unboxes the receiver pointer
    let glue = out.rust_code.iter().find(|i| i.contains("fn Counter_get")).expect("export emitted");
    assert!(glue.contains("(__this: * mut Box < Inner >)"), "glue was: {glue}");
    // the returned graph carries the class registration
    assert!(out.conv_map.find_foreign_by_name("Counter").is_some());
    assert!(out.conv_map.find_foreign_by_name("/* ref Counter */ IntPtr").is_some());
}

#[test]
fn vector_return_instantiates_the_parametric_rule() {
    let mut gen = generator();
    for (rule, param) in flapigen::seed::dotnet_generic_rules() {
        gen.add_generic_rule(rule, param);
    }
    let m = ForeignMethod {
        variant: MethodVariant::StaticMethod,
        access: MethodAccess::Public,
        name: "values".to_string(),
        rust_name: "values".to_string(),
        rust_call: "crate::values".to_string(),
        arg_names: vec![],
        arg_types: vec![],
        ret_type: Some("Vec < i32 >".to_string()),
        doc_comments: Vec::new(),
    };
    let class = utils_class(m);
    gen.generate_method(&class, &class.methods[0]).expect("instantiation resolves the vector");
    // the instantiated native exports stand in the glue
    let all = gen.rust_code.join("\n");
    for export in [
        "fn RustVecint_new",
        "fn RustVecint_push",
        "fn RustVecint_iter_next",
        "fn RustVecint_iter_delete",
        "fn RustVecint_option_is_some",
        "fn RustVecint_option_take",
    ] {
        assert!(all.contains(export), "missing {export} in: {all}");
    }
    for item in &gen.rust_code {
        assert!(syn::parse_str::<syn::Item>(item).is_ok(), "does not parse: {item}");
    }
    // the managed wrapper returns the generic list and drains the iterator
    assert!(gen.cs_file.contains("public static System.Collections.Generic.List<int> Values()"));
    assert!(gen.cs_file.contains("RustVecint.rust_to_dotnet(__ret_0)"));
    gen.finish();
    assert!(gen.cs_file.contains("public static class RustVecint {"));
    assert!(gen.cs_file.contains("RustVecint_option_is_some(next_rust_opt) == 0"));
    assert!(gen.cs_file.contains("RustVecint_iter_delete(iterPtr);"));
}

#[test]
fn parametric_instantiation_is_memoized() {
    let mut gen = generator();
    for (rule, param) in flapigen::seed::dotnet_generic_rules() {
        gen.add_generic_rule(rule, param);
    }
    let mk = |name: &str| ForeignMethod {
        variant: MethodVariant::StaticMethod,
        access: MethodAccess::Public,
        name: name.to_string(),
        rust_name: name.to_string(),
        rust_call: format!("crate::{name}"),
        arg_names: vec![],
        arg_types: vec![],
        ret_type: Some("Vec < i32 >".to_string()),
        doc_comments: Vec::new(),
    };
    let class = ForeignClassInfo {
        name: "Utils".to_string(),
        src_id: 0,
        span: flapigen::Span { lo: 0, hi: 0 },
        doc_comments: Vec::new(),
        methods: vec![mk("first"), mk("second")],
        self_desc: None,
        clone_derived: false,
        copy_derived: false,
        smart_ptr_copy_derived: false,
    };
    gen.generate_method(&class, &class.methods[0]).expect("first method generates");
    gen.generate_method(&class, &class.methods[1]).expect("second method generates");
    let all = gen.rust_code.join("\n");
    assert_eq!(all.matches("fn RustVecint_new").count(), 1, "instantiated once: {all}");
}

#[test]
fn vector_argument_resolves_through_the_handle() {
    let mut gen = generator();
    for (rule, param) in flapigen::seed::dotnet_generic_rules() {
        gen.add_generic_rule(rule, param);
    }
    let m = ForeignMethod {
        variant: MethodVariant::StaticMethod,
        access: MethodAccess::Public,
        name: "total".to_string(),
        rust_name: "total".to_string(),
        rust_call: "crate::total".to_string(),
        arg_names: vec!["xs".to_string()],
        arg_types: vec!["Vec < i32 >".to_string()],
        ret_type: Some("i32".to_string()),
        doc_comments: Vec::new(),
    };
    let class = utils_class(m);
    gen.generate_method(&class, &class.methods[0]).expect("incoming vector resolves");
    let glue = gen.rust_code.last().expect("glue pushed");
    assert!(glue.contains("(xs: * mut RustVecHandleint)"), "glue was: {glue}");
    assert!(glue.contains("*Box::from_raw(xs)"), "glue was: {glue}");
    // one managed class carries both directions
    assert!(gen.cs_file.contains("public static int Total(System.Collections.Generic.List<int> xs_0)"),
        "cs was: {}", gen.cs_file);
    assert!(gen.cs_file.contains("var xs_1 = RustVecint.dotnet_to_rust(xs_0);"));
}
