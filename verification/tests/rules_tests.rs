use flapigen::cpp::{CppConfig, CppContext, merge_c_types, merge_rule, MergeCItemsFlags};
use flapigen::diag::DiagKind;
use flapigen::graph::{Direction, TypeGraph};
use flapigen::out::OutputModules;
use flapigen::rules::{
    CItem, CItems, CppOptional, CppStrView, CppVariant, FCode, FTypeArm, InstantiationCache,
    RTypeRule, TypeMapConvRuleInfo, instantiate_generic_rule,
};
use flapigen::sig::CppForeignTypeInfo;

fn cfg() -> CppConfig {
    CppConfig {
        output_dir: "out".to_string(),
        namespace_name: "myns".to_string(),
        cpp_optional: CppOptional::Std17,
        cpp_variant: CppVariant::Std17,
        cpp_str_view: CppStrView::Std17,
    }
}

fn ctx() -> CppContext {
    CppContext {
        cfg: cfg(),
        conv_map: TypeGraph::new(),
        out: OutputModules::new(64),
        rust_code: Vec::new(),
        src_files: Vec::new(),
        not_merged_rules: Vec::new(),
    }
}

fn empty_rule() -> TypeMapConvRuleInfo {
    TypeMapConvRuleInfo {
        src_id: 0,
        span: flapigen::Span { lo: 0, hi: 0 },
        c_types: None,
        f_code: Vec::new(),
        ftype_left_to_right: Vec::new(),
        ftype_right_to_left: Vec::new(),
        rtype_left_to_right: None,
        rtype_right_to_left: None,
        rust_items: Vec::new(),
    }
}

#[test]
fn empty_rule_is_rejected() {
    let mut c = ctx();
    let err = merge_rule(&mut c, &empty_rule()).unwrap_err();
    assert_eq!(err.kind, DiagKind::EmptyRule);
}

#[test]
fn unknown_option_is_rejected() {
    let mut c = ctx();
    let mut rule = empty_rule();
    rule.f_code.push(FCode {
        module_name: "a.h".to_string(),
        cfg_option: Some("NoSuchOption".to_string()),
        code: "x".to_string(),
    });
    let err = merge_rule(&mut c, &rule).unwrap_err();
    assert_eq!(err.kind, DiagKind::UnknownOption);
}

#[test]
fn namespace_substitution_and_option_filtering() {
    let mut c = ctx();
    let mut rule = empty_rule();
    rule.f_code.push(FCode {
        module_name: "a.h".to_string(),
        cfg_option: None,
        code: "namespace $RUST_SWIG_USER_NAMESPACE {}\n".to_string(),
    });
    rule.f_code.push(FCode {
        module_name: "a.h".to_string(),
        cfg_option: Some("CppOptional::Boost".to_string()),
        code: "BOOST ONLY\n".to_string(),
    });
    merge_rule(&mut c, &rule).expect("rule merges");
    let content = &c.out.files[0].content;
    assert!(content.contains("namespace myns {}"));
    assert!(!content.contains("BOOST ONLY"));
}

#[test]
fn directional_arms_install_types_and_edges() {
    let mut c = ctx();
    let mut rule = empty_rule();
    rule.ftype_left_to_right.push(FTypeArm {
        cfg_option: None,
        name: "int".to_string(),
        rust_ty: "i32".to_string(),
        req_modules: Vec::new(),
        intermediate: None,
    });
    rule.rtype_left_to_right = Some(RTypeRule {
        left_ty: "i32".to_string(),
        right_ty: "u32".to_string(),
        code: "let {to_var} = {from_var} as u32;".to_string(),
    });
    merge_rule(&mut c, &rule).expect("rule merges");
    let n = c.conv_map.find_native("i32").expect("native registered");
    let f = c.conv_map.find_foreign_for_native(n, Direction::Outgoing).expect("image installed");
    assert_eq!(c.conv_map.ftypes[f].name, "int");
    assert_eq!(c.conv_map.edges.len(), 1);
    assert_eq!(c.conv_map.edges[0].code, "let {to_var} = {from_var} as u32;");
}

#[test]
fn duplicate_c_struct_across_headers_is_written_once_per_header() {
    let mut c = ctx();
    let citems_a = CItems {
        header_name: "a.h".to_string(),
        items: vec![CItem::Struct("Foo".to_string())],
    };
    let citems_b = CItems {
        header_name: "b.h".to_string(),
        items: vec![CItem::Struct("Foo".to_string())],
    };
    merge_c_types(&mut c, &citems_a, MergeCItemsFlags::DefineOnlyCItem, 0).expect("merges");
    merge_c_types(&mut c, &citems_a, MergeCItemsFlags::DefineOnlyCItem, 0).expect("merges again");
    merge_c_types(&mut c, &citems_b, MergeCItemsFlags::DefineOnlyCItem, 0).expect("merges");
    // a single native type Foo
    assert!(c.conv_map.find_native("Foo").is_some());
    let foo_count = c.conv_map.ntypes.iter().filter(|t| t.text == "Foo").count();
    assert_eq!(foo_count, 1);
    // written once per header, even after a repeat merge
    let a = &c.out.files[0].content;
    let b = &c.out.files[1].content;
    assert_eq!(a.matches("struct Foo;").count(), 1);
    assert_eq!(b.matches("struct Foo;").count(), 1);
    // the single foreign image lists both headers
    let n = c.conv_map.find_native("Foo").unwrap();
    let f = c.conv_map.find_foreign_for_native(n, Direction::Outgoing).unwrap();
    let provides: Vec<&str> =
        c.conv_map.ftypes[f].provides_by_module.iter().map(|s| s.as_str()).collect();
    assert_eq!(provides, vec!["\"a.h\"", "\"b.h\""]);
}

#[test]
fn transitive_intermediate_is_rejected_with_its_diagnostic() {
    let mut g = TypeGraph::new();
    let a = g.find_or_alloc_native("A", 0);
    let b = g.find_or_alloc_native("B", 0);
    let cn = g.find_or_alloc_native("C", 0);
    // C has a direct image, B's image goes through C, and the tested
    // type's image goes through B: the intermediate B itself needs an
    // intermediate, which the mapper must refuse.
    g.alloc_foreign(flapigen::graph::ForeignTypeRec {
        name: "FC".to_string(),
        provides_by_module: Vec::new(),
        into_from_rust: Some(flapigen::graph::ConvRule { rust_ty: cn, intermediate: None }),
        from_into_rust: None,
        name_prefix: None,
        src_id: 0,
        span: flapigen::Span { lo: 0, hi: 0 },
    })
    .unwrap();
    g.alloc_foreign(flapigen::graph::ForeignTypeRec {
        name: "FB".to_string(),
        provides_by_module: Vec::new(),
        into_from_rust: Some(flapigen::graph::ConvRule {
            rust_ty: b,
            intermediate: Some(flapigen::graph::Intermediate {
                intermediate_ty: cn,
                conv_code: "x".to_string(),
                input_to_output: false,
            }),
        }),
        from_into_rust: None,
        name_prefix: None,
        src_id: 0,
        span: flapigen::Span { lo: 0, hi: 0 },
    })
    .unwrap();
    let bad = g
        .alloc_foreign(flapigen::graph::ForeignTypeRec {
            name: "FA".to_string(),
            provides_by_module: Vec::new(),
            into_from_rust: Some(flapigen::graph::ConvRule {
                rust_ty: a,
                intermediate: Some(flapigen::graph::Intermediate {
                    intermediate_ty: b,
                    conv_code: "y".to_string(),
                    input_to_output: false,
                }),
            }),
            from_into_rust: None,
            name_prefix: None,
            src_id: 0,
            span: flapigen::Span { lo: 0, hi: 0 },
        })
        .unwrap();
    let err = match CppForeignTypeInfo::try_new(&g, Direction::Outgoing, bad) {
        Err(d) => d,
        Ok(_) => panic!("a transitive intermediate must be refused"),
    };
    assert_eq!(err.kind, DiagKind::TransitiveIntermediate);
    // the flat image resolves fine
    let fb = 1usize;
    let ok = match CppForeignTypeInfo::try_new(&g, Direction::Outgoing, fb) {
        Ok(info) => info,
        Err(_) => panic!("the flat image must resolve"),
    };
    assert_eq!(ok.base.name, "FC");
    assert_eq!(ok.cpp_converter.as_ref().map(|c| c.typename.as_str()), Some("FB"));
}

#[test]
fn generic_rule_instantiates_by_substitution() {
    let mut rule = empty_rule();
    rule.ftype_left_to_right.push(FTypeArm {
        cfg_option: None,
        name: "System.Collections.Generic.List<swig_f_type!(T)>".to_string(),
        rust_ty: "Vec < T >".to_string(),
        req_modules: Vec::new(),
        intermediate: Some((
            "* mut CUnit".to_string(),
            "RustVecswig_f_type!(T).rust_to_dotnet({from_var})".to_string(),
            false,
        )),
    });
    rule.rtype_left_to_right = Some(RTypeRule {
        left_ty: "Vec < T >".to_string(),
        right_ty: "* mut Vec < T >".to_string(),
        code: "let {to_var} = Box::into_raw(Box::new({from_var}));".to_string(),
    });
    let inst = instantiate_generic_rule(&rule, "T", "i32", "int");
    assert_eq!(inst.ftype_left_to_right[0].name, "System.Collections.Generic.List<int>");
    assert_eq!(inst.ftype_left_to_right[0].rust_ty, "Vec < i32 >");
    let (ity, code, _) = inst.ftype_left_to_right[0].intermediate.clone().unwrap();
    assert_eq!(ity, "* mut CUnit");
    assert_eq!(code, "RustVecint.rust_to_dotnet({from_var})");
    let rt = inst.rtype_left_to_right.as_ref().unwrap();
    assert_eq!(rt.left_ty, "Vec < i32 >");
    assert_eq!(rt.right_ty, "* mut Vec < i32 >");
}

#[test]
fn instantiations_are_memoized_by_rule_and_parameters() {
    let mut cache = InstantiationCache::new();
    assert!(!cache.contains(3, &vec![7usize]));
    cache.record(3, vec![7usize]);
    assert!(cache.contains(3, &vec![7usize]));
    assert!(!cache.contains(3, &vec![8usize]));
    assert!(!cache.contains(4, &vec![7usize]));
    cache.record(3, vec![7usize, 9usize]);
    assert!(cache.contains(3, &vec![7usize, 9usize]));
    assert!(cache.contains(3, &vec![7usize]));
}
