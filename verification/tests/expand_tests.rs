use flapigen::cpp::{CppConfig, SourceCode};
use flapigen::diag::DiagKind;
use flapigen::graph::TypeGraph;
use flapigen::rules::{CItem, CItems, CppOptional, CppStrView, CppVariant, FCode, TypeMapConvRuleInfo};
use flapigen::types::{ForeignClassInfo, ItemToExpand, SelfTypeDesc};

fn cfg() -> CppConfig {
    CppConfig {
        output_dir: "out".to_string(),
        namespace_name: "myns".to_string(),
        cpp_optional: CppOptional::Std17,
        cpp_variant: CppVariant::Std17,
        cpp_str_view: CppStrView::Std17,
    }
}

fn a_class() -> ForeignClassInfo {
    ForeignClassInfo {
        name: "Session".to_string(),
        src_id: 0,
        span: flapigen::Span { lo: 0, hi: 0 },
        doc_comments: Vec::new(),
        methods: Vec::new(),
        self_desc: Some(SelfTypeDesc {
            self_type: "Session".to_string(),
            constructor_ret_type: "Box<Session>".to_string(),
        }),
        clone_derived: false,
        copy_derived: false,
        smart_ptr_copy_derived: false,
    }
}

#[test]
fn missing_output_dir_stops_the_run() {
    let err = cfg()
        .expand_items(TypeGraph::new(), Vec::new(), 64, &Vec::new(), &Vec::new(), false, false)
        .err()
        .expect("a missing directory must stop the run");
    assert_eq!(err.kind, DiagKind::MissingOutputDir);
}

#[test]
fn preludes_are_rendered_and_rules_merged() {
    let code = vec![SourceCode {
        id_of_code: "prelude.hpp".to_string(),
        code: "namespace RUST_SWIG_USER_NAMESPACE { }\n".to_string(),
    }];
    let seeded_rule = TypeMapConvRuleInfo {
        src_id: 0,
        span: flapigen::Span { lo: 0, hi: 0 },
        c_types: Some(CItems {
            header_name: "types.h".to_string(),
            items: vec![CItem::Struct("Foo".to_string())],
        }),
        f_code: vec![FCode {
            module_name: "types.h".to_string(),
            cfg_option: None,
            code: "// for $RUST_SWIG_USER_NAMESPACE\n".to_string(),
        }],
        ftype_left_to_right: Vec::new(),
        ftype_right_to_left: Vec::new(),
        rtype_left_to_right: None,
        rtype_right_to_left: None,
        rust_items: Vec::new(),
    };
    let items = vec![ItemToExpand::Class(a_class())];
    let out = cfg()
        .expand_items(TypeGraph::new(), vec![seeded_rule], 32, &code, &items, true, true)
        .expect("the run succeeds");
    assert!(out.remove_stale);
    assert_eq!(out.src_files.len(), 1);
    assert_eq!(out.src_files[0].name, "prelude.hpp");
    assert_eq!(out.src_files[0].content, "namespace myns { }\n");
    assert_eq!(out.modules.files.len(), 1);
    let header = &out.modules.files[0];
    assert_eq!(header.name, "types.h");
    assert!(header.content.contains("sizeof(uint8_t) * 4"));
    assert!(header.content.contains("struct Foo;"));
    assert!(header.content.contains("// for myns"));
}

#[test]
fn a_c_item_that_is_no_identifier_is_refused() {
    let code: Vec<SourceCode> = Vec::new();
    let seeded_rule = TypeMapConvRuleInfo {
        src_id: 0,
        span: flapigen::Span { lo: 0, hi: 0 },
        c_types: Some(CItems {
            header_name: "types.h".to_string(),
            items: vec![CItem::Struct("not an ident".to_string())],
        }),
        f_code: Vec::new(),
        ftype_left_to_right: Vec::new(),
        ftype_right_to_left: Vec::new(),
        rtype_left_to_right: None,
        rtype_right_to_left: None,
        rust_items: Vec::new(),
    };
    let err = cfg()
        .expand_items(TypeGraph::new(), vec![seeded_rule], 64, &code, &Vec::new(), true, false)
        .err()
        .expect("a bad identifier must be refused");
    assert_eq!(err.kind, DiagKind::InvalidIdent);
}
