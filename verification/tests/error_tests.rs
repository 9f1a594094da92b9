use flapigen::cpp::{merge_c_types, MergeCItemsFlags};
use flapigen::diag::DiagKind;
use flapigen::graph::{ConvRule, Direction, ForeignTypeRec, Intermediate, TypeGraph};
use flapigen::rules::{CItem, CItems};
use flapigen::seed::seed_dotnet_typemap;
use flapigen::sig::CppForeignTypeInfo;
use flapigen::types::{
    ForeignClassInfo, ForeignInterface, ForeignMethod, ItemToExpand, MethodAccess, MethodVariant,
    SelfTypeDesc,
};

fn span() -> flapigen::Span {
    flapigen::Span { lo: 0, hi: 0 }
}

#[test]
fn a_second_declaration_name_for_one_native_type_conflicts() {
    let mut c = flapigen::cpp::CppContext {
        cfg: flapigen::cpp::CppConfig {
            output_dir: "out".to_string(),
            namespace_name: "ns".to_string(),
            cpp_optional: flapigen::rules::CppOptional::Std17,
            cpp_variant: flapigen::rules::CppVariant::Std17,
            cpp_str_view: flapigen::rules::CppStrView::Std17,
        },
        conv_map: TypeGraph::new(),
        out: flapigen::out::OutputModules::new(64),
        rust_code: Vec::new(),
        src_files: Vec::new(),
        not_merged_rules: Vec::new(),
    };
    let as_struct = CItems {
        header_name: "a.h".to_string(),
        items: vec![CItem::Struct("Foo".to_string())],
    };
    let as_union = CItems {
        header_name: "b.h".to_string(),
        items: vec![CItem::Union("Foo".to_string())],
    };
    merge_c_types(&mut c, &as_struct, MergeCItemsFlags::DefineOnlyCItem, 0).expect("first merges");
    let err = merge_c_types(&mut c, &as_union, MergeCItemsFlags::DefineOnlyCItem, 0)
        .err()
        .expect("the union declaration of the same type must be refused");
    assert_eq!(err.kind, DiagKind::ForeignTypeNameConflict);
}

#[test]
fn a_type_without_a_rule_for_the_direction_is_refused() {
    let mut g = TypeGraph::new();
    let a = g.find_or_alloc_native("A", 0);
    let f = g
        .alloc_foreign(ForeignTypeRec {
            name: "FA".to_string(),
            provides_by_module: Vec::new(),
            into_from_rust: Some(ConvRule { rust_ty: a, intermediate: None }),
            from_into_rust: None,
            name_prefix: None,
            src_id: 0,
            span: span(),
        })
        .unwrap();
    let err = match CppForeignTypeInfo::try_new(&g, Direction::Incoming, f) {
        Err(d) => d,
        Ok(_) => panic!("a missing direction rule must be refused"),
    };
    assert_eq!(err.kind, DiagKind::NoConversionRule);
}

#[test]
fn an_intermediate_without_any_image_is_refused() {
    let mut g = TypeGraph::new();
    let a = g.find_or_alloc_native("A", 0);
    let b = g.find_or_alloc_native("B", 0);
    let f = g
        .alloc_foreign(ForeignTypeRec {
            name: "FA".to_string(),
            provides_by_module: Vec::new(),
            into_from_rust: Some(ConvRule {
                rust_ty: a,
                intermediate: Some(Intermediate {
                    intermediate_ty: b,
                    conv_code: "x".to_string(),
                    input_to_output: false,
                }),
            }),
            from_into_rust: None,
            name_prefix: None,
            src_id: 0,
            span: span(),
        })
        .unwrap();
    let err = match CppForeignTypeInfo::try_new(&g, Direction::Outgoing, f) {
        Err(d) => d,
        Ok(_) => panic!("an imageless intermediate must be refused"),
    };
    assert_eq!(err.kind, DiagKind::NoForeignImage);
}

#[test]
fn an_unparseable_storage_type_is_refused() {
    let mut g = TypeGraph::new();
    let class = ForeignClassInfo {
        name: "Broken".to_string(),
        src_id: 0,
        span: span(),
        doc_comments: Vec::new(),
        methods: Vec::new(),
        self_desc: Some(SelfTypeDesc {
            self_type: "Broken".to_string(),
            constructor_ret_type: "not a type!!".to_string(),
        }),
        clone_derived: false,
        copy_derived: false,
        smart_ptr_copy_derived: false,
    };
    let err = flapigen::registrar::register_class(&mut g, &class)
        .err()
        .expect("an unparseable storage type must be refused");
    assert_eq!(err.kind, DiagKind::InvalidTypeText);
}

#[test]
fn glue_that_does_not_parse_is_refused_and_not_recorded() {
    let mut gen = flapigen::dotnet::DotNetGenerator::new(
        flapigen::dotnet::DotNetConfig {
            managed_lib_name: "MyLib".to_string(),
            native_lib_name: "native".to_string(),
        },
        seed_dotnet_typemap().expect("seeding never fails"),
    );
    let class = ForeignClassInfo {
        name: "Utils".to_string(),
        src_id: 0,
        span: span(),
        doc_comments: Vec::new(),
        methods: vec![ForeignMethod {
            variant: MethodVariant::StaticMethod,
            access: MethodAccess::Public,
            name: "f".to_string(),
            rust_name: "f".to_string(),
            rust_call: "1 + +".to_string(),
            arg_names: Vec::new(),
            arg_types: Vec::new(),
            ret_type: None,
            doc_comments: Vec::new(),
        }],
        self_desc: None,
        clone_derived: false,
        copy_derived: false,
        smart_ptr_copy_derived: false,
    };
    let before = gen.rust_code.len();
    let err = gen
        .generate_method(&class, &class.methods[0])
        .err()
        .expect("broken call text must make the glue unparseable");
    assert_eq!(err.kind, DiagKind::GlueParse);
    assert_eq!(gen.rust_code.len(), before);
}

#[test]
fn interfaces_are_refused_by_the_managed_target() {
    let cfg = flapigen::dotnet::DotNetConfig {
        managed_lib_name: "MyLib".to_string(),
        native_lib_name: "native".to_string(),
    };
    let items = vec![ItemToExpand::Interface(ForeignInterface {
        name: "Observer".to_string(),
        src_id: 0,
        span: span(),
        doc_comments: Vec::new(),
        methods: Vec::new(),
    })];
    let err = cfg
        .expand_items(seed_dotnet_typemap().expect("seeding never fails"), &items)
        .err()
        .expect("interfaces are not supported by this target");
    assert_eq!(err.kind, DiagKind::InterfaceNotSupported);
}
