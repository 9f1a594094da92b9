use flapigen::diag::DiagKind;
use flapigen::graph::TypeGraph;
use flapigen::registrar::{register_class, smart_pointer_inner};
use flapigen::types::{
    ForeignClassInfo, ForeignMethod, MethodAccess, MethodVariant, SelfTypeDesc,
};

fn method(variant: MethodVariant, name: &str, rust_name: &str) -> ForeignMethod {
    ForeignMethod {
        variant,
        access: MethodAccess::Public,
        name: name.to_string(),
        rust_name: rust_name.to_string(),
        rust_call: rust_name.to_string(),
        arg_names: Vec::new(),
        arg_types: Vec::new(),
        ret_type: None,
        doc_comments: Vec::new(),
    }
}

fn class(name: &str, self_ty: &str, smart: bool, copy: bool) -> ForeignClassInfo {
    ForeignClassInfo {
        name: name.to_string(),
        src_id: 0,
        span: flapigen::Span { lo: 0, hi: 0 },
        doc_comments: Vec::new(),
        methods: Vec::new(),
        self_desc: Some(SelfTypeDesc {
            self_type: name.to_string(),
            constructor_ret_type: self_ty.to_string(),
        }),
        clone_derived: false,
        copy_derived: copy,
        smart_ptr_copy_derived: smart,
    }
}

#[test]
fn smart_pointer_inner_reads_canonical_text() {
    assert_eq!(smart_pointer_inner("Rc < Inner >", "Rc").as_deref(), Some("Inner"));
    assert_eq!(smart_pointer_inner("Arc < Vec < u8 > >", "Arc").as_deref(), Some("Vec < u8 >"));
    assert_eq!(smart_pointer_inner("Box < Inner >", "Rc"), None);
    assert_eq!(smart_pointer_inner("Rc", "Rc"), None);
}

#[test]
fn smart_ptr_copy_class_with_shared_storage_registers() {
    let mut g = TypeGraph::new();
    let c = class("Session", "Rc<Inner>", true, false);
    let warnings = register_class(&mut g, &c).expect("accepted");
    assert!(warnings.is_empty());
    // the storage type carries the assembled capability set
    let idx = g.find_native("Rc < Inner >").expect("storage registered under canonical text");
    let traits: Vec<&str> = g.ntypes[idx].traits.iter().map(|s| s.as_str()).collect();
    assert_eq!(traits, vec!["SwigForeignClass", "SmartPtrCopy"]);
    // and its three foreign images stand
    assert!(g.find_foreign_by_name("Session").is_some());
    assert!(g.find_foreign_by_name("/* Session */ IntPtr").is_some());
    assert!(g.find_foreign_by_name("/* ref Session */ IntPtr").is_some());
}

#[test]
fn smart_ptr_copy_on_plain_storage_is_rejected() {
    let mut g = TypeGraph::new();
    let c = class("Session", "Box<Inner>", true, false);
    let err = register_class(&mut g, &c).unwrap_err();
    assert_eq!(err.kind, DiagKind::SmartPtrCopyWrongType);
}

#[test]
fn smart_ptr_copy_with_declared_clone_is_rejected() {
    let mut g = TypeGraph::new();
    let mut c = class("Session", "Arc<Inner>", true, false);
    c.methods.push(method(MethodVariant::Method, "clone", "clone"));
    let err = register_class(&mut g, &c).unwrap_err();
    assert_eq!(err.kind, DiagKind::SmartPtrCopyHasClone);
    // a constructor named clone does not trip the check
    let mut g2 = TypeGraph::new();
    let mut c2 = class("Session", "Arc<Inner>", true, false);
    c2.methods.push(method(MethodVariant::Constructor, "new", "clone"));
    assert!(register_class(&mut g2, &c2).is_ok());
}

#[test]
fn copy_with_smart_ptr_copy_warns_and_goes_on() {
    let mut g = TypeGraph::new();
    let c = class("Session", "Rc<Inner>", true, true);
    let warnings = register_class(&mut g, &c).expect("accepted with a warning");
    assert_eq!(warnings.len(), 1);
    assert!(warnings[0].contains("ignore Copy"));
}

#[test]
fn static_class_with_constructor_is_invalid() {
    let mut g = TypeGraph::new();
    let mut c = class("Utils", "Utils", false, false);
    c.self_desc = None;
    c.methods.push(method(MethodVariant::Constructor, "new", "new"));
    let err = register_class(&mut g, &c).unwrap_err();
    assert_eq!(err.kind, DiagKind::InvalidClass);
}

#[test]
fn clone_and_copy_assemble_the_capability_set() {
    let mut g = TypeGraph::new();
    let mut c = class("Point", "Point", false, true);
    c.clone_derived = true;
    register_class(&mut g, &c).expect("accepted");
    let idx = g.find_native("Point").expect("registered");
    let traits: Vec<&str> = g.ntypes[idx].traits.iter().map(|s| s.as_str()).collect();
    assert_eq!(traits, vec!["SwigForeignClass", "Clone", "Copy"]);
}
