use flapigen::graph::{Direction, TypeGraph};

#[test]
fn find_or_alloc_native_is_idempotent() {
    let mut g = TypeGraph::new();
    let a = g.find_or_alloc_native("Foo", 0);
    let b = g.find_or_alloc_native("Foo", 0);
    assert_eq!(a, b);
    assert_eq!(g.ntypes.len(), 1);
    let c = g.find_or_alloc_native("Bar", 0);
    assert_ne!(a, c);
    assert_eq!(g.find_or_alloc_native("Foo", 0), a);
    assert_eq!(g.ntypes.len(), 2);
}

#[test]
fn traits_merge_into_existing_entry() {
    let mut g = TypeGraph::new();
    let t1 = vec!["SwigForeignClass".to_string(), "Clone".to_string()];
    let a = g.find_or_alloc_native_with_traits("Foo", &t1, 0);
    let t2 = vec!["Clone".to_string(), "Copy".to_string()];
    let b = g.find_or_alloc_native_with_traits("Foo", &t2, 0);
    assert_eq!(a, b);
    let traits: Vec<&str> = g.ntypes[a].traits.iter().map(|s| s.as_str()).collect();
    assert_eq!(traits, vec!["SwigForeignClass", "Clone", "Copy"]);
}

#[test]
fn search_path_finds_minimum_edge_count() {
    let mut g = TypeGraph::new();
    let a = g.find_or_alloc_native("A", 0);
    let b = g.find_or_alloc_native("B", 0);
    let c = g.find_or_alloc_native("C", 0);
    g.add_conversion(a, b, "ab".to_string());
    g.add_conversion(b, c, "bc".to_string());
    g.add_conversion(a, c, "ac".to_string());
    let p = g.search_path(a, c).expect("a path must exist");
    assert_eq!(p.len(), 1);
    assert_eq!(g.edges[p[0]].code, "ac");
}

#[test]
fn search_path_prefers_earlier_inserted_of_equal_length() {
    let mut g = TypeGraph::new();
    let a = g.find_or_alloc_native("A", 0);
    let d = g.find_or_alloc_native("D", 0);
    g.add_conversion(a, d, "first".to_string());
    g.add_conversion(a, d, "second".to_string());
    let p = g.search_path(a, d).expect("a path must exist");
    assert_eq!(p.len(), 1);
    assert_eq!(g.edges[p[0]].code, "first");
}

#[test]
fn search_path_reports_unreachable() {
    let mut g = TypeGraph::new();
    let a = g.find_or_alloc_native("A", 0);
    let b = g.find_or_alloc_native("B", 0);
    g.add_conversion(b, a, "ba".to_string());
    assert!(g.search_path(a, b).is_none());
    assert!(g.search_path(a, a).expect("empty path").is_empty());
}

#[test]
fn search_path_walks_chains() {
    let mut g = TypeGraph::new();
    let a = g.find_or_alloc_native("A", 0);
    let b = g.find_or_alloc_native("B", 0);
    let c = g.find_or_alloc_native("C", 0);
    let d = g.find_or_alloc_native("D", 0);
    g.add_conversion(a, b, "ab".to_string());
    g.add_conversion(b, c, "bc".to_string());
    g.add_conversion(c, d, "cd".to_string());
    let p = g.search_path(a, d).expect("a path must exist");
    let codes: Vec<&str> = p.iter().map(|e| g.edges[*e].code.as_str()).collect();
    assert_eq!(codes, vec!["ab", "bc", "cd"]);
}

#[test]
fn reachable_names_list_candidates() {
    let mut g = TypeGraph::new();
    let a = g.find_or_alloc_native("A", 0);
    let b = g.find_or_alloc_native("B", 0);
    let unrelated = g.find_or_alloc_native("Z", 0);
    g.add_conversion(a, b, "ab".to_string());
    let ft = flapigen::graph::ForeignTypeRec {
        name: "FB".to_string(),
        provides_by_module: Vec::new(),
        into_from_rust: Some(flapigen::graph::ConvRule { rust_ty: b, intermediate: None }),
        from_into_rust: None,
        name_prefix: None,
        src_id: 0,
        span: flapigen::Span { lo: 0, hi: 0 },
    };
    g.alloc_foreign(ft).expect("fresh name");
    let fz = flapigen::graph::ForeignTypeRec {
        name: "FZ".to_string(),
        provides_by_module: Vec::new(),
        into_from_rust: Some(flapigen::graph::ConvRule { rust_ty: unrelated, intermediate: None }),
        from_into_rust: None,
        name_prefix: None,
        src_id: 0,
        span: flapigen::Span { lo: 0, hi: 0 },
    };
    g.alloc_foreign(fz).expect("fresh name");
    let names = g.reachable_foreign_names(a, Direction::Outgoing);
    let names: Vec<&str> = names.iter().map(|s| s.as_str()).collect();
    assert_eq!(names, vec!["FB"]);
}

#[test]
fn duplicate_foreign_name_is_refused() {
    let mut g = TypeGraph::new();
    let a = g.find_or_alloc_native("A", 0);
    let mk = |name: &str| flapigen::graph::ForeignTypeRec {
        name: name.to_string(),
        provides_by_module: Vec::new(),
        into_from_rust: Some(flapigen::graph::ConvRule { rust_ty: a, intermediate: None }),
        from_into_rust: None,
        name_prefix: None,
        src_id: 0,
        span: flapigen::Span { lo: 0, hi: 0 },
    };
    assert!(g.alloc_foreign(mk("FA")).is_ok());
    let err = g.alloc_foreign(mk("FA")).unwrap_err();
    assert_eq!(err.kind, flapigen::diag::DiagKind::DuplicateForeignType);
}
