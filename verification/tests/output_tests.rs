use flapigen::out::{DiskState, OutputModules, stale_files};

#[test]
fn module_prologue_is_fixed_and_written_once() {
    let mut m = OutputModules::new(64);
    let i1 = m.open_module("a.h");
    let i2 = m.open_module("a.h");
    assert_eq!(i1, i2);
    assert_eq!(m.files.len(), 1);
    let content = m.files[i1].content.clone();
    assert!(content.contains("#pragma once"));
    assert!(content.contains("sizeof(uint8_t) * 8"));
    assert!(content.contains("stdint.h"));
}

#[test]
fn no_change_no_write() {
    let mut m = OutputModules::new(64);
    let i = m.open_module("a.h");
    m.write_module(i, "struct Foo;\n");
    let disk = vec![DiskState { name: "a.h".to_string(), content: Some(m.files[i].content.clone()) }];
    let plan = m.flush_plan(&disk);
    assert_eq!(plan.len(), 0);
}

#[test]
fn changed_or_missing_files_are_written() {
    let mut m = OutputModules::new(64);
    let ia = m.open_module("a.h");
    let ib = m.open_module("b.h");
    m.write_module(ia, "one\n");
    m.write_module(ib, "two\n");
    // a.h already on disk as generated, b.h stale from an older run
    let disk = vec![
        DiskState { name: "a.h".to_string(), content: Some(m.files[ia].content.clone()) },
        DiskState { name: "b.h".to_string(), content: Some("old text".to_string()) },
    ];
    let plan = m.flush_plan(&disk);
    assert_eq!(plan.len(), 1);
    assert_eq!(plan[0].name, "b.h");
    assert_eq!(plan[0].content, m.files[ib].content);
}

#[test]
fn second_run_over_same_inputs_plans_nothing() {
    // two runs producing the same buffers: the second run's plan against
    // the first run's output is empty
    let build = || {
        let mut m = OutputModules::new(64);
        let i = m.open_module("a.h");
        m.write_module(i, "struct Foo;\n");
        m
    };
    let first = build();
    let second = build();
    let disk: Vec<DiskState> = first
        .files
        .iter()
        .map(|f| DiskState { name: f.name.clone(), content: Some(f.content.clone()) })
        .collect();
    let plan = second.flush_plan(&disk);
    assert_eq!(plan.len(), 0);
}

#[test]
fn item_deduplication_within_a_module() {
    let mut m = OutputModules::new(64);
    let i = m.open_module("a.h");
    assert!(!m.is_item_defined(i, "struct Foo"));
    m.define_item(i, "struct Foo");
    assert!(m.is_item_defined(i, "struct Foo"));
    assert!(!m.is_item_defined(i, "struct Bar"));
}

#[test]
fn stale_files_are_exactly_the_untouched_matching_ones() {
    let listing = vec![
        "kept.h".to_string(),
        "stale.h".to_string(),
        "stale2.hpp".to_string(),
        "notes.txt".to_string(),
        "h".to_string(),
    ];
    let extensions = vec!["h".to_string(), "hpp".to_string()];
    let generated = vec!["kept.h".to_string()];
    let stale = stale_files(&listing, &extensions, &generated);
    let stale: Vec<&str> = stale.iter().map(|s| s.as_str()).collect();
    assert_eq!(stale, vec!["stale.h", "stale2.hpp"]);
}
