//! Binding a registry against simulated lookup outcomes.

use clang_sys::binder::{bind, lookup_plan, Registry, RegistryEntry};

fn registry(entries: &[(&str, u32)]) -> Registry {
    let mut es: Vec<RegistryEntry> = Vec::new();
    for (name, min_level) in entries {
        es.push(RegistryEntry { name: (*name).to_owned(), min_level: *min_level });
    }
    Registry { entries: es }
}

#[test]
fn plan_holds_only_satisfied_entries() {
    let reg = registry(&[
        ("clang_createIndex", 0),
        ("clang_suspendTranslationUnit", 5),
        ("clang_disposeIndex", 0),
    ]);
    let plan = lookup_plan(&reg, 3);
    assert_eq!(plan, vec!["clang_createIndex".to_owned(), "clang_disposeIndex".to_owned()]);
}

#[test]
fn bound_table_reports_resolutions() {
    let reg = registry(&[("clang_createIndex", 0), ("clang_disposeIndex", 0)]);
    let res = vec![Some(0x1000usize), None];
    let table = bind(&reg, 0, &res);
    assert_eq!(table.len(), 2);
    assert!(table.is_available("clang_createIndex"));
    assert!(!table.is_available("clang_disposeIndex"));
    assert_eq!(table.get_address("clang_createIndex"), Some(0x1000));
    assert_eq!(table.get_address("clang_disposeIndex"), None);
    assert_eq!(table.get_address("clang_saveTranslationUnit"), None);
}

#[test]
fn binding_twice_gives_identical_availability() {
    let reg = registry(&[("a", 0), ("b", 2), ("c", 0)]);
    let res = vec![Some(0x10usize), Some(0x20), Some(0x30)];
    let t1 = bind(&reg, 2, &res);
    let t2 = bind(&reg, 2, &res);
    for i in 0..t1.len() {
        let name = t1.entry_name(i).clone();
        assert_eq!(t1.is_available(name.as_str()), t2.is_available(name.as_str()));
        assert_eq!(t1.entry_addr(i), t2.entry_addr(i));
    }
}

#[test]
fn gated_entry_is_absent_even_when_the_symbol_exists() {
    // One entry gated on capability level 5, the build configured at
    // level 3: the entry is never looked up — the lookup plan holds only
    // the other name — and stays absent, even though the image exports a
    // symbol of that exact name.
    let reg = registry(&[("clang_createIndex", 0), ("clang_suspendTranslationUnit", 5)]);
    let plan = lookup_plan(&reg, 3);
    assert_eq!(plan, vec!["clang_createIndex".to_owned()]);
    // The simulated image would resolve either name; only the planned one
    // is ever asked for.
    let res: Vec<Option<usize>> = plan.iter().map(|_| Some(0x2000usize)).collect();
    let table = bind(&reg, 3, &res);
    assert!(table.is_available("clang_createIndex"));
    assert!(!table.is_available("clang_suspendTranslationUnit"));
}

#[test]
fn null_address_never_counts_as_resolved() {
    let reg = registry(&[("clang_createIndex", 0)]);
    let res = vec![Some(0usize)];
    let table = bind(&reg, 0, &res);
    assert!(!table.is_available("clang_createIndex"));
    assert_eq!(table.get_address("clang_createIndex"), None);
}

#[test]
fn completion_result_is_plain_data() {
    let r = clang_sys::CXCompletionResult { CursorKind: 72, CompletionString: 0x1000 };
    let s = r;
    assert_eq!(s.CursorKind, 72);
    assert_eq!(s.CompletionString, 0x1000);
    assert_eq!(r, s);
}

#[test]
fn table_names_follow_the_registry() {
    let reg = registry(&[("a", 0), ("b", 9)]);
    let table = bind(&reg, 0, &vec![None]);
    assert_eq!(table.entry_name(0), "a");
    assert_eq!(table.entry_name(1), "b");
}
