use package_security::dependency::count_distinct_names;
use package_security::{
    analyze_dependencies, CatalogEntry, DependencyCatalog, DependencyKind, DependencyRef,
    Resolution, Version, VersionRange,
};

fn dep(name: &str) -> DependencyRef {
    DependencyRef::new(name.to_string(), VersionRange::any(), DependencyKind::Runtime)
}

fn pinned(name: &str, major: u64) -> DependencyRef {
    DependencyRef::new(
        name.to_string(),
        VersionRange::exactly(Version::new(major, 0, 0)),
        DependencyKind::Runtime,
    )
}

fn resolved(name: &str, children: Vec<DependencyRef>) -> CatalogEntry {
    CatalogEntry { name: name.to_string(), resolution: Resolution::Resolved(children) }
}

fn failed(name: &str) -> CatalogEntry {
    CatalogEntry { name: name.to_string(), resolution: Resolution::Failed }
}

fn names(items: &[DependencyRef]) -> Vec<&str> {
    items.iter().map(|d| d.name.as_str()).collect()
}

fn tree() -> DependencyCatalog {
    DependencyCatalog {
        entries: vec![
            resolved("a", vec![dep("c"), dep("d")]),
            resolved("b", vec![dep("d"), dep("e")]),
            resolved("c", vec![dep("f")]),
            resolved("f", vec![dep("g")]),
        ],
    }
}

#[test]
fn a_depth_of_zero_walks_nothing() {
    let analysis = analyze_dependencies(&vec![dep("a"), dep("b")], &tree(), 0);
    assert!(analysis.dependencies.is_empty());
    assert_eq!(analysis.depth, 0);
    assert_eq!(analysis.breadth, 0);
    assert!(analysis.unresolved.is_empty());
}

#[test]
fn nothing_declared_gives_nothing() {
    let analysis = analyze_dependencies(&Vec::new(), &tree(), 5);
    assert!(analysis.dependencies.is_empty());
    assert_eq!(analysis.depth, 0);
    assert_eq!(analysis.breadth, 0);
}

#[test]
fn the_first_level_is_what_is_declared() {
    let analysis = analyze_dependencies(&vec![dep("a"), dep("b")], &tree(), 1);
    assert_eq!(names(&analysis.dependencies), vec!["a", "b"]);
    assert_eq!(analysis.depth, 1);
    assert_eq!(analysis.breadth, 2);
}

#[test]
fn the_graph_is_walked_level_by_level() {
    let declared = vec![dep("a"), dep("b")];
    let two = analyze_dependencies(&declared, &tree(), 2);
    assert_eq!(names(&two.dependencies), vec!["a", "b", "c", "d", "e"]);
    assert_eq!(two.depth, 2);
    assert_eq!(two.breadth, 5);

    let three = analyze_dependencies(&declared, &tree(), 3);
    assert_eq!(names(&three.dependencies), vec!["a", "b", "c", "d", "e", "f"]);
    assert_eq!(three.depth, 3);

    let all = analyze_dependencies(&declared, &tree(), 10);
    assert_eq!(names(&all.dependencies), vec!["a", "b", "c", "d", "e", "f", "g"]);
    assert_eq!(all.depth, 4);
    assert_eq!(all.breadth, 7);
    assert!(all.unresolved.is_empty());
}

#[test]
fn a_cycle_ends() {
    let catalog = DependencyCatalog {
        entries: vec![
            resolved("a", vec![dep("b")]),
            resolved("b", vec![dep("a"), dep("b"), dep("c")]),
            resolved("c", vec![dep("a")]),
        ],
    };
    let analysis = analyze_dependencies(&vec![dep("a")], &catalog, 100);
    assert_eq!(names(&analysis.dependencies), vec!["a", "b", "c"]);
    assert_eq!(analysis.depth, 3);
    assert_eq!(analysis.breadth, 3);
}

#[test]
fn a_requirement_is_accepted_once() {
    let declared = vec![dep("a"), pinned("a", 1), dep("a"), pinned("a", 1), pinned("a", 2)];
    let analysis = analyze_dependencies(&declared, &DependencyCatalog::empty(), 5);
    assert_eq!(analysis.dependencies.len(), 3);
    assert_eq!(analysis.dependencies[0].constraint, VersionRange::any());
    assert_eq!(analysis.dependencies[1].constraint, VersionRange::exactly(Version::new(1, 0, 0)));
    assert_eq!(analysis.dependencies[2].constraint, VersionRange::exactly(Version::new(2, 0, 0)));
    assert_eq!(analysis.breadth, 1);
    assert_eq!(analysis.depth, 1);
}

#[test]
fn a_failed_lookup_is_recorded_and_left_out() {
    let catalog = DependencyCatalog {
        entries: vec![
            resolved("a", vec![dep("x"), dep("c")]),
            failed("x"),
            failed("b"),
            resolved("x", vec![dep("never")]),
        ],
    };
    let declared = vec![dep("a"), dep("b"), pinned("b", 1)];
    let analysis = analyze_dependencies(&declared, &catalog, 5);
    assert_eq!(names(&analysis.dependencies), vec!["a", "c"]);
    assert_eq!(analysis.unresolved, vec!["b".to_string(), "x".to_string()]);
    assert_eq!(analysis.breadth, 2);
    assert_eq!(analysis.depth, 2);
}

#[test]
fn a_package_that_the_catalog_does_not_know_is_a_leaf() {
    let analysis = analyze_dependencies(&vec![dep("a"), dep("b")], &DependencyCatalog::empty(), 5);
    assert_eq!(names(&analysis.dependencies), vec!["a", "b"]);
    assert_eq!(analysis.depth, 1);
    assert!(analysis.unresolved.is_empty());
}

#[test]
fn the_kind_of_a_dependency_is_kept() {
    let declared = vec![
        DependencyRef::new("a".to_string(), VersionRange::any(), DependencyKind::Dev),
        DependencyRef::new("b".to_string(), VersionRange::any(), DependencyKind::Optional),
    ];
    let analysis = analyze_dependencies(&declared, &DependencyCatalog::empty(), 1);
    assert_eq!(analysis.dependencies[0].kind, DependencyKind::Dev);
    assert_eq!(analysis.dependencies[1].kind, DependencyKind::Optional);
}

#[test]
fn names_are_counted_once() {
    assert_eq!(count_distinct_names(&Vec::new()), 0);
    assert_eq!(count_distinct_names(&vec![dep("a"), pinned("a", 1), dep("b"), dep("a")]), 2);
}

#[test]
fn the_catalog_answers_with_its_first_entry() {
    let catalog = tree();
    assert_eq!(catalog.lookup(&"c".to_string()).unwrap().name, "c");
    assert!(catalog.lookup(&"z".to_string()).is_none());
    assert!(DependencyCatalog::empty().lookup(&"a".to_string()).is_none());
}
