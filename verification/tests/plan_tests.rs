use hslink::error::LinkError;
use hslink::plan::{load_plan, plan_document_path, plan_output_dir, PlanEntry};

fn entry(kind: &str, id: &str, dist_dir: Option<&str>) -> PlanEntry {
    PlanEntry {
        kind: kind.to_string(),
        id: id.to_string(),
        dist_dir: dist_dir.map(|d| d.to_string()),
    }
}

#[test]
fn load_valid_plan_counts_dependencies() {
    let entries = vec![
        entry("pre-existing", "base-4.17.0.0", None),
        entry("configured", "myproj-0.1.0.0", Some("/out")),
        entry("pre-existing", "ghc-prim-0.9.1", None),
    ];
    let plan = load_plan("ghc-9.4.7".to_string(), &entries).unwrap();
    assert_eq!(plan.project_id, "myproj-0.1.0.0");
    assert_eq!(plan.compiler_id, "ghc-9.4.7");
    assert_eq!(plan.dist_dir, "/out");
    assert_eq!(plan.dependencies.len(), 2);
    assert_eq!(plan.dependencies[0].id, "base-4.17.0.0");
    assert_eq!(plan.dependencies[1].id, "ghc-prim-0.9.1");
}

#[test]
fn load_no_configured_fails() {
    let entries = vec![
        entry("pre-existing", "base-4.17.0.0", None),
        entry("pre-existing", "ghc-prim-0.9.1", None),
    ];
    let r = load_plan("ghc-9.4.7".to_string(), &entries);
    assert_eq!(r.unwrap_err(), LinkError::MissingConfiguredEntry);
}

#[test]
fn load_empty_plan_fails() {
    let entries: Vec<PlanEntry> = Vec::new();
    let r = load_plan("ghc-9.4.7".to_string(), &entries);
    assert_eq!(r.unwrap_err(), LinkError::MissingConfiguredEntry);
}

#[test]
fn load_configured_without_dist_dir_fails() {
    let entries = vec![
        entry("pre-existing", "base-4.17.0.0", None),
        entry("configured", "myproj-0.1.0.0", None),
    ];
    let r = load_plan("ghc-9.4.7".to_string(), &entries);
    assert_eq!(r.unwrap_err(), LinkError::MissingConfiguredEntry);
}

#[test]
fn load_ignores_unknown_kinds() {
    let entries = vec![
        entry("future-kind", "mystery-1.0", None),
        entry("configured", "myproj-0.1.0.0", Some("/out")),
        entry("pre-existing", "base-4.17.0.0", None),
        entry("another-kind", "mystery-2.0", Some("/elsewhere")),
    ];
    let plan = load_plan("ghc-9.4.7".to_string(), &entries).unwrap();
    assert_eq!(plan.project_id, "myproj-0.1.0.0");
    assert_eq!(plan.dependencies.len(), 1);
    assert_eq!(plan.dependencies[0].id, "base-4.17.0.0");
}

#[test]
fn load_keeps_dependency_order() {
    let entries = vec![
        entry("pre-existing", "a-1.0", None),
        entry("configured", "p-0.1", Some("/out")),
        entry("pre-existing", "b-2.0", None),
        entry("pre-existing", "c-3.0", None),
    ];
    let plan = load_plan("ghc-9.4.7".to_string(), &entries).unwrap();
    let ids: Vec<&str> = plan.dependencies.iter().map(|d| d.id.as_str()).collect();
    assert_eq!(ids, vec!["a-1.0", "b-2.0", "c-3.0"]);
}

#[test]
fn plan_locations_are_fixed() {
    assert_eq!(plan_output_dir("/proj"), "/proj/dist-newstyle");
    assert_eq!(
        plan_document_path("/proj/dist-newstyle"),
        "/proj/dist-newstyle/cache/plan.json"
    );
}

#[test]
fn load_takes_first_configured_entry() {
    let entries = vec![
        entry("configured", "first-0.1", Some("/first")),
        entry("configured", "second-0.2", Some("/second")),
    ];
    let plan = load_plan("ghc-9.4.7".to_string(), &entries).unwrap();
    assert_eq!(plan.project_id, "first-0.1");
    assert_eq!(plan.dist_dir, "/first");
}
