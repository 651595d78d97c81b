use hslink::error::LinkError;
use hslink::plan::{load_plan, PlanEntry};
use hslink::resolve::{
    library_name, mode_supported, resolve_directives, LinkDirective, LinkMode,
};

fn entry(kind: &str, id: &str, dist_dir: Option<&str>) -> PlanEntry {
    PlanEntry {
        kind: kind.to_string(),
        id: id.to_string(),
        dist_dir: dist_dir.map(|d| d.to_string()),
    }
}

fn search(path: &str) -> LinkDirective {
    LinkDirective::SearchPath { path: path.to_string() }
}

fn link(mode: LinkMode, name: &str) -> LinkDirective {
    LinkDirective::LinkLibrary { mode, name: name.to_string() }
}

fn rpath(path: &str) -> LinkDirective {
    LinkDirective::RuntimePath { path: path.to_string() }
}

#[test]
fn static_mode_always_rejected() {
    let entries = vec![entry("configured", "myproj-0.1.0.0", Some("/out"))];
    let plan = load_plan("ghc-9.4.7".to_string(), &entries).unwrap();
    let r = resolve_directives(&plan, LinkMode::Static, "9.4.7", "/ghc/lib");
    assert_eq!(r.unwrap_err(), LinkError::UnsupportedLinkMode);
    assert_eq!(mode_supported(LinkMode::Static).unwrap_err(), LinkError::UnsupportedLinkMode);
    assert!(mode_supported(LinkMode::Dynamic).is_ok());
}

#[test]
fn unsupported_compiler_rejected() {
    let entries = vec![entry("configured", "myproj-0.1.0.0", Some("/out"))];
    let plan = load_plan("mhc-1.0".to_string(), &entries).unwrap();
    let r = resolve_directives(&plan, LinkMode::Dynamic, "1.0", "/mhc/lib");
    assert_eq!(r.unwrap_err(), LinkError::UnsupportedCompiler);
}

#[test]
fn library_name_dynamic_appends_version_suffix() {
    assert_eq!(
        library_name(LinkMode::Dynamic, "base-4.17.0.0", "9.4.7"),
        "HSbase-4.17.0.0-ghc9.4.7"
    );
    assert_eq!(library_name(LinkMode::Static, "base-4.17.0.0", "9.4.7"), "HSbase-4.17.0.0");
}

#[test]
fn dependency_directives_precede_project_directives() {
    let entries = vec![
        entry("pre-existing", "a-1.0", None),
        entry("pre-existing", "b-2.0", None),
        entry("configured", "p-0.1", Some("/out")),
    ];
    let plan = load_plan("ghc-9.4.7".to_string(), &entries).unwrap();
    let ds = resolve_directives(&plan, LinkMode::Dynamic, "9.4.7", "/lib").unwrap();
    assert_eq!(ds.len(), 9);
    // a's block, then b's block, then the project's block
    assert_eq!(ds[0], search("/lib/a-1.0"));
    assert_eq!(ds[1], link(LinkMode::Dynamic, "HSa-1.0-ghc9.4.7"));
    assert_eq!(ds[2], rpath("/lib/a-1.0"));
    assert_eq!(ds[3], search("/lib/b-2.0"));
    assert_eq!(ds[4], link(LinkMode::Dynamic, "HSb-2.0-ghc9.4.7"));
    assert_eq!(ds[5], rpath("/lib/b-2.0"));
    assert_eq!(ds[6], search("/out/build"));
    assert_eq!(ds[7], link(LinkMode::Dynamic, "HSp-0.1-ghc9.4.7"));
    assert_eq!(ds[8], rpath("/out/build"));
}

#[test]
fn end_to_end_example() {
    let entries = vec![
        entry("configured", "myproj-0.1.0.0", Some("/out")),
        entry("pre-existing", "base-4.17.0.0", None),
    ];
    let plan = load_plan("ghc-9.4.7".to_string(), &entries).unwrap();
    let libdir = "/ghc/9.4.7/lib";
    let ds = resolve_directives(&plan, LinkMode::Dynamic, "9.4.7", libdir).unwrap();
    let expected = vec![
        search("/ghc/9.4.7/lib/base-4.17.0.0"),
        link(LinkMode::Dynamic, "HSbase-4.17.0.0-ghc9.4.7"),
        rpath("/ghc/9.4.7/lib/base-4.17.0.0"),
        search("/out/build"),
        link(LinkMode::Dynamic, "HSmyproj-0.1.0.0-ghc9.4.7"),
        rpath("/out/build"),
    ];
    assert_eq!(ds, expected);
}

#[test]
fn no_dependencies_yields_project_block_only() {
    let entries = vec![entry("configured", "p-0.1", Some("/out"))];
    let plan = load_plan("ghc-9.4.7".to_string(), &entries).unwrap();
    let ds = resolve_directives(&plan, LinkMode::Dynamic, "9.4.7", "/lib").unwrap();
    assert_eq!(
        ds,
        vec![
            search("/out/build"),
            link(LinkMode::Dynamic, "HSp-0.1-ghc9.4.7"),
            rpath("/out/build"),
        ]
    );
}
