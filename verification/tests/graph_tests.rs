use solarboat::changes::{
    filter_modules_by_path, get_changed_modules, module_for_file, normalize_changed_files,
    process_changed_modules, DetectionMode,
};
use solarboat::classify::{
    build_module_graph, collect_dependencies, find_module_dependencies, has_backend_config,
    has_module_block, file_declares_backend, ModuleSources, TfFile,
};
use solarboat::graph::{build_dependency_graph, ModuleGraph};

fn lines(ls: &[&str]) -> Vec<String> {
    ls.iter().map(|l| l.to_string()).collect()
}

fn tf(ls: &[&str]) -> TfFile {
    TfFile { lines: lines(ls) }
}

/// The fixture of the end-to-end scenario: `/repo/infra/network` has a
/// backend block outside any terraform block and no module invocation, so it
/// classifies stateless; `/repo/infra/app` invokes it, so it is stateful.
fn fixture() -> ModuleGraph {
    let network = ModuleSources {
        path: "/repo/infra/network".to_string(),
        files: vec![tf(&["backend \"s3\" {", "  bucket = \"b\"", "}"])],
    };
    let app = ModuleSources {
        path: "/repo/infra/app".to_string(),
        files: vec![tf(&["module \"net\" {", "  source = \"../network\"", "}"])],
    };
    build_module_graph(&vec![network, app], &vec![false, false])
}

#[test]
fn test_classifier_module_block_wins() {
    // A module-invocation block makes a module stateful regardless of any
    // backend also present.
    let files = vec![tf(&[
        "module \"x\" {",
        "  source = \"../y\"",
        "}",
        "terraform {",
        "  backend \"s3\" {}",
        "}",
    ])];
    assert!(has_backend_config(&files, false));

    // A backend block alone (inside a terraform block) is stateful too.
    let backend_only = vec![tf(&["terraform {", "  backend \"s3\" {}", "}"])];
    assert!(has_backend_config(&backend_only, false));

    // Neither, and no state file: stateless.
    let neither = vec![tf(&["resource \"null_resource\" \"x\" {}"])];
    assert!(!has_backend_config(&neither, false));

    // A local state file beside the sources makes it stateful.
    assert!(has_backend_config(&neither, true));
}

#[test]
fn test_backend_outside_terraform_block_not_counted() {
    let ls = lines(&["backend \"s3\" {", "}"]);
    assert!(!file_declares_backend(&ls));
    let nested = lines(&["terraform {", "  backend \"s3\" {", "  }", "}"]);
    assert!(file_declares_backend(&nested));
    // Comments and blank lines are skipped by the scanner.
    let commented = lines(&["# terraform {", "", "// backend \"s3\" {"]);
    assert!(!file_declares_backend(&commented));
}

#[test]
fn test_has_module_block_detection() {
    assert!(has_module_block(&lines(&["  module \"a\" {", "}"])));
    assert!(!has_module_block(&lines(&["module_without_brace", "{ module"])));
}

#[test]
fn test_find_module_dependencies_resolves_relative_sources() {
    let content = lines(&[
        "module \"net\" {",
        "  source = \"../network\"",
        "}",
        "module \"other\" {",
        "  source = './sibling'",
        "}",
    ]);
    let deps = find_module_dependencies(&content, "/repo/infra/app");
    assert_eq!(
        deps,
        vec!["/repo/infra/network".to_string(), "/repo/infra/app/sibling".to_string()]
    );
}

#[test]
fn test_find_module_dependencies_ignores_source_outside_blocks() {
    let content = lines(&["source = \"../network\"", "module \"x\" {", "}"]);
    let deps = find_module_dependencies(&content, "/repo/a");
    assert!(deps.is_empty());
}

#[test]
fn test_graph_symmetry_on_fixture() {
    // B in A.depends_on exactly when A in B.used_by, for every pair.
    let g = fixture();
    let app = "/repo/infra/app".to_string();
    let network = "/repo/infra/network".to_string();
    let app_mod = g.get(&app).expect("app module");
    assert_eq!(app_mod.depends_on, vec![network.clone()]);
    assert!(app_mod.used_by.is_empty());
    let net_mod = g.get(&network).expect("network module");
    assert!(net_mod.depends_on.is_empty());
    assert_eq!(net_mod.used_by, vec![app.clone()]);
    assert!(app_mod.is_stateful);
    assert!(!net_mod.is_stateful);
}

#[test]
fn test_build_dependency_graph_records_both_sides() {
    let mut g = ModuleGraph::new();
    g.insert_module("/a".to_string(), true);
    g.insert_module("/b".to_string(), false);
    let deps = vec![("/a".to_string(), "/b".to_string()), ("/a".to_string(), "/c".to_string())];
    build_dependency_graph(&mut g, &deps);
    let a = g.get(&"/a".to_string()).unwrap();
    // The dependency on /c is recorded even though /c is no module ...
    assert_eq!(a.depends_on, vec!["/b".to_string(), "/c".to_string()]);
    // ... and the back-reference exists only for the module /b.
    let b = g.get(&"/b".to_string()).unwrap();
    assert_eq!(b.used_by, vec!["/a".to_string()]);
}

#[test]
fn test_collect_dependencies_pairs() {
    let m = ModuleSources {
        path: "/repo/app".to_string(),
        files: vec![tf(&["module \"x\" {", "  source = \"../lib\"", "}"])],
    };
    let pairs = collect_dependencies(&vec![m]);
    assert_eq!(pairs, vec![("/repo/app".to_string(), "/repo/lib".to_string())]);
}

#[test]
fn test_propagation_stateless_to_user() {
    // A change touching only a file under the stateless network module
    // affects exactly the stateful app module that uses it.
    let g = fixture();
    let changed = vec!["/repo/infra/network/main.tf".to_string()];
    let affected = process_changed_modules(&changed, &g).unwrap();
    assert_eq!(affected, vec!["/repo/infra/app".to_string()]);
}

#[test]
fn test_propagation_stateful_directly() {
    // A change touching the stateful app module directly affects it, with or
    // without dependents.
    let g = fixture();
    let changed = vec!["/repo/infra/app/main.tf".to_string()];
    let affected = process_changed_modules(&changed, &g).unwrap();
    assert_eq!(affected, vec!["/repo/infra/app".to_string()]);
}

#[test]
fn test_propagation_deduplicates() {
    // Two changed files mapping to the same module yield that module once.
    let g = fixture();
    let changed = vec![
        "/repo/infra/app/main.tf".to_string(),
        "/repo/infra/app/vars.tf".to_string(),
        "/repo/infra/network/main.tf".to_string(),
    ];
    let affected = process_changed_modules(&changed, &g).unwrap();
    assert_eq!(affected, vec!["/repo/infra/app".to_string()]);
}

#[test]
fn test_module_for_file_longest_prefix() {
    let parent = ModuleSources { path: "/repo/infra".to_string(), files: vec![tf(&["x"])] };
    let child = ModuleSources { path: "/repo/infra/app".to_string(), files: vec![tf(&["x"])] };
    let g = build_module_graph(&vec![parent, child], &vec![false, false]);
    let owner = module_for_file(&g, &"/repo/infra/app/main.tf".to_string());
    assert_eq!(owner, Some("/repo/infra/app".to_string()));
    let owner2 = module_for_file(&g, &"/repo/infra/other.tf".to_string());
    assert_eq!(owner2, Some("/repo/infra".to_string()));
    assert_eq!(module_for_file(&g, &"/elsewhere/main.tf".to_string()), None);
}

#[test]
fn test_get_changed_modules_all_returns_stateful() {
    let g = fixture();
    let modules = get_changed_modules(&g, true, &Vec::new(), ".").unwrap();
    assert_eq!(modules, vec!["/repo/infra/app".to_string()]);
}

#[test]
fn test_get_changed_modules_path_filter() {
    let g = fixture();
    let changed = vec!["/repo/infra/app/main.tf".to_string()];
    let kept = get_changed_modules(&g, false, &changed, "app").unwrap();
    assert_eq!(kept, vec!["/repo/infra/app".to_string()]);
    let none = get_changed_modules(&g, false, &changed, "network").unwrap();
    assert!(none.is_empty());
}

#[test]
fn test_filter_modules_by_path() {
    let modules = vec![
        "/repo/infra/app".to_string(),
        "/repo/infra/network/sub".to_string(),
        "/repo/other".to_string(),
    ];
    assert_eq!(
        filter_modules_by_path(&modules, "infra"),
        vec!["/repo/infra/app".to_string(), "/repo/infra/network/sub".to_string()]
    );
    assert_eq!(filter_modules_by_path(&modules, "app"), vec!["/repo/infra/app".to_string()]);
}

#[test]
fn test_normalize_changed_files() {
    let raw = vec![
        "b/main.tf".to_string(),
        "a/readme.md".to_string(),
        "b/main.tf".to_string(),
        "a/vars.tf".to_string(),
    ];
    let normalized = normalize_changed_files(&raw);
    assert_eq!(normalized, vec!["a/vars.tf".to_string(), "b/main.tf".to_string()]);
}

#[test]
fn test_detection_mode_choice() {
    let pr = "17".to_string();
    let blank = "".to_string();
    assert_eq!(detection("main", "main", Some(&pr), true), DetectionMode::AllStateful);
    assert_eq!(detection("main", "main", Some(&pr), false), DetectionMode::PipelineChange);
    assert_eq!(detection("main", "main", Some(&blank), false), DetectionMode::LocalTrunk);
    assert_eq!(detection("main", "main", None, false), DetectionMode::LocalTrunk);
    assert_eq!(detection("feature", "main", Some(&pr), false), DetectionMode::FeatureBranch);
}

fn detection(
    branch: &str,
    default_branch: &str,
    pr: Option<&String>,
    all: bool,
) -> DetectionMode {
    solarboat::changes::detection_mode(all, branch, default_branch, pr)
}

#[test]
fn test_join_path_normalizes() {
    let src: Vec<char> = "../network".chars().collect();
    assert_eq!(solarboat::paths::join_path("/repo/infra/app", &src), "/repo/infra/network");
    let abs: Vec<char> = "/other//x/./y".chars().collect();
    assert_eq!(solarboat::paths::join_path("/repo", &abs), "/other/x/y");
    let up: Vec<char> = "../../..".chars().collect();
    assert_eq!(solarboat::paths::join_path("/a/b", &up), "/");
}

#[test]
fn test_is_path_under() {
    assert!(solarboat::paths::is_path_under("/a/b/c.tf", "/a/b"));
    assert!(solarboat::paths::is_path_under("/a/b", "/a/b"));
    assert!(!solarboat::paths::is_path_under("/a/bc/d.tf", "/a/b"));
    assert!(!solarboat::paths::is_path_under("/a", "/a/b"));
}
