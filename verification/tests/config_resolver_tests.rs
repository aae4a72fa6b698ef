use solarboat::config::{GlobalConfig, ModuleConfig, SolarboatConfig, WorkspaceVarFiles};
use solarboat::resolver::ConfigResolver;

fn create_test_config() -> SolarboatConfig {
    let mut global_workspace_files = WorkspaceVarFiles::new();
    global_workspace_files.insert("prod".to_string(), vec!["global-prod.tfvars".to_string()]);

    let mut module_workspace_files = WorkspaceVarFiles::new();
    module_workspace_files.insert("prod".to_string(), vec!["module-prod.tfvars".to_string()]);

    let mut config = SolarboatConfig::empty();
    config.global = GlobalConfig {
        ignore_workspaces: vec!["test".to_string()],
        var_files: vec!["global.tfvars".to_string()],
        workspace_var_files: Some(global_workspace_files),
    };
    config.insert_module(
        "infrastructure/networking".to_string(),
        ModuleConfig {
            ignore_workspaces: vec!["dev".to_string()],
            var_files: vec!["networking.tfvars".to_string()],
            workspace_var_files: Some(module_workspace_files),
        },
    );
    config
}

#[test]
fn test_resolve_module_config() {
    let config = create_test_config();
    let resolver = ConfigResolver::new(Some(config), "/tmp".to_string());

    let resolved = resolver.resolve_module_config("infrastructure/networking", None, None);

    assert_eq!(resolved.ignore_workspaces, vec!["dev"]);
    assert_eq!(resolved.var_files, vec!["networking.tfvars"]);
}

#[test]
fn test_cli_overrides_config() {
    let config = create_test_config();
    let resolver = ConfigResolver::new(Some(config), "/tmp".to_string());

    let cli_ignore = vec!["cli-ignore".to_string()];
    let cli_vars = vec!["cli-var.tfvars".to_string()];
    let resolved = resolver.resolve_module_config(
        "infrastructure/networking",
        Some(&cli_ignore),
        Some(&cli_vars),
    );

    assert_eq!(resolved.ignore_workspaces, vec!["cli-ignore"]);
    assert_eq!(resolved.var_files, vec!["cli-var.tfvars"]);
}

#[test]
fn test_workspace_var_files() {
    let config = create_test_config();
    let resolver = ConfigResolver::new(Some(config), "/tmp".to_string());

    let var_files = resolver.get_workspace_var_files("infrastructure/networking", "prod", None);

    // Should include both general and workspace-specific files
    assert!(var_files.contains(&"/tmp/networking.tfvars".to_string()));
    assert!(var_files.contains(&"/tmp/module-prod.tfvars".to_string()));
}

#[test]
fn test_should_ignore_workspace() {
    let config = create_test_config();
    let resolver = ConfigResolver::new(Some(config), "/tmp".to_string());

    assert!(resolver.should_ignore_workspace("infrastructure/networking", "dev", None));
    assert!(!resolver.should_ignore_workspace("infrastructure/networking", "prod", None));
}

#[test]
fn test_module_config_fallback_to_global() {
    let config = create_test_config();
    let resolver = ConfigResolver::new(Some(config), "/tmp".to_string());

    let resolved = resolver.resolve_module_config("other/module", None, None);
    assert_eq!(resolved.ignore_workspaces, vec!["test"]);
    assert_eq!(resolved.var_files, vec!["global.tfvars"]);

    let fallback_vars = resolver.get_workspace_var_files("other/module", "prod", None);
    assert_eq!(
        fallback_vars,
        vec!["/tmp/global.tfvars".to_string(), "/tmp/global-prod.tfvars".to_string()]
    );
}

#[test]
fn test_resolver_without_config() {
    let resolver = ConfigResolver::new(None, ".".to_string());
    let resolved = resolver.resolve_module_config("any/module", None, None);
    assert!(resolved.ignore_workspaces.is_empty());
    assert!(resolved.var_files.is_empty());
    assert!(!resolver.should_ignore_workspace("any/module", "dev", None));
}

#[test]
fn test_absolute_var_file_paths_kept() {
    let mut config = SolarboatConfig::empty();
    config.global.var_files = vec!["/abs/global.tfvars".to_string(), "rel.tfvars".to_string()];
    let resolver = ConfigResolver::new(Some(config), "/tmp".to_string());
    let vars = resolver.get_workspace_var_files("m", "default", None);
    assert_eq!(vars, vec!["/abs/global.tfvars".to_string(), "/tmp/rel.tfvars".to_string()]);
}

#[test]
fn test_workspace_var_files_shadowing_insert() {
    let mut ws = WorkspaceVarFiles::new();
    ws.insert("prod".to_string(), vec!["first.tfvars".to_string()]);
    ws.insert("prod".to_string(), vec!["second.tfvars".to_string()]);
    assert!(ws.has_workspace("prod"));
    assert!(!ws.has_workspace("dev"));
    assert_eq!(ws.get_workspace_files("prod"), vec!["second.tfvars"]);
    assert!(ws.get_workspace_files("dev").is_empty());
}
