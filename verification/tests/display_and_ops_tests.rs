use solarboat::cli::{parse_bool_flag, parse_bool_string, ApplyArgs};
use solarboat::commands::{dedup_module_names, execute};
use solarboat::config::{ConfigFormat, ConfigLoader, SolarboatConfig};
use solarboat::display::{
    format_duration, format_module_path, format_module_status, format_workspace,
    format_workspace_list,
};
use solarboat::errors::{CircuitBreaker, CircuitState, ErrorCategory, RollbackContext, SolarboatError};
use solarboat::operations::{
    build_module_operations, clean_terraform_output, collect_failures, plan_file_content,
    plan_file_name, OperationResult, OperationType,
};
use solarboat::resolver::ConfigResolver;

#[test]
fn test_format_workspace() {
    assert_eq!(format_workspace(Some("staging")), "staging");
    assert_eq!(format_workspace(None), "default");
}

#[test]
fn test_format_workspace_list() {
    assert_eq!(format_workspace_list(&vec!["default".to_string()]), "[\"default\"]");
    let many: Vec<String> = (0..5).map(|i| format!("workspace{}", i)).collect();
    let result = format_workspace_list(&many);
    assert!(result.contains("(+2 more)"));
}

#[test]
fn test_format_duration() {
    assert_eq!(format_duration(500), "500ms");
    assert_eq!(format_duration(1000), "1.0s");
    assert_eq!(format_duration(65000), "1m 5s");
}

#[test]
fn test_format_module_path_relative() {
    let formatted = format_module_path("/work/terraform/projects/test", "/work");
    assert!(formatted.contains("terraform/projects/test"));
    // A path outside the working directory falls back to a project indicator.
    let by_indicator = format_module_path("/elsewhere/terraform/projects/x", "/work");
    assert_eq!(by_indicator, "terraform/projects/x");
}

#[test]
fn test_format_module_status_line() {
    let line = format_module_status("/work/app", "/work", Some("prod"), "ok");
    assert_eq!(line, "app (prod): ok");
    let default_line = format_module_status("/work/app", "/work", Some("default"), "ok");
    assert_eq!(default_line, "app: ok");
}

#[test]
fn test_error_categories() {
    let lock = SolarboatError::Lock {
        resource: "queues".to_string(),
        timeout_ms: 5000,
        cause: "busy".to_string(),
    };
    assert_eq!(lock.category(), ErrorCategory::Transient);
    assert!(lock.is_retryable());

    let config = SolarboatError::Configuration {
        field: "parallel".to_string(),
        value: "x".to_string(),
        cause: "not a number".to_string(),
    };
    assert_eq!(config.category(), ErrorCategory::Configuration);
    assert!(!config.is_retryable());

    let tf = SolarboatError::Terraform {
        operation: "plan".to_string(),
        module: "m".to_string(),
        workspace: None,
        cause: "exit 1".to_string(),
        is_transient: false,
    };
    assert_eq!(tf.category(), ErrorCategory::Permanent);
}

#[test]
fn test_circuit_breaker_state_machine() {
    let mut cb = CircuitBreaker::new(2, 1000);
    assert_eq!(*cb.state(), CircuitState::Closed);
    assert!(cb.can_execute(0));
    cb.on_failure(10);
    assert_eq!(*cb.state(), CircuitState::Closed);
    cb.on_failure(20);
    assert_eq!(*cb.state(), CircuitState::Open);
    assert!(!cb.can_execute(500));
    assert!(cb.can_execute(1500));
    assert_eq!(*cb.state(), CircuitState::HalfOpen);
    cb.on_success();
    assert_eq!(*cb.state(), CircuitState::Closed);
    cb.on_failure(2000);
    cb.on_failure(2001);
    assert!(cb.can_execute(5000));
    cb.on_failure(5001);
    assert_eq!(*cb.state(), CircuitState::Open);
}

#[test]
fn test_rollback_reverse_order() {
    let mut ctx = RollbackContext::new();
    ctx.add_operation("m1".to_string(), None, "apply".to_string());
    ctx.add_operation("m2".to_string(), Some("prod".to_string()), "apply".to_string());
    let undo = ctx.execute_rollback();
    assert_eq!(undo.len(), 2);
    assert_eq!(undo[0].0, "m2:prod");
    assert_eq!(undo[1].0, "m1");
    assert!(ctx.execute_rollback().is_empty());
}

#[test]
fn test_clean_terraform_output_strips_ansi() {
    let colored = "\u{1b}[32m+ resource\u{1b}[0m created";
    assert_eq!(clean_terraform_output(colored), "+ resource created");
    assert_eq!(clean_terraform_output("plain text"), "plain text");
}

#[test]
fn test_plan_file_name_and_content() {
    assert_eq!(plan_file_name("network", Some("prod"), 1700000000), "network-prod-1700000000.tfplan.md");
    assert_eq!(plan_file_name("network", None, 7), "network-default-7.tfplan.md");
    let content = plan_file_content("network", None, &vec!["\u{1b}[1mline one\u{1b}[0m".to_string()]);
    assert_eq!(
        content,
        "# Terraform Plan Output for network (workspace: default)\n\n```\nline one\n```\n"
    );
}

#[test]
fn test_collect_failures_labels() {
    let results = vec![
        OperationResult {
            module_dir: "m1".to_string(),
            workspace: Some("prod".to_string()),
            operation_type: OperationType::Apply,
            success: false,
            error: Some("Apply failed".to_string()),
            output: Vec::new(),
        },
        OperationResult {
            module_dir: "m2".to_string(),
            workspace: None,
            operation_type: OperationType::Apply,
            success: true,
            error: None,
            output: Vec::new(),
        },
        OperationResult {
            module_dir: "m3".to_string(),
            workspace: None,
            operation_type: OperationType::Apply,
            success: false,
            error: None,
            output: Vec::new(),
        },
    ];
    let failures = collect_failures(&results);
    assert_eq!(failures.len(), 2);
    assert_eq!(failures[0].path, "m1:prod");
    assert_eq!(failures[0].error, "Apply failed");
    assert_eq!(failures[1].path, "m3");
    assert_eq!(failures[1].error, "Unknown error");
}

#[test]
fn test_build_module_operations_single_and_multi() {
    let resolver = ConfigResolver::new(None, ".".to_string());
    let module = "/repo/app".to_string();

    // A single workspace yields one operation on the default workspace.
    let single = build_module_operations(
        &module,
        &vec!["default".to_string()],
        &resolver,
        None,
        None,
        &OperationType::Apply,
        false,
    );
    assert_eq!(single.len(), 1);
    assert_eq!(single[0].workspace, None);
    assert!(single[0].skip_init);

    // Several workspaces yield one operation per workspace not ignored.
    let ignore = vec!["dev".to_string()];
    let multi = build_module_operations(
        &module,
        &vec!["default".to_string(), "dev".to_string(), "prod".to_string()],
        &resolver,
        Some(&ignore),
        None,
        &OperationType::Plan { plan_dir: Some("plans".to_string()) },
        true,
    );
    assert_eq!(multi.len(), 2);
    assert_eq!(multi[0].workspace, Some("default".to_string()));
    assert_eq!(multi[1].workspace, Some("prod".to_string()));
    assert!(multi.iter().all(|o| o.watch && o.module_dir == module));
}

#[test]
fn test_parse_bool_values() {
    assert!(parse_bool_string("true", true));
    assert!(!parse_bool_string("false", true));
    assert!(parse_bool_string("yes", true));
    assert!(!parse_bool_string("yes", false));
    assert!(!parse_bool_flag(&None, true));
    assert!(parse_bool_flag(&Some("nonsense".to_string()), true));
}

#[test]
fn test_execute_decision() {
    let args = ApplyArgs {
        path: "app".to_string(),
        dry_run: "false".to_string(),
        ignore_workspaces: None,
        all: None,
        var_files: None,
        watch: Some("true".to_string()),
        parallel: 9,
        default_branch: "main".to_string(),
        recent_commits: 10,
    };
    let modules = vec!["/repo/infra/app".to_string(), "/repo/infra/net".to_string()];
    let decision = execute(&args, &modules);
    assert!(!decision.dry_run);
    assert!(decision.watch);
    assert_eq!(decision.parallel_limit, 1); // watch forces sequential work
    assert_eq!(decision.modules, vec!["/repo/infra/app".to_string()]);
    assert!(decision.proceed);

    let all_args = ApplyArgs { path: ".".to_string(), watch: None, ..args };
    let decision2 = execute(&all_args, &modules);
    assert!(decision2.dry_run == false);
    assert_eq!(decision2.parallel_limit, 4); // capped at 4
    assert_eq!(decision2.modules.len(), 2);
}

#[test]
fn test_dedup_module_names() {
    let modules = vec![
        "/a/app".to_string(),
        "/b/app".to_string(),
        "/a/net".to_string(),
    ];
    assert_eq!(dedup_module_names(&modules), vec!["/a/app".to_string(), "/a/net".to_string()]);
}

#[test]
fn test_config_search_order_and_format() {
    let loader = ConfigLoader::new("/repo".to_string());
    let plain = loader.config_search_order(None);
    assert_eq!(plain, vec!["solarboat.json", "solarboat.yml", "solarboat.yaml"]);
    let env = "dev".to_string();
    let with_env = loader.config_search_order(Some(&env));
    assert_eq!(with_env[0], "solarboat.dev.json");
    assert_eq!(with_env.len(), 6);
    let blank = " ".to_string();
    assert_eq!(loader.config_search_order(Some(&blank)).len(), 3);

    assert_eq!(solarboat::config::config_format("solarboat.json", ""), ConfigFormat::Json);
    assert_eq!(solarboat::config::config_format("solarboat.yml", "{}"), ConfigFormat::Yaml);
    assert_eq!(solarboat::config::config_format("conf", "  { }"), ConfigFormat::Json);
    assert_eq!(solarboat::config::config_format("conf", "a: b"), ConfigFormat::Yaml);

    let names = plain;
    let found = loader.find_config_file(&names, &vec![false, true, false]);
    assert_eq!(found, Some("/repo/solarboat.yml".to_string()));
    assert_eq!(loader.find_config_file(&names, &vec![false, false, false]), None);
}

#[test]
fn test_validate_var_files_warnings() {
    let loader = ConfigLoader::new("/repo".to_string());
    let mut warnings: Vec<String> = Vec::new();
    loader.validate_var_files(
        &vec!["a.tfvars".to_string(), "/abs/b.tfvars".to_string()],
        "global",
        &vec![false, true],
        &mut warnings,
    );
    assert_eq!(warnings.len(), 1);
    assert_eq!(
        warnings[0],
        "Var file 'a.tfvars' for global does not exist (checked: /repo/a.tfvars)"
    );

    let mut module_warnings: Vec<String> = Vec::new();
    loader.validate_var_files(
        &vec!["m.tfvars".to_string()],
        "module 'infra/app' workspace 'dev'",
        &vec![false],
        &mut module_warnings,
    );
    assert_eq!(
        module_warnings[0],
        "Var file 'm.tfvars' for module 'infra/app' workspace 'dev' does not exist (checked: /repo/infra/app/m.tfvars)"
    );
}

#[test]
fn test_validate_workspace_names_reserved() {
    let loader = ConfigLoader::new("/repo".to_string());
    let mut ws = solarboat::config::WorkspaceVarFiles::new();
    ws.insert("default".to_string(), vec![]);
    ws.insert("prod".to_string(), vec![]);
    let mut config = SolarboatConfig::empty();
    config.global.workspace_var_files = Some(ws);
    let mut warnings: Vec<String> = Vec::new();
    loader.validate_workspace_names(&config, &mut warnings);
    assert_eq!(warnings.len(), 1);
    assert!(warnings[0].contains("'default' is reserved"));
}

#[test]
fn test_u64_rendering() {
    assert_eq!(solarboat::text::u64_to_string(0), "0");
    assert_eq!(solarboat::text::u64_to_string(42), "42");
    assert_eq!(solarboat::text::u64_to_string(18446744073709551615), "18446744073709551615");
}
