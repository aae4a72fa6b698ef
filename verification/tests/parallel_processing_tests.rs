use solarboat::operations::{OperationType, TerraformOperation, TerraformRunner};
use solarboat::processor::ParallelProcessor;

fn op(module: &str, workspace: Option<&str>, op_type: OperationType) -> TerraformOperation {
    TerraformOperation {
        module_dir: module.to_string(),
        workspace: workspace.map(|w| w.to_string()),
        operation_type: op_type,
        var_files: vec!["test.tfvars".to_string()],
        watch: false,
        skip_init: true,
    }
}

#[test]
fn test_parallel_processor_creation_and_clamping() {
    let processor = ParallelProcessor::new(10);
    assert_eq!(processor.get_parallel_limit(), 4); // Should be clamped to max 4

    let processor = ParallelProcessor::new(0);
    assert_eq!(processor.get_parallel_limit(), 1); // Should be clamped to min 1

    let processor = ParallelProcessor::new(3);
    assert_eq!(processor.get_parallel_limit(), 3); // Should remain 3
}

#[test]
fn test_empty_processor() {
    let mut processor = ParallelProcessor::new(3);
    processor.start().expect("Failed to start processor");
    let results = processor.wait_for_completion().expect("Failed to wait for completion");
    assert_eq!(results.len(), 0);
}

#[test]
fn test_single_operation() {
    let mut processor = ParallelProcessor::new(3);

    let operation = op("test_module", Some("test_workspace"), OperationType::Plan {
        plan_dir: None,
    });

    processor.add_operation(operation).expect("Failed to add operation");
    processor.start().expect("Failed to start processor");
    let results = processor.wait_for_completion().expect("Failed to wait for completion");
    assert_eq!(results.len(), 1);

    let result = &results[0];
    assert_eq!(result.module_dir, "test_module");
    assert_eq!(result.workspace, Some("test_workspace".to_string()));
    match &result.operation_type {
        OperationType::Plan { .. } => {},
        _ => panic!("Expected Plan operation"),
    }
}

#[test]
fn test_multiple_operations() {
    let mut processor = ParallelProcessor::new(3);

    for i in 0..2 {
        let operation = op(
            &format!("test_module_{}", i),
            Some(&format!("test_workspace_{}", i)),
            OperationType::Plan { plan_dir: None },
        );
        processor.add_operation(operation).expect("Failed to add operation");
    }

    processor.start().expect("Failed to start processor");
    let results = processor.wait_for_completion().expect("Failed to wait for completion");
    assert_eq!(results.len(), 2);

    // The result order across modules is unspecified: compare by content.
    let expected_modules = vec!["test_module_0", "test_module_1"];
    let expected_workspaces = vec!["test_workspace_0", "test_workspace_1"];

    for expected_module in &expected_modules {
        assert!(
            results.iter().any(|r| r.module_dir == *expected_module),
            "Expected module {} not found in results",
            expected_module
        );
    }

    for expected_workspace in &expected_workspaces {
        assert!(
            results.iter().any(|r| r.workspace == Some(expected_workspace.to_string())),
            "Expected workspace {} not found in results",
            expected_workspace
        );
    }
}

#[test]
fn test_parallel_limit() {
    let mut processor = ParallelProcessor::new(2);

    for i in 0..3 {
        let operation = op(
            &format!("test_module_{}", i),
            Some(&format!("test_workspace_{}", i)),
            OperationType::Plan { plan_dir: None },
        );
        processor.add_operation(operation).expect("Failed to add operation");
    }

    processor.start().expect("Failed to start processor");
    let results = processor.wait_for_completion().expect("Failed to wait for completion");
    assert_eq!(results.len(), 3);
}

#[test]
fn test_apply_operations() {
    let mut processor = ParallelProcessor::new(3);

    for i in 0..3 {
        let operation = op(
            &format!("test_module_{}", i),
            Some(&format!("test_workspace_{}", i)),
            OperationType::Apply,
        );
        processor.add_operation(operation).expect("Failed to add operation");
    }

    processor.start().expect("Failed to start processor");
    let results = processor.wait_for_completion().expect("Failed to wait for completion");
    assert_eq!(results.len(), 3);

    for result in results {
        match result.operation_type {
            OperationType::Apply => {},
            _ => panic!("Expected Apply operation"),
        }
    }
}

#[test]
fn test_high_parallel_limit() {
    let mut processor = ParallelProcessor::new(10); // Should be clamped to 4
    assert_eq!(processor.get_parallel_limit(), 4);

    for i in 0..5 {
        let operation = op(
            &format!("test_module_{}", i),
            Some(&format!("test_workspace_{}", i)),
            OperationType::Plan { plan_dir: None },
        );
        processor.add_operation(operation).expect("Failed to add operation");
    }

    processor.start().expect("Failed to start processor");
    let results = processor.wait_for_completion().expect("Failed to wait for completion");
    assert_eq!(results.len(), 5);
}

#[test]
fn test_module_grouping() {
    let mut processor = ParallelProcessor::new(3);

    // Add operations for the same module but different workspaces
    for workspace in &["dev", "staging", "prod"] {
        let operation = op("shared_module", Some(workspace), OperationType::Plan {
            plan_dir: None,
        });
        processor.add_operation(operation).expect("Failed to add operation");
    }

    // Add operations for different modules
    for module in &["other_module", "another_module"] {
        let operation = op(module, Some("default"), OperationType::Plan { plan_dir: None });
        processor.add_operation(operation).expect("Failed to add operation");
    }

    processor.start().expect("Failed to start processor");
    let results = processor.wait_for_completion().expect("Failed to wait for completion");
    assert_eq!(results.len(), 5);

    // Check that all operations for shared_module are present
    let shared_module_results: Vec<_> =
        results.iter().filter(|r| r.module_dir == "shared_module").collect();
    assert_eq!(shared_module_results.len(), 3);

    // Check that all workspaces for shared_module are present
    let workspaces: Vec<_> =
        shared_module_results.iter().filter_map(|r| r.workspace.as_ref()).collect();
    assert!(workspaces.contains(&&"dev".to_string()));
    assert!(workspaces.contains(&&"staging".to_string()));
    assert!(workspaces.contains(&&"prod".to_string()));

    // Check other modules
    let other_module_results: Vec<_> =
        results.iter().filter(|r| r.module_dir == "other_module").collect();
    assert_eq!(other_module_results.len(), 1);

    let another_module_results: Vec<_> =
        results.iter().filter(|r| r.module_dir == "another_module").collect();
    assert_eq!(another_module_results.len(), 1);
}

/// An instrumented fake executor that records a (module, start, end) interval
/// for every plan/apply it runs, from a shared logical clock.
struct RecordingRunner {
    clock: u64,
    intervals: Vec<(String, u64, u64)>,
}

impl RecordingRunner {
    fn record(&mut self, module: &str) {
        self.clock += 1;
        let start = self.clock;
        self.clock += 1;
        let end = self.clock;
        self.intervals.push((module.to_string(), start, end));
    }
}

impl TerraformRunner for RecordingRunner {
    fn init(&mut self, _op: &TerraformOperation) -> bool {
        true
    }

    fn select_workspace(&mut self, _op: &TerraformOperation, _workspace: &String) -> bool {
        true
    }

    fn plan(&mut self, op: &TerraformOperation, _plan_dir: &Option<String>) -> (bool, Vec<String>) {
        self.record(&op.module_dir);
        (true, Vec::new())
    }

    fn apply(&mut self, op: &TerraformOperation) -> (bool, Vec<String>) {
        self.record(&op.module_dir);
        (true, Vec::new())
    }
}

#[test]
fn test_scheduler_exclusivity_intervals() {
    // 3 operations on one module (distinct workspaces) plus one each on two
    // other modules, parallel limit 3: five results, and the recorded
    // execution intervals of any one module never overlap.
    let mut processor = ParallelProcessor::new(3);
    for workspace in &["a", "b", "c"] {
        processor
            .add_operation(op("m1", Some(workspace), OperationType::Plan { plan_dir: None }))
            .expect("Failed to add operation");
    }
    processor
        .add_operation(op("m2", Some("a"), OperationType::Plan { plan_dir: None }))
        .expect("Failed to add operation");
    processor
        .add_operation(op("m3", Some("a"), OperationType::Plan { plan_dir: None }))
        .expect("Failed to add operation");

    processor.start().expect("Failed to start processor");
    let mut runner = RecordingRunner { clock: 0, intervals: Vec::new() };
    processor.run_with(&mut runner);

    assert_eq!(processor.results.len(), 5);
    assert!(processor.results.iter().all(|r| r.success));

    for (i, a) in runner.intervals.iter().enumerate() {
        for b in runner.intervals.iter().skip(i + 1) {
            if a.0 == b.0 {
                assert!(a.2 < b.1 || b.2 < a.1, "operations of {} overlap", a.0);
            }
        }
    }
}

#[test]
fn test_begin_next_module_never_hands_out_active_module() {
    let mut processor = ParallelProcessor::new(3);
    for workspace in &["a", "b"] {
        processor
            .add_operation(op("m1", Some(workspace), OperationType::Apply))
            .expect("Failed to add operation");
    }
    processor.add_operation(op("m2", Some("a"), OperationType::Apply)).expect(
        "Failed to add operation",
    );

    let first = processor.begin_next_module().expect("work available");
    assert_eq!(first.0, "m1");
    assert_eq!(first.1.len(), 2);

    // m1 is executing and its queue is drained: only m2 can follow.
    let second = processor.begin_next_module().expect("work available");
    assert_eq!(second.0, "m2");
    assert_eq!(second.1.len(), 1);

    assert!(processor.begin_next_module().is_none());

    processor.finish_module(&"m1".to_string(), Vec::new());
    processor.finish_module(&"m2".to_string(), Vec::new());
    assert!(processor.begin_next_module().is_none());
}

#[test]
fn test_clamping_bounds() {
    // Requested limits 0, 1, 4, 10 give effective limits 1, 1, 4, 4.
    for (requested, effective) in [(0usize, 1usize), (1, 1), (4, 4), (10, 4)] {
        assert_eq!(ParallelProcessor::new(requested).get_parallel_limit(), effective);
    }
}
