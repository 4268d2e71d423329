use gane::migration::plan::{MigrationPlan, MigrationStep, StepStatus};
use gane::migration::runner::{MigrationRunner, RunResult};
use gane::migration::version::{SchemaVersion, VersionTracker};

fn sample_plan() -> MigrationPlan {
    let mut plan = MigrationPlan::new("upgrade", SchemaVersion::new(1, 0, 0), SchemaVersion::new(2, 0, 0));
    plan.add_step(MigrationStep::new("add_column", "Add new column", SchemaVersion::new(1, 1, 0)));
    plan.add_step(MigrationStep::new("migrate_data", "Transform data", SchemaVersion::new(1, 2, 0)));
    plan.add_step(
        MigrationStep::new("drop_old", "Drop old column", SchemaVersion::new(2, 0, 0)).irreversible(),
    );
    plan
}

#[test]
fn test_plan_creation() {
    let plan = sample_plan();
    assert_eq!(plan.step_count(), 3);
    assert_eq!(plan.pending_count(), 3);
    assert_eq!(plan.completed_count(), 0);
    assert!(!plan.is_complete());
}

#[test]
fn test_step_lifecycle() {
    let mut step = MigrationStep::new("s1", "desc", SchemaVersion::new(1, 0, 0));
    assert_eq!(step.status, StepStatus::Pending);
    assert!(!step.status.is_terminal());
    step.mark_running();
    assert_eq!(step.status, StepStatus::Running);
    step.mark_completed(150);
    assert_eq!(step.status, StepStatus::Completed);
    assert!(step.status.is_terminal());
    assert_eq!(step.duration_ms, Some(150));
}

#[test]
fn test_step_failure_and_rollback() {
    let mut step = MigrationStep::new("s1", "desc", SchemaVersion::new(1, 0, 0));
    step.mark_running();
    step.mark_failed();
    assert_eq!(step.status, StepStatus::Failed);
    assert!(step.status.is_terminal());
    step.mark_rolled_back();
    assert_eq!(step.status, StepStatus::RolledBack);
}

#[test]
fn test_plan_total_duration() {
    let mut plan = sample_plan();
    plan.step_mut(0).unwrap().mark_completed(100);
    plan.step_mut(1).unwrap().mark_completed(200);
    assert_eq!(plan.total_duration_ms(), 300);
}

#[test]
fn test_plan_has_failures() {
    let mut plan = sample_plan();
    assert!(!plan.has_failures());
    plan.step_mut(1).unwrap().mark_failed();
    assert!(plan.has_failures());
}

#[test]
fn test_irreversible_step() {
    let plan = sample_plan();
    assert!(plan.steps()[0].reversible);
    assert!(!plan.steps()[2].reversible);
}

#[test]
fn test_step_status_display() {
    assert_eq!(StepStatus::Pending.as_str(), "pending");
    assert_eq!(StepStatus::Completed.as_str(), "completed");
    assert_eq!(StepStatus::RolledBack.as_str(), "rolled_back");
}

#[test]
fn test_empty_plan() {
    let plan = MigrationPlan::new("empty", SchemaVersion::new(1, 0, 0), SchemaVersion::new(1, 0, 0));
    assert!(!plan.is_complete());
    assert_eq!(plan.completed_count(), 0);
}

fn make_plan() -> MigrationPlan {
    let mut plan = MigrationPlan::new("test", SchemaVersion::new(1, 0, 0), SchemaVersion::new(1, 3, 0));
    plan.add_step(MigrationStep::new("step1", "First step", SchemaVersion::new(1, 1, 0)));
    plan.add_step(MigrationStep::new("step2", "Second step", SchemaVersion::new(1, 2, 0)));
    plan.add_step(MigrationStep::new("step3", "Third step", SchemaVersion::new(1, 3, 0)));
    plan
}

#[test]
fn test_successful_execution() {
    let mut runner = MigrationRunner::new(SchemaVersion::new(1, 0, 0));
    let mut plan = make_plan();
    let result = runner.execute(&mut plan, &[100, 200, 50], None);
    assert_eq!(result, RunResult::Success);
    assert!(result.is_success());
    assert!(plan.is_complete());
    assert_eq!(runner.current_version().to_string(), "1.3.0");
    assert_eq!(runner.steps_executed(), 3);
}

#[test]
fn test_failed_execution() {
    let mut runner = MigrationRunner::new(SchemaVersion::new(1, 0, 0));
    let mut plan = make_plan();
    let result = runner.execute(&mut plan, &[100, 200, 50], Some(1));
    assert!(!result.is_success());
    if let RunResult::Failed { step_index, step_name } = result {
        assert_eq!(step_index, 1);
        assert_eq!(step_name, "step2");
    } else {
        panic!("Expected Failed result");
    }
    assert_eq!(runner.steps_executed(), 1);
    assert_eq!(runner.steps_failed(), 1);
}

#[test]
fn runner_test_empty_plan() {
    let mut runner = MigrationRunner::new(SchemaVersion::new(1, 0, 0));
    let mut plan = MigrationPlan::new("empty", SchemaVersion::new(1, 0, 0), SchemaVersion::new(1, 0, 0));
    let result = runner.execute(&mut plan, &[], None);
    assert_eq!(result, RunResult::Empty);
}

#[test]
fn test_rollback() {
    let mut runner = MigrationRunner::new(SchemaVersion::new(1, 0, 0));
    let mut plan = make_plan();
    runner.execute(&mut plan, &[100, 200, 50], None);
    let rolled_back = runner.rollback(&mut plan);
    assert_eq!(rolled_back, 3);
    assert_eq!(runner.current_version().to_string(), "1.0.0");
}

#[test]
fn test_rollback_skips_irreversible() {
    let mut runner = MigrationRunner::new(SchemaVersion::new(1, 0, 0));
    let mut plan = MigrationPlan::new("test", SchemaVersion::new(1, 0, 0), SchemaVersion::new(2, 0, 0));
    plan.add_step(MigrationStep::new("s1", "reversible", SchemaVersion::new(1, 1, 0)));
    plan.add_step(MigrationStep::new("s2", "irreversible", SchemaVersion::new(2, 0, 0)).irreversible());
    runner.execute(&mut plan, &[100, 200], None);
    let rolled_back = runner.rollback(&mut plan);
    assert_eq!(rolled_back, 1);
}

#[test]
fn test_runner_stats() {
    let mut runner = MigrationRunner::new(SchemaVersion::new(1, 0, 0));
    let mut plan = make_plan();
    runner.execute(&mut plan, &[100, 200, 50], None);
    assert_eq!(runner.plans_executed(), 1);
    assert_eq!(runner.steps_executed(), 3);
    assert_eq!(runner.steps_failed(), 0);
}

#[test]
fn test_version_advances() {
    let mut runner = MigrationRunner::new(SchemaVersion::new(1, 0, 0));
    let mut plan = make_plan();
    runner.execute(&mut plan, &[10, 20, 30], None);
    assert_eq!(runner.version_history_len(), 4);
}

#[test]
fn test_partial_failure_version() {
    let mut runner = MigrationRunner::new(SchemaVersion::new(1, 0, 0));
    let mut plan = make_plan();
    runner.execute(&mut plan, &[10, 20, 30], Some(2));
    assert_eq!(runner.current_version().to_string(), "1.2.0");
}

#[test]
fn missing_durations_default_to_zero_and_versions_render() {
    let mut runner = MigrationRunner::new(SchemaVersion::new(10, 0, 7));
    let mut plan = make_plan();
    runner.execute(&mut plan, &[5], None);
    assert_eq!(plan.total_duration_ms(), 5);
    assert_eq!(SchemaVersion::new(10, 0, 7).to_string(), "10.0.7");
    let mut t = VersionTracker::new(SchemaVersion::new(1, 0, 0));
    t.advance(SchemaVersion::new(1, 1, 0));
    t.rollback_to(5);
    assert_eq!(t.history_len(), 2);
    t.rollback_to(0);
    assert_eq!(*t.current(), SchemaVersion::new(1, 0, 0));
}

#[test]
fn test_plan_progress() {
    let mut plan = sample_plan();
    assert_eq!(plan.completed_count(), 0);
    plan.step_mut(0).unwrap().mark_completed(100);
    let progress = plan.completed_count() as f64 / plan.step_count() as f64;
    assert!((progress - 1.0 / 3.0).abs() < 0.01);
    plan.step_mut(1).unwrap().mark_completed(200);
    plan.step_mut(2).unwrap().mark_completed(50);
    assert_eq!(plan.completed_count(), plan.step_count());
    assert!(plan.is_complete());
}

#[test]
fn plan_test_empty_plan() {
    let plan = MigrationPlan::new("empty", SchemaVersion::new(1, 0, 0), SchemaVersion::new(1, 0, 0));
    assert!(!plan.is_complete());
    assert_eq!(plan.completed_count(), 0);
    assert_eq!(plan.step_count(), 0);
}
