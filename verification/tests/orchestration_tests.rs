use agentkernel::orchestration::{
    after_activity, needs_definition, plan_program, resolve_program, settled_outcome, HistoryEvent,
    OrchestrationStatus, Program, RetryLimits, RuntimeActivity, RuntimeInput, StoreOp, TickPlan, ValueRef,
};

fn event(kind: &str) -> HistoryEvent {
    HistoryEvent { event_type: kind.to_string(), error: None, name: None, step: None }
}

fn named(kind: &str, name: &str) -> HistoryEvent {
    HistoryEvent { event_type: kind.to_string(), error: None, name: Some(name.to_string()), step: None }
}

fn failed(error: &str) -> HistoryEvent {
    HistoryEvent { event_type: "ActivityFailed".to_string(), error: Some(error.to_string()), name: None, step: Some(0) }
}

fn activity(name: &str, command: &[&str], limits: Option<(u32, &[&str])>) -> RuntimeActivity {
    RuntimeActivity {
        name: name.to_string(),
        command: command.iter().map(|c| c.to_string()).collect(),
        retry_policy: limits.map(|(max, markers)| RetryLimits {
            max_attempts: max,
            non_retryable_errors: markers.iter().map(|m| m.to_string()).collect(),
        }),
    }
}

fn empty_input() -> RuntimeInput {
    RuntimeInput { wait_for_event: None, activity: None, activities: None }
}

fn ops(plan: TickPlan) -> Vec<StoreOp> {
    match plan {
        TickPlan::Apply(ops) => ops,
        TickPlan::RunActivity { .. } => panic!("expected operations only"),
    }
}

fn is_update(op: &StoreOp, status: OrchestrationStatus) -> bool {
    matches!(op, StoreOp::Update { status: s, .. } if *s == status)
}

#[test]
fn test_runtime_tick_auto_completes_orchestration() {
    // Input {"hello": "world"} names no program: complete with the input.
    let input = empty_input();
    assert!(needs_definition(&input));
    let program = resolve_program(Ok(input), None).unwrap();
    let plan = ops(plan_program(OrchestrationStatus::Pending, &vec![], &program));
    assert_eq!(plan.len(), 2);
    assert!(matches!(plan[0], StoreOp::AppendCompleted(ValueRef::Input)));
    assert!(matches!(plan[1], StoreOp::Update { status: OrchestrationStatus::Completed, output: Some(ValueRef::Input), error: None }));
}

#[test]
fn test_runtime_tick_wait_for_event() {
    let program = Program { wait_for_event: Some("approval".to_string()), activities: vec![] };
    let first = ops(plan_program(OrchestrationStatus::Pending, &vec![], &program));
    assert_eq!(first.len(), 1);
    assert!(is_update(&first[0], OrchestrationStatus::Running));

    let history = vec![event("OrchestratorStarted"), named("EventRaised", "other"), named("EventRaised", "approval")];
    let second = ops(plan_program(OrchestrationStatus::Running, &history, &program));
    assert_eq!(second.len(), 3);
    assert!(matches!(&second[0], StoreOp::AppendEventConsumed(n) if n == "approval"));
    assert!(matches!(second[1], StoreOp::AppendCompleted(ValueRef::EventData(2))));
    assert!(matches!(second[2], StoreOp::Update { status: OrchestrationStatus::Completed, output: Some(ValueRef::EventData(2)), .. }));

    let consumed = vec![named("EventRaised", "approval"), named("EventConsumed", "approval")];
    assert!(ops(plan_program(OrchestrationStatus::Running, &consumed, &program)).is_empty());
}

#[test]
fn test_runtime_tick_uses_definition_wait_for_event() {
    let definition = RuntimeInput { wait_for_event: Some("approval".to_string()), activity: None, activities: None };
    let program = resolve_program(Ok(empty_input()), Some(Ok(definition))).unwrap();
    assert_eq!(program.wait_for_event.as_deref(), Some("approval"));
    let plan = ops(plan_program(OrchestrationStatus::Pending, &vec![], &program));
    assert!(is_update(&plan[0], OrchestrationStatus::Running));
}

#[test]
fn unreadable_programs_fail() {
    let err = resolve_program(Err("expected a map".to_string()), None).unwrap_err();
    assert_eq!(err, "invalid orchestration input: expected a map");
    let err = resolve_program(Ok(empty_input()), Some(Err("bad".to_string()))).unwrap_err();
    assert_eq!(err, "invalid orchestration definition: bad");
    let own = RuntimeInput { wait_for_event: Some("x".to_string()), activity: None, activities: None };
    assert!(resolve_program(Ok(own), Some(Err("bad".to_string()))).is_ok());
}

#[test]
fn settled_history_is_respected() {
    let done = vec![event("OrchestratorStarted"), event("OrchestratorCompleted")];
    let ops = settled_outcome(OrchestrationStatus::Running, &done).unwrap();
    assert!(matches!(ops[0], StoreOp::Update { status: OrchestrationStatus::Completed, output: Some(ValueRef::EventOutput(1)), .. }));
    assert!(settled_outcome(OrchestrationStatus::Completed, &done).unwrap().is_empty());

    let mut f = event("OrchestratorFailed");
    f.error = Some("boom".to_string());
    let failed_history = vec![event("OrchestratorFailed"), f];
    let ops = settled_outcome(OrchestrationStatus::Running, &failed_history).unwrap();
    assert!(matches!(&ops[0], StoreOp::Update { status: OrchestrationStatus::Failed, error: Some(e), .. } if e == "boom"));
    assert!(settled_outcome(OrchestrationStatus::Running, &vec![event("OrchestratorFailed")]).is_none());
}

#[test]
fn activities_run_in_order_and_retry() {
    let program = Program {
        wait_for_event: None,
        activities: vec![activity("a", &["echo", "1"], None), activity("b", &["echo", "2"], Some((2, &[])))],
    };
    match plan_program(OrchestrationStatus::Pending, &vec![], &program) {
        TickPlan::RunActivity { prelude, step, attempt, backoff_from, schedule } => {
            assert_eq!(prelude.len(), 1);
            assert_eq!((step, attempt, backoff_from, schedule), (0, 1, None, true));
        },
        _ => panic!("expected the first activity to run"),
    }
    let mut sched = event("ActivityScheduled");
    sched.step = Some(1);
    let history = vec![event("ActivityCompleted"), sched, failed("flaky")];
    match plan_program(OrchestrationStatus::Running, &history, &program) {
        TickPlan::RunActivity { prelude, step, attempt, backoff_from, schedule } => {
            assert!(prelude.is_empty());
            assert_eq!((step, attempt, backoff_from, schedule), (1, 2, Some(2), false));
        },
        _ => panic!("expected a retry of the second activity"),
    }
    let exhausted = vec![event("ActivityCompleted"), failed("one"), failed("two")];
    let out = ops(plan_program(OrchestrationStatus::Running, &exhausted, &program));
    assert!(matches!(&out[0], StoreOp::AppendFailed(e) if e == "two"));
    assert!(matches!(&out[1], StoreOp::Update { status: OrchestrationStatus::Failed, error: Some(e), .. } if e == "two"));

    let finished = vec![event("ActivityCompleted"), event("ActivityCompleted")];
    let out = ops(plan_program(OrchestrationStatus::Running, &finished, &program));
    assert!(matches!(out[0], StoreOp::AppendCompleted(ValueRef::EventOutput(1))));
}

#[test]
fn empty_commands_fail_the_orchestration() {
    let program = Program { wait_for_event: None, activities: vec![activity("a", &[], None)] };
    let out = ops(plan_program(OrchestrationStatus::Pending, &vec![], &program));
    assert_eq!(out.len(), 2);
    assert!(matches!(&out[0], StoreOp::AppendFailed(e) if e == "activity.command must not be empty"));
}

#[test]
fn activity_results_are_recorded() {
    let a = activity("build", &["make"], Some((3, &["fatal"])));
    let ok = after_activity(Ok("built".to_string()), 0, &a, 1);
    assert!(matches!(&ok[0], StoreOp::AppendActivityCompleted { step: 0, name, output } if name == "build" && output == "built"));
    assert!(is_update(&ok[1], OrchestrationStatus::Running));

    let retry = after_activity(Err("timeout".to_string()), 0, &a, 1);
    assert_eq!(retry.len(), 2);
    assert!(matches!(retry[0], StoreOp::AppendActivityFailed { retryable: true, attempt: 1, .. }));
    assert!(is_update(&retry[1], OrchestrationStatus::Running));

    let fatal = after_activity(Err("fatal: disk".to_string()), 0, &a, 1);
    assert_eq!(fatal.len(), 3);
    assert!(matches!(fatal[0], StoreOp::AppendActivityFailed { retryable: false, .. }));
    assert!(is_update(&fatal[2], OrchestrationStatus::Failed));

    let last = after_activity(Err("timeout".to_string()), 0, &a, 3);
    assert!(matches!(last[0], StoreOp::AppendActivityFailed { retryable: false, .. }));
}
