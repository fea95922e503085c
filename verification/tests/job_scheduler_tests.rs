use agentkernel::job_scheduler::{
    execution_of, execution_succeeded, job_status, minute_of, minute_start_seconds, target_kind,
    timed_out_execution, validate_schedules, validate_target, JobScheduleTarget, ScheduleError,
    ScheduledRunState,
};

fn command(sandbox: &str, parts: &[&str]) -> JobScheduleTarget {
    JobScheduleTarget::SandboxCommand {
        sandbox: sandbox.to_string(),
        command: parts.iter().map(|p| p.to_string()).collect(),
    }
}

fn orchestration(name: &str) -> JobScheduleTarget {
    JobScheduleTarget::Orchestration { name: name.to_string() }
}

fn object(class: &str, id: &str, method: &str) -> JobScheduleTarget {
    JobScheduleTarget::ObjectMethod { class: class.to_string(), object_id: id.to_string(), method: method.to_string() }
}

#[test]
fn targets_must_name_what_they_run() {
    assert_eq!(validate_target(&command("worker", &["echo", "ok"])), Ok(()));
    assert_eq!(validate_target(&command("worker", &[])), Err(ScheduleError::EmptyCommand));
    assert_eq!(validate_target(&command("worker", &["echo", " \t"])), Err(ScheduleError::EmptyCommand));
    assert_eq!(validate_target(&orchestration("nightly")), Ok(()));
    assert_eq!(validate_target(&orchestration("  ")), Err(ScheduleError::EmptyOrchestrationName));
    assert_eq!(validate_target(&object("Counter", "c1", "inc")), Ok(()));
    assert_eq!(validate_target(&object("Counter", "", "inc")), Err(ScheduleError::IncompleteObjectMethod));
    assert_eq!(validate_target(&object("Counter", "c1", "\u{3000}")), Err(ScheduleError::IncompleteObjectMethod));
    assert_eq!(
        ScheduleError::EmptyCommand.message(),
        "command must contain at least one non-empty argument"
    );
    assert_eq!(ScheduleError::EmptyOrchestrationName.message(), "orchestration name must not be empty");
    assert_eq!(
        ScheduleError::IncompleteObjectMethod.message(),
        "object class, object_id, and method are required"
    );
}

#[test]
fn target_kinds() {
    assert_eq!(target_kind(&command("w", &["x"])), "sandbox_command");
    assert_eq!(target_kind(&orchestration("n")), "orchestration");
    assert_eq!(target_kind(&object("a", "b", "c")), "object_method");
}

#[test]
fn schedule_ids_are_trimmed_and_unique() {
    let ok = vec![(" hourly ".to_string(), orchestration("h")), ("flat".to_string(), command("w", &["echo"]))];
    assert_eq!(validate_schedules(&ok), Ok(vec!["hourly".to_string(), "flat".to_string()]));

    let blank = vec![("a".to_string(), orchestration("h")), ("  ".to_string(), orchestration("h"))];
    let err = validate_schedules(&blank).unwrap_err();
    assert_eq!(err, ScheduleError::EmptyId);
    assert_eq!(err.message(), "schedule id must not be empty");

    let dup = vec![("a".to_string(), orchestration("h")), ("a ".to_string(), orchestration("h"))];
    let err = validate_schedules(&dup).unwrap_err();
    assert_eq!(err, ScheduleError::DuplicateId("a".to_string()));
    assert_eq!(err.message(), "schedule 'a': duplicate schedule id");

    let bad = vec![("broken".to_string(), command("w", &[]))];
    let err = validate_schedules(&bad).unwrap_err();
    assert_eq!(err.message(), "schedule 'broken': invalid target");
    assert!(validate_schedules(&vec![]).unwrap().is_empty());
    assert_eq!(ScheduleError::NotFound("x".to_string()).message(), "schedule 'x' not found");
}

#[test]
fn status_prefers_stored_state() {
    let target = orchestration("hourly");
    let fresh = job_status("hourly", true, "0 * * * *", &target, None, Some("2026-08-23T13:00:00+00:00".to_string()));
    assert_eq!(fresh.status, "idle");
    assert_eq!(fresh.target, "orchestration");
    assert_eq!(fresh.next_run_at.as_deref(), Some("2026-08-23T13:00:00+00:00"));
    assert!(fresh.last_run_at.is_none());

    let state = ScheduledRunState {
        last_status: Some("failed".to_string()),
        last_run_at: Some("2026-08-23T12:00:00+00:00".to_string()),
        last_error: Some("boom".to_string()),
        next_run_at: Some("2026-08-23T14:00:00+00:00".to_string()),
    };
    let seen = job_status("hourly", true, "0 * * * *", &target, Some(&state), Some("x".to_string()));
    assert_eq!(seen.status, "failed");
    assert_eq!(seen.last_error.as_deref(), Some("boom"));
    assert_eq!(seen.next_run_at.as_deref(), Some("2026-08-23T14:00:00+00:00"));

    let off = job_status("hourly", false, "0 * * * *", &target, Some(&state), Some("x".to_string()));
    assert_eq!(off.status, "disabled");
    assert!(off.next_run_at.is_none());
    assert_eq!(off.last_run_at.as_deref(), Some("2026-08-23T12:00:00+00:00"));
    assert!(!off.enabled);
}

#[test]
fn executions_record_outcomes() {
    let ok = execution_of("job", Ok("done".to_string()));
    assert_eq!(ok.status, "success");
    assert_eq!(ok.output.as_deref(), Some("done"));
    assert!(execution_succeeded(&ok));
    let failed = execution_of("job", Err("bad".to_string()));
    assert_eq!(failed.status, "failed");
    assert_eq!(failed.error.as_deref(), Some("bad"));
    assert!(!execution_succeeded(&failed));
    let late = timed_out_execution("job");
    assert_eq!(late.status, "failed");
    assert_eq!(late.error.as_deref(), Some("job exceeded 300 seconds"));
    assert_eq!(late.id, "job");
}

#[test]
fn minutes_are_floored() {
    assert_eq!(minute_of(0), 0);
    assert_eq!(minute_of(59), 0);
    assert_eq!(minute_of(60), 1);
    assert_eq!(minute_of(-1), -1);
    assert_eq!(minute_of(-60), -1);
    assert_eq!(minute_of(-61), -2);
    assert_eq!(minute_of(1_787_488_803), 29_791_480);
    assert_eq!(minute_start_seconds(29_791_480), 1_787_488_800);
    assert_eq!(minute_start_seconds(i64::MAX), i64::MAX);
    assert_eq!(minute_start_seconds(i64::MIN), i64::MIN);
}
