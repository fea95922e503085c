use agentkernel::run_stream::{
    after_run_stage, command_events, run_stream_opening, run_stream_profile, run_stream_sandbox_name, CommandResult,
    RunStage, StreamEvent,
};

#[test]
fn run_stream_needs_a_command() {
    assert_eq!(
        run_stream_opening(vec![], true, "t".to_string()),
        StreamEvent::Error { message: "command is required".to_string() }
    );
    assert_eq!(
        run_stream_opening(vec!["ls".to_string()], false, "2024-01-01T00:00:00+00:00".to_string()),
        StreamEvent::Started {
            command: vec!["ls".to_string()],
            fast: false,
            timestamp: "2024-01-01T00:00:00+00:00".to_string()
        }
    );
}

#[test]
fn command_results_become_events() {
    assert_eq!(
        command_events(CommandResult::Succeeded("hi\n".to_string())),
        vec![
            StreamEvent::Output { data: "hi\n".to_string() },
            StreamEvent::Done { exit_code: 0, success: true, output: None }
        ]
    );
    assert_eq!(
        command_events(CommandResult::Failed(2, "oops".to_string())),
        vec![StreamEvent::Done { exit_code: 2, success: false, output: Some("oops".to_string()) }]
    );
    assert_eq!(
        command_events(CommandResult::Unavailable("pool empty".to_string())),
        vec![StreamEvent::Error { message: "pool empty".to_string() }]
    );
}

#[test]
fn run_stream_defaults() {
    assert_eq!(run_stream_profile(None), "moderate");
    assert_eq!(run_stream_profile(Some("restrictive")), "restrictive");
    assert_eq!(run_stream_sandbox_name("0123abcd-ef01-2345-6789-abcdef012345"), "api-stream-0123abcd");
}

#[test]
fn run_stream_stages() {
    let created = after_run_stage(RunStage::Create, Ok(()), "api-stream-1");
    assert!(created.go_on && !created.remove_sandbox);
    assert_eq!(
        created.events,
        vec![StreamEvent::Progress { stage: "sandbox_created".to_string(), sandbox: Some("api-stream-1".to_string()) }]
    );
    let started = after_run_stage(RunStage::Start, Ok(()), "api-stream-1");
    assert!(started.go_on && !started.remove_sandbox);
    assert_eq!(started.events, vec![StreamEvent::Progress { stage: "sandbox_started".to_string(), sandbox: None }]);
    let create_failed = after_run_stage(RunStage::Create, Err("no image".to_string()), "api-stream-1");
    assert!(!create_failed.go_on && !create_failed.remove_sandbox);
    assert_eq!(create_failed.events, vec![StreamEvent::Error { message: "no image".to_string() }]);
    let start_failed = after_run_stage(RunStage::Start, Err("boot".to_string()), "api-stream-1");
    assert!(!start_failed.go_on && start_failed.remove_sandbox);
    assert_eq!(start_failed.events, vec![StreamEvent::Error { message: "boot".to_string() }]);
}
