use agentkernel::exec_request::{check_exec_request, exec_env, exec_user};

#[test]
fn command_requests_are_checked() {
    assert_eq!(check_exec_request(true, false, true), Err((400, "command is required".to_string())));
    assert_eq!(
        check_exec_request(false, true, false),
        Err((
            403,
            "sudo execution is disabled for HTTP API. Set [api].allow_sudo_exec = true to enable it".to_string()
        ))
    );
    assert_eq!(check_exec_request(false, true, true), Ok(()));
    assert_eq!(check_exec_request(false, false, false), Ok(()));
}

#[test]
fn sudo_runs_as_root() {
    assert_eq!(exec_user(true).as_deref(), Some("root"));
    assert_eq!(exec_user(false), None);
}

#[test]
fn trace_context_comes_from_the_request() {
    let env = vec![
        "A=1".to_string(),
        "TRACEPARENT=forged".to_string(),
        "B=2".to_string(),
        "TRACESTATE=forged".to_string(),
    ];
    assert_eq!(
        exec_env(env.clone(), Some("00-abc-def-01"), Some("k=v")),
        vec!["A=1", "B=2", "TRACEPARENT=00-abc-def-01", "TRACESTATE=k=v"]
    );
    assert_eq!(exec_env(env, None, None), vec!["A=1", "B=2"]);
    assert_eq!(exec_env(Vec::new(), Some("tp"), None), vec!["TRACEPARENT=tp"]);
}
