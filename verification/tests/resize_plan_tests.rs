use agentkernel::resize_plan::{resize_next, resize_resources, resize_start, ResizeAction, ResizeStep};

/// Run a resize against a manager whose calls all succeed; `in_place` is
/// what the in-place resize reports.
fn calls(was_running: bool, in_place: bool) -> Vec<ResizeStep> {
    let mut made = Vec::new();
    let mut step = resize_start(was_running);
    loop {
        made.push(step);
        let result = if step == ResizeStep::ResizeInPlace { Ok(in_place) } else { Ok(true) };
        match resize_next(step, &result) {
            ResizeAction::Run(next) => step = next,
            ResizeAction::Done => return made,
            ResizeAction::Fail(status, message) => panic!("unexpected failure {} {}", status, message),
        }
    }
}

#[test]
fn resize_keeps_unrequested_resources() {
    assert_eq!(resize_resources(Some(4), None, 1, 512), (4, 512));
    assert_eq!(resize_resources(None, Some(2048), 2, 512), (2, 2048));
    assert_eq!(resize_resources(None, None, 2, 1024), (2, 1024));
}

#[test]
fn stopped_sandbox_only_updates_resources() {
    assert_eq!(calls(false, false), vec![ResizeStep::UpdateResources]);
}

#[test]
fn running_sandbox_resized_in_place() {
    assert_eq!(calls(true, true), vec![ResizeStep::ResizeInPlace]);
}

#[test]
fn running_sandbox_recreated_when_backend_cannot_resize() {
    assert_eq!(
        calls(true, false),
        vec![
            ResizeStep::ResizeInPlace,
            ResizeStep::Stop,
            ResizeStep::Remove,
            ResizeStep::Recreate,
            ResizeStep::PreserveIdentity,
            ResizeStep::PreserveOwnership,
            ResizeStep::RestoreMetadata,
            ResizeStep::Restart,
        ]
    );
}

#[test]
fn failed_calls_answer_with_their_error() {
    assert_eq!(
        resize_next(ResizeStep::Stop, &Err("busy".to_string())),
        ResizeAction::Fail(500, "Failed to stop sandbox: busy".to_string())
    );
    assert_eq!(
        resize_next(ResizeStep::Restart, &Err("no kvm".to_string())),
        ResizeAction::Fail(500, "Resized but failed to restart: no kvm".to_string())
    );
    assert_eq!(
        resize_next(ResizeStep::UpdateResources, &Err("io".to_string())),
        ResizeAction::Fail(500, "Failed to update sandbox resources: io".to_string())
    );
    assert_eq!(
        resize_next(ResizeStep::RestoreMetadata, &Err("ignored".to_string())),
        ResizeAction::Run(ResizeStep::Restart)
    );
}
