//! Resizing a sandbox through the API: the resources it gets, and the
//! sequence of sandbox-manager calls that applies them. A stopped sandbox
//! has its resources updated; a running one is resized in place, or, where
//! the backend cannot do that, stopped, recreated with its metadata kept,
//! and started again.

use vstd::prelude::*;

verus! {

broadcast use vstd::string::group_string_axioms;

/// The resources after a resize: those requested, else the current ones.
pub fn resize_resources(vcpus: Option<u32>, memory_mb: Option<u64>, current_vcpus: u32, current_memory_mb: u64) -> (r: (u32, u64))
    ensures
        r.0 == (match vcpus {
            Some(v) => v,
            None => current_vcpus,
        }),
        r.1 == (match memory_mb {
            Some(m) => m,
            None => current_memory_mb,
        }),
{
    let v = match vcpus {
        Some(v) => v,
        None => current_vcpus,
    };
    let m = match memory_mb {
        Some(m) => m,
        None => current_memory_mb,
    };
    (v, m)
}

/// A call made to the sandbox manager while resizing.
#[derive(Debug, Clone, Copy, PartialEq, Eq, Structural)]
pub enum ResizeStep {
    /// Record the new resources of a stopped sandbox.
    UpdateResources,
    /// Resize the running sandbox in place.
    ResizeInPlace,
    /// Stop it, for a backend that cannot resize in place.
    Stop,
    /// Remove it.
    Remove,
    /// Create it again with the new resources, on its recorded backend.
    Recreate,
    /// Restore its UUID, creation and expiry times.
    PreserveIdentity,
    /// Restore its owner.
    PreserveOwnership,
    /// Restore the rest of its metadata (best effort).
    RestoreMetadata,
    /// Start it again.
    Restart,
}

/// What the resize does next.
#[derive(Debug, Clone, PartialEq, Eq)]
pub enum ResizeAction {
    /// Make this call.
    Run(ResizeStep),
    /// The resize is complete.
    Done,
    /// Answer with this status and message.
    Fail(u16, String),
}

/// The first call: update a stopped sandbox, resize a running one in
/// place.
pub open spec fn resize_start_of(was_running: bool) -> ResizeStep {
    if was_running {
        ResizeStep::ResizeInPlace
    } else {
        ResizeStep::UpdateResources
    }
}

/// The first call of a resize.
pub fn resize_start(was_running: bool) -> (r: ResizeStep)
    ensures
        r == resize_start_of(was_running),
{
    if was_running {
        ResizeStep::ResizeInPlace
    } else {
        ResizeStep::UpdateResources
    }
}

/// The message of a failed call.
pub open spec fn resize_failure_prefix(step: ResizeStep) -> Seq<char> {
    match step {
        ResizeStep::UpdateResources => "Failed to update sandbox resources: "@,
        ResizeStep::ResizeInPlace => "Failed to resize sandbox in-place: "@,
        ResizeStep::Stop => "Failed to stop sandbox: "@,
        ResizeStep::Remove => "Failed to remove sandbox: "@,
        ResizeStep::Recreate => "Failed to recreate sandbox: "@,
        ResizeStep::PreserveIdentity => "Failed to preserve sandbox identity metadata: "@,
        ResizeStep::PreserveOwnership => "Failed to preserve sandbox ownership metadata: "@,
        ResizeStep::RestoreMetadata => ""@,
        ResizeStep::Restart => "Resized but failed to restart: "@,
    }
}

/// The call after a successful one, or `None` when the resize is complete.
/// `in_place` tells, for the in-place resize, whether the backend did it.
pub open spec fn resize_after_of(step: ResizeStep, in_place: bool) -> Option<ResizeStep> {
    match step {
        ResizeStep::UpdateResources => None,
        ResizeStep::ResizeInPlace => if in_place {
            None
        } else {
            Some(ResizeStep::Stop)
        },
        ResizeStep::Stop => Some(ResizeStep::Remove),
        ResizeStep::Remove => Some(ResizeStep::Recreate),
        ResizeStep::Recreate => Some(ResizeStep::PreserveIdentity),
        ResizeStep::PreserveIdentity => Some(ResizeStep::PreserveOwnership),
        ResizeStep::PreserveOwnership => Some(ResizeStep::RestoreMetadata),
        ResizeStep::RestoreMetadata => Some(ResizeStep::Restart),
        ResizeStep::Restart => None,
    }
}

/// What follows a call, given its result: `Ok(in_place)` when it
/// succeeded (`in_place` matters only for the in-place resize: whether the
/// backend did it), or the error. Restoring the rest of the metadata is
/// best effort: its errors are passed over.
pub open spec fn resize_next_is(step: ResizeStep, result: Result<bool, Seq<char>>, r: ResizeAction) -> bool {
    match result {
        Err(e) if step != ResizeStep::RestoreMetadata => r matches ResizeAction::Fail(s, m) && s == 500
            && m@ == resize_failure_prefix(step) + e,
        _ => {
            let in_place = match result {
                Ok(b) => b,
                Err(_) => true,
            };
            match resize_after_of(step, in_place) {
                Some(next) => r == ResizeAction::Run(next),
                None => r == ResizeAction::Done,
            }
        },
    }
}

/// The view of a call's result.
pub open spec fn result_view(result: &Result<bool, String>) -> Result<bool, Seq<char>> {
    match result {
        Ok(b) => Ok(*b),
        Err(e) => Err(e@),
    }
}

/// Decide what follows a call of the resize.
pub fn resize_next(step: ResizeStep, result: &Result<bool, String>) -> (r: ResizeAction)
    ensures
        resize_next_is(step, result_view(result), r),
{
    let in_place = match result {
        Ok(b) => *b,
        Err(e) => {
            let prefix = match step {
                ResizeStep::UpdateResources => "Failed to update sandbox resources: ",
                ResizeStep::ResizeInPlace => "Failed to resize sandbox in-place: ",
                ResizeStep::Stop => "Failed to stop sandbox: ",
                ResizeStep::Remove => "Failed to remove sandbox: ",
                ResizeStep::Recreate => "Failed to recreate sandbox: ",
                ResizeStep::PreserveIdentity => "Failed to preserve sandbox identity metadata: ",
                ResizeStep::PreserveOwnership => "Failed to preserve sandbox ownership metadata: ",
                ResizeStep::RestoreMetadata => "",
                ResizeStep::Restart => "Resized but failed to restart: ",
            };
            if step != ResizeStep::RestoreMetadata {
                let mut m = String::from_str(prefix);
                m.append(e.as_str());
                return ResizeAction::Fail(500, m);
            }
            true
        },
    };
    match step {
        ResizeStep::UpdateResources => ResizeAction::Done,
        ResizeStep::ResizeInPlace => if in_place {
            ResizeAction::Done
        } else {
            ResizeAction::Run(ResizeStep::Stop)
        },
        ResizeStep::Stop => ResizeAction::Run(ResizeStep::Remove),
        ResizeStep::Remove => ResizeAction::Run(ResizeStep::Recreate),
        ResizeStep::Recreate => ResizeAction::Run(ResizeStep::PreserveIdentity),
        ResizeStep::PreserveIdentity => ResizeAction::Run(ResizeStep::PreserveOwnership),
        ResizeStep::PreserveOwnership => ResizeAction::Run(ResizeStep::RestoreMetadata),
        ResizeStep::RestoreMetadata => ResizeAction::Run(ResizeStep::Restart),
        ResizeStep::Restart => ResizeAction::Done,
    }
}

/// The calls made from `step` on when every call succeeds and the backend
/// cannot resize in place.
pub open spec fn calls_from(step: ResizeStep, fuel: nat) -> Seq<ResizeStep>
    decreases fuel,
{
    if fuel == 0 {
        seq![step]
    } else {
        match resize_after_of(step, false) {
            Some(next) => seq![step] + calls_from(next, (fuel - 1) as nat),
            None => seq![step],
        }
    }
}

/// A running sandbox whose backend cannot resize in place is stopped,
/// removed, recreated, given back its identity, owner and metadata, and
/// started again, in this order; a stopped one only has its resources
/// updated.
pub proof fn lemma_resize_sequences()
    ensures
        calls_from(resize_start_of(true), 8) == seq![
            ResizeStep::ResizeInPlace,
            ResizeStep::Stop,
            ResizeStep::Remove,
            ResizeStep::Recreate,
            ResizeStep::PreserveIdentity,
            ResizeStep::PreserveOwnership,
            ResizeStep::RestoreMetadata,
            ResizeStep::Restart,
        ],
        calls_from(resize_start_of(false), 8) == seq![ResizeStep::UpdateResources],
{
    reveal_with_fuel(calls_from, 9);
    assert(calls_from(resize_start_of(true), 8) =~= seq![
        ResizeStep::ResizeInPlace,
        ResizeStep::Stop,
        ResizeStep::Remove,
        ResizeStep::Recreate,
        ResizeStep::PreserveIdentity,
        ResizeStep::PreserveOwnership,
        ResizeStep::RestoreMetadata,
        ResizeStep::Restart,
    ]);
}

} // verus!
