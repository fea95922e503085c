//! Recreating a sandbox through the API, from an exported configuration
//! (import) or from a snapshot (restore): the name the new sandbox gets,
//! the checks made before the sandbox manager creates it, the steps run once
//! it exists, and what a failed step does.

use vstd::prelude::*;
use crate::text::{trim_str, trimmed};

verus! {

broadcast use vstd::string::group_string_axioms;

/// What follows a failed step of a recreation.
#[derive(Debug, Clone, PartialEq, Eq)]
pub enum RecreateFailure {
    /// Answer with this status and message; the sandbox stays.
    Fail(u16, String),
    /// Remove the sandbox and answer with this status and message.
    RemoveAndFail(u16, String),
}

/// A string made of `prefix` followed by `detail`.
fn joined(prefix: &str, detail: &str) -> (r: String)
    ensures
        r@ == prefix@ + detail@,
{
    let mut s = String::from_str(prefix);
    s.append(detail);
    s
}

// ---------------------------------------------------------------------------
// Import
// ---------------------------------------------------------------------------

/// The name of an imported sandbox: the name in the request path, else the
/// name in the request body, else the name in the configuration, trimmed.
pub open spec fn import_name_of(path_name: Option<Seq<char>>, body_name: Option<Seq<char>>, config_name: Seq<char>) -> Seq<char> {
    trimmed(
        match path_name {
            Some(n) => n,
            None => match body_name {
                Some(n) => n,
                None => config_name,
            },
        },
    )
}

/// The name an imported sandbox gets.
pub fn import_name(path_name: Option<&str>, body_name: Option<&str>, config_name: &str) -> (r: String)
    ensures
        r@ == import_name_of(
            match path_name {
                Some(n) => Some(n@),
                None => None,
            },
            match body_name {
                Some(n) => Some(n@),
                None => None,
            },
            config_name@,
        ),
{
    let chosen = match path_name {
        Some(n) => n,
        None => match body_name {
            Some(n) => n,
            None => config_name,
        },
    };
    trim_str(chosen)
}

/// The message of an import whose configuration asks for managed bridge
/// networking on a backend that has none.
pub open spec fn bridge_unsupported_message() -> Seq<char> {
    "Managed bridge networking is supported only by Docker and Podman backends"@
}

/// Check an import's networking against the backend before anything is
/// created: a configuration with a managed network is refused with 422
/// unless the backend is Docker or Podman.
pub fn check_import_network(has_managed_network: bool, backend_is_docker_or_podman: bool) -> (r: Result<(), (u16, String)>)
    ensures
        r is Err <==> has_managed_network && !backend_is_docker_or_podman,
        r matches Err((status, message)) ==> status == 422 && message@ == bridge_unsupported_message(),
{
    if has_managed_network && !backend_is_docker_or_podman {
        let m = "Managed bridge networking is supported only by Docker and Podman backends";
        proof {
            reveal_strlit("Managed bridge networking is supported only by Docker and Podman backends");
        }
        Err((422, m.to_owned()))
    } else {
        Ok(())
    }
}

/// A step of an import, in the order they run.
#[derive(Debug, Clone, Copy, PartialEq, Eq, Structural)]
pub enum ImportStep {
    /// Create the sandbox from the configuration.
    Create,
    /// Record the owner of the sandbox.
    SetOwnerMetadata,
    /// Record the configuration's init script.
    SetInitScript,
    /// Record the configuration's managed network.
    SetManagedNetwork,
    /// Start the sandbox with the configuration's permissions.
    Start,
}

/// What an import consists of.
#[derive(Debug, Clone, Copy, PartialEq, Eq, Structural)]
pub struct ImportShape {
    /// Owners are recorded (multi-tenant deployments).
    pub owner_tracked: bool,
    /// The configuration has an init script.
    pub has_init_script: bool,
    /// The configuration has a managed network.
    pub has_managed_network: bool,
}

/// `step` when `c` holds, else nothing.
pub open spec fn import_step_when(c: bool, step: ImportStep) -> Seq<ImportStep> {
    if c {
        seq![step]
    } else {
        Seq::empty()
    }
}

/// The steps of an import.
pub open spec fn import_steps_of(sh: ImportShape) -> Seq<ImportStep> {
    seq![ImportStep::Create] + import_step_when(sh.owner_tracked, ImportStep::SetOwnerMetadata)
        + import_step_when(sh.has_init_script, ImportStep::SetInitScript) + import_step_when(
        sh.has_managed_network,
        ImportStep::SetManagedNetwork,
    ) + seq![ImportStep::Start]
}

/// The steps of an import, in order.
pub fn import_steps(sh: ImportShape) -> (r: Vec<ImportStep>)
    ensures
        r@ == import_steps_of(sh),
{
    let mut v: Vec<ImportStep> = Vec::new();
    v.push(ImportStep::Create);
    if sh.owner_tracked {
        v.push(ImportStep::SetOwnerMetadata);
    }
    if sh.has_init_script {
        v.push(ImportStep::SetInitScript);
    }
    if sh.has_managed_network {
        v.push(ImportStep::SetManagedNetwork);
    }
    v.push(ImportStep::Start);
    assert(v@ =~= import_steps_of(sh));
    v
}

/// The message of a failed import step: its prefix, then the error.
pub open spec fn import_failure_prefix(step: ImportStep) -> Seq<char> {
    match step {
        ImportStep::Create => "Failed to create sandbox from config: "@,
        ImportStep::SetOwnerMetadata => "Failed to persist imported sandbox ownership: "@,
        ImportStep::SetInitScript => "Failed to set init script: "@,
        ImportStep::SetManagedNetwork => "Failed to set managed network: "@,
        ImportStep::Start => "Failed to start sandbox from config: "@,
    }
}

/// Decide what follows a failed import step: every failure is answered
/// with 500 and the step's message; once the sandbox exists (every step
/// after `Create`) it is removed first.
pub fn import_step_failure(step: ImportStep, detail: &str) -> (r: RecreateFailure)
    ensures
        match step {
            ImportStep::Create => r matches RecreateFailure::Fail(s, m) && s == 500 && m@ == import_failure_prefix(step)
                + detail@,
            _ => r matches RecreateFailure::RemoveAndFail(s, m) && s == 500 && m@ == import_failure_prefix(step)
                + detail@,
        },
{
    match step {
        ImportStep::Create => {
            proof {
                reveal_strlit("Failed to create sandbox from config: ");
            }
            RecreateFailure::Fail(500, joined("Failed to create sandbox from config: ", detail))
        },
        ImportStep::SetOwnerMetadata => {
            proof {
                reveal_strlit("Failed to persist imported sandbox ownership: ");
            }
            RecreateFailure::RemoveAndFail(500, joined("Failed to persist imported sandbox ownership: ", detail))
        },
        ImportStep::SetInitScript => {
            proof {
                reveal_strlit("Failed to set init script: ");
            }
            RecreateFailure::RemoveAndFail(500, joined("Failed to set init script: ", detail))
        },
        ImportStep::SetManagedNetwork => {
            proof {
                reveal_strlit("Failed to set managed network: ");
            }
            RecreateFailure::RemoveAndFail(500, joined("Failed to set managed network: ", detail))
        },
        ImportStep::Start => {
            proof {
                reveal_strlit("Failed to start sandbox from config: ");
            }
            RecreateFailure::RemoveAndFail(500, joined("Failed to start sandbox from config: ", detail))
        },
    }
}

// ---------------------------------------------------------------------------
// Restore
// ---------------------------------------------------------------------------

/// The name of a restored sandbox: the name asked for, else the snapshot's
/// sandbox name followed by `-restored`.
pub open spec fn restore_name_of(as_name: Option<Seq<char>>, snapshot_sandbox: Seq<char>) -> Seq<char> {
    match as_name {
        Some(n) => n,
        None => snapshot_sandbox + "-restored"@,
    }
}

/// The name a restored sandbox gets.
pub fn restore_name(as_name: Option<&str>, snapshot_sandbox: &str) -> (r: String)
    ensures
        r@ == restore_name_of(
            match as_name {
                Some(n) => Some(n@),
                None => None,
            },
            snapshot_sandbox@,
        ),
{
    match as_name {
        Some(n) => n.to_owned(),
        None => {
            proof {
                reveal_strlit("-restored");
            }
            joined(snapshot_sandbox, "-restored")
        },
    }
}

/// The message answered when the snapshot does not exist (404).
pub fn snapshot_not_found_message(snapshot_name: &str) -> (r: String)
    ensures
        r@ == "Snapshot '"@ + snapshot_name@ + "' not found"@,
{
    let mut m = joined("Snapshot '", snapshot_name);
    m.append("' not found");
    m
}

/// The message answered when the restore name is refused (400).
pub fn invalid_restore_name_message(detail: &str) -> (r: String)
    ensures
        r@ == "Invalid restore name: "@ + detail@,
{
    joined("Invalid restore name: ", detail)
}

/// A step of a restore once the sandbox is created, in the order they run.
#[derive(Debug, Clone, Copy, PartialEq, Eq, Structural)]
pub enum RestoreStep {
    /// Record the owner of the sandbox.
    SetOwnerMetadata,
    /// Carry over the snapshot's working directory.
    SetWorkDir,
    /// Carry over the snapshot's configuration path.
    SetConfigPath,
    /// Point the sandbox at the snapshot kept by a remote backend.
    SetRemoteSnapshot,
}

/// The steps of a restore after the sandbox is created.
pub open spec fn restore_steps_of(owner_tracked: bool, has_remote_snapshot: bool) -> Seq<RestoreStep> {
    (if owner_tracked {
        seq![RestoreStep::SetOwnerMetadata]
    } else {
        Seq::empty()
    }) + seq![RestoreStep::SetWorkDir, RestoreStep::SetConfigPath] + (if has_remote_snapshot {
        seq![RestoreStep::SetRemoteSnapshot]
    } else {
        Seq::empty()
    })
}

/// The steps of a restore after the sandbox is created, in order.
pub fn restore_steps(owner_tracked: bool, has_remote_snapshot: bool) -> (r: Vec<RestoreStep>)
    ensures
        r@ == restore_steps_of(owner_tracked, has_remote_snapshot),
{
    let mut v: Vec<RestoreStep> = Vec::new();
    if owner_tracked {
        v.push(RestoreStep::SetOwnerMetadata);
    }
    v.push(RestoreStep::SetWorkDir);
    v.push(RestoreStep::SetConfigPath);
    if has_remote_snapshot {
        v.push(RestoreStep::SetRemoteSnapshot);
    }
    assert(v@ =~= restore_steps_of(owner_tracked, has_remote_snapshot));
    v
}

/// Decide what follows a failed restore step: a failure to record the owner
/// removes the restored sandbox and is answered with 500 and a message
/// naming it; any later failure is answered with 500 and the error alone,
/// and the sandbox stays.
pub fn restore_step_failure(step: RestoreStep, detail: &str) -> (r: RecreateFailure)
    ensures
        match step {
            RestoreStep::SetOwnerMetadata => r matches RecreateFailure::RemoveAndFail(s, m) && s == 500 && m@
                == "Failed to persist restored sandbox ownership: "@ + detail@,
            _ => r matches RecreateFailure::Fail(s, m) && s == 500 && m@ == detail@,
        },
{
    match step {
        RestoreStep::SetOwnerMetadata => RecreateFailure::RemoveAndFail(
            500,
            joined("Failed to persist restored sandbox ownership: ", detail),
        ),
        _ => RecreateFailure::Fail(500, detail.to_owned()),
    }
}

} // verus!
