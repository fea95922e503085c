//! Policy actions checked before sandbox operations, and the actions that
//! full-state runtime transitions require.

use vstd::prelude::*;

verus! {

/// An action a principal asks to perform on a sandbox.
#[derive(Debug, Clone, Copy, PartialEq, Eq, Structural)]
pub enum Action {
    Create,
    Run,
    Exec,
    Attach,
    Mount,
    Network,
    PortMap,
    SSH,
}

/// Pause, resume and other full-state transitions run the guest, so they
/// require `Run`.
pub const FULL_STATE_RUNTIME_POLICY_ACTION: Action = Action::Run;

/// Forking reads the full guest state of the source, which also requires
/// `Run` on it.
pub const FORK_SOURCE_POLICY_ACTION: Action = Action::Run;

/// The child of a fork is created and started.
pub const FORK_CHILD_POLICY_ACTIONS: [Action; 2] = [Action::Create, Action::Run];

} // verus!
