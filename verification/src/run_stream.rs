//! Running a command with streamed progress: the events sent to the client
//! and the order they come in. The caller performs each step (creating,
//! starting and running in a throwaway sandbox, or in a pooled container)
//! and hands its result back; these functions say what is sent next and
//! whether the run goes on.

use vstd::prelude::*;

verus! {

broadcast use vstd::string::group_string_axioms;

/// An event of a streamed run.
#[derive(Debug, Clone, PartialEq, Eq)]
pub enum StreamEvent {
    /// The run began (`started`).
    Started { command: Vec<String>, fast: bool, timestamp: String },
    /// A stage of the sandbox's life was reached (`progress`); the sandbox
    /// is named when it was just created.
    Progress { stage: String, sandbox: Option<String> },
    /// What the command wrote on its standard output (`output`).
    Output { data: String },
    /// The command ended (`done`); a failed command carries its output.
    Done { exit_code: i32, success: bool, output: Option<String> },
    /// The run could not go on (`error`).
    Error { message: String },
}

/// How a command ended.
#[derive(Debug, Clone, PartialEq, Eq)]
pub enum CommandResult {
    /// It succeeded with this output.
    Succeeded(String),
    /// It ran and exited with a nonzero code, with this output.
    Failed(i32, String),
    /// It could not be run; the error's text.
    Unavailable(String),
}

/// The first event of a run: an error when there is no command, else the
/// `started` event.
pub fn run_stream_opening(command: Vec<String>, fast: bool, timestamp: String) -> (r: StreamEvent)
    ensures
        command@.len() == 0 ==> (r matches StreamEvent::Error { message } && message@ == "command is required"@),
        command@.len() > 0 ==> r == (StreamEvent::Started { command, fast, timestamp }),
{
    if command.len() == 0 {
        proof {
            reveal_strlit("command is required");
        }
        StreamEvent::Error { message: "command is required".to_owned() }
    } else {
        StreamEvent::Started { command, fast, timestamp }
    }
}

/// The events that report how the command ended: its output and a
/// successful `done`; a `done` with the exit code and the output of a
/// failed command; or an error when it could not be run.
pub open spec fn command_events_of(result: CommandResult) -> Seq<StreamEvent> {
    match result {
        CommandResult::Succeeded(out) => seq![
            StreamEvent::Output { data: out },
            StreamEvent::Done { exit_code: 0, success: true, output: None },
        ],
        CommandResult::Failed(code, out) => seq![
            StreamEvent::Done { exit_code: code, success: false, output: Some(out) },
        ],
        CommandResult::Unavailable(message) => seq![StreamEvent::Error { message }],
    }
}

/// The events that report how the command ended.
pub fn command_events(result: CommandResult) -> (r: Vec<StreamEvent>)
    ensures
        r@ == command_events_of(result),
{
    let mut v: Vec<StreamEvent> = Vec::new();
    match result {
        CommandResult::Succeeded(out) => {
            v.push(StreamEvent::Output { data: out });
            v.push(StreamEvent::Done { exit_code: 0, success: true, output: None });
        },
        CommandResult::Failed(code, out) => {
            v.push(StreamEvent::Done { exit_code: code, success: false, output: Some(out) });
        },
        CommandResult::Unavailable(message) => {
            v.push(StreamEvent::Error { message });
        },
    }
    assert(v@ =~= command_events_of(result));
    v
}

/// The security profile of a run in a throwaway sandbox: the one asked
/// for, else `moderate`.
pub fn run_stream_profile(profile: Option<&str>) -> (r: &str)
    ensures
        r@ == match profile {
            Some(p) => p@,
            None => "moderate"@,
        },
{
    match profile {
        Some(p) => p,
        None => {
            proof {
                reveal_strlit("moderate");
            }
            "moderate"
        },
    }
}

/// The name of the throwaway sandbox of a run: `api-stream-` and the
/// first eight characters of a fresh UUID.
pub fn run_stream_sandbox_name(uuid: &str) -> (r: String)
    requires
        uuid@.len() >= 8,
    ensures
        r@ == "api-stream-"@ + uuid@.take(8),
{
    let mut s = String::from_str("api-stream-");
    s.append(uuid.substring_char(0, 8));
    proof {
        reveal_strlit("api-stream-");
    }
    s
}

/// A stage of a run in a throwaway sandbox, waiting for the result of its
/// step.
#[derive(Debug, Clone, Copy, PartialEq, Eq, Structural)]
pub enum RunStage {
    /// The sandbox is being created.
    Create,
    /// The sandbox is being started.
    Start,
}

/// What follows a stage: the events to send, whether the sandbox is to be
/// removed, and whether the run goes on to the next step.
#[derive(Debug, Clone, PartialEq, Eq)]
pub struct StageStep {
    pub events: Vec<StreamEvent>,
    pub remove_sandbox: bool,
    pub go_on: bool,
}

/// Decide what follows a stage of a run in a throwaway sandbox. A created
/// sandbox is announced with its name and the run goes on to start it; a
/// started one is announced and the run goes on to the command. A failure
/// sends the error and ends the run; a sandbox that failed to start is
/// removed first.
pub fn after_run_stage(stage: RunStage, result: Result<(), String>, sandbox: &str) -> (r: StageStep)
    ensures
        r.go_on == result is Ok,
        r.remove_sandbox == (result is Err && stage == RunStage::Start),
        result matches Err(e) ==> r.events@ == seq![StreamEvent::Error { message: e }],
        result is Ok && stage == RunStage::Create ==> r.events@.len() == 1 && (r.events@[0] matches StreamEvent::Progress {
            stage: s,
            sandbox: Some(n),
        } && s@ == "sandbox_created"@ && n@ == sandbox@),
        result is Ok && stage == RunStage::Start ==> r.events@.len() == 1 && (r.events@[0] matches StreamEvent::Progress {
            stage: s,
            sandbox: None,
        } && s@ == "sandbox_started"@),
{
    let mut events: Vec<StreamEvent> = Vec::new();
    match result {
        Err(e) => {
            events.push(StreamEvent::Error { message: e });
            let remove_sandbox = match stage {
                RunStage::Create => false,
                RunStage::Start => true,
            };
            StageStep { events, remove_sandbox, go_on: false }
        },
        Ok(()) => {
            match stage {
                RunStage::Create => {
                    proof {
                        reveal_strlit("sandbox_created");
                    }
                    events.push(
                        StreamEvent::Progress { stage: "sandbox_created".to_owned(), sandbox: Some(sandbox.to_owned()) },
                    );
                },
                RunStage::Start => {
                    proof {
                        reveal_strlit("sandbox_started");
                    }
                    events.push(StreamEvent::Progress { stage: "sandbox_started".to_owned(), sandbox: None });
                },
            }
            StageStep { events, remove_sandbox: false, go_on: true }
        },
    }
}

} // verus!
