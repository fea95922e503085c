//! Config-defined job schedules: validation of the configured schedules and
//! targets, the status reported for each job, and the outcome recorded for
//! each execution.

use vstd::prelude::*;
use crate::text::{push_dec_u64, dec_repr, str_eq, trim_str, trimmed, views};

verus! {

broadcast use vstd::string::group_string_axioms;

/// What a scheduled job runs.
#[derive(Debug, Clone)]
pub enum JobScheduleTarget {
    /// A command run in a sandbox.
    SandboxCommand { sandbox: String, command: Vec<String> },
    /// An orchestration started by name.
    Orchestration { name: String },
    /// A method called on a durable object.
    ObjectMethod { class: String, object_id: String, method: String },
}

/// Public status shape for `/schedules/configured`.
#[derive(Debug, Clone)]
pub struct JobScheduleStatus {
    pub id: String,
    pub enabled: bool,
    pub cron: String,
    pub target: String,
    pub status: String,
    pub last_run_at: Option<String>,
    pub last_error: Option<String>,
    pub next_run_at: Option<String>,
}

/// Result of a scheduler execution, including failures that were isolated
/// from the other jobs in the same daemon tick.
#[derive(Debug, Clone)]
pub struct JobExecution {
    pub id: String,
    pub status: String,
    pub output: Option<String>,
    pub error: Option<String>,
}

/// What the durable store remembers of a job's runs.
#[derive(Debug, Clone)]
pub struct ScheduledRunState {
    pub last_status: Option<String>,
    pub last_run_at: Option<String>,
    pub last_error: Option<String>,
    pub next_run_at: Option<String>,
}

/// Why a target or a schedule is refused, or a job is not found.
#[derive(Debug, Clone, PartialEq, Eq)]
pub enum ScheduleError {
    /// A sandbox command with no argument, or with a blank one.
    EmptyCommand,
    /// An orchestration target with a blank name.
    EmptyOrchestrationName,
    /// An object-method target with a blank class, object ID or method.
    IncompleteObjectMethod,
    /// A schedule whose ID is blank.
    EmptyId,
    /// A schedule whose ID an earlier schedule has.
    DuplicateId(String),
    /// A schedule whose target is refused.
    InvalidTarget(String),
    /// No schedule has the requested ID.
    NotFound(String),
}

/// The plain value of a `ScheduleError`: the same variants, with the IDs as
/// character sequences.
pub enum ScheduleErrorView {
    EmptyCommand,
    EmptyOrchestrationName,
    IncompleteObjectMethod,
    EmptyId,
    DuplicateId(Seq<char>),
    InvalidTarget(Seq<char>),
    NotFound(Seq<char>),
}

impl View for ScheduleError {
    type V = ScheduleErrorView;

    open spec fn view(&self) -> ScheduleErrorView {
        match self {
            ScheduleError::EmptyCommand => ScheduleErrorView::EmptyCommand,
            ScheduleError::EmptyOrchestrationName => ScheduleErrorView::EmptyOrchestrationName,
            ScheduleError::IncompleteObjectMethod => ScheduleErrorView::IncompleteObjectMethod,
            ScheduleError::EmptyId => ScheduleErrorView::EmptyId,
            ScheduleError::DuplicateId(id) => ScheduleErrorView::DuplicateId(id@),
            ScheduleError::InvalidTarget(id) => ScheduleErrorView::InvalidTarget(id@),
            ScheduleError::NotFound(id) => ScheduleErrorView::NotFound(id@),
        }
    }
}

/// The message of each error.
pub open spec fn schedule_error_message(e: ScheduleError) -> Seq<char> {
    match e {
        ScheduleError::EmptyCommand => "command must contain at least one non-empty argument"@,
        ScheduleError::EmptyOrchestrationName => "orchestration name must not be empty"@,
        ScheduleError::IncompleteObjectMethod => "object class, object_id, and method are required"@,
        ScheduleError::EmptyId => "schedule id must not be empty"@,
        ScheduleError::DuplicateId(id) => "schedule '"@ + id@ + "': duplicate schedule id"@,
        ScheduleError::InvalidTarget(id) => "schedule '"@ + id@ + "': invalid target"@,
        ScheduleError::NotFound(id) => "schedule '"@ + id@ + "' not found"@,
    }
}

impl ScheduleError {
    /// The message shown for the error.
    pub fn message(&self) -> (s: String)
        ensures
            s@ == schedule_error_message(*self),
    {
        match self {
            ScheduleError::EmptyCommand => String::from_str("command must contain at least one non-empty argument"),
            ScheduleError::EmptyOrchestrationName => String::from_str("orchestration name must not be empty"),
            ScheduleError::IncompleteObjectMethod => String::from_str("object class, object_id, and method are required"),
            ScheduleError::EmptyId => String::from_str("schedule id must not be empty"),
            ScheduleError::DuplicateId(id) => {
                let mut s = String::from_str("schedule '");
                s.append(id.as_str());
                s.append("': duplicate schedule id");
                s
            },
            ScheduleError::InvalidTarget(id) => {
                let mut s = String::from_str("schedule '");
                s.append(id.as_str());
                s.append("': invalid target");
                s
            },
            ScheduleError::NotFound(id) => {
                let mut s = String::from_str("schedule '");
                s.append(id.as_str());
                s.append("' not found");
                s
            },
        }
    }
}

/// Whether a text is empty once trimmed.
pub open spec fn blank(s: Seq<char>) -> bool {
    trimmed(s).len() == 0
}

/// Whether a trimmed text is empty.
fn is_blank(s: &str) -> (r: bool)
    ensures
        r == blank(s@),
{
    trim_str(s).as_str().unicode_len() == 0
}

/// The outcome of validating a target.
pub open spec fn target_outcome(t: JobScheduleTarget) -> Result<(), ScheduleError> {
    match t {
        JobScheduleTarget::SandboxCommand { command, .. } => {
            if command@.len() == 0 || exists|i: int| 0 <= i < command@.len() && blank(#[trigger] command@[i]@) {
                Err(ScheduleError::EmptyCommand)
            } else {
                Ok(())
            }
        },
        JobScheduleTarget::Orchestration { name } => {
            if blank(name@) {
                Err(ScheduleError::EmptyOrchestrationName)
            } else {
                Ok(())
            }
        },
        JobScheduleTarget::ObjectMethod { class, object_id, method } => {
            if blank(class@) || blank(object_id@) || blank(method@) {
                Err(ScheduleError::IncompleteObjectMethod)
            } else {
                Ok(())
            }
        },
    }
}

/// Check that a target names what it runs: a command with only non-blank
/// arguments, an orchestration name, or an object's class, ID and method.
pub fn validate_target(target: &JobScheduleTarget) -> (r: Result<(), ScheduleError>)
    ensures
        r == target_outcome(*target),
{
    match target {
        JobScheduleTarget::SandboxCommand { command, .. } => {
            let n = command.len();
            if n == 0 {
                return Err(ScheduleError::EmptyCommand);
            }
            for i in 0..n
                invariant
                    n == command@.len(),
                    *target matches JobScheduleTarget::SandboxCommand { command: c, .. } && c@ == command@,
                    forall|j: int| 0 <= j < i ==> !blank(#[trigger] command@[j]@),
            {
                if is_blank(command[i].as_str()) {
                    assert(blank(command@[i as int]@));
                    return Err(ScheduleError::EmptyCommand);
                }
            }
            Ok(())
        },
        JobScheduleTarget::Orchestration { name } => {
            if is_blank(name.as_str()) {
                Err(ScheduleError::EmptyOrchestrationName)
            } else {
                Ok(())
            }
        },
        JobScheduleTarget::ObjectMethod { class, object_id, method } => {
            if is_blank(class.as_str()) || is_blank(object_id.as_str()) || is_blank(method.as_str()) {
                Err(ScheduleError::IncompleteObjectMethod)
            } else {
                Ok(())
            }
        },
    }
}

/// The kind name of a target.
pub open spec fn target_kind_of(t: JobScheduleTarget) -> Seq<char> {
    match t {
        JobScheduleTarget::SandboxCommand { .. } => "sandbox_command"@,
        JobScheduleTarget::Orchestration { .. } => "orchestration"@,
        JobScheduleTarget::ObjectMethod { .. } => "object_method"@,
    }
}

/// The kind name reported for a target.
pub fn target_kind(target: &JobScheduleTarget) -> (r: &'static str)
    ensures
        r@ == target_kind_of(*target),
{
    match target {
        JobScheduleTarget::SandboxCommand { .. } => {
            let r = "sandbox_command";
            proof {
                reveal_strlit("sandbox_command");
            }
            r
        },
        JobScheduleTarget::Orchestration { .. } => {
            let r = "orchestration";
            proof {
                reveal_strlit("orchestration");
            }
            r
        },
        JobScheduleTarget::ObjectMethod { .. } => {
            let r = "object_method";
            proof {
                reveal_strlit("object_method");
            }
            r
        },
    }
}

/// The outcome of validating the configured schedules `(id, target)` in
/// order: the first schedule with a blank ID, an ID met before, or a
/// refused target stops validation; otherwise the trimmed IDs.
pub open spec fn schedules_outcome(s: Seq<(Seq<char>, JobScheduleTarget)>) -> Result<Seq<Seq<char>>, ScheduleErrorView>
    decreases s.len(),
{
    if s.len() == 0 {
        Ok(Seq::empty())
    } else {
        match schedules_outcome(s.drop_last()) {
            Err(e) => Err(e),
            Ok(ids) => {
                let id = trimmed(s.last().0);
                if id.len() == 0 {
                    Err(ScheduleErrorView::EmptyId)
                } else if ids.contains(id) {
                    Err(ScheduleErrorView::DuplicateId(id))
                } else if target_outcome(s.last().1) is Err {
                    Err(ScheduleErrorView::InvalidTarget(id))
                } else {
                    Ok(ids.push(id))
                }
            },
        }
    }
}

/// The plain values of the configured schedules.
pub open spec fn schedule_views(v: Seq<(String, JobScheduleTarget)>) -> Seq<(Seq<char>, JobScheduleTarget)> {
    v.map_values(|p: (String, JobScheduleTarget)| (p.0@, p.1))
}

/// Once a prefix of the schedules is refused, so is the whole list, with
/// the same error.
proof fn lemma_refusal_sticks(s: Seq<(Seq<char>, JobScheduleTarget)>, k: int)
    requires
        0 <= k <= s.len(),
        schedules_outcome(s.take(k)) is Err,
    ensures
        schedules_outcome(s) == schedules_outcome(s.take(k)),
    decreases s.len(),
{
    if k == s.len() {
        assert(s.take(k) =~= s);
    } else {
        assert(s.drop_last().take(k) =~= s.take(k));
        lemma_refusal_sticks(s.drop_last(), k);
    }
}

/// Whether a list of IDs holds `id`.
fn contains_id(ids: &Vec<String>, id: &str) -> (r: bool)
    ensures
        r == views(ids@).contains(id@),
{
    let n = ids.len();
    for i in 0..n
        invariant
            n == ids@.len(),
            forall|j: int| 0 <= j < i ==> views(ids@)[j] != id@,
    {
        if str_eq(ids[i].as_str(), id) {
            assert(views(ids@)[i as int] == id@);
            return true;
        }
    }
    false
}

/// Validate the configured schedules `(id, target)` in order, as the
/// scheduler does when it starts: every ID is trimmed and must be
/// non-blank and unique, and every target valid. Gives the trimmed IDs.
pub fn validate_schedules(schedules: &Vec<(String, JobScheduleTarget)>) -> (r: Result<Vec<String>, ScheduleError>)
    ensures
        match r {
            Ok(ids) => schedules_outcome(schedule_views(schedules@)) == Ok::<Seq<Seq<char>>, ScheduleErrorView>(views(ids@)),
            Err(e) => schedules_outcome(schedule_views(schedules@)) == Err::<Seq<Seq<char>>, ScheduleErrorView>(e@),
        },
{
    let ghost sv = schedule_views(schedules@);
    let mut ids: Vec<String> = Vec::new();
    let n = schedules.len();
    assert(sv.take(0) =~= Seq::<(Seq<char>, JobScheduleTarget)>::empty());
    assert(views(ids@) =~= Seq::<Seq<char>>::empty());
    for i in 0..n
        invariant
            n == schedules@.len(),
            sv == schedule_views(schedules@),
            schedules_outcome(sv.take(i as int)) == Ok::<Seq<Seq<char>>, ScheduleErrorView>(views(ids@)),
    {
        assert(sv.take(i + 1).drop_last() =~= sv.take(i as int));
        assert(sv.take(i + 1).last() == (schedules@[i as int].0@, schedules@[i as int].1));
        let id = trim_str(schedules[i].0.as_str());
        if id.as_str().unicode_len() == 0 {
            proof {
                lemma_refusal_sticks(sv, i + 1);
            }
            return Err(ScheduleError::EmptyId);
        }
        if contains_id(&ids, id.as_str()) {
            proof {
                lemma_refusal_sticks(sv, i + 1);
            }
            return Err(ScheduleError::DuplicateId(id));
        }
        if validate_target(&schedules[i].1).is_err() {
            proof {
                lemma_refusal_sticks(sv, i + 1);
            }
            return Err(ScheduleError::InvalidTarget(id));
        }
        let ghost before = ids@;
        ids.push(id);
        assert(views(ids@) =~= views(before).push(trimmed(schedules@[i as int].0@)));
    }
    assert(sv.take(n as int) =~= sv);
    Ok(ids)
}

/// The status reported for a job: its configuration, what the store
/// remembers of its runs, and, when enabled, the next run the store
/// planned or else the next cron match.
pub open spec fn job_status_of(
    id: Seq<char>,
    enabled: bool,
    cron: Seq<char>,
    target: JobScheduleTarget,
    state: Option<ScheduledRunState>,
    next_match: Option<String>,
    s: JobScheduleStatus,
) -> bool {
    &&& s.id@ == id
    &&& s.enabled == enabled
    &&& s.cron@ == cron
    &&& s.target@ == target_kind_of(target)
    &&& s.status@ == (if !enabled {
        "disabled"@
    } else {
        match state {
            Some(st) => match st.last_status {
                Some(x) => x@,
                None => "idle"@,
            },
            None => "idle"@,
        }
    })
    &&& s.last_run_at == (match state {
        Some(st) => st.last_run_at,
        None => None,
    })
    &&& s.last_error == (match state {
        Some(st) => st.last_error,
        None => None,
    })
    &&& s.next_run_at == (if !enabled {
        None
    } else {
        match state {
            Some(st) => match st.next_run_at {
                Some(x) => Some(x),
                None => next_match,
            },
            None => next_match,
        }
    })
}

/// A job's reported last run and last error are those of its stored run
/// state, whether or not the job is enabled, and none without a state.
pub proof fn lemma_job_status_reports_stored_runs(
    id: Seq<char>,
    enabled: bool,
    cron: Seq<char>,
    target: JobScheduleTarget,
    state: Option<ScheduledRunState>,
    next_match: Option<String>,
    s: JobScheduleStatus,
)
    requires
        job_status_of(id, enabled, cron, target, state, next_match, s),
    ensures
        state matches Some(st) ==> s.last_run_at == st.last_run_at && s.last_error == st.last_error,
        state is None ==> s.last_run_at is None && s.last_error is None,
{
}

/// Enabling or disabling a job changes only its status and next run: a
/// disabled job reports `disabled` and no next run, and the rest of its
/// report, its last run and last error included, is what it is enabled.
pub proof fn lemma_disabling_keeps_run_history(
    id: Seq<char>,
    cron: Seq<char>,
    target: JobScheduleTarget,
    state: Option<ScheduledRunState>,
    next_match: Option<String>,
    on: JobScheduleStatus,
    off: JobScheduleStatus,
)
    requires
        job_status_of(id, true, cron, target, state, next_match, on),
        job_status_of(id, false, cron, target, state, next_match, off),
    ensures
        off.status@ == "disabled"@,
        off.next_run_at is None,
        on.last_run_at == off.last_run_at,
        on.last_error == off.last_error,
        on.id@ == off.id@ && on.cron@ == off.cron@ && on.target@ == off.target@,
{
}

/// Copy an optional string.
fn copy_opt(o: &Option<String>) -> (r: Option<String>)
    ensures
        r == *o,
{
    match o {
        Some(s) => Some(s.clone()),
        None => None,
    }
}

/// Derive a job's status from its configuration, the stored state of its
/// runs, and the next time its cron expression matches (in UTC).
pub fn job_status(
    id: &str,
    enabled: bool,
    cron: &str,
    target: &JobScheduleTarget,
    state: Option<&ScheduledRunState>,
    next_match: Option<String>,
) -> (s: JobScheduleStatus)
    ensures
        job_status_of(id@, enabled, cron@, *target, match state {
            Some(st) => Some(*st),
            None => None,
        }, next_match, s),
{
    let next_run_at = if enabled {
        match state {
            Some(st) => match &st.next_run_at {
                Some(x) => Some(x.clone()),
                None => next_match,
            },
            None => next_match,
        }
    } else {
        None
    };
    let status = if !enabled {
        String::from_str("disabled")
    } else {
        match state {
            Some(st) => match &st.last_status {
                Some(x) => x.clone(),
                None => String::from_str("idle"),
            },
            None => String::from_str("idle"),
        }
    };
    let (last_run_at, last_error) = match state {
        Some(st) => (copy_opt(&st.last_run_at), copy_opt(&st.last_error)),
        None => (None, None),
    };
    JobScheduleStatus {
        id: id.to_owned(),
        enabled,
        cron: cron.to_owned(),
        target: target_kind(target).to_owned(),
        status,
        last_run_at,
        last_error,
        next_run_at,
    }
}

/// The hard upper bound of one job's run, in seconds.
pub const JOB_TIMEOUT_SECONDS: u64 = 300;

/// The record of a finished run: `success` with the output, or `failed`
/// with the error.
pub fn execution_of(id: &str, result: Result<String, String>) -> (e: JobExecution)
    ensures
        e.id@ == id@,
        match result {
            Ok(out) => e.status@ == "success"@ && e.output == Some(out) && e.error is None,
            Err(err) => e.status@ == "failed"@ && e.output is None && e.error == Some(err),
        },
{
    match result {
        Ok(out) => JobExecution { id: id.to_owned(), status: String::from_str("success"), output: Some(out), error: None },
        Err(err) => JobExecution { id: id.to_owned(), status: String::from_str("failed"), output: None, error: Some(err) },
    }
}

/// The record of a run stopped at the timeout.
pub fn timed_out_execution(id: &str) -> (e: JobExecution)
    ensures
        e.id@ == id@,
        e.status@ == "failed"@,
        e.output is None,
        e.error matches Some(m) && m@ == "job exceeded "@ + dec_repr(JOB_TIMEOUT_SECONDS as nat) + " seconds"@,
{
    let mut m = String::from_str("job exceeded ");
    push_dec_u64(&mut m, JOB_TIMEOUT_SECONDS);
    m.append(" seconds");
    JobExecution { id: id.to_owned(), status: String::from_str("failed"), output: None, error: Some(m) }
}

/// Whether a run is recorded as a success.
pub fn execution_succeeded(e: &JobExecution) -> (r: bool)
    ensures
        r == (e.status@ == "success"@),
{
    str_eq(e.status.as_str(), "success")
}

/// The UTC minute a Unix timestamp falls in (`div_euclid(60)`).
pub fn minute_of(timestamp: i64) -> (m: i64)
    ensures
        m == timestamp / 60,
        m * 60 <= timestamp < m * 60 + 60,
{
    timestamp.checked_div_euclid(60).unwrap()
}

/// The Unix timestamp at which a minute starts, saturating at the bounds
/// of `i64`.
pub fn minute_start_seconds(minute: i64) -> (t: i64)
    ensures
        i64::MIN <= minute * 60 <= i64::MAX ==> t == minute * 60,
        minute * 60 > i64::MAX ==> t == i64::MAX,
        minute * 60 < i64::MIN ==> t == i64::MIN,
{
    match minute.checked_mul(60) {
        Some(t) => t,
        None => if minute > 0 {
            i64::MAX
        } else {
            i64::MIN
        },
    }
}

} // verus!
