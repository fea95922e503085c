//! The durable orchestration runtime: what one tick of the worker does with
//! an orchestration, given its status, its event history and its program
//! (an event to wait for, or a sequence of activities). Each decision is a
//! list of store operations; the worker performs them, runs the activity a
//! decision asks for, and reports its result back.

use vstd::prelude::*;
use crate::http_api::{is_retryable_error, retryable};
use crate::text::str_eq;

verus! {

broadcast use vstd::string::group_string_axioms;

/// The status of an orchestration.
#[derive(Debug, Clone, Copy, PartialEq, Eq, Structural)]
pub enum OrchestrationStatus {
    Pending,
    Running,
    Completed,
    Failed,
    Terminated,
}

/// An event of an orchestration's history, with the fields of its data
/// that the runtime reads.
#[derive(Debug, Clone)]
pub struct HistoryEvent {
    /// The event type (`ActivityCompleted`, `EventRaised`, ...).
    pub event_type: String,
    /// `data.error`, when it is a string.
    pub error: Option<String>,
    /// `data.name`, when it is a string.
    pub name: Option<String>,
    /// `data.step`, when it is an unsigned integer.
    pub step: Option<u64>,
}

/// The retry limits of an activity.
#[derive(Debug, Clone)]
pub struct RetryLimits {
    pub max_attempts: u32,
    pub non_retryable_errors: Vec<String>,
}

/// One activity of a program: a command run in a fresh sandbox.
#[derive(Debug, Clone)]
pub struct RuntimeActivity {
    pub name: String,
    pub command: Vec<String>,
    pub retry_policy: Option<RetryLimits>,
}

/// The program of an orchestration as its input (or its definition)
/// states it.
#[derive(Debug, Clone)]
pub struct RuntimeInput {
    pub wait_for_event: Option<String>,
    pub activity: Option<RuntimeActivity>,
    pub activities: Option<Vec<RuntimeActivity>>,
}

/// The program the runtime follows: an event to wait for, or activities to
/// run in order (both empty: complete with the input).
#[derive(Debug, Clone)]
pub struct Program {
    pub wait_for_event: Option<String>,
    pub activities: Vec<RuntimeActivity>,
}

/// A JSON value the worker reads from the store: the `output` of a history
/// event (`null` when absent), the `data` of a raised event (`null` when
/// absent), or the orchestration's input (`null` when absent).
#[derive(Debug, Clone, Copy, PartialEq, Eq, Structural)]
pub enum ValueRef {
    EventOutput(usize),
    EventData(usize),
    Input,
}

/// An operation on the orchestration store.
#[derive(Debug, Clone)]
#[allow(inconsistent_fields)]
pub enum StoreOp {
    /// Append `OrchestratorCompleted` with `{"output": ..}`.
    AppendCompleted(ValueRef),
    /// Append `OrchestratorFailed` with `{"error": ..}`.
    AppendFailed(String),
    /// Append `EventConsumed` with `{"name": ..}`.
    AppendEventConsumed(String),
    /// Append `ActivityCompleted` with the step, the activity's name and its
    /// output.
    AppendActivityCompleted { step: usize, name: String, output: String },
    /// Append `ActivityFailed` with the step, the activity's name, the
    /// error, the attempt and whether it will be retried.
    AppendActivityFailed { step: usize, name: String, error: String, attempt: u32, retryable: bool },
    /// Update the status, output and error of the orchestration.
    Update { status: OrchestrationStatus, output: Option<ValueRef>, error: Option<String> },
}

/// What a tick does.
#[derive(Debug, Clone)]
pub enum TickPlan {
    /// Perform these operations; the tick is over.
    Apply(Vec<StoreOp>),
    /// Perform `prelude`; then, unless the last failure (history index
    /// `backoff_from`) is too recent for the retry delay, append
    /// `ActivityScheduled` when `schedule`, append `ActivityStarted` with
    /// `step` and `attempt`, and run activity `step`.
    RunActivity { prelude: Vec<StoreOp>, step: usize, attempt: u32, backoff_from: Option<usize>, schedule: bool },
}

// ---------------------------------------------------------------------------
// Reading the history
// ---------------------------------------------------------------------------

/// `i` is the last index of `h` satisfying `p`.
pub open spec fn is_last_matching(h: Seq<HistoryEvent>, p: spec_fn(HistoryEvent) -> bool, i: int) -> bool {
    0 <= i < h.len() && p(h[i]) && forall|j: int| i < j < h.len() ==> !p(#[trigger] h[j])
}

/// The last index of `h` satisfying `p`, if any.
pub open spec fn last_matching(h: Seq<HistoryEvent>, p: spec_fn(HistoryEvent) -> bool) -> Option<int> {
    if exists|i: int| is_last_matching(h, p, i) {
        Some(choose|i: int| is_last_matching(h, p, i))
    } else {
        None
    }
}

/// The last matching index is unique.
proof fn lemma_last_matching_unique(h: Seq<HistoryEvent>, p: spec_fn(HistoryEvent) -> bool, i: int, k: int)
    requires
        is_last_matching(h, p, i),
        is_last_matching(h, p, k),
    ensures
        i == k,
{
    if i < k {
        assert(!p(h[k]));
    } else if k < i {
        assert(!p(h[i]));
    }
}

/// When no event satisfies `p`, there is no last one.
proof fn lemma_no_match(h: Seq<HistoryEvent>, p: spec_fn(HistoryEvent) -> bool)
    requires
        forall|j: int| 0 <= j < h.len() ==> !p(#[trigger] h[j]),
    ensures
        last_matching(h, p) is None,
{
    assert forall|i: int| !is_last_matching(h, p, i) by {
        if is_last_matching(h, p, i) {
            assert(p(h[i]));
        }
    }
}

/// The event type predicate.
pub open spec fn of_type(t: Seq<char>) -> spec_fn(HistoryEvent) -> bool {
    |e: HistoryEvent| e.event_type@ == t
}

/// An `OrchestratorFailed` event carrying a string error.
pub open spec fn failed_with_error() -> spec_fn(HistoryEvent) -> bool {
    |e: HistoryEvent| e.event_type@ == "OrchestratorFailed"@ && e.error is Some
}

/// An `EventRaised` event for the event `name`.
pub open spec fn raised_named(name: Seq<char>) -> spec_fn(HistoryEvent) -> bool {
    |e: HistoryEvent| e.event_type@ == "EventRaised"@ && (e.name matches Some(n) && n@ == name)
}

/// An `EventConsumed` event for the event `name`.
pub open spec fn consumed_named(name: Seq<char>) -> spec_fn(HistoryEvent) -> bool {
    |e: HistoryEvent| e.event_type@ == "EventConsumed"@ && (e.name matches Some(n) && n@ == name)
}

/// An `ActivityScheduled` event for step `step`.
pub open spec fn scheduled_step(step: int) -> spec_fn(HistoryEvent) -> bool {
    |e: HistoryEvent| e.event_type@ == "ActivityScheduled"@ && (e.step matches Some(s) && s == step)
}

/// A test on history events.
#[derive(Clone, Copy)]
pub enum EventTest<'a> {
    /// The event has this type.
    OfType(&'a str),
    /// An `OrchestratorFailed` event with a string error.
    FailedWithError,
    /// An `EventRaised` event for this name.
    Raised(&'a str),
    /// An `EventConsumed` event for this name.
    Consumed(&'a str),
    /// An `ActivityScheduled` event for this step.
    Scheduled(u64),
}

/// The predicate a test stands for.
pub open spec fn test_pred(t: EventTest) -> spec_fn(HistoryEvent) -> bool {
    match t {
        EventTest::OfType(x) => of_type(x@),
        EventTest::FailedWithError => failed_with_error(),
        EventTest::Raised(x) => raised_named(x@),
        EventTest::Consumed(x) => consumed_named(x@),
        EventTest::Scheduled(s) => scheduled_step(s as int),
    }
}

/// Apply a test to one event.
fn event_passes(e: &HistoryEvent, t: EventTest) -> (r: bool)
    ensures
        r == test_pred(t)(*e),
{
    let ty = e.event_type.as_str();
    match t {
        EventTest::OfType(x) => str_eq(ty, x),
        EventTest::FailedWithError => str_eq(ty, "OrchestratorFailed") && e.error.is_some(),
        EventTest::Raised(x) => str_eq(ty, "EventRaised") && match &e.name {
            Some(n) => str_eq(n.as_str(), x),
            None => false,
        },
        EventTest::Consumed(x) => str_eq(ty, "EventConsumed") && match &e.name {
            Some(n) => str_eq(n.as_str(), x),
            None => false,
        },
        EventTest::Scheduled(step) => str_eq(ty, "ActivityScheduled") && match e.step {
            Some(s) => s == step,
            None => false,
        },
    }
}

/// The last event of the history passing a test.
fn find_last(h: &Vec<HistoryEvent>, t: EventTest) -> (r: Option<usize>)
    ensures
        match r {
            Some(i) => i < h@.len() && is_last_matching(h@, test_pred(t), i as int) && last_matching(h@, test_pred(t)) == Some(i as int),
            None => last_matching(h@, test_pred(t)) is None,
        },
{
    let ghost p = test_pred(t);
    let mut k = h.len();
    while k > 0
        invariant
            k <= h@.len(),
            p == test_pred(t),
            forall|j: int| k <= j < h@.len() ==> !p(#[trigger] h@[j]),
        decreases k,
    {
        k = k - 1;
        if event_passes(&h[k], t) {
            proof {
                assert(is_last_matching(h@, p, k as int));
                let w = choose|w: int| is_last_matching(h@, p, w);
                lemma_last_matching_unique(h@, p, w, k as int);
            }
            return Some(k);
        }
    }
    proof {
        lemma_no_match(h@, p);
    }
    None
}

/// An element satisfying `p` means there is a last one.
proof fn lemma_match_has_last(h: Seq<HistoryEvent>, p: spec_fn(HistoryEvent) -> bool, j: int)
    requires
        0 <= j < h.len(),
        p(h[j]),
    ensures
        last_matching(h, p) is Some,
    decreases h.len() - j,
{
    if forall|k: int| j < k < h.len() ==> !p(#[trigger] h[k]) {
        assert(is_last_matching(h, p, j));
    } else {
        let k = choose|k: int| j < k < h.len() && p(#[trigger] h[k]);
        lemma_match_has_last(h, p, k);
    }
}

/// Without a last element satisfying `p`, none does.
proof fn lemma_no_last_no_match(h: Seq<HistoryEvent>, p: spec_fn(HistoryEvent) -> bool)
    requires
        last_matching(h, p) is None,
    ensures
        forall|j: int| 0 <= j < h.len() ==> !p(#[trigger] h[j]),
{
    assert forall|j: int| 0 <= j < h.len() implies !p(#[trigger] h[j]) by {
        if p(h[j]) {
            lemma_match_has_last(h, p, j);
        }
    }
}

/// Without a matching element, the filter is empty.
proof fn lemma_filter_empty(s: Seq<HistoryEvent>, p: spec_fn(HistoryEvent) -> bool)
    requires
        forall|j: int| 0 <= j < s.len() ==> !p(#[trigger] s[j]),
    ensures
        s.filter(p).len() == 0,
    decreases s.len(),
{
    reveal(Seq::filter);
    if s.len() > 0 {
        assert(!p(s[s.len() - 1]));
        assert forall|j: int| 0 <= j < s.drop_last().len() implies !p(#[trigger] s.drop_last()[j]) by {
            assert(s.drop_last()[j] == s[j]);
        }
        lemma_filter_empty(s.drop_last(), p);
    }
}

/// Count the events from index `from` on that pass a test.
fn count_from(h: &Vec<HistoryEvent>, from: usize, t: EventTest) -> (r: usize)
    requires
        from <= h@.len(),
    ensures
        r == h@.skip(from as int).filter(test_pred(t)).len(),
{
    let ghost p = test_pred(t);
    let ghost tail = h@.skip(from as int);
    let mut count: usize = 0;
    let n = h.len();
    assert(tail.take(0) =~= Seq::<HistoryEvent>::empty());
    for i in from..n
        invariant
            n == h@.len(),
            from <= n,
            p == test_pred(t),
            tail == h@.skip(from as int),
            count == tail.take(i - from).filter(p).len(),
            count <= i - from,
    {
        proof {
            assert(tail.take(i - from + 1) =~= tail.take(i - from).push(h@[i as int]));
            tail.take(i - from).lemma_filter_push(h@[i as int], p);
        }
        if event_passes(&h[i], t) {
            count = count + 1;
        }
    }
    assert(tail.take(n - from) =~= tail);
    count
}

// ---------------------------------------------------------------------------
// Plain values of the decisions
// ---------------------------------------------------------------------------

/// The plain value of a store operation.
pub enum StoreOpView {
    AppendCompleted(ValueRef),
    AppendFailed(Seq<char>),
    AppendEventConsumed(Seq<char>),
    AppendActivityCompleted(int, Seq<char>, Seq<char>),
    AppendActivityFailed(int, Seq<char>, Seq<char>, u32, bool),
    Update(OrchestrationStatus, Option<ValueRef>, Option<Seq<char>>),
}

impl View for StoreOp {
    type V = StoreOpView;

    open spec fn view(&self) -> StoreOpView {
        match self {
            StoreOp::AppendCompleted(v) => StoreOpView::AppendCompleted(*v),
            StoreOp::AppendFailed(e) => StoreOpView::AppendFailed(e@),
            StoreOp::AppendEventConsumed(n) => StoreOpView::AppendEventConsumed(n@),
            StoreOp::AppendActivityCompleted { step, name, output } => StoreOpView::AppendActivityCompleted(
                *step as int,
                name@,
                output@,
            ),
            StoreOp::AppendActivityFailed { step, name, error, attempt, retryable } => StoreOpView::AppendActivityFailed(
                *step as int,
                name@,
                error@,
                *attempt,
                *retryable,
            ),
            StoreOp::Update { status, output, error } => StoreOpView::Update(
                *status,
                *output,
                match error {
                    Some(e) => Some(e@),
                    None => None,
                },
            ),
        }
    }
}

/// The plain values of a list of operations.
pub open spec fn ops_view(v: Seq<StoreOp>) -> Seq<StoreOpView> {
    v.map_values(|o: StoreOp| o@)
}

/// The plain value of a tick plan.
pub enum TickPlanView {
    Apply(Seq<StoreOpView>),
    RunActivity(Seq<StoreOpView>, int, u32, Option<int>, bool),
}

impl View for TickPlan {
    type V = TickPlanView;

    open spec fn view(&self) -> TickPlanView {
        match self {
            TickPlan::Apply(ops) => TickPlanView::Apply(ops_view(ops@)),
            TickPlan::RunActivity { prelude, step, attempt, backoff_from, schedule } => TickPlanView::RunActivity(
                ops_view(prelude@),
                *step as int,
                *attempt,
                match backoff_from {
                    Some(i) => Some(*i as int),
                    None => None,
                },
                *schedule,
            ),
        }
    }
}

// ---------------------------------------------------------------------------
// Decisions
// ---------------------------------------------------------------------------

/// Recording a failure: the `OrchestratorFailed` event and the status.
pub open spec fn fail_ops(error: Seq<char>) -> Seq<StoreOpView> {
    seq![StoreOpView::AppendFailed(error), StoreOpView::Update(OrchestrationStatus::Failed, None, Some(error))]
}

/// The outcome the history already records, if any: the last
/// `OrchestratorCompleted` event's output, else the last string error of an
/// `OrchestratorFailed` event; the status is brought in line with it.
pub open spec fn settled_of(status: OrchestrationStatus, h: Seq<HistoryEvent>) -> Option<Seq<StoreOpView>> {
    match last_matching(h, of_type("OrchestratorCompleted"@)) {
        Some(i) => Some(
            if status == OrchestrationStatus::Completed {
                Seq::empty()
            } else {
                seq![StoreOpView::Update(OrchestrationStatus::Completed, Some(ValueRef::EventOutput(i as usize)), None)]
            },
        ),
        None => match last_matching(h, failed_with_error()) {
            Some(i) => Some(
                if status == OrchestrationStatus::Failed {
                    Seq::empty()
                } else {
                    seq![StoreOpView::Update(OrchestrationStatus::Failed, None, Some(h[i].error->0@))]
                },
            ),
            None => None,
        },
    }
}

/// The operations of an orchestration whose history already records its
/// outcome, or `None` when it does not.
pub fn settled_outcome(status: OrchestrationStatus, history: &Vec<HistoryEvent>) -> (r: Option<Vec<StoreOp>>)
    ensures
        match r {
            Some(ops) => settled_of(status, history@) == Some(ops_view(ops@)),
            None => settled_of(status, history@) is None,
        },
{
    proof {
        reveal_strlit("OrchestratorCompleted");
    }
    match find_last(history, EventTest::OfType("OrchestratorCompleted")) {
        Some(i) => {
            let mut ops: Vec<StoreOp> = Vec::new();
            if status != OrchestrationStatus::Completed {
                ops.push(StoreOp::Update { status: OrchestrationStatus::Completed, output: Some(ValueRef::EventOutput(i)), error: None });
            }
            assert(ops_view(ops@) =~= settled_of(status, history@)->0);
            Some(ops)
        },
        None => match find_last(history, EventTest::FailedWithError) {
            Some(i) => {
                let mut ops: Vec<StoreOp> = Vec::new();
                if status != OrchestrationStatus::Failed {
                    let e = match &history[i].error {
                        Some(e) => e.clone(),
                        None => String::new(),
                    };
                    ops.push(StoreOp::Update { status: OrchestrationStatus::Failed, output: None, error: Some(e) });
                }
                assert(ops_view(ops@) =~= settled_of(status, history@)->0);
                Some(ops)
            },
            None => None,
        },
    }
}

/// Whether an input names no program: no event, no activity, no (or an
/// empty) activity list.
pub open spec fn input_is_empty(i: RuntimeInput) -> bool {
    i.wait_for_event is None && i.activity is None && match i.activities {
        Some(v) => v@.len() == 0,
        None => true,
    }
}

/// Whether the program must be read from the stored definition of the
/// orchestration's name.
pub fn needs_definition(input: &RuntimeInput) -> (r: bool)
    ensures
        r == input_is_empty(*input),
{
    input.wait_for_event.is_none() && input.activity.is_none() && match &input.activities {
        Some(v) => v.len() == 0,
        None => true,
    }
}

/// The activities an input runs: its list, or else its single activity.
pub open spec fn activities_of(i: RuntimeInput) -> Seq<RuntimeActivity> {
    let listed = match i.activities {
        Some(v) => v@,
        None => Seq::empty(),
    };
    if listed.len() == 0 {
        match i.activity {
            Some(a) => seq![a],
            None => listed,
        }
    } else {
        listed
    }
}

/// The program an input states.
pub fn program_of(input: RuntimeInput) -> (p: Program)
    ensures
        p.wait_for_event == input.wait_for_event,
        p.activities@ == activities_of(input),
{
    let ghost before = input;
    let RuntimeInput { wait_for_event, activity, activities } = input;
    let mut listed = match activities {
        Some(v) => v,
        None => Vec::new(),
    };
    if listed.len() == 0 {
        if let Some(a) = activity {
            listed.push(a);
        }
    }
    assert(listed@ =~= activities_of(before));
    Program { wait_for_event, activities: listed }
}

/// How the program is resolved: the input's own, or, when it names none,
/// the stored definition's (when there is one); unreadable documents fail
/// the orchestration with these messages.
pub open spec fn resolved_program_ok(input: Result<RuntimeInput, String>, definition: Option<Result<RuntimeInput, String>>, p: Program) -> bool {
    match input {
        Ok(i) => {
            let chosen = if input_is_empty(i) && definition matches Some(Ok(d)) {
                definition->0->Ok_0
            } else {
                i
            };
            &&& !(input_is_empty(i) && definition matches Some(Err(_)))
            &&& p.wait_for_event == chosen.wait_for_event
            &&& p.activities@ == activities_of(chosen)
        },
        Err(_) => false,
    }
}

/// The message a resolution failure records.
pub open spec fn resolution_error(input: Result<RuntimeInput, String>, definition: Option<Result<RuntimeInput, String>>) -> Option<Seq<char>> {
    match input {
        Err(e) => Some("invalid orchestration input: "@ + e@),
        Ok(i) => if input_is_empty(i) {
            match definition {
                Some(Err(e)) => Some("invalid orchestration definition: "@ + e@),
                _ => None,
            }
        } else {
            None
        },
    }
}

/// Resolve the program from the parsed input and, when the input names no
/// program and a definition is stored, the parsed definition.
pub fn resolve_program(input: Result<RuntimeInput, String>, definition: Option<Result<RuntimeInput, String>>) -> (r: Result<Program, String>)
    ensures
        match r {
            Ok(p) => resolved_program_ok(input, definition, p),
            Err(m) => resolution_error(input, definition) == Some(m@),
        },
        r is Err <==> resolution_error(input, definition) is Some,
{
    match input {
        Err(e) => {
            let mut m = String::from_str("invalid orchestration input: ");
            m.append(e.as_str());
            Err(m)
        },
        Ok(i) => {
            if needs_definition(&i) {
                match definition {
                    Some(Ok(d)) => Ok(program_of(d)),
                    Some(Err(e)) => {
                        let mut m = String::from_str("invalid orchestration definition: ");
                        m.append(e.as_str());
                        Err(m)
                    },
                    None => Ok(program_of(i)),
                }
            } else {
                Ok(program_of(i))
            }
        },
    }
}

/// The retry limits an activity runs under (three attempts by default).
pub open spec fn max_attempts_of(a: RuntimeActivity) -> u32 {
    match a.retry_policy {
        Some(p) => p.max_attempts,
        None => 3,
    }
}

/// The status update that marks a pending orchestration as running.
pub open spec fn running_ops(status: OrchestrationStatus) -> Seq<StoreOpView> {
    if status == OrchestrationStatus::Pending {
        seq![StoreOpView::Update(OrchestrationStatus::Running, None, None)]
    } else {
        Seq::empty()
    }
}

/// The index after the last completed activity (0 when none completed).
pub open spec fn after_last_completion(h: Seq<HistoryEvent>) -> int {
    match last_matching(h, of_type("ActivityCompleted"@)) {
        Some(i) => i + 1,
        None => 0,
    }
}

/// The failed attempts of the current activity: the failures recorded
/// since the last completed activity.
pub open spec fn failed_attempts(h: Seq<HistoryEvent>) -> u32 {
    h.skip(after_last_completion(h)).filter(of_type("ActivityFailed"@)).len() as u32
}

/// The error of the most recent failure (`activity failed` when it has
/// none).
pub open spec fn last_failure_error(h: Seq<HistoryEvent>) -> Seq<char> {
    match last_matching(h, of_type("ActivityFailed"@)) {
        Some(j) => match h[j].error {
            Some(e) => e@,
            None => "activity failed"@,
        },
        None => "activity failed"@,
    }
}

/// Whether the history has an event of type `t`.
pub open spec fn has_event(h: Seq<HistoryEvent>, t: Seq<char>) -> bool {
    last_matching(h, of_type(t)) is Some
}

/// What a tick does with an orchestration whose outcome the history does
/// not record yet, following its program.
pub open spec fn plan_of(status: OrchestrationStatus, h: Seq<HistoryEvent>, wait: Option<Seq<char>>, acts: Seq<RuntimeActivity>) -> TickPlanView {
    let running = running_ops(status);
    match wait {
        Some(w) => {
            let tail = if last_matching(h, consumed_named(w)) is None {
                match last_matching(h, raised_named(w)) {
                    Some(i) => seq![
                        StoreOpView::AppendEventConsumed(w),
                        StoreOpView::AppendCompleted(ValueRef::EventData(i as usize)),
                        StoreOpView::Update(OrchestrationStatus::Completed, Some(ValueRef::EventData(i as usize)), None),
                    ],
                    None => Seq::empty(),
                }
            } else {
                Seq::empty()
            };
            TickPlanView::Apply(running + tail)
        },
        None => if acts.len() > 0 {
            if exists|k: int| 0 <= k < acts.len() && (#[trigger] acts[k]).command@.len() == 0 {
                TickPlanView::Apply(fail_ops("activity.command must not be empty"@))
            } else {
                let completed = h.filter(of_type("ActivityCompleted"@)).len();
                if completed >= acts.len() {
                    let i = last_matching(h, of_type("ActivityCompleted"@))->0;
                    let append = if !has_event(h, "OrchestratorCompleted"@) {
                        seq![StoreOpView::AppendCompleted(ValueRef::EventOutput(i as usize))]
                    } else {
                        Seq::empty()
                    };
                    TickPlanView::Apply(
                        running + append + seq![
                            StoreOpView::Update(OrchestrationStatus::Completed, Some(ValueRef::EventOutput(i as usize)), None),
                        ],
                    )
                } else {
                    let attempts = failed_attempts(h);
                    let err = last_failure_error(h);
                    if attempts > 0 && attempts >= max_attempts_of(acts[completed as int]) {
                        let append = if !has_event(h, "OrchestratorFailed"@) {
                            seq![StoreOpView::AppendFailed(err)]
                        } else {
                            Seq::empty()
                        };
                        TickPlanView::Apply(
                            running + append + seq![StoreOpView::Update(OrchestrationStatus::Failed, None, Some(err))],
                        )
                    } else {
                        TickPlanView::RunActivity(
                            running,
                            completed as int,
                            (attempts + 1) as u32,
                            if attempts > 0 {
                                last_matching(h, of_type("ActivityFailed"@))
                            } else {
                                None
                            },
                            last_matching(h, scheduled_step(completed as int)) is None,
                        )
                    }
                }
            }
        } else {
            let append = if !has_event(h, "OrchestratorCompleted"@) {
                seq![StoreOpView::AppendCompleted(ValueRef::Input)]
            } else {
                Seq::empty()
            };
            TickPlanView::Apply(append + seq![StoreOpView::Update(OrchestrationStatus::Completed, Some(ValueRef::Input), None)])
        },
    }
}

/// The single status update of a list.
fn update_op(status: OrchestrationStatus, output: Option<ValueRef>, error: Option<String>) -> (op: StoreOp)
    ensures
        op@ == StoreOpView::Update(
            status,
            output,
            match error {
                Some(e) => Some(e@),
                None => None,
            },
        ),
{
    StoreOp::Update { status, output, error }
}

/// The operations marking a pending orchestration as running.
fn running_prelude(status: OrchestrationStatus) -> (ops: Vec<StoreOp>)
    ensures
        ops_view(ops@) == running_ops(status),
{
    let mut ops: Vec<StoreOp> = Vec::new();
    if status == OrchestrationStatus::Pending {
        ops.push(update_op(OrchestrationStatus::Running, None, None));
    }
    assert(ops_view(ops@) =~= running_ops(status));
    ops
}

/// Append one operation, keeping track of the plain values.
fn push_op(ops: &mut Vec<StoreOp>, op: StoreOp)
    ensures
        ops_view(final(ops)@) == ops_view(old(ops)@).push(op@),
{
    ops.push(op);
    assert(ops_view(ops@) =~= ops_view(old(ops)@).push(op@));
}

/// Decide what a tick does with an orchestration, following its program;
/// the history must not record its outcome yet (see `settled_outcome`).
pub fn plan_program(status: OrchestrationStatus, history: &Vec<HistoryEvent>, program: &Program) -> (r: TickPlan)
    ensures
        r@ == plan_of(status, history@, opt_view(program.wait_for_event), program.activities@),
{
    let h = history;
    let mut ops = running_prelude(status);
    proof {
        reveal_strlit("ActivityCompleted");
        reveal_strlit("ActivityFailed");
        reveal_strlit("OrchestratorCompleted");
        reveal_strlit("OrchestratorFailed");
    }
    if let Some(w) = &program.wait_for_event {
        let consumed = find_last(h, EventTest::Consumed(w.as_str()));
        if consumed.is_none() {
            let ghost running = ops_view(ops@);
        if let Some(i) = find_last(h, EventTest::Raised(w.as_str())) {
                push_op(&mut ops, StoreOp::AppendEventConsumed(w.clone()));
                push_op(&mut ops, StoreOp::AppendCompleted(ValueRef::EventData(i)));
                push_op(&mut ops, update_op(OrchestrationStatus::Completed, Some(ValueRef::EventData(i)), None));
                assert(ops_view(ops@) =~= running + seq![
                    StoreOpView::AppendEventConsumed(w@),
                    StoreOpView::AppendCompleted(ValueRef::EventData(i)),
                    StoreOpView::Update(OrchestrationStatus::Completed, Some(ValueRef::EventData(i)), None),
                ]);
            } else {
                assert(ops_view(ops@) =~= running + Seq::<StoreOpView>::empty());
            }
        } else {
            assert(ops_view(ops@) =~= ops_view(ops@) + Seq::<StoreOpView>::empty());
        }
        return TickPlan::Apply(ops);
    }
    let acts = &program.activities;
    let n = acts.len();
    if n == 0 {
        let mut done: Vec<StoreOp> = Vec::new();
        let fresh = find_last(h, EventTest::OfType("OrchestratorCompleted")).is_none();
        if fresh {
            push_op(&mut done, StoreOp::AppendCompleted(ValueRef::Input));
        }
        let ghost appended = ops_view(done@);
        push_op(&mut done, update_op(OrchestrationStatus::Completed, Some(ValueRef::Input), None));
        proof {
            let append = if fresh {
                seq![StoreOpView::AppendCompleted(ValueRef::Input)]
            } else {
                Seq::empty()
            };
            assert(appended =~= append);
            assert(ops_view(done@) =~= append + seq![StoreOpView::Update(OrchestrationStatus::Completed, Some(ValueRef::Input), None)]);
        }
        return TickPlan::Apply(done);
    }
    for k in 0..n
        invariant
            n == acts@.len(),
            acts == &program.activities,
            program.wait_for_event is None,
            forall|j: int| 0 <= j < k ==> (#[trigger] acts@[j]).command@.len() > 0,
    {
        if acts[k].command.len() == 0 {
            assert(acts@[k as int].command@.len() == 0);
            let mut failed: Vec<StoreOp> = Vec::new();
            let msg = String::from_str("activity.command must not be empty");
            push_op(&mut failed, StoreOp::AppendFailed(msg.clone()));
            push_op(&mut failed, update_op(OrchestrationStatus::Failed, None, Some(msg)));
            assert(ops_view(failed@) =~= fail_ops("activity.command must not be empty"@));
            return TickPlan::Apply(failed);
        }
    }
    let completed = count_from(h, 0, EventTest::OfType("ActivityCompleted"));
    assert(h@.skip(0) =~= h@);
    if completed >= n {
        let i = match find_last(h, EventTest::OfType("ActivityCompleted")) {
            Some(i) => i,
            None => {
                proof {
                    lemma_no_last_no_match(h@, of_type("ActivityCompleted"@));
                    lemma_filter_empty(h@, of_type("ActivityCompleted"@));
                }
                0
            },
        };
        let ghost running = ops_view(ops@);
        let fresh = find_last(h, EventTest::OfType("OrchestratorCompleted")).is_none();
        if fresh {
            push_op(&mut ops, StoreOp::AppendCompleted(ValueRef::EventOutput(i)));
        }
        let ghost appended = ops_view(ops@);
        push_op(&mut ops, update_op(OrchestrationStatus::Completed, Some(ValueRef::EventOutput(i)), None));
        proof {
            let append = if fresh {
                seq![StoreOpView::AppendCompleted(ValueRef::EventOutput(i))]
            } else {
                Seq::empty()
            };
            assert(appended =~= running + append);
            assert(ops_view(ops@) =~= running + append + seq![
                StoreOpView::Update(OrchestrationStatus::Completed, Some(ValueRef::EventOutput(i)), None),
            ]);
        }
        return TickPlan::Apply(ops);
    }
    let hl = h.len();
    let after = match find_last(h, EventTest::OfType("ActivityCompleted")) {
        Some(i) => i + 1,
        None => 0,
    };
    let count = count_from(h, after, EventTest::OfType("ActivityFailed"));
    let attempts = #[verifier::truncate] (count as u32);
    let last_failure = find_last(h, EventTest::OfType("ActivityFailed"));
    let max = match &acts[completed].retry_policy {
        Some(p) => p.max_attempts,
        None => 3,
    };
    if attempts > 0 && attempts >= max {
        let err = match last_failure {
            Some(j) => match &h[j].error {
                Some(e) => e.clone(),
                None => String::from_str("activity failed"),
            },
            None => String::from_str("activity failed"),
        };
        let ghost running = ops_view(ops@);
        let fresh = find_last(h, EventTest::OfType("OrchestratorFailed")).is_none();
        if fresh {
            push_op(&mut ops, StoreOp::AppendFailed(err.clone()));
        }
        let ghost appended = ops_view(ops@);
        push_op(&mut ops, update_op(OrchestrationStatus::Failed, None, Some(err)));
        proof {
            let append = if fresh {
                seq![StoreOpView::AppendFailed(err@)]
            } else {
                Seq::empty()
            };
            assert(appended =~= running + append);
            assert(ops_view(ops@) =~= running + append + seq![StoreOpView::Update(OrchestrationStatus::Failed, None, Some(err@))]);
        }
        return TickPlan::Apply(ops);
    }
    let scheduled = find_last(h, EventTest::Scheduled(completed as u64));
    TickPlan::RunActivity {
        prelude: ops,
        step: completed,
        attempt: attempts + 1,
        backoff_from: if attempts > 0 {
            last_failure
        } else {
            None
        },
        schedule: scheduled.is_none(),
    }
}

/// The plain value of an optional string.
pub open spec fn opt_view(o: Option<String>) -> Option<Seq<char>> {
    match o {
        Some(s) => Some(s@),
        None => None,
    }
}

/// The markers of errors that are never retried.
pub open spec fn non_retryable_of(a: RuntimeActivity) -> Seq<String> {
    match a.retry_policy {
        Some(p) => p.non_retryable_errors@,
        None => Seq::empty(),
    }
}

/// What is recorded after an activity ran: its output and a running
/// status; or its failure, retried while the error is retryable and
/// attempts remain, else failing the orchestration.
pub open spec fn after_activity_of(result: Result<Seq<char>, Seq<char>>, step: int, a: RuntimeActivity, attempt: u32) -> Seq<StoreOpView> {
    match result {
        Ok(out) => seq![
            StoreOpView::AppendActivityCompleted(step, a.name@, out),
            StoreOpView::Update(OrchestrationStatus::Running, None, None),
        ],
        Err(e) => {
            let again = retryable(e, non_retryable_of(a)) && attempt < max_attempts_of(a);
            seq![StoreOpView::AppendActivityFailed(step, a.name@, e, attempt, again)] + if again {
                seq![StoreOpView::Update(OrchestrationStatus::Running, None, Some(e))]
            } else {
                fail_ops(e)
            }
        },
    }
}

/// The plain value of an activity result.
pub open spec fn result_view(r: Result<String, String>) -> Result<Seq<char>, Seq<char>> {
    match r {
        Ok(o) => Ok(o@),
        Err(e) => Err(e@),
    }
}

/// Record the result of running activity `step` (attempt `attempt`).
pub fn after_activity(result: Result<String, String>, step: usize, activity: &RuntimeActivity, attempt: u32) -> (ops: Vec<StoreOp>)
    ensures
        ops_view(ops@) == after_activity_of(result_view(result), step as int, *activity, attempt),
{
    let mut ops: Vec<StoreOp> = Vec::new();
    match result {
        Ok(out) => {
            push_op(&mut ops, StoreOp::AppendActivityCompleted { step, name: activity.name.clone(), output: out });
            push_op(&mut ops, update_op(OrchestrationStatus::Running, None, None));
            assert(ops_view(ops@) =~= after_activity_of(result_view(result), step as int, *activity, attempt));
        },
        Err(e) => {
            let (max, retryable_error) = match &activity.retry_policy {
                Some(p) => (p.max_attempts, is_retryable_error(e.as_str(), &p.non_retryable_errors)),
                None => (3, is_retryable_error(e.as_str(), &Vec::new())),
            };
            let again = retryable_error && attempt < max;
            push_op(
                &mut ops,
                StoreOp::AppendActivityFailed { step, name: activity.name.clone(), error: e.clone(), attempt, retryable: again },
            );
            if again {
                push_op(&mut ops, update_op(OrchestrationStatus::Running, None, Some(e)));
            } else {
                push_op(&mut ops, StoreOp::AppendFailed(e.clone()));
                push_op(&mut ops, update_op(OrchestrationStatus::Failed, None, Some(e)));
            }
            assert(ops_view(ops@) =~= after_activity_of(result_view(result), step as int, *activity, attempt));
        },
    }
    ops
}

// ---------------------------------------------------------------------------
// Laws of the runtime
// ---------------------------------------------------------------------------

/// A plan never runs an activity past its retry limit: the attempt it
/// starts is at most the activity's limit, or the first one.
pub proof fn lemma_attempts_bounded(status: OrchestrationStatus, h: Seq<HistoryEvent>, wait: Option<Seq<char>>, acts: Seq<RuntimeActivity>)
    ensures
        plan_of(status, h, wait, acts) matches TickPlanView::RunActivity(_, step, attempt, _, _) ==> 0 <= step < acts.len()
            && (attempt == 1 || attempt <= max_attempts_of(acts[step])),
{
}

/// An activity is scheduled at most once per step: a plan asks to record
/// the scheduling exactly when the history holds none for that step.
pub proof fn lemma_scheduling_is_idempotent(status: OrchestrationStatus, h: Seq<HistoryEvent>, wait: Option<Seq<char>>, acts: Seq<RuntimeActivity>)
    ensures
        plan_of(status, h, wait, acts) matches TickPlanView::RunActivity(_, step, _, _, schedule) ==> (schedule
            <==> last_matching(h, scheduled_step(step)) is None),
{
}

/// A failure that is not retried fails the orchestration, with the
/// activity's error.
pub proof fn lemma_final_failure_fails_orchestration(e: Seq<char>, step: int, a: RuntimeActivity, attempt: u32)
    requires
        !retryable(e, non_retryable_of(a)) || attempt >= max_attempts_of(a),
    ensures
        after_activity_of(Err(e), step, a, attempt).last() == StoreOpView::Update(OrchestrationStatus::Failed, None, Some(e)),
        after_activity_of(Err(e), step, a, attempt).contains(StoreOpView::AppendFailed(e)),
{
    assert(after_activity_of(Err(e), step, a, attempt)[1] == StoreOpView::AppendFailed(e));
}

/// A failed activity is retried exactly while its error carries none of
/// the activity's non-retryable markers and attempts remain under the same
/// limit the planner enforces (`max_attempts_of`): the failure is recorded
/// with that verdict, and a retried failure leaves the orchestration
/// running with the error noted, nothing more.
pub proof fn lemma_failure_retried_within_limit(e: Seq<char>, step: int, a: RuntimeActivity, attempt: u32)
    ensures
        ({
            let ops = after_activity_of(Err(e), step, a, attempt);
            let again = retryable(e, non_retryable_of(a)) && attempt < max_attempts_of(a);
            &&& ops.len() >= 2
            &&& ops[0] == StoreOpView::AppendActivityFailed(step, a.name@, e, attempt, again)
            &&& again ==> ops == seq![
                StoreOpView::AppendActivityFailed(step, a.name@, e, attempt, true),
                StoreOpView::Update(OrchestrationStatus::Running, None, Some(e)),
            ]
            &&& !again ==> ops.last() == StoreOpView::Update(OrchestrationStatus::Failed, None, Some(e))
        }),
{
}

/// An activity without a retry policy gets three attempts, whatever its
/// error: a failure of attempt `n` is retried, leaving the orchestration
/// running, exactly when `n < 3`, and the planner's limit for it is 3.
pub proof fn lemma_default_policy_allows_three_attempts(e: Seq<char>, step: int, a: RuntimeActivity, attempt: u32)
    requires
        a.retry_policy is None,
    ensures
        max_attempts_of(a) == 3,
        attempt < 3 ==> after_activity_of(Err(e), step, a, attempt) == seq![
            StoreOpView::AppendActivityFailed(step, a.name@, e, attempt, true),
            StoreOpView::Update(OrchestrationStatus::Running, None, Some(e)),
        ],
        attempt >= 3 ==> after_activity_of(Err(e), step, a, attempt) == seq![
            StoreOpView::AppendActivityFailed(step, a.name@, e, attempt, false),
            StoreOpView::AppendFailed(e),
            StoreOpView::Update(OrchestrationStatus::Failed, None, Some(e)),
        ],
{
    assert(non_retryable_of(a) =~= Seq::<String>::empty());
    assert(retryable(e, non_retryable_of(a)));
}

/// A program waiting for an event completes with the data of the last
/// raising of that event, once, and only while the event is unconsumed.
pub proof fn lemma_wait_completes_with_signal(status: OrchestrationStatus, h: Seq<HistoryEvent>, w: Seq<char>, acts: Seq<RuntimeActivity>)
    ensures
        ({
            let p = plan_of(status, h, Some(w), acts);
            &&& p is Apply
            &&& last_matching(h, consumed_named(w)) is None && last_matching(h, raised_named(w)) is Some ==> p->Apply_0.last()
                == StoreOpView::Update(
                OrchestrationStatus::Completed,
                Some(ValueRef::EventData(last_matching(h, raised_named(w))->0 as usize)),
                None,
            )
            &&& last_matching(h, consumed_named(w)) is Some ==> p->Apply_0 == running_ops(status)
        }),
{
}

} // verus!
