//! The handler table of the HTTP API: which handler an authenticated request
//! reaches, by method and path, and the ownership gate that every route
//! naming an existing sandbox passes first.

use vstd::prelude::*;
use crate::http_api::{sandbox_gate_of, HttpMethod};
use crate::text::{str_eq, views};

verus! {

broadcast use vstd::string::group_string_axioms;

/// The handler a request is dispatched to once it has passed authentication
/// and the sandbox ownership gate. Parameters are read from the path:
/// each variant shows where.
#[derive(Debug, Clone, Copy, PartialEq, Eq, Structural)]
pub enum Route {
    /// `GET /events`
    Events,
    /// `/opencode/{path..}`, any method
    OpenCode,
    /// `GET /scim/v2/ServiceProviderConfig`
    ScimServiceProviderConfig,
    /// `GET /scim/v2/ResourceTypes`
    ScimResourceTypes,
    /// `GET /scim/v2/ResourceTypes/{id}`
    ScimResourceType,
    /// `GET /scim/v2/Schemas`
    ScimSchemas,
    /// `GET /scim/v2/Schemas/{id}`
    ScimSchema,
    /// `GET /scim/v2/Users`
    ScimListUsers,
    /// `POST /scim/v2/Users`
    ScimCreateUser,
    /// `GET /scim/v2/Users/{id}`
    ScimGetUser,
    /// `PUT /scim/v2/Users/{id}`
    ScimReplaceUser,
    /// `PATCH /scim/v2/Users/{id}`
    ScimPatchUser,
    /// `DELETE /scim/v2/Users/{id}`
    ScimDeleteUser,
    /// `GET /scim/v2/Groups`
    ScimListGroups,
    /// `POST /scim/v2/Groups`
    ScimCreateGroup,
    /// `GET /scim/v2/Groups/{id}`
    ScimGetGroup,
    /// `PUT /scim/v2/Groups/{id}`
    ScimReplaceGroup,
    /// `PATCH /scim/v2/Groups/{id}`
    ScimPatchGroup,
    /// `DELETE /scim/v2/Groups/{id}`
    ScimDeleteGroup,
    /// `POST /run`
    Run,
    /// `POST /run/stream`
    RunStream,
    /// `POST /batch/run`
    BatchRun,
    /// `POST /orchestrations`
    CreateOrchestration,
    /// `GET /orchestrations`
    ListOrchestrations,
    /// `POST /orchestrations/definitions`
    PutOrchestrationDefinition,
    /// `GET /orchestrations/definitions`
    ListOrchestrationDefinitions,
    /// `GET /orchestrations/definitions/{definition}`
    GetOrchestrationDefinition,
    /// `DELETE /orchestrations/definitions/{definition}`
    DeleteOrchestrationDefinition,
    /// `GET /orchestrations/{id}`
    GetOrchestration,
    /// `POST /orchestrations/{id}/events`
    RaiseOrchestrationEvent,
    /// `POST /orchestrations/{id}/terminate`
    TerminateOrchestration,
    /// `PATCH /orchestrations/{id}`
    UpdateOrchestration,
    /// `DELETE /orchestrations/{id}`
    DeleteOrchestration,
    /// `POST /tasks`
    CreateTask,
    /// `GET /tasks`
    ListTasks,
    /// `GET /tasks/{task}`
    GetTask,
    /// `DELETE /tasks/{task}`
    CancelTask,
    /// `GET /stores`
    ListStores,
    /// `POST /stores`
    CreateStore,
    /// `POST /stores/{store}/query`
    QueryStore,
    /// `POST /stores/{store}/execute`
    ExecuteStore,
    /// `POST /stores/{store}/command`
    CommandStore,
    /// `GET /stores/{store}`
    GetStore,
    /// `DELETE /stores/{store}`
    DeleteStore,
    /// `GET /objects`
    ListObjects,
    /// `POST /objects`
    CreateObject,
    /// `GET /objects/{object}`
    GetObject,
    /// `DELETE /objects/{object}`
    DeleteObject,
    /// `PATCH /objects/{object}`
    PatchObject,
    /// `POST /objects/{class}/{object}/call/{method}`
    CallObject,
    /// `POST /objects/{class}/{object}/alarm`
    ObjectAlarm,
    /// `GET /schedules/configured`
    ListConfiguredSchedules,
    /// `GET /schedules/configured/{schedule}`
    GetConfiguredSchedule,
    /// `GET /schedules/configured/{schedule}/status`
    ConfiguredScheduleStatus,
    /// `POST /schedules/configured/{schedule}/trigger`
    TriggerConfiguredSchedule,
    /// `GET /schedules`
    ListSchedules,
    /// `POST /schedules`
    CreateSchedule,
    /// `GET /schedules/{schedule}`
    GetSchedule,
    /// `GET /schedules/{schedule}/status`
    ScheduleStatus,
    /// `DELETE /schedules/{schedule}`
    DeleteSchedule,
    /// `POST /schedules/{schedule}/trigger`
    TriggerSchedule,
    /// `GET /sandboxes`
    ListSandboxes,
    /// `POST /sandboxes`
    CreateSandbox,
    /// `GET /sandboxes/by-uuid/{uuid}`
    GetSandboxByUuid,
    /// `GET /sandboxes/{name}`
    GetSandbox,
    /// `POST /sandboxes/{name}/exec`
    ExecSandbox,
    /// `GET /sandboxes/{name}/git/status`
    GitStatus,
    /// `GET /sandboxes/{name}/git/branches`
    GitBranches,
    /// `POST /sandboxes/{name}/git/add`
    GitAdd,
    /// `POST /sandboxes/{name}/git/commit`
    GitCommit,
    /// `POST /sandboxes/{name}/git/pull`
    GitPull,
    /// `POST /sandboxes/{name}/git/push`
    GitPush,
    /// `POST /sandboxes/{name}/exec/detach`
    ExecDetach,
    /// `GET /sandboxes/{name}/exec/detached`
    ListDetached,
    /// `GET /sandboxes/{name}/exec/detached/{command}`
    DetachedStatus,
    /// `GET /sandboxes/{name}/exec/detached/{command}/logs`
    DetachedLogs,
    /// `DELETE /sandboxes/{name}/exec/detached/{command}`
    KillDetached,
    /// `GET /sandboxes/{name}/logs`
    SandboxLogs,
    /// `POST /sandboxes/{name}/files`
    BatchFileWrite,
    /// `GET /sandboxes/{name}/files/{path..}`
    ReadFile,
    /// `PUT /sandboxes/{name}/files/{path..}`
    WriteFile,
    /// `DELETE /sandboxes/{name}/files/{path..}`
    DeleteFile,
    /// `DELETE /sandboxes/{name}`
    DeleteSandbox,
    /// `POST /sandboxes/{name}/start`
    StartSandbox,
    /// `POST /sandboxes/{name}/stop`
    StopSandbox,
    /// `POST /sandboxes/{name}/pause`
    PauseSandbox,
    /// `POST /sandboxes/{name}/resume`
    ResumeSandbox,
    /// `POST /sandboxes/{name}/fork`
    ForkSandbox,
    /// `POST /sandboxes/{name}/extend`
    ExtendTtl,
    /// `POST /sandboxes/{name}/resize`
    ResizeSandbox,
    /// `POST /sandboxes/{name}/recover`
    RecoverSandbox,
    /// `PATCH /sandboxes/{name}`
    PatchSandbox,
    /// `POST /sandboxes/{name}/browser/start`
    BrowserStart,
    /// `GET /sandboxes/{name}/browser/pages`
    BrowserListPages,
    /// `POST /sandboxes/{name}/browser/pages`
    BrowserCreatePage,
    /// `DELETE /sandboxes/{name}/browser/pages/{page}`
    BrowserClosePage,
    /// `POST /sandboxes/{name}/browser/pages/{page}/goto`
    BrowserGoto,
    /// `GET /sandboxes/{name}/browser/pages/{page}/snapshot`
    BrowserSnapshot,
    /// `GET /sandboxes/{name}/browser/pages/{page}/content`
    BrowserContent,
    /// `POST /sandboxes/{name}/browser/pages/{page}/click`
    BrowserClick,
    /// `POST /sandboxes/{name}/browser/pages/{page}/fill`
    BrowserFill,
    /// `POST /sandboxes/{name}/browser/pages/{page}/screenshot`
    BrowserScreenshot,
    /// `POST /sandboxes/{name}/browser/pages/{page}/evaluate`
    BrowserEvaluate,
    /// `GET /sandboxes/{name}/browser/events`
    BrowserEvents,
    /// `GET /sandboxes/{name}/config`
    ExportSandboxConfig,
    /// `POST /sandboxes/import-config`
    ImportSandboxConfig,
    /// `POST /sandboxes/{name}/config`
    ImportNamedSandboxConfig,
    /// `GET /backends`
    ListBackends,
    /// `GET /snapshots`
    ListSnapshots,
    /// `POST /snapshots`
    TakeSnapshot,
    /// `GET /snapshots/{snapshot}`
    GetSnapshot,
    /// `DELETE /snapshots/{snapshot}`
    DeleteSnapshot,
    /// `POST /snapshots/{snapshot}/restore`
    RestoreSnapshot,
    /// `GET /audit`
    AuditLog,
    /// `GET /status`
    Status,
    /// `GET /stats`
    Stats,
    /// `GET /doctor`
    Doctor,
    /// `GET /secrets`
    ListSecrets,
    /// `POST /secrets`
    CreateSecret,
    /// `DELETE /secrets/{secret}`
    DeleteSecret,
    /// `GET /proxy/hooks`
    ListProxyHooks,
    /// `POST /proxy/hooks`
    RegisterProxyHook,
    /// `DELETE /proxy/hooks/{hook}`
    RemoveProxyHook,
    /// `GET /llm/usage`
    LlmUsageAll,
    /// `GET /llm/usage/{sandbox}`
    LlmUsageSandbox,
    /// `GET /llm/spend`
    LlmSpend,
    /// `GET /llm/keys`
    ListLlmKeys,
    /// `PUT /llm/keys/{provider}`
    SetLlmKey,
    /// `DELETE /llm/keys/{provider}`
    RemoveLlmKey,
    /// `POST /gc`
    Gc,
    /// `POST /lifecycle/reconcile`
    ReconcileLifecycle,
    /// `GET /agents`
    ListAgents,
    /// `POST /agents/{agent}/integration`
    InstallAgentIntegration,
    /// `GET /images`
    ListImages,
    /// `GET /images/usage`
    ImageDiskUsage,
    /// `POST /images/pull`
    PullImage,
    /// `POST /images/prune`
    PruneImages,
    /// `DELETE /images/{image}`
    DeleteImage,
    /// `POST /benchmark`
    Benchmark,
    /// `GET /sessions`
    ListRecordings,
    /// `GET /sessions/{session}`
    GetRecording,
    /// `GET /sessions/{session}/cast`
    GetRecordingCast,
    /// `GET /permissions`
    ListPermissions,
    /// `POST /permissions/grant`
    GrantPermission,
    /// `DELETE /permissions/{permission}`
    RevokePermission,
    /// `POST /permissions/check`
    CheckPermission,
    /// `GET /policy/status`
    PolicyStatus,
    /// `POST /policy/check`
    PolicyCheck,
    /// `POST /policy/reload`
    PolicyReload,
    /// `GET /policy/audit`
    PolicyAudit,
    /// `GET /quotas`
    QuotaStatus,
    /// Any other path under `/scim`
    ScimNotFound,
    /// Any other request
    NotFound,
}

/// The route of a request under `/scim`.
pub open spec fn scim_route_of(m: HttpMethod, s: Seq<Seq<char>>) -> Route {
    if m == HttpMethod::Get && s.len() == 3 && s[1] == "v2"@ && s[2] == "ServiceProviderConfig"@ {
        Route::ScimServiceProviderConfig
    } else if m == HttpMethod::Get && s.len() == 3 && s[1] == "v2"@ && s[2] == "ResourceTypes"@ {
        Route::ScimResourceTypes
    } else if m == HttpMethod::Get && s.len() == 4 && s[1] == "v2"@ && s[2] == "ResourceTypes"@ {
        Route::ScimResourceType
    } else if m == HttpMethod::Get && s.len() == 3 && s[1] == "v2"@ && s[2] == "Schemas"@ {
        Route::ScimSchemas
    } else if m == HttpMethod::Get && s.len() == 4 && s[1] == "v2"@ && s[2] == "Schemas"@ {
        Route::ScimSchema
    } else if m == HttpMethod::Get && s.len() == 3 && s[1] == "v2"@ && s[2] == "Users"@ {
        Route::ScimListUsers
    } else if m == HttpMethod::Post && s.len() == 3 && s[1] == "v2"@ && s[2] == "Users"@ {
        Route::ScimCreateUser
    } else if m == HttpMethod::Get && s.len() == 4 && s[1] == "v2"@ && s[2] == "Users"@ {
        Route::ScimGetUser
    } else if m == HttpMethod::Put && s.len() == 4 && s[1] == "v2"@ && s[2] == "Users"@ {
        Route::ScimReplaceUser
    } else if m == HttpMethod::Patch && s.len() == 4 && s[1] == "v2"@ && s[2] == "Users"@ {
        Route::ScimPatchUser
    } else if m == HttpMethod::Delete && s.len() == 4 && s[1] == "v2"@ && s[2] == "Users"@ {
        Route::ScimDeleteUser
    } else if m == HttpMethod::Get && s.len() == 3 && s[1] == "v2"@ && s[2] == "Groups"@ {
        Route::ScimListGroups
    } else if m == HttpMethod::Post && s.len() == 3 && s[1] == "v2"@ && s[2] == "Groups"@ {
        Route::ScimCreateGroup
    } else if m == HttpMethod::Get && s.len() == 4 && s[1] == "v2"@ && s[2] == "Groups"@ {
        Route::ScimGetGroup
    } else if m == HttpMethod::Put && s.len() == 4 && s[1] == "v2"@ && s[2] == "Groups"@ {
        Route::ScimReplaceGroup
    } else if m == HttpMethod::Patch && s.len() == 4 && s[1] == "v2"@ && s[2] == "Groups"@ {
        Route::ScimPatchGroup
    } else if m == HttpMethod::Delete && s.len() == 4 && s[1] == "v2"@ && s[2] == "Groups"@ {
        Route::ScimDeleteGroup
    } else {
        Route::ScimNotFound
    }
}

fn route_scim(method: HttpMethod, segments: &Vec<String>) -> (r: Route)
    ensures
        r == scim_route_of(method, views(segments@)),
{
    let n = segments.len();
    if method == HttpMethod::Get && n == 3 && seg_is(segments, 1, "v2") && seg_is(segments, 2, "ServiceProviderConfig") {
        Route::ScimServiceProviderConfig
    } else if method == HttpMethod::Get && n == 3 && seg_is(segments, 1, "v2") && seg_is(segments, 2, "ResourceTypes") {
        Route::ScimResourceTypes
    } else if method == HttpMethod::Get && n == 4 && seg_is(segments, 1, "v2") && seg_is(segments, 2, "ResourceTypes") {
        Route::ScimResourceType
    } else if method == HttpMethod::Get && n == 3 && seg_is(segments, 1, "v2") && seg_is(segments, 2, "Schemas") {
        Route::ScimSchemas
    } else if method == HttpMethod::Get && n == 4 && seg_is(segments, 1, "v2") && seg_is(segments, 2, "Schemas") {
        Route::ScimSchema
    } else if method == HttpMethod::Get && n == 3 && seg_is(segments, 1, "v2") && seg_is(segments, 2, "Users") {
        Route::ScimListUsers
    } else if method == HttpMethod::Post && n == 3 && seg_is(segments, 1, "v2") && seg_is(segments, 2, "Users") {
        Route::ScimCreateUser
    } else if method == HttpMethod::Get && n == 4 && seg_is(segments, 1, "v2") && seg_is(segments, 2, "Users") {
        Route::ScimGetUser
    } else if method == HttpMethod::Put && n == 4 && seg_is(segments, 1, "v2") && seg_is(segments, 2, "Users") {
        Route::ScimReplaceUser
    } else if method == HttpMethod::Patch && n == 4 && seg_is(segments, 1, "v2") && seg_is(segments, 2, "Users") {
        Route::ScimPatchUser
    } else if method == HttpMethod::Delete && n == 4 && seg_is(segments, 1, "v2") && seg_is(segments, 2, "Users") {
        Route::ScimDeleteUser
    } else if method == HttpMethod::Get && n == 3 && seg_is(segments, 1, "v2") && seg_is(segments, 2, "Groups") {
        Route::ScimListGroups
    } else if method == HttpMethod::Post && n == 3 && seg_is(segments, 1, "v2") && seg_is(segments, 2, "Groups") {
        Route::ScimCreateGroup
    } else if method == HttpMethod::Get && n == 4 && seg_is(segments, 1, "v2") && seg_is(segments, 2, "Groups") {
        Route::ScimGetGroup
    } else if method == HttpMethod::Put && n == 4 && seg_is(segments, 1, "v2") && seg_is(segments, 2, "Groups") {
        Route::ScimReplaceGroup
    } else if method == HttpMethod::Patch && n == 4 && seg_is(segments, 1, "v2") && seg_is(segments, 2, "Groups") {
        Route::ScimPatchGroup
    } else if method == HttpMethod::Delete && n == 4 && seg_is(segments, 1, "v2") && seg_is(segments, 2, "Groups") {
        Route::ScimDeleteGroup
    } else {
        Route::ScimNotFound
    }
}

/// The route of a request under `/run`.
pub open spec fn run_route_of(m: HttpMethod, s: Seq<Seq<char>>) -> Route {
    if m == HttpMethod::Post && s.len() == 1 {
        Route::Run
    } else if m == HttpMethod::Post && s.len() == 2 && s[1] == "stream"@ {
        Route::RunStream
    } else {
        Route::NotFound
    }
}

fn route_run(method: HttpMethod, segments: &Vec<String>) -> (r: Route)
    ensures
        r == run_route_of(method, views(segments@)),
{
    let n = segments.len();
    if method == HttpMethod::Post && n == 1 {
        Route::Run
    } else if method == HttpMethod::Post && n == 2 && seg_is(segments, 1, "stream") {
        Route::RunStream
    } else {
        Route::NotFound
    }
}

/// The route of a request under `/batch`.
pub open spec fn batch_route_of(m: HttpMethod, s: Seq<Seq<char>>) -> Route {
    if m == HttpMethod::Post && s.len() == 2 && s[1] == "run"@ {
        Route::BatchRun
    } else {
        Route::NotFound
    }
}

fn route_batch(method: HttpMethod, segments: &Vec<String>) -> (r: Route)
    ensures
        r == batch_route_of(method, views(segments@)),
{
    let n = segments.len();
    if method == HttpMethod::Post && n == 2 && seg_is(segments, 1, "run") {
        Route::BatchRun
    } else {
        Route::NotFound
    }
}

/// The route of a request under `/orchestrations`.
pub open spec fn orchestrations_route_of(m: HttpMethod, s: Seq<Seq<char>>) -> Route {
    if m == HttpMethod::Post && s.len() == 1 {
        Route::CreateOrchestration
    } else if m == HttpMethod::Get && s.len() == 1 {
        Route::ListOrchestrations
    } else if m == HttpMethod::Post && s.len() == 2 && s[1] == "definitions"@ {
        Route::PutOrchestrationDefinition
    } else if m == HttpMethod::Get && s.len() == 2 && s[1] == "definitions"@ {
        Route::ListOrchestrationDefinitions
    } else if m == HttpMethod::Get && s.len() == 3 && s[1] == "definitions"@ {
        Route::GetOrchestrationDefinition
    } else if m == HttpMethod::Delete && s.len() == 3 && s[1] == "definitions"@ {
        Route::DeleteOrchestrationDefinition
    } else if m == HttpMethod::Get && s.len() == 2 {
        Route::GetOrchestration
    } else if m == HttpMethod::Post && s.len() == 3 && s[2] == "events"@ {
        Route::RaiseOrchestrationEvent
    } else if m == HttpMethod::Post && s.len() == 3 && s[2] == "terminate"@ {
        Route::TerminateOrchestration
    } else if m == HttpMethod::Patch && s.len() == 2 {
        Route::UpdateOrchestration
    } else if m == HttpMethod::Delete && s.len() == 2 {
        Route::DeleteOrchestration
    } else {
        Route::NotFound
    }
}

fn route_orchestrations(method: HttpMethod, segments: &Vec<String>) -> (r: Route)
    ensures
        r == orchestrations_route_of(method, views(segments@)),
{
    let n = segments.len();
    if method == HttpMethod::Post && n == 1 {
        Route::CreateOrchestration
    } else if method == HttpMethod::Get && n == 1 {
        Route::ListOrchestrations
    } else if method == HttpMethod::Post && n == 2 && seg_is(segments, 1, "definitions") {
        Route::PutOrchestrationDefinition
    } else if method == HttpMethod::Get && n == 2 && seg_is(segments, 1, "definitions") {
        Route::ListOrchestrationDefinitions
    } else if method == HttpMethod::Get && n == 3 && seg_is(segments, 1, "definitions") {
        Route::GetOrchestrationDefinition
    } else if method == HttpMethod::Delete && n == 3 && seg_is(segments, 1, "definitions") {
        Route::DeleteOrchestrationDefinition
    } else if method == HttpMethod::Get && n == 2 {
        Route::GetOrchestration
    } else if method == HttpMethod::Post && n == 3 && seg_is(segments, 2, "events") {
        Route::RaiseOrchestrationEvent
    } else if method == HttpMethod::Post && n == 3 && seg_is(segments, 2, "terminate") {
        Route::TerminateOrchestration
    } else if method == HttpMethod::Patch && n == 2 {
        Route::UpdateOrchestration
    } else if method == HttpMethod::Delete && n == 2 {
        Route::DeleteOrchestration
    } else {
        Route::NotFound
    }
}

/// The route of a request under `/tasks`.
pub open spec fn tasks_route_of(m: HttpMethod, s: Seq<Seq<char>>) -> Route {
    if m == HttpMethod::Post && s.len() == 1 {
        Route::CreateTask
    } else if m == HttpMethod::Get && s.len() == 1 {
        Route::ListTasks
    } else if m == HttpMethod::Get && s.len() == 2 {
        Route::GetTask
    } else if m == HttpMethod::Delete && s.len() == 2 {
        Route::CancelTask
    } else {
        Route::NotFound
    }
}

fn route_tasks(method: HttpMethod, segments: &Vec<String>) -> (r: Route)
    ensures
        r == tasks_route_of(method, views(segments@)),
{
    let n = segments.len();
    if method == HttpMethod::Post && n == 1 {
        Route::CreateTask
    } else if method == HttpMethod::Get && n == 1 {
        Route::ListTasks
    } else if method == HttpMethod::Get && n == 2 {
        Route::GetTask
    } else if method == HttpMethod::Delete && n == 2 {
        Route::CancelTask
    } else {
        Route::NotFound
    }
}

/// The route of a request under `/stores`.
pub open spec fn stores_route_of(m: HttpMethod, s: Seq<Seq<char>>) -> Route {
    if m == HttpMethod::Get && s.len() == 1 {
        Route::ListStores
    } else if m == HttpMethod::Post && s.len() == 1 {
        Route::CreateStore
    } else if m == HttpMethod::Post && s.len() == 3 && s[2] == "query"@ {
        Route::QueryStore
    } else if m == HttpMethod::Post && s.len() == 3 && s[2] == "execute"@ {
        Route::ExecuteStore
    } else if m == HttpMethod::Post && s.len() == 3 && s[2] == "command"@ {
        Route::CommandStore
    } else if m == HttpMethod::Get && s.len() == 2 {
        Route::GetStore
    } else if m == HttpMethod::Delete && s.len() == 2 {
        Route::DeleteStore
    } else {
        Route::NotFound
    }
}

fn route_stores(method: HttpMethod, segments: &Vec<String>) -> (r: Route)
    ensures
        r == stores_route_of(method, views(segments@)),
{
    let n = segments.len();
    if method == HttpMethod::Get && n == 1 {
        Route::ListStores
    } else if method == HttpMethod::Post && n == 1 {
        Route::CreateStore
    } else if method == HttpMethod::Post && n == 3 && seg_is(segments, 2, "query") {
        Route::QueryStore
    } else if method == HttpMethod::Post && n == 3 && seg_is(segments, 2, "execute") {
        Route::ExecuteStore
    } else if method == HttpMethod::Post && n == 3 && seg_is(segments, 2, "command") {
        Route::CommandStore
    } else if method == HttpMethod::Get && n == 2 {
        Route::GetStore
    } else if method == HttpMethod::Delete && n == 2 {
        Route::DeleteStore
    } else {
        Route::NotFound
    }
}

/// The route of a request under `/objects`.
pub open spec fn objects_route_of(m: HttpMethod, s: Seq<Seq<char>>) -> Route {
    if m == HttpMethod::Get && s.len() == 1 {
        Route::ListObjects
    } else if m == HttpMethod::Post && s.len() == 1 {
        Route::CreateObject
    } else if m == HttpMethod::Get && s.len() == 2 {
        Route::GetObject
    } else if m == HttpMethod::Delete && s.len() == 2 {
        Route::DeleteObject
    } else if m == HttpMethod::Patch && s.len() == 2 {
        Route::PatchObject
    } else if m == HttpMethod::Post && s.len() == 5 && s[3] == "call"@ {
        Route::CallObject
    } else if m == HttpMethod::Post && s.len() == 4 && s[3] == "alarm"@ {
        Route::ObjectAlarm
    } else {
        Route::NotFound
    }
}

fn route_objects(method: HttpMethod, segments: &Vec<String>) -> (r: Route)
    ensures
        r == objects_route_of(method, views(segments@)),
{
    let n = segments.len();
    if method == HttpMethod::Get && n == 1 {
        Route::ListObjects
    } else if method == HttpMethod::Post && n == 1 {
        Route::CreateObject
    } else if method == HttpMethod::Get && n == 2 {
        Route::GetObject
    } else if method == HttpMethod::Delete && n == 2 {
        Route::DeleteObject
    } else if method == HttpMethod::Patch && n == 2 {
        Route::PatchObject
    } else if method == HttpMethod::Post && n == 5 && seg_is(segments, 3, "call") {
        Route::CallObject
    } else if method == HttpMethod::Post && n == 4 && seg_is(segments, 3, "alarm") {
        Route::ObjectAlarm
    } else {
        Route::NotFound
    }
}

/// The route of a request under `/schedules`.
pub open spec fn schedules_route_of(m: HttpMethod, s: Seq<Seq<char>>) -> Route {
    if m == HttpMethod::Get && s.len() == 2 && s[1] == "configured"@ {
        Route::ListConfiguredSchedules
    } else if m == HttpMethod::Get && s.len() == 3 && s[1] == "configured"@ {
        Route::GetConfiguredSchedule
    } else if m == HttpMethod::Get && s.len() == 4 && s[1] == "configured"@ && s[3] == "status"@ {
        Route::ConfiguredScheduleStatus
    } else if m == HttpMethod::Post && s.len() == 4 && s[1] == "configured"@ && s[3] == "trigger"@ {
        Route::TriggerConfiguredSchedule
    } else if m == HttpMethod::Get && s.len() == 1 {
        Route::ListSchedules
    } else if m == HttpMethod::Post && s.len() == 1 {
        Route::CreateSchedule
    } else if m == HttpMethod::Get && s.len() == 2 {
        Route::GetSchedule
    } else if m == HttpMethod::Get && s.len() == 3 && s[2] == "status"@ {
        Route::ScheduleStatus
    } else if m == HttpMethod::Delete && s.len() == 2 {
        Route::DeleteSchedule
    } else if m == HttpMethod::Post && s.len() == 3 && s[2] == "trigger"@ {
        Route::TriggerSchedule
    } else {
        Route::NotFound
    }
}

fn route_schedules(method: HttpMethod, segments: &Vec<String>) -> (r: Route)
    ensures
        r == schedules_route_of(method, views(segments@)),
{
    let n = segments.len();
    if method == HttpMethod::Get && n == 2 && seg_is(segments, 1, "configured") {
        Route::ListConfiguredSchedules
    } else if method == HttpMethod::Get && n == 3 && seg_is(segments, 1, "configured") {
        Route::GetConfiguredSchedule
    } else if method == HttpMethod::Get && n == 4 && seg_is(segments, 1, "configured") && seg_is(segments, 3, "status") {
        Route::ConfiguredScheduleStatus
    } else if method == HttpMethod::Post && n == 4 && seg_is(segments, 1, "configured") && seg_is(segments, 3, "trigger") {
        Route::TriggerConfiguredSchedule
    } else if method == HttpMethod::Get && n == 1 {
        Route::ListSchedules
    } else if method == HttpMethod::Post && n == 1 {
        Route::CreateSchedule
    } else if method == HttpMethod::Get && n == 2 {
        Route::GetSchedule
    } else if method == HttpMethod::Get && n == 3 && seg_is(segments, 2, "status") {
        Route::ScheduleStatus
    } else if method == HttpMethod::Delete && n == 2 {
        Route::DeleteSchedule
    } else if method == HttpMethod::Post && n == 3 && seg_is(segments, 2, "trigger") {
        Route::TriggerSchedule
    } else {
        Route::NotFound
    }
}

/// The route of a request under `/sandboxes`.
pub open spec fn sandboxes_route_of(m: HttpMethod, s: Seq<Seq<char>>) -> Route {
    if m == HttpMethod::Get && s.len() == 1 {
        Route::ListSandboxes
    } else if m == HttpMethod::Post && s.len() == 1 {
        Route::CreateSandbox
    } else if m == HttpMethod::Get && s.len() == 3 && s[1] == "by-uuid"@ {
        Route::GetSandboxByUuid
    } else if m == HttpMethod::Get && s.len() == 2 {
        Route::GetSandbox
    } else if m == HttpMethod::Post && s.len() == 3 && s[2] == "exec"@ {
        Route::ExecSandbox
    } else if m == HttpMethod::Get && s.len() == 4 && s[2] == "git"@ && s[3] == "status"@ {
        Route::GitStatus
    } else if m == HttpMethod::Get && s.len() == 4 && s[2] == "git"@ && s[3] == "branches"@ {
        Route::GitBranches
    } else if m == HttpMethod::Post && s.len() == 4 && s[2] == "git"@ && s[3] == "add"@ {
        Route::GitAdd
    } else if m == HttpMethod::Post && s.len() == 4 && s[2] == "git"@ && s[3] == "commit"@ {
        Route::GitCommit
    } else if m == HttpMethod::Post && s.len() == 4 && s[2] == "git"@ && s[3] == "pull"@ {
        Route::GitPull
    } else if m == HttpMethod::Post && s.len() == 4 && s[2] == "git"@ && s[3] == "push"@ {
        Route::GitPush
    } else if m == HttpMethod::Post && s.len() == 4 && s[2] == "exec"@ && s[3] == "detach"@ {
        Route::ExecDetach
    } else if m == HttpMethod::Get && s.len() == 4 && s[2] == "exec"@ && s[3] == "detached"@ {
        Route::ListDetached
    } else if m == HttpMethod::Get && s.len() == 5 && s[2] == "exec"@ && s[3] == "detached"@ {
        Route::DetachedStatus
    } else if m == HttpMethod::Get && s.len() == 6 && s[2] == "exec"@ && s[3] == "detached"@ && s[5] == "logs"@ {
        Route::DetachedLogs
    } else if m == HttpMethod::Delete && s.len() == 5 && s[2] == "exec"@ && s[3] == "detached"@ {
        Route::KillDetached
    } else if m == HttpMethod::Get && s.len() == 3 && s[2] == "logs"@ {
        Route::SandboxLogs
    } else if m == HttpMethod::Post && s.len() == 3 && s[2] == "files"@ {
        Route::BatchFileWrite
    } else if m == HttpMethod::Get && s.len() >= 3 && s[2] == "files"@ {
        Route::ReadFile
    } else if m == HttpMethod::Put && s.len() >= 3 && s[2] == "files"@ {
        Route::WriteFile
    } else if m == HttpMethod::Delete && s.len() >= 3 && s[2] == "files"@ {
        Route::DeleteFile
    } else if m == HttpMethod::Delete && s.len() == 2 {
        Route::DeleteSandbox
    } else if m == HttpMethod::Post && s.len() == 3 && s[2] == "start"@ {
        Route::StartSandbox
    } else if m == HttpMethod::Post && s.len() == 3 && s[2] == "stop"@ {
        Route::StopSandbox
    } else if m == HttpMethod::Post && s.len() == 3 && s[2] == "pause"@ {
        Route::PauseSandbox
    } else if m == HttpMethod::Post && s.len() == 3 && s[2] == "resume"@ {
        Route::ResumeSandbox
    } else if m == HttpMethod::Post && s.len() == 3 && s[2] == "fork"@ {
        Route::ForkSandbox
    } else if m == HttpMethod::Post && s.len() == 3 && s[2] == "extend"@ {
        Route::ExtendTtl
    } else if m == HttpMethod::Post && s.len() == 3 && s[2] == "resize"@ {
        Route::ResizeSandbox
    } else if m == HttpMethod::Post && s.len() == 3 && s[2] == "recover"@ {
        Route::RecoverSandbox
    } else if m == HttpMethod::Patch && s.len() == 2 {
        Route::PatchSandbox
    } else if m == HttpMethod::Post && s.len() == 4 && s[2] == "browser"@ && s[3] == "start"@ {
        Route::BrowserStart
    } else if m == HttpMethod::Get && s.len() == 4 && s[2] == "browser"@ && s[3] == "pages"@ {
        Route::BrowserListPages
    } else if m == HttpMethod::Post && s.len() == 4 && s[2] == "browser"@ && s[3] == "pages"@ {
        Route::BrowserCreatePage
    } else if m == HttpMethod::Delete && s.len() == 5 && s[2] == "browser"@ && s[3] == "pages"@ {
        Route::BrowserClosePage
    } else if m == HttpMethod::Post && s.len() == 6 && s[2] == "browser"@ && s[3] == "pages"@ && s[5] == "goto"@ {
        Route::BrowserGoto
    } else if m == HttpMethod::Get && s.len() == 6 && s[2] == "browser"@ && s[3] == "pages"@ && s[5] == "snapshot"@ {
        Route::BrowserSnapshot
    } else if m == HttpMethod::Get && s.len() == 6 && s[2] == "browser"@ && s[3] == "pages"@ && s[5] == "content"@ {
        Route::BrowserContent
    } else if m == HttpMethod::Post && s.len() == 6 && s[2] == "browser"@ && s[3] == "pages"@ && s[5] == "click"@ {
        Route::BrowserClick
    } else if m == HttpMethod::Post && s.len() == 6 && s[2] == "browser"@ && s[3] == "pages"@ && s[5] == "fill"@ {
        Route::BrowserFill
    } else if m == HttpMethod::Post && s.len() == 6 && s[2] == "browser"@ && s[3] == "pages"@ && s[5] == "screenshot"@ {
        Route::BrowserScreenshot
    } else if m == HttpMethod::Post && s.len() == 6 && s[2] == "browser"@ && s[3] == "pages"@ && s[5] == "evaluate"@ {
        Route::BrowserEvaluate
    } else if m == HttpMethod::Get && s.len() == 4 && s[2] == "browser"@ && s[3] == "events"@ {
        Route::BrowserEvents
    } else if m == HttpMethod::Get && s.len() == 3 && s[2] == "config"@ {
        Route::ExportSandboxConfig
    } else if m == HttpMethod::Post && s.len() == 2 && s[1] == "import-config"@ {
        Route::ImportSandboxConfig
    } else if m == HttpMethod::Post && s.len() == 3 && s[2] == "config"@ {
        Route::ImportNamedSandboxConfig
    } else {
        Route::NotFound
    }
}

fn route_sandboxes(method: HttpMethod, segments: &Vec<String>) -> (r: Route)
    ensures
        r == sandboxes_route_of(method, views(segments@)),
{
    let n = segments.len();
    if method == HttpMethod::Get && n == 1 {
        Route::ListSandboxes
    } else if method == HttpMethod::Post && n == 1 {
        Route::CreateSandbox
    } else if method == HttpMethod::Get && n == 3 && seg_is(segments, 1, "by-uuid") {
        Route::GetSandboxByUuid
    } else if method == HttpMethod::Get && n == 2 {
        Route::GetSandbox
    } else if method == HttpMethod::Post && n == 3 && seg_is(segments, 2, "exec") {
        Route::ExecSandbox
    } else if method == HttpMethod::Get && n == 4 && seg_is(segments, 2, "git") && seg_is(segments, 3, "status") {
        Route::GitStatus
    } else if method == HttpMethod::Get && n == 4 && seg_is(segments, 2, "git") && seg_is(segments, 3, "branches") {
        Route::GitBranches
    } else if method == HttpMethod::Post && n == 4 && seg_is(segments, 2, "git") && seg_is(segments, 3, "add") {
        Route::GitAdd
    } else if method == HttpMethod::Post && n == 4 && seg_is(segments, 2, "git") && seg_is(segments, 3, "commit") {
        Route::GitCommit
    } else if method == HttpMethod::Post && n == 4 && seg_is(segments, 2, "git") && seg_is(segments, 3, "pull") {
        Route::GitPull
    } else if method == HttpMethod::Post && n == 4 && seg_is(segments, 2, "git") && seg_is(segments, 3, "push") {
        Route::GitPush
    } else if method == HttpMethod::Post && n == 4 && seg_is(segments, 2, "exec") && seg_is(segments, 3, "detach") {
        Route::ExecDetach
    } else if method == HttpMethod::Get && n == 4 && seg_is(segments, 2, "exec") && seg_is(segments, 3, "detached") {
        Route::ListDetached
    } else if method == HttpMethod::Get && n == 5 && seg_is(segments, 2, "exec") && seg_is(segments, 3, "detached") {
        Route::DetachedStatus
    } else if method == HttpMethod::Get && n == 6 && seg_is(segments, 2, "exec") && seg_is(segments, 3, "detached") && seg_is(segments, 5, "logs") {
        Route::DetachedLogs
    } else if method == HttpMethod::Delete && n == 5 && seg_is(segments, 2, "exec") && seg_is(segments, 3, "detached") {
        Route::KillDetached
    } else if method == HttpMethod::Get && n == 3 && seg_is(segments, 2, "logs") {
        Route::SandboxLogs
    } else if method == HttpMethod::Post && n == 3 && seg_is(segments, 2, "files") {
        Route::BatchFileWrite
    } else if method == HttpMethod::Get && n >= 3 && seg_is(segments, 2, "files") {
        Route::ReadFile
    } else if method == HttpMethod::Put && n >= 3 && seg_is(segments, 2, "files") {
        Route::WriteFile
    } else if method == HttpMethod::Delete && n >= 3 && seg_is(segments, 2, "files") {
        Route::DeleteFile
    } else if method == HttpMethod::Delete && n == 2 {
        Route::DeleteSandbox
    } else if method == HttpMethod::Post && n == 3 && seg_is(segments, 2, "start") {
        Route::StartSandbox
    } else if method == HttpMethod::Post && n == 3 && seg_is(segments, 2, "stop") {
        Route::StopSandbox
    } else if method == HttpMethod::Post && n == 3 && seg_is(segments, 2, "pause") {
        Route::PauseSandbox
    } else if method == HttpMethod::Post && n == 3 && seg_is(segments, 2, "resume") {
        Route::ResumeSandbox
    } else if method == HttpMethod::Post && n == 3 && seg_is(segments, 2, "fork") {
        Route::ForkSandbox
    } else if method == HttpMethod::Post && n == 3 && seg_is(segments, 2, "extend") {
        Route::ExtendTtl
    } else if method == HttpMethod::Post && n == 3 && seg_is(segments, 2, "resize") {
        Route::ResizeSandbox
    } else if method == HttpMethod::Post && n == 3 && seg_is(segments, 2, "recover") {
        Route::RecoverSandbox
    } else if method == HttpMethod::Patch && n == 2 {
        Route::PatchSandbox
    } else if method == HttpMethod::Post && n == 4 && seg_is(segments, 2, "browser") && seg_is(segments, 3, "start") {
        Route::BrowserStart
    } else if method == HttpMethod::Get && n == 4 && seg_is(segments, 2, "browser") && seg_is(segments, 3, "pages") {
        Route::BrowserListPages
    } else if method == HttpMethod::Post && n == 4 && seg_is(segments, 2, "browser") && seg_is(segments, 3, "pages") {
        Route::BrowserCreatePage
    } else if method == HttpMethod::Delete && n == 5 && seg_is(segments, 2, "browser") && seg_is(segments, 3, "pages") {
        Route::BrowserClosePage
    } else if method == HttpMethod::Post && n == 6 && seg_is(segments, 2, "browser") && seg_is(segments, 3, "pages") && seg_is(segments, 5, "goto") {
        Route::BrowserGoto
    } else if method == HttpMethod::Get && n == 6 && seg_is(segments, 2, "browser") && seg_is(segments, 3, "pages") && seg_is(segments, 5, "snapshot") {
        Route::BrowserSnapshot
    } else if method == HttpMethod::Get && n == 6 && seg_is(segments, 2, "browser") && seg_is(segments, 3, "pages") && seg_is(segments, 5, "content") {
        Route::BrowserContent
    } else if method == HttpMethod::Post && n == 6 && seg_is(segments, 2, "browser") && seg_is(segments, 3, "pages") && seg_is(segments, 5, "click") {
        Route::BrowserClick
    } else if method == HttpMethod::Post && n == 6 && seg_is(segments, 2, "browser") && seg_is(segments, 3, "pages") && seg_is(segments, 5, "fill") {
        Route::BrowserFill
    } else if method == HttpMethod::Post && n == 6 && seg_is(segments, 2, "browser") && seg_is(segments, 3, "pages") && seg_is(segments, 5, "screenshot") {
        Route::BrowserScreenshot
    } else if method == HttpMethod::Post && n == 6 && seg_is(segments, 2, "browser") && seg_is(segments, 3, "pages") && seg_is(segments, 5, "evaluate") {
        Route::BrowserEvaluate
    } else if method == HttpMethod::Get && n == 4 && seg_is(segments, 2, "browser") && seg_is(segments, 3, "events") {
        Route::BrowserEvents
    } else if method == HttpMethod::Get && n == 3 && seg_is(segments, 2, "config") {
        Route::ExportSandboxConfig
    } else if method == HttpMethod::Post && n == 2 && seg_is(segments, 1, "import-config") {
        Route::ImportSandboxConfig
    } else if method == HttpMethod::Post && n == 3 && seg_is(segments, 2, "config") {
        Route::ImportNamedSandboxConfig
    } else {
        Route::NotFound
    }
}

/// The route of a request under `/backends`.
pub open spec fn backends_route_of(m: HttpMethod, s: Seq<Seq<char>>) -> Route {
    if m == HttpMethod::Get && s.len() == 1 {
        Route::ListBackends
    } else {
        Route::NotFound
    }
}

fn route_backends(method: HttpMethod, segments: &Vec<String>) -> (r: Route)
    ensures
        r == backends_route_of(method, views(segments@)),
{
    let n = segments.len();
    if method == HttpMethod::Get && n == 1 {
        Route::ListBackends
    } else {
        Route::NotFound
    }
}

/// The route of a request under `/snapshots`.
pub open spec fn snapshots_route_of(m: HttpMethod, s: Seq<Seq<char>>) -> Route {
    if m == HttpMethod::Get && s.len() == 1 {
        Route::ListSnapshots
    } else if m == HttpMethod::Post && s.len() == 1 {
        Route::TakeSnapshot
    } else if m == HttpMethod::Get && s.len() == 2 {
        Route::GetSnapshot
    } else if m == HttpMethod::Delete && s.len() == 2 {
        Route::DeleteSnapshot
    } else if m == HttpMethod::Post && s.len() == 3 && s[2] == "restore"@ {
        Route::RestoreSnapshot
    } else {
        Route::NotFound
    }
}

fn route_snapshots(method: HttpMethod, segments: &Vec<String>) -> (r: Route)
    ensures
        r == snapshots_route_of(method, views(segments@)),
{
    let n = segments.len();
    if method == HttpMethod::Get && n == 1 {
        Route::ListSnapshots
    } else if method == HttpMethod::Post && n == 1 {
        Route::TakeSnapshot
    } else if method == HttpMethod::Get && n == 2 {
        Route::GetSnapshot
    } else if method == HttpMethod::Delete && n == 2 {
        Route::DeleteSnapshot
    } else if method == HttpMethod::Post && n == 3 && seg_is(segments, 2, "restore") {
        Route::RestoreSnapshot
    } else {
        Route::NotFound
    }
}

/// The route of a request under `/audit`.
pub open spec fn audit_route_of(m: HttpMethod, s: Seq<Seq<char>>) -> Route {
    if m == HttpMethod::Get && s.len() == 1 {
        Route::AuditLog
    } else {
        Route::NotFound
    }
}

fn route_audit(method: HttpMethod, segments: &Vec<String>) -> (r: Route)
    ensures
        r == audit_route_of(method, views(segments@)),
{
    let n = segments.len();
    if method == HttpMethod::Get && n == 1 {
        Route::AuditLog
    } else {
        Route::NotFound
    }
}

/// The route of a request under `/status`.
pub open spec fn status_route_of(m: HttpMethod, s: Seq<Seq<char>>) -> Route {
    if m == HttpMethod::Get && s.len() == 1 {
        Route::Status
    } else {
        Route::NotFound
    }
}

fn route_status(method: HttpMethod, segments: &Vec<String>) -> (r: Route)
    ensures
        r == status_route_of(method, views(segments@)),
{
    let n = segments.len();
    if method == HttpMethod::Get && n == 1 {
        Route::Status
    } else {
        Route::NotFound
    }
}

/// The route of a request under `/stats`.
pub open spec fn stats_route_of(m: HttpMethod, s: Seq<Seq<char>>) -> Route {
    if m == HttpMethod::Get && s.len() == 1 {
        Route::Stats
    } else {
        Route::NotFound
    }
}

fn route_stats(method: HttpMethod, segments: &Vec<String>) -> (r: Route)
    ensures
        r == stats_route_of(method, views(segments@)),
{
    let n = segments.len();
    if method == HttpMethod::Get && n == 1 {
        Route::Stats
    } else {
        Route::NotFound
    }
}

/// The route of a request under `/doctor`.
pub open spec fn doctor_route_of(m: HttpMethod, s: Seq<Seq<char>>) -> Route {
    if m == HttpMethod::Get && s.len() == 1 {
        Route::Doctor
    } else {
        Route::NotFound
    }
}

fn route_doctor(method: HttpMethod, segments: &Vec<String>) -> (r: Route)
    ensures
        r == doctor_route_of(method, views(segments@)),
{
    let n = segments.len();
    if method == HttpMethod::Get && n == 1 {
        Route::Doctor
    } else {
        Route::NotFound
    }
}

/// The route of a request under `/secrets`.
pub open spec fn secrets_route_of(m: HttpMethod, s: Seq<Seq<char>>) -> Route {
    if m == HttpMethod::Get && s.len() == 1 {
        Route::ListSecrets
    } else if m == HttpMethod::Post && s.len() == 1 {
        Route::CreateSecret
    } else if m == HttpMethod::Delete && s.len() == 2 {
        Route::DeleteSecret
    } else {
        Route::NotFound
    }
}

fn route_secrets(method: HttpMethod, segments: &Vec<String>) -> (r: Route)
    ensures
        r == secrets_route_of(method, views(segments@)),
{
    let n = segments.len();
    if method == HttpMethod::Get && n == 1 {
        Route::ListSecrets
    } else if method == HttpMethod::Post && n == 1 {
        Route::CreateSecret
    } else if method == HttpMethod::Delete && n == 2 {
        Route::DeleteSecret
    } else {
        Route::NotFound
    }
}

/// The route of a request under `/proxy`.
pub open spec fn proxy_route_of(m: HttpMethod, s: Seq<Seq<char>>) -> Route {
    if m == HttpMethod::Get && s.len() == 2 && s[1] == "hooks"@ {
        Route::ListProxyHooks
    } else if m == HttpMethod::Post && s.len() == 2 && s[1] == "hooks"@ {
        Route::RegisterProxyHook
    } else if m == HttpMethod::Delete && s.len() == 3 && s[1] == "hooks"@ {
        Route::RemoveProxyHook
    } else {
        Route::NotFound
    }
}

fn route_proxy(method: HttpMethod, segments: &Vec<String>) -> (r: Route)
    ensures
        r == proxy_route_of(method, views(segments@)),
{
    let n = segments.len();
    if method == HttpMethod::Get && n == 2 && seg_is(segments, 1, "hooks") {
        Route::ListProxyHooks
    } else if method == HttpMethod::Post && n == 2 && seg_is(segments, 1, "hooks") {
        Route::RegisterProxyHook
    } else if method == HttpMethod::Delete && n == 3 && seg_is(segments, 1, "hooks") {
        Route::RemoveProxyHook
    } else {
        Route::NotFound
    }
}

/// The route of a request under `/llm`.
pub open spec fn llm_route_of(m: HttpMethod, s: Seq<Seq<char>>) -> Route {
    if m == HttpMethod::Get && s.len() == 2 && s[1] == "usage"@ {
        Route::LlmUsageAll
    } else if m == HttpMethod::Get && s.len() == 3 && s[1] == "usage"@ {
        Route::LlmUsageSandbox
    } else if m == HttpMethod::Get && s.len() == 2 && s[1] == "spend"@ {
        Route::LlmSpend
    } else if m == HttpMethod::Get && s.len() == 2 && s[1] == "keys"@ {
        Route::ListLlmKeys
    } else if m == HttpMethod::Put && s.len() == 3 && s[1] == "keys"@ {
        Route::SetLlmKey
    } else if m == HttpMethod::Delete && s.len() == 3 && s[1] == "keys"@ {
        Route::RemoveLlmKey
    } else {
        Route::NotFound
    }
}

fn route_llm(method: HttpMethod, segments: &Vec<String>) -> (r: Route)
    ensures
        r == llm_route_of(method, views(segments@)),
{
    let n = segments.len();
    if method == HttpMethod::Get && n == 2 && seg_is(segments, 1, "usage") {
        Route::LlmUsageAll
    } else if method == HttpMethod::Get && n == 3 && seg_is(segments, 1, "usage") {
        Route::LlmUsageSandbox
    } else if method == HttpMethod::Get && n == 2 && seg_is(segments, 1, "spend") {
        Route::LlmSpend
    } else if method == HttpMethod::Get && n == 2 && seg_is(segments, 1, "keys") {
        Route::ListLlmKeys
    } else if method == HttpMethod::Put && n == 3 && seg_is(segments, 1, "keys") {
        Route::SetLlmKey
    } else if method == HttpMethod::Delete && n == 3 && seg_is(segments, 1, "keys") {
        Route::RemoveLlmKey
    } else {
        Route::NotFound
    }
}

/// The route of a request under `/gc`.
pub open spec fn gc_route_of(m: HttpMethod, s: Seq<Seq<char>>) -> Route {
    if m == HttpMethod::Post && s.len() == 1 {
        Route::Gc
    } else {
        Route::NotFound
    }
}

fn route_gc(method: HttpMethod, segments: &Vec<String>) -> (r: Route)
    ensures
        r == gc_route_of(method, views(segments@)),
{
    let n = segments.len();
    if method == HttpMethod::Post && n == 1 {
        Route::Gc
    } else {
        Route::NotFound
    }
}

/// The route of a request under `/lifecycle`.
pub open spec fn lifecycle_route_of(m: HttpMethod, s: Seq<Seq<char>>) -> Route {
    if m == HttpMethod::Post && s.len() == 2 && s[1] == "reconcile"@ {
        Route::ReconcileLifecycle
    } else {
        Route::NotFound
    }
}

fn route_lifecycle(method: HttpMethod, segments: &Vec<String>) -> (r: Route)
    ensures
        r == lifecycle_route_of(method, views(segments@)),
{
    let n = segments.len();
    if method == HttpMethod::Post && n == 2 && seg_is(segments, 1, "reconcile") {
        Route::ReconcileLifecycle
    } else {
        Route::NotFound
    }
}

/// The route of a request under `/agents`.
pub open spec fn agents_route_of(m: HttpMethod, s: Seq<Seq<char>>) -> Route {
    if m == HttpMethod::Get && s.len() == 1 {
        Route::ListAgents
    } else if m == HttpMethod::Post && s.len() == 3 && s[2] == "integration"@ {
        Route::InstallAgentIntegration
    } else {
        Route::NotFound
    }
}

fn route_agents(method: HttpMethod, segments: &Vec<String>) -> (r: Route)
    ensures
        r == agents_route_of(method, views(segments@)),
{
    let n = segments.len();
    if method == HttpMethod::Get && n == 1 {
        Route::ListAgents
    } else if method == HttpMethod::Post && n == 3 && seg_is(segments, 2, "integration") {
        Route::InstallAgentIntegration
    } else {
        Route::NotFound
    }
}

/// The route of a request under `/images`.
pub open spec fn images_route_of(m: HttpMethod, s: Seq<Seq<char>>) -> Route {
    if m == HttpMethod::Get && s.len() == 1 {
        Route::ListImages
    } else if m == HttpMethod::Get && s.len() == 2 && s[1] == "usage"@ {
        Route::ImageDiskUsage
    } else if m == HttpMethod::Post && s.len() == 2 && s[1] == "pull"@ {
        Route::PullImage
    } else if m == HttpMethod::Post && s.len() == 2 && s[1] == "prune"@ {
        Route::PruneImages
    } else if m == HttpMethod::Delete && s.len() == 2 {
        Route::DeleteImage
    } else {
        Route::NotFound
    }
}

fn route_images(method: HttpMethod, segments: &Vec<String>) -> (r: Route)
    ensures
        r == images_route_of(method, views(segments@)),
{
    let n = segments.len();
    if method == HttpMethod::Get && n == 1 {
        Route::ListImages
    } else if method == HttpMethod::Get && n == 2 && seg_is(segments, 1, "usage") {
        Route::ImageDiskUsage
    } else if method == HttpMethod::Post && n == 2 && seg_is(segments, 1, "pull") {
        Route::PullImage
    } else if method == HttpMethod::Post && n == 2 && seg_is(segments, 1, "prune") {
        Route::PruneImages
    } else if method == HttpMethod::Delete && n == 2 {
        Route::DeleteImage
    } else {
        Route::NotFound
    }
}

/// The route of a request under `/benchmark`.
pub open spec fn benchmark_route_of(m: HttpMethod, s: Seq<Seq<char>>) -> Route {
    if m == HttpMethod::Post && s.len() == 1 {
        Route::Benchmark
    } else {
        Route::NotFound
    }
}

fn route_benchmark(method: HttpMethod, segments: &Vec<String>) -> (r: Route)
    ensures
        r == benchmark_route_of(method, views(segments@)),
{
    let n = segments.len();
    if method == HttpMethod::Post && n == 1 {
        Route::Benchmark
    } else {
        Route::NotFound
    }
}

/// The route of a request under `/sessions`.
pub open spec fn sessions_route_of(m: HttpMethod, s: Seq<Seq<char>>) -> Route {
    if m == HttpMethod::Get && s.len() == 1 {
        Route::ListRecordings
    } else if m == HttpMethod::Get && s.len() == 2 {
        Route::GetRecording
    } else if m == HttpMethod::Get && s.len() == 3 && s[2] == "cast"@ {
        Route::GetRecordingCast
    } else {
        Route::NotFound
    }
}

fn route_sessions(method: HttpMethod, segments: &Vec<String>) -> (r: Route)
    ensures
        r == sessions_route_of(method, views(segments@)),
{
    let n = segments.len();
    if method == HttpMethod::Get && n == 1 {
        Route::ListRecordings
    } else if method == HttpMethod::Get && n == 2 {
        Route::GetRecording
    } else if method == HttpMethod::Get && n == 3 && seg_is(segments, 2, "cast") {
        Route::GetRecordingCast
    } else {
        Route::NotFound
    }
}

/// The route of a request under `/permissions`.
pub open spec fn permissions_route_of(m: HttpMethod, s: Seq<Seq<char>>) -> Route {
    if m == HttpMethod::Get && s.len() == 1 {
        Route::ListPermissions
    } else if m == HttpMethod::Post && s.len() == 2 && s[1] == "grant"@ {
        Route::GrantPermission
    } else if m == HttpMethod::Delete && s.len() == 2 {
        Route::RevokePermission
    } else if m == HttpMethod::Post && s.len() == 2 && s[1] == "check"@ {
        Route::CheckPermission
    } else {
        Route::NotFound
    }
}

fn route_permissions(method: HttpMethod, segments: &Vec<String>) -> (r: Route)
    ensures
        r == permissions_route_of(method, views(segments@)),
{
    let n = segments.len();
    if method == HttpMethod::Get && n == 1 {
        Route::ListPermissions
    } else if method == HttpMethod::Post && n == 2 && seg_is(segments, 1, "grant") {
        Route::GrantPermission
    } else if method == HttpMethod::Delete && n == 2 {
        Route::RevokePermission
    } else if method == HttpMethod::Post && n == 2 && seg_is(segments, 1, "check") {
        Route::CheckPermission
    } else {
        Route::NotFound
    }
}

/// The route of a request under `/policy`.
pub open spec fn policy_route_of(m: HttpMethod, s: Seq<Seq<char>>) -> Route {
    if m == HttpMethod::Get && s.len() == 2 && s[1] == "status"@ {
        Route::PolicyStatus
    } else if m == HttpMethod::Post && s.len() == 2 && s[1] == "check"@ {
        Route::PolicyCheck
    } else if m == HttpMethod::Post && s.len() == 2 && s[1] == "reload"@ {
        Route::PolicyReload
    } else if m == HttpMethod::Get && s.len() == 2 && s[1] == "audit"@ {
        Route::PolicyAudit
    } else {
        Route::NotFound
    }
}

fn route_policy(method: HttpMethod, segments: &Vec<String>) -> (r: Route)
    ensures
        r == policy_route_of(method, views(segments@)),
{
    let n = segments.len();
    if method == HttpMethod::Get && n == 2 && seg_is(segments, 1, "status") {
        Route::PolicyStatus
    } else if method == HttpMethod::Post && n == 2 && seg_is(segments, 1, "check") {
        Route::PolicyCheck
    } else if method == HttpMethod::Post && n == 2 && seg_is(segments, 1, "reload") {
        Route::PolicyReload
    } else if method == HttpMethod::Get && n == 2 && seg_is(segments, 1, "audit") {
        Route::PolicyAudit
    } else {
        Route::NotFound
    }
}

/// The route of a request under `/quotas`.
pub open spec fn quotas_route_of(m: HttpMethod, s: Seq<Seq<char>>) -> Route {
    if m == HttpMethod::Get && s.len() == 1 {
        Route::QuotaStatus
    } else {
        Route::NotFound
    }
}

fn route_quotas(method: HttpMethod, segments: &Vec<String>) -> (r: Route)
    ensures
        r == quotas_route_of(method, views(segments@)),
{
    let n = segments.len();
    if method == HttpMethod::Get && n == 1 {
        Route::QuotaStatus
    } else {
        Route::NotFound
    }
}

/// The route of an authenticated request: `GET /events` and `/opencode/..`
/// first, then the handler table by the first segment; other paths under
/// `/scim` get SCIM's not-found answer, all others the API's.
pub open spec fn route_of(m: HttpMethod, s: Seq<Seq<char>>) -> Route {
    if s.len() == 0 {
        Route::NotFound
    } else if m == HttpMethod::Get && s.len() == 1 && s[0] == "events"@ {
        Route::Events
    } else if s[0] == "opencode"@ {
        Route::OpenCode
    } else if s[0] == "scim"@ {
        scim_route_of(m, s)
    } else if s[0] == "run"@ {
        run_route_of(m, s)
    } else if s[0] == "batch"@ {
        batch_route_of(m, s)
    } else if s[0] == "orchestrations"@ {
        orchestrations_route_of(m, s)
    } else if s[0] == "tasks"@ {
        tasks_route_of(m, s)
    } else if s[0] == "stores"@ {
        stores_route_of(m, s)
    } else if s[0] == "objects"@ {
        objects_route_of(m, s)
    } else if s[0] == "schedules"@ {
        schedules_route_of(m, s)
    } else if s[0] == "sandboxes"@ {
        sandboxes_route_of(m, s)
    } else if s[0] == "backends"@ {
        backends_route_of(m, s)
    } else if s[0] == "snapshots"@ {
        snapshots_route_of(m, s)
    } else if s[0] == "audit"@ {
        audit_route_of(m, s)
    } else if s[0] == "status"@ {
        status_route_of(m, s)
    } else if s[0] == "stats"@ {
        stats_route_of(m, s)
    } else if s[0] == "doctor"@ {
        doctor_route_of(m, s)
    } else if s[0] == "secrets"@ {
        secrets_route_of(m, s)
    } else if s[0] == "proxy"@ {
        proxy_route_of(m, s)
    } else if s[0] == "llm"@ {
        llm_route_of(m, s)
    } else if s[0] == "gc"@ {
        gc_route_of(m, s)
    } else if s[0] == "lifecycle"@ {
        lifecycle_route_of(m, s)
    } else if s[0] == "agents"@ {
        agents_route_of(m, s)
    } else if s[0] == "images"@ {
        images_route_of(m, s)
    } else if s[0] == "benchmark"@ {
        benchmark_route_of(m, s)
    } else if s[0] == "sessions"@ {
        sessions_route_of(m, s)
    } else if s[0] == "permissions"@ {
        permissions_route_of(m, s)
    } else if s[0] == "policy"@ {
        policy_route_of(m, s)
    } else if s[0] == "quotas"@ {
        quotas_route_of(m, s)
    } else {
        Route::NotFound
    }
}

/// Dispatch an authenticated request to its handler.
pub fn route(method: HttpMethod, segments: &Vec<String>) -> (r: Route)
    ensures
        r == route_of(method, views(segments@)),
{
    let n = segments.len();
    if n == 0 {
        return Route::NotFound;
    }
    if method == HttpMethod::Get && n == 1 && seg_is(segments, 0, "events") {
        return Route::Events;
    }
    let first = segments[0].as_str();
    if str_eq(first, "opencode") {
        Route::OpenCode
    } else if str_eq(first, "scim") {
        route_scim(method, segments)
    } else if str_eq(first, "run") {
        route_run(method, segments)
    } else if str_eq(first, "batch") {
        route_batch(method, segments)
    } else if str_eq(first, "orchestrations") {
        route_orchestrations(method, segments)
    } else if str_eq(first, "tasks") {
        route_tasks(method, segments)
    } else if str_eq(first, "stores") {
        route_stores(method, segments)
    } else if str_eq(first, "objects") {
        route_objects(method, segments)
    } else if str_eq(first, "schedules") {
        route_schedules(method, segments)
    } else if str_eq(first, "sandboxes") {
        route_sandboxes(method, segments)
    } else if str_eq(first, "backends") {
        route_backends(method, segments)
    } else if str_eq(first, "snapshots") {
        route_snapshots(method, segments)
    } else if str_eq(first, "audit") {
        route_audit(method, segments)
    } else if str_eq(first, "status") {
        route_status(method, segments)
    } else if str_eq(first, "stats") {
        route_stats(method, segments)
    } else if str_eq(first, "doctor") {
        route_doctor(method, segments)
    } else if str_eq(first, "secrets") {
        route_secrets(method, segments)
    } else if str_eq(first, "proxy") {
        route_proxy(method, segments)
    } else if str_eq(first, "llm") {
        route_llm(method, segments)
    } else if str_eq(first, "gc") {
        route_gc(method, segments)
    } else if str_eq(first, "lifecycle") {
        route_lifecycle(method, segments)
    } else if str_eq(first, "agents") {
        route_agents(method, segments)
    } else if str_eq(first, "images") {
        route_images(method, segments)
    } else if str_eq(first, "benchmark") {
        route_benchmark(method, segments)
    } else if str_eq(first, "sessions") {
        route_sessions(method, segments)
    } else if str_eq(first, "permissions") {
        route_permissions(method, segments)
    } else if str_eq(first, "policy") {
        route_policy(method, segments)
    } else if str_eq(first, "quotas") {
        route_quotas(method, segments)
    } else {
        Route::NotFound
    }
}

/// Whether a route acts on the sandbox named by the second path segment.
pub open spec fn names_sandbox(r: Route) -> bool {
        r == Route::GetSandbox
        || r == Route::ExecSandbox
        || r == Route::GitStatus
        || r == Route::GitBranches
        || r == Route::GitAdd
        || r == Route::GitCommit
        || r == Route::GitPull
        || r == Route::GitPush
        || r == Route::ExecDetach
        || r == Route::ListDetached
        || r == Route::DetachedStatus
        || r == Route::DetachedLogs
        || r == Route::KillDetached
        || r == Route::SandboxLogs
        || r == Route::BatchFileWrite
        || r == Route::ReadFile
        || r == Route::WriteFile
        || r == Route::DeleteFile
        || r == Route::DeleteSandbox
        || r == Route::StartSandbox
        || r == Route::StopSandbox
        || r == Route::PauseSandbox
        || r == Route::ResumeSandbox
        || r == Route::ForkSandbox
        || r == Route::ExtendTtl
        || r == Route::ResizeSandbox
        || r == Route::RecoverSandbox
        || r == Route::PatchSandbox
        || r == Route::BrowserStart
        || r == Route::BrowserListPages
        || r == Route::BrowserCreatePage
        || r == Route::BrowserClosePage
        || r == Route::BrowserGoto
        || r == Route::BrowserSnapshot
        || r == Route::BrowserContent
        || r == Route::BrowserClick
        || r == Route::BrowserFill
        || r == Route::BrowserScreenshot
        || r == Route::BrowserEvaluate
        || r == Route::BrowserEvents
        || r == Route::ExportSandboxConfig
        || r == Route::ImportNamedSandboxConfig
}

/// Every route that acts on a sandbox by name passes the ownership gate for
/// that name before its handler runs, but start (which checks ownership
/// after its one-shot token) and the legacy config import (which creates
/// the sandbox). The names `by-uuid` and `import-config` are left out: the
/// gate passes over them as the name-independent routes.
pub proof fn lemma_named_routes_are_gated(m: HttpMethod, s: Seq<Seq<char>>)
    requires
        names_sandbox(route_of(m, s)),
        route_of(m, s) != Route::StartSandbox,
        route_of(m, s) != Route::ImportNamedSandboxConfig,
        s[1] != "by-uuid"@,
        s[1] != "import-config"@,
    ensures
        sandbox_gate_of(m, s) == Some(s[1]),
{
    assert(!names_sandbox(scim_route_of(m, s)));
    assert(!names_sandbox(run_route_of(m, s)));
    assert(!names_sandbox(batch_route_of(m, s)));
    assert(!names_sandbox(orchestrations_route_of(m, s)));
    assert(!names_sandbox(tasks_route_of(m, s)));
    assert(!names_sandbox(stores_route_of(m, s)));
    assert(!names_sandbox(objects_route_of(m, s)));
    assert(!names_sandbox(schedules_route_of(m, s)));
    assert(!names_sandbox(backends_route_of(m, s)));
    assert(!names_sandbox(snapshots_route_of(m, s)));
    assert(!names_sandbox(audit_route_of(m, s)));
    assert(!names_sandbox(status_route_of(m, s)));
    assert(!names_sandbox(stats_route_of(m, s)));
    assert(!names_sandbox(doctor_route_of(m, s)));
    assert(!names_sandbox(secrets_route_of(m, s)));
    assert(!names_sandbox(proxy_route_of(m, s)));
    assert(!names_sandbox(llm_route_of(m, s)));
    assert(!names_sandbox(gc_route_of(m, s)));
    assert(!names_sandbox(lifecycle_route_of(m, s)));
    assert(!names_sandbox(agents_route_of(m, s)));
    assert(!names_sandbox(images_route_of(m, s)));
    assert(!names_sandbox(benchmark_route_of(m, s)));
    assert(!names_sandbox(sessions_route_of(m, s)));
    assert(!names_sandbox(permissions_route_of(m, s)));
    assert(!names_sandbox(policy_route_of(m, s)));
    assert(!names_sandbox(quotas_route_of(m, s)));
    assert(s[0] == "sandboxes"@ && names_sandbox(sandboxes_route_of(m, s)));
    lemma_action_names_distinct();
    assert(s.len() >= 2);
    if m == HttpMethod::Post && s.len() == 3 {
        assert(s[2] != "config"@);
        assert(s[2] != "start"@);
    }
}

/// The actions posted to `/sandboxes/{name}/{action}` differ from `config`
/// and `start`.
proof fn lemma_action_names_distinct()
    ensures
        "exec"@ != "config"@,
        "exec"@ != "start"@,
        "files"@ != "config"@,
        "files"@ != "start"@,
        "stop"@ != "config"@,
        "stop"@ != "start"@,
        "pause"@ != "config"@,
        "pause"@ != "start"@,
        "resume"@ != "config"@,
        "resume"@ != "start"@,
        "fork"@ != "config"@,
        "fork"@ != "start"@,
        "extend"@ != "config"@,
        "extend"@ != "start"@,
        "resize"@ != "config"@,
        "resize"@ != "start"@,
        "recover"@ != "config"@,
        "recover"@ != "start"@,
        "start"@ != "config"@,
{
    reveal_strlit("exec");
    reveal_strlit("files");
    reveal_strlit("stop");
    reveal_strlit("pause");
    reveal_strlit("resume");
    reveal_strlit("fork");
    reveal_strlit("extend");
    reveal_strlit("resize");
    reveal_strlit("recover");
    reveal_strlit("config");
    reveal_strlit("start");
    assert("config"@.len() == 6 && "start"@.len() == 5);
    assert("files"@[0] != "start"@[0] && "pause"@[0] != "start"@[0]);
    assert("resume"@[0] != "config"@[0] && "extend"@[0] != "config"@[0] && "resize"@[0] != "config"@[0]);
}

/// Whether segment `i` of a path is `lit`.
fn seg_is(segments: &Vec<String>, i: usize, lit: &str) -> (r: bool)
    requires
        i < segments@.len(),
    ensures
        r == (views(segments@)[i as int] == lit@),
{
    str_eq(segments[i].as_str(), lit)
}

} // verus!
