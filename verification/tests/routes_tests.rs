use agentkernel::http_api::{path_segments, HttpMethod};
use agentkernel::routes::{route, Route};

fn at(method: HttpMethod, path: &str) -> Route {
    route(method, &path_segments(path))
}

#[test]
fn sandbox_routes_reach_their_handlers() {
    assert_eq!(at(HttpMethod::Get, "/sandboxes"), Route::ListSandboxes);
    assert_eq!(at(HttpMethod::Post, "/sandboxes"), Route::CreateSandbox);
    assert_eq!(at(HttpMethod::Get, "/sandboxes/box"), Route::GetSandbox);
    assert_eq!(at(HttpMethod::Post, "/sandboxes/box/exec"), Route::ExecSandbox);
    assert_eq!(at(HttpMethod::Post, "/sandboxes/box/exec/detach"), Route::ExecDetach);
    assert_eq!(at(HttpMethod::Get, "/sandboxes/box/exec/detached/c1/logs"), Route::DetachedLogs);
    assert_eq!(at(HttpMethod::Delete, "/sandboxes/box/exec/detached/c1"), Route::KillDetached);
    assert_eq!(at(HttpMethod::Post, "/sandboxes/box/start"), Route::StartSandbox);
    assert_eq!(at(HttpMethod::Post, "/sandboxes/box/fork"), Route::ForkSandbox);
    assert_eq!(at(HttpMethod::Patch, "/sandboxes/box"), Route::PatchSandbox);
    assert_eq!(at(HttpMethod::Delete, "/sandboxes/box"), Route::DeleteSandbox);
    assert_eq!(at(HttpMethod::Get, "/sandboxes/box/git/status"), Route::GitStatus);
    assert_eq!(at(HttpMethod::Post, "/sandboxes/box/browser/pages/p1/click"), Route::BrowserClick);
    assert_eq!(at(HttpMethod::Get, "/sandboxes/box/config"), Route::ExportSandboxConfig);
    assert_eq!(at(HttpMethod::Post, "/sandboxes/box/config"), Route::ImportNamedSandboxConfig);
    assert_eq!(at(HttpMethod::Post, "/sandboxes/import-config"), Route::ImportSandboxConfig);
}

#[test]
fn file_routes_take_the_rest_of_the_path() {
    assert_eq!(at(HttpMethod::Get, "/sandboxes/box/files/etc/hosts"), Route::ReadFile);
    assert_eq!(at(HttpMethod::Get, "/sandboxes/box/files"), Route::ReadFile);
    assert_eq!(at(HttpMethod::Put, "/sandboxes/box/files/a/b/c"), Route::WriteFile);
    assert_eq!(at(HttpMethod::Delete, "/sandboxes/box/files/a"), Route::DeleteFile);
    assert_eq!(at(HttpMethod::Post, "/sandboxes/box/files"), Route::BatchFileWrite);
    assert_eq!(at(HttpMethod::Post, "/sandboxes/box/files/a"), Route::NotFound);
}

#[test]
fn earlier_routes_win_over_parameters() {
    assert_eq!(at(HttpMethod::Get, "/sandboxes/by-uuid/1234"), Route::GetSandboxByUuid);
    assert_eq!(at(HttpMethod::Get, "/sandboxes/by-uuid/logs"), Route::GetSandboxByUuid);
    assert_eq!(at(HttpMethod::Get, "/sandboxes/by-uuid"), Route::GetSandbox);
    assert_eq!(at(HttpMethod::Get, "/orchestrations/definitions"), Route::ListOrchestrationDefinitions);
    assert_eq!(at(HttpMethod::Patch, "/orchestrations/definitions"), Route::UpdateOrchestration);
    assert_eq!(at(HttpMethod::Get, "/orchestrations/o1"), Route::GetOrchestration);
    assert_eq!(at(HttpMethod::Get, "/schedules/configured"), Route::ListConfiguredSchedules);
    assert_eq!(at(HttpMethod::Get, "/schedules/configured/status"), Route::GetConfiguredSchedule);
    assert_eq!(at(HttpMethod::Get, "/schedules/s1/status"), Route::ScheduleStatus);
    assert_eq!(at(HttpMethod::Get, "/images/usage"), Route::ImageDiskUsage);
    assert_eq!(at(HttpMethod::Delete, "/images/usage"), Route::DeleteImage);
    assert_eq!(at(HttpMethod::Post, "/permissions/grant"), Route::GrantPermission);
    assert_eq!(at(HttpMethod::Delete, "/permissions/grant"), Route::RevokePermission);
}

#[test]
fn scim_routes_and_their_not_found() {
    assert_eq!(at(HttpMethod::Get, "/scim/v2/Users"), Route::ScimListUsers);
    assert_eq!(at(HttpMethod::Put, "/scim/v2/Groups/g1"), Route::ScimReplaceGroup);
    assert_eq!(at(HttpMethod::Get, "/scim/v2/ServiceProviderConfig"), Route::ScimServiceProviderConfig);
    assert_eq!(at(HttpMethod::Get, "/scim/v2/Unknown"), Route::ScimNotFound);
    assert_eq!(at(HttpMethod::Get, "/scim"), Route::ScimNotFound);
    assert_eq!(at(HttpMethod::Post, "/scim/v1/Users"), Route::ScimNotFound);
}

#[test]
fn other_routes_and_fallbacks() {
    assert_eq!(at(HttpMethod::Get, "/events"), Route::Events);
    assert_eq!(at(HttpMethod::Post, "/events"), Route::NotFound);
    assert_eq!(at(HttpMethod::Get, "/opencode"), Route::OpenCode);
    assert_eq!(at(HttpMethod::Delete, "/opencode/session/1"), Route::OpenCode);
    assert_eq!(at(HttpMethod::Post, "/run/stream"), Route::RunStream);
    assert_eq!(at(HttpMethod::Get, "/run"), Route::NotFound);
    assert_eq!(at(HttpMethod::Post, "/objects/Counter/c1/call/increment"), Route::CallObject);
    assert_eq!(at(HttpMethod::Post, "/objects/Counter/c1/alarm"), Route::ObjectAlarm);
    assert_eq!(at(HttpMethod::Get, "/llm/usage/box"), Route::LlmUsageSandbox);
    assert_eq!(at(HttpMethod::Put, "/llm/keys/openai"), Route::SetLlmKey);
    assert_eq!(at(HttpMethod::Post, "/agents/coder/integration"), Route::InstallAgentIntegration);
    assert_eq!(at(HttpMethod::Get, "/sessions/s1/cast"), Route::GetRecordingCast);
    assert_eq!(at(HttpMethod::Get, "/quotas"), Route::QuotaStatus);
    assert_eq!(at(HttpMethod::Get, "/status"), Route::Status);
    assert_eq!(at(HttpMethod::Get, "/nowhere"), Route::NotFound);
    assert_eq!(at(HttpMethod::Get, "/"), Route::NotFound);
    assert_eq!(at(HttpMethod::Other, "/sandboxes"), Route::NotFound);
}
