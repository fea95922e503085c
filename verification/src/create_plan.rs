//! Creating a sandbox through the API: the request checks made before the
//! sandbox manager is asked, the defaults of the new sandbox, the steps run
//! once it exists, and what a failed step does. Every step that fails after
//! the sandbox was created removes it again, but two best-effort ones.

use vstd::prelude::*;
use crate::text::{strip_prefix, strip_prefix_or_keep};

verus! {

broadcast use vstd::string::group_string_axioms;

/// The image of a sandbox created without one.
pub open spec fn default_create_image() -> Seq<char> {
    "alpine:3.24"@
}

/// The image a creation uses: the one requested, or `alpine:3.24`.
pub fn create_image(image: Option<&str>) -> (r: String)
    ensures
        r@ == (match image {
            Some(i) => i@,
            None => default_create_image(),
        }),
{
    match image {
        Some(i) => i.to_owned(),
        None => String::from_str("alpine:3.24"),
    }
}

/// The virtual CPUs and memory (MiB) a creation uses: those requested, or
/// one CPU and 512 MiB.
pub fn create_resources(vcpus: Option<u32>, memory_mb: Option<u64>) -> (r: (u32, u64))
    ensures
        r.0 == (match vcpus {
            Some(v) => v,
            None => 1u32,
        }),
        r.1 == (match memory_mb {
            Some(m) => m,
            None => 512u64,
        }),
{
    let v = match vcpus {
        Some(v) => v,
        None => 1,
    };
    let m = match memory_mb {
        Some(m) => m,
        None => 512,
    };
    (v, m)
}

/// The checks made before the request is parsed further: model governance
/// needs a validated tenant, and a source ref needs a source URL.
pub open spec fn create_request_check(governance_enabled: bool, tenant_trusted: bool, has_source_url: bool, has_source_ref: bool) -> Option<(u16, Seq<char>)> {
    if governance_enabled && !tenant_trusted {
        Some((403, "LLM model governance requires a validated tenant identity for sandbox creation"@))
    } else if has_source_ref && !has_source_url {
        Some((400, "source_ref requires source_url"@))
    } else {
        None
    }
}

/// Refuse a creation that model governance forbids or whose source ref
/// has no source URL; the error is the status and message of the answer.
pub fn check_create_request(governance_enabled: bool, tenant_trusted: bool, has_source_url: bool, has_source_ref: bool) -> (r: Result<(), (u16, String)>)
    ensures
        match create_request_check(governance_enabled, tenant_trusted, has_source_url, has_source_ref) {
            None => r is Ok,
            Some((status, message)) => r matches Err((s, m)) && s == status && m@ == message,
        },
{
    if governance_enabled && !tenant_trusted {
        Err((403, String::from_str("LLM model governance requires a validated tenant identity for sandbox creation")))
    } else if has_source_ref && !has_source_url {
        Err((400, String::from_str("source_ref requires source_url")))
    } else {
        Ok(())
    }
}

/// The outcomes of the checks made on a parsed creation request before the
/// sandbox is created; each holds the error text of a failed check, or
/// `None` (`false`) when it passed or did not apply.
#[derive(Debug, Clone)]
pub struct CreateChecks {
    /// The requested backend's name did not parse (the parser's error).
    pub backend_selection: Option<String>,
    /// The requested backend is not usable (its name).
    pub backend_unavailable: Option<String>,
    /// The sandbox name was refused.
    pub name_invalid: Option<String>,
    /// The request names a source ref.
    pub has_source_ref: bool,
    /// The request names a source URL.
    pub has_source_url: bool,
    /// The source URL was refused.
    pub source_url_invalid: Option<String>,
    /// The source ref was refused.
    pub source_ref_invalid: Option<String>,
    /// The managed network was refused.
    pub network_invalid: Option<String>,
    /// The image name was refused.
    pub image_invalid: Option<String>,
    /// A port mapping did not parse.
    pub ports_invalid: Option<String>,
    /// A volume mount was refused.
    pub volumes_invalid: Option<String>,
    /// A managed network was asked for on a backend other than Docker or
    /// Podman.
    pub network_unsupported: bool,
    /// The backend cannot mount the volumes (its error).
    pub volumes_unsupported: Option<String>,
}

/// The first check a creation request fails, in the order they are made,
/// with the status and message of the answer: malformed requests are
/// answered with 400 and requests the backend cannot serve with 422, all
/// before anything is created.
pub open spec fn create_refusal_of(c: CreateChecks) -> Option<(u16, Seq<char>)> {
    if c.backend_selection is Some {
        Some((400, c.backend_selection->0@))
    } else if c.backend_unavailable is Some {
        Some((422, "Backend '"@ + c.backend_unavailable->0@ + "' is unavailable. Use GET /backends to see ready backends"@))
    } else if c.name_invalid is Some {
        Some((400, c.name_invalid->0@))
    } else if c.has_source_ref && !c.has_source_url {
        Some((400, "source_ref requires source_url"@))
    } else if c.source_url_invalid is Some {
        Some((400, c.source_url_invalid->0@))
    } else if c.source_ref_invalid is Some {
        Some((400, c.source_ref_invalid->0@))
    } else if c.network_invalid is Some {
        Some((400, "Invalid managed network: "@ + c.network_invalid->0@))
    } else if c.image_invalid is Some {
        Some((400, c.image_invalid->0@))
    } else if c.ports_invalid is Some {
        Some((400, "Invalid port mapping: "@ + c.ports_invalid->0@))
    } else if c.volumes_invalid is Some {
        Some((400, "Invalid volume mount: "@ + c.volumes_invalid->0@))
    } else if c.network_unsupported {
        Some((422, "Managed bridge networking is supported only by Docker and Podman backends"@))
    } else if c.volumes_unsupported is Some {
        Some((422, c.volumes_unsupported->0@))
    } else {
        None
    }
}

/// Decide whether a creation request is refused before anything is
/// created, and with which answer.
pub fn create_refusal(c: &CreateChecks) -> (r: Option<(u16, String)>)
    ensures
        match create_refusal_of(*c) {
            None => r is None,
            Some((status, message)) => r matches Some((s, m)) && s == status && m@ == message,
        },
        r matches Some((s, _)) ==> s == 400 || s == 422,
{
    if let Some(e) = &c.backend_selection {
        Some((400, e.clone()))
    } else if let Some(b) = &c.backend_unavailable {
        let mut m = String::from_str("Backend '");
        m.append(b.as_str());
        m.append("' is unavailable. Use GET /backends to see ready backends");
        Some((422, m))
    } else if let Some(e) = &c.name_invalid {
        Some((400, e.clone()))
    } else if c.has_source_ref && !c.has_source_url {
        Some((400, String::from_str("source_ref requires source_url")))
    } else if let Some(e) = &c.source_url_invalid {
        Some((400, e.clone()))
    } else if let Some(e) = &c.source_ref_invalid {
        Some((400, e.clone()))
    } else if let Some(e) = &c.network_invalid {
        let mut m = String::from_str("Invalid managed network: ");
        m.append(e.as_str());
        Some((400, m))
    } else if let Some(e) = &c.image_invalid {
        Some((400, e.clone()))
    } else if let Some(e) = &c.ports_invalid {
        let mut m = String::from_str("Invalid port mapping: ");
        m.append(e.as_str());
        Some((400, m))
    } else if let Some(e) = &c.volumes_invalid {
        let mut m = String::from_str("Invalid volume mount: ");
        m.append(e.as_str());
        Some((400, m))
    } else if c.network_unsupported {
        Some((422, String::from_str("Managed bridge networking is supported only by Docker and Podman backends")))
    } else if let Some(e) = &c.volumes_unsupported {
        Some((422, e.clone()))
    } else {
        None
    }
}

/// What a creation request asks for beyond the sandbox itself.
#[derive(Debug, Clone, Copy, PartialEq, Eq, Structural)]
pub struct CreateShape {
    /// Host volume mounts were given.
    pub volumes: bool,
    /// A managed network was given.
    pub network: bool,
    /// The server runs with a configuration file.
    pub config_path: bool,
    /// The caller is a trusted owner.
    pub owner: bool,
    /// Secret bindings were given.
    pub secrets: bool,
    /// Template secret mappings were given.
    pub secret_mappings: bool,
    /// Secret file keys were given.
    pub secret_files: bool,
    /// Placeholder secrets were asked for.
    pub placeholder_secrets: bool,
    /// An init script was given.
    pub init_script: bool,
    /// A template name or help text was given.
    pub template_metadata: bool,
    /// Labels were given.
    pub labels: bool,
    /// A description was given.
    pub description: bool,
    /// A lifecycle policy was given.
    pub lifecycle: bool,
    /// A security profile was named.
    pub profile: bool,
    /// A Git source URL was given.
    pub source_url: bool,
    /// A Git ref to check out was given.
    pub source_ref: bool,
}

/// A step run after the sandbox was created, in the order they run.
#[derive(Debug, Clone, Copy, PartialEq, Eq, Structural)]
pub enum CreateStep {
    SetVolumes,
    SetManagedNetwork,
    SetConfigPath,
    SetTenant,
    SetOwnerIdentity,
    SetOwnerMetadata,
    SetSecretBindings,
    SetSecretMappings,
    SetSecretFiles,
    EnablePlaceholderSecrets,
    SetInitScript,
    SetTemplateMetadata,
    SetLabels,
    SetDescription,
    SetLifecyclePolicy,
    /// Resolve the named security profile.
    CheckProfile,
    /// Start the sandbox with the profile's permissions.
    Start,
    /// Install Git in the guest when it is missing.
    InstallGit,
    /// Clone the source into `/workspace`.
    CloneSource,
    /// Check out the requested ref.
    CheckoutRef,
}

/// `step` when `c` holds, else nothing.
pub open spec fn step_when(c: bool, step: CreateStep) -> Seq<CreateStep> {
    if c {
        seq![step]
    } else {
        Seq::empty()
    }
}

/// The steps a creation runs: the tenant, the ownership metadata and the
/// start always; each of the others when the request asks for it.
pub open spec fn create_steps_of(sh: CreateShape) -> Seq<CreateStep> {
    step_when(sh.volumes, CreateStep::SetVolumes) + step_when(sh.network, CreateStep::SetManagedNetwork)
        + step_when(sh.config_path, CreateStep::SetConfigPath) + seq![CreateStep::SetTenant]
        + step_when(sh.owner, CreateStep::SetOwnerIdentity) + seq![CreateStep::SetOwnerMetadata]
        + step_when(sh.secrets, CreateStep::SetSecretBindings)
        + step_when(sh.secret_mappings, CreateStep::SetSecretMappings)
        + step_when(sh.secret_files, CreateStep::SetSecretFiles)
        + step_when(sh.placeholder_secrets, CreateStep::EnablePlaceholderSecrets)
        + step_when(sh.init_script, CreateStep::SetInitScript)
        + step_when(sh.template_metadata, CreateStep::SetTemplateMetadata)
        + step_when(sh.labels, CreateStep::SetLabels) + step_when(sh.description, CreateStep::SetDescription)
        + step_when(sh.lifecycle, CreateStep::SetLifecyclePolicy) + step_when(sh.profile, CreateStep::CheckProfile)
        + seq![CreateStep::Start] + step_when(sh.source_url, CreateStep::InstallGit)
        + step_when(sh.source_url, CreateStep::CloneSource)
        + step_when(sh.source_url && sh.source_ref, CreateStep::CheckoutRef)
}

/// Append `step` when `c` holds.
fn push_step_when(steps: &mut Vec<CreateStep>, c: bool, step: CreateStep)
    ensures
        final(steps)@ == old(steps)@ + step_when(c, step),
{
    if c {
        steps.push(step);
        assert(final(steps)@ =~= old(steps)@ + step_when(c, step));
    } else {
        assert(old(steps)@ + step_when(c, step) =~= old(steps)@);
    }
}

/// The steps to run, in order, once the sandbox was created.
pub fn create_steps(sh: CreateShape) -> (r: Vec<CreateStep>)
    ensures
        r@ == create_steps_of(sh),
{
    let mut r: Vec<CreateStep> = Vec::new();
    push_step_when(&mut r, sh.volumes, CreateStep::SetVolumes);
    push_step_when(&mut r, sh.network, CreateStep::SetManagedNetwork);
    push_step_when(&mut r, sh.config_path, CreateStep::SetConfigPath);
    push_step_when(&mut r, true, CreateStep::SetTenant);
    push_step_when(&mut r, sh.owner, CreateStep::SetOwnerIdentity);
    push_step_when(&mut r, true, CreateStep::SetOwnerMetadata);
    push_step_when(&mut r, sh.secrets, CreateStep::SetSecretBindings);
    push_step_when(&mut r, sh.secret_mappings, CreateStep::SetSecretMappings);
    push_step_when(&mut r, sh.secret_files, CreateStep::SetSecretFiles);
    push_step_when(&mut r, sh.placeholder_secrets, CreateStep::EnablePlaceholderSecrets);
    push_step_when(&mut r, sh.init_script, CreateStep::SetInitScript);
    push_step_when(&mut r, sh.template_metadata, CreateStep::SetTemplateMetadata);
    push_step_when(&mut r, sh.labels, CreateStep::SetLabels);
    push_step_when(&mut r, sh.description, CreateStep::SetDescription);
    push_step_when(&mut r, sh.lifecycle, CreateStep::SetLifecyclePolicy);
    push_step_when(&mut r, sh.profile, CreateStep::CheckProfile);
    push_step_when(&mut r, true, CreateStep::Start);
    push_step_when(&mut r, sh.source_url, CreateStep::InstallGit);
    push_step_when(&mut r, sh.source_url, CreateStep::CloneSource);
    push_step_when(&mut r, sh.source_url && sh.source_ref, CreateStep::CheckoutRef);
    assert(step_when(true, CreateStep::SetTenant) =~= seq![CreateStep::SetTenant]);
    assert(step_when(true, CreateStep::SetOwnerMetadata) =~= seq![CreateStep::SetOwnerMetadata]);
    assert(step_when(true, CreateStep::Start) =~= seq![CreateStep::Start]);
    assert(r@ =~= create_steps_of(sh));
    r
}

/// What follows a failed step.
#[derive(Debug, Clone, PartialEq, Eq)]
pub enum StepOutcome {
    /// Go on with the next step.
    Continue,
    /// Log this warning and go on.
    Warn(String),
    /// Remove the sandbox and answer with this status and message.
    RemoveAndFail(u16, String),
}

/// The URL a source is cloned from: a `git:` prefix is dropped.
pub open spec fn clone_url_of(source_url: Seq<char>) -> Seq<char> {
    strip_prefix_or_keep(source_url, "git:"@)
}

/// The status and message of a failed step that removes the sandbox, or
/// `None` for the best-effort steps. `detail` is the error of the call, or
/// for `CheckProfile` the profile named.
pub open spec fn step_failure_of(step: CreateStep, detail: Seq<char>, source_url: Seq<char>, source_ref: Seq<char>) -> Option<(u16, Seq<char>)> {
    match step {
        CreateStep::SetVolumes => Some((500, "Failed to set volume mounts: "@ + detail)),
        CreateStep::SetManagedNetwork => Some((500, "Failed to set managed network: "@ + detail)),
        CreateStep::SetConfigPath => Some((500, "Failed to persist server config ownership: "@ + detail)),
        CreateStep::SetTenant => Some((500, "Failed to persist sandbox tenant ownership: "@ + detail)),
        CreateStep::SetOwnerIdentity => Some((500, "Failed to set sandbox owner: "@ + detail)),
        CreateStep::SetOwnerMetadata => Some((500, "Failed to persist sandbox ownership: "@ + detail)),
        CreateStep::SetSecretBindings => Some((400, "Invalid secret bindings: "@ + detail)),
        CreateStep::SetSecretMappings => Some((500, "Failed to set secret mappings: "@ + detail)),
        CreateStep::SetSecretFiles => Some((400, "Invalid secret file keys: "@ + detail)),
        CreateStep::EnablePlaceholderSecrets => None,
        CreateStep::SetInitScript => Some((500, "Failed to set init script: "@ + detail)),
        CreateStep::SetTemplateMetadata => Some((500, "Failed to set template metadata: "@ + detail)),
        CreateStep::SetLabels => Some((500, "Failed to set labels: "@ + detail)),
        CreateStep::SetDescription => Some((500, "Failed to set description: "@ + detail)),
        CreateStep::SetLifecyclePolicy => Some((500, "Failed to set lifecycle policy: "@ + detail)),
        CreateStep::CheckProfile => Some(
            (400, "Invalid profile '"@ + detail + "'. Use: permissive, moderate, restrictive"@),
        ),
        CreateStep::Start => Some((500, detail)),
        CreateStep::InstallGit => None,
        CreateStep::CloneSource => Some((500, "Failed to clone "@ + clone_url_of(source_url) + ": "@ + detail)),
        CreateStep::CheckoutRef => Some((500, "Failed to checkout "@ + source_ref + ": "@ + detail)),
    }
}

/// What a failed step leads to: the sandbox is removed and the creation
/// answered with the step's error, but for the placeholder-secret mode
/// (a warning) and the Git install (ignored).
pub open spec fn step_outcome_is(step: CreateStep, detail: Seq<char>, source_url: Seq<char>, source_ref: Seq<char>, r: StepOutcome) -> bool {
    match step_failure_of(step, detail, source_url, source_ref) {
        Some((status, message)) => r matches StepOutcome::RemoveAndFail(s, m) && s == status && m@ == message,
        None => if step == CreateStep::EnablePlaceholderSecrets {
            r matches StepOutcome::Warn(w) && w@ == "Warning: Failed to set placeholder secrets: "@ + detail
        } else {
            r is Continue
        },
    }
}

/// A string made of `prefix` followed by `detail`.
fn prefixed(prefix: &str, detail: &str) -> (r: String)
    ensures
        r@ == prefix@ + detail@,
{
    let mut s = String::from_str(prefix);
    s.append(detail);
    s
}

/// Remove the sandbox and fail with `prefix` followed by `detail`.
fn fail_with(status: u16, prefix: &str, detail: &str) -> (r: StepOutcome)
    ensures
        r matches StepOutcome::RemoveAndFail(s, m) && s == status && m@ == prefix@ + detail@,
{
    StepOutcome::RemoveAndFail(status, prefixed(prefix, detail))
}

/// The URL a source is cloned from.
pub fn clone_url(source_url: &str) -> (r: &str)
    ensures
        r@ == clone_url_of(source_url@),
{
    match strip_prefix(source_url, "git:") {
        Some(rest) => rest,
        None => source_url,
    }
}

/// Decide what follows a failed step of a creation.
pub fn create_step_outcome(step: CreateStep, detail: &str, source_url: &str, source_ref: &str) -> (r: StepOutcome)
    ensures
        step_outcome_is(step, detail@, source_url@, source_ref@, r),
{
    match step {
        CreateStep::SetVolumes => fail_with(500, "Failed to set volume mounts: ", detail),
        CreateStep::SetManagedNetwork => fail_with(500, "Failed to set managed network: ", detail),
        CreateStep::SetConfigPath => fail_with(500, "Failed to persist server config ownership: ", detail),
        CreateStep::SetTenant => fail_with(500, "Failed to persist sandbox tenant ownership: ", detail),
        CreateStep::SetOwnerIdentity => fail_with(500, "Failed to set sandbox owner: ", detail),
        CreateStep::SetOwnerMetadata => fail_with(500, "Failed to persist sandbox ownership: ", detail),
        CreateStep::SetSecretBindings => fail_with(400, "Invalid secret bindings: ", detail),
        CreateStep::SetSecretMappings => fail_with(500, "Failed to set secret mappings: ", detail),
        CreateStep::SetSecretFiles => fail_with(400, "Invalid secret file keys: ", detail),
        CreateStep::EnablePlaceholderSecrets => StepOutcome::Warn(
            prefixed("Warning: Failed to set placeholder secrets: ", detail),
        ),
        CreateStep::SetInitScript => fail_with(500, "Failed to set init script: ", detail),
        CreateStep::SetTemplateMetadata => fail_with(500, "Failed to set template metadata: ", detail),
        CreateStep::SetLabels => fail_with(500, "Failed to set labels: ", detail),
        CreateStep::SetDescription => fail_with(500, "Failed to set description: ", detail),
        CreateStep::SetLifecyclePolicy => fail_with(500, "Failed to set lifecycle policy: ", detail),
        CreateStep::CheckProfile => {
            let mut m = prefixed("Invalid profile '", detail);
            m.append("'. Use: permissive, moderate, restrictive");
            StepOutcome::RemoveAndFail(400, m)
        },
        CreateStep::Start => StepOutcome::RemoveAndFail(500, detail.to_owned()),
        CreateStep::InstallGit => StepOutcome::Continue,
        CreateStep::CloneSource => {
            let mut m = prefixed("Failed to clone ", clone_url(source_url));
            m.append(": ");
            m.append(detail);
            StepOutcome::RemoveAndFail(500, m)
        },
        CreateStep::CheckoutRef => {
            let mut m = prefixed("Failed to checkout ", source_ref);
            m.append(": ");
            m.append(detail);
            StepOutcome::RemoveAndFail(500, m)
        },
    }
}

/// Every step that fails after the sandbox was created removes it again,
/// but the placeholder-secret mode and the Git install, which are best
/// effort.
pub proof fn lemma_failed_steps_remove_the_sandbox(
    step: CreateStep,
    detail: Seq<char>,
    source_url: Seq<char>,
    source_ref: Seq<char>,
    r: StepOutcome,
)
    requires
        step_outcome_is(step, detail, source_url, source_ref, r),
    ensures
        (step != CreateStep::EnablePlaceholderSecrets && step != CreateStep::InstallGit) <==> r is RemoveAndFail,
{
}

/// The shell command run in the guest to install Git when it is missing.
pub open spec fn git_install_command_of() -> Seq<Seq<char>> {
    seq![
        "sh"@,
        "-c"@,
        "which git >/dev/null 2>&1 || apk add --no-cache git >/dev/null 2>&1 || apt-get update -qq && apt-get install -y -qq git >/dev/null 2>&1 || true"@,
    ]
}

/// The command that installs Git in the guest when it is missing.
pub fn git_install_command() -> (r: Vec<String>)
    ensures
        r@.len() == 3,
        forall|i: int| 0 <= i < 3 ==> (#[trigger] r@[i])@ == git_install_command_of()[i],
{
    let mut r: Vec<String> = Vec::new();
    r.push(String::from_str("sh"));
    r.push(String::from_str("-c"));
    r.push(
        String::from_str(
            "which git >/dev/null 2>&1 || apk add --no-cache git >/dev/null 2>&1 || apt-get update -qq && apt-get install -y -qq git >/dev/null 2>&1 || true",
        ),
    );
    r
}

/// The command that clones the source into `/workspace`.
pub fn git_clone_command(source_url: &str) -> (r: Vec<String>)
    ensures
        r@.len() == 4,
        r@[0]@ == "git"@,
        r@[1]@ == "clone"@,
        r@[2]@ == clone_url_of(source_url@),
        r@[3]@ == "/workspace"@,
{
    let mut r: Vec<String> = Vec::new();
    r.push(String::from_str("git"));
    r.push(String::from_str("clone"));
    r.push(clone_url(source_url).to_owned());
    r.push(String::from_str("/workspace"));
    r
}

/// The command that checks out the requested ref in `/workspace`.
pub fn git_checkout_command(source_ref: &str) -> (r: Vec<String>)
    ensures
        r@.len() == 5,
        r@[0]@ == "git"@,
        r@[1]@ == "-C"@,
        r@[2]@ == "/workspace"@,
        r@[3]@ == "checkout"@,
        r@[4]@ == source_ref@,
{
    let mut r: Vec<String> = Vec::new();
    r.push(String::from_str("git"));
    r.push(String::from_str("-C"));
    r.push(String::from_str("/workspace"));
    r.push(String::from_str("checkout"));
    r.push(source_ref.to_owned());
    r
}

} // verus!
