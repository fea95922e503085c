//! Interactive permission model for runtime permission requests.
//!
//! Tools request elevated permissions at runtime, and the controlling client
//! (MCP host, HTTP caller, desktop UI) approves or denies them with a scope.

use vstd::prelude::*;
use crate::clock::{clock_instant, utc_now_instant, utc_now_rfc3339};
use crate::text::{hex_padded16, opt_str_view, opt_string_view, push_hex_padded16, str_eq};

verus! {

broadcast use vstd::string::group_string_axioms;

/// What permission is being requested.
#[derive(Debug, Clone, Copy, PartialEq, Eq, Hash, Structural)]
pub enum PermissionKind {
    SandboxRemove,
    SandboxCreate,
    NetworkAccess,
    MountDirectory,
    SudoExec,
    FileDelete,
}

/// The wire name of a permission kind.
pub open spec fn kind_name(kind: PermissionKind) -> Seq<char> {
    match kind {
        PermissionKind::SandboxRemove => "sandbox_remove"@,
        PermissionKind::SandboxCreate => "sandbox_create"@,
        PermissionKind::NetworkAccess => "network_access"@,
        PermissionKind::MountDirectory => "mount_directory"@,
        PermissionKind::SudoExec => "sudo_exec"@,
        PermissionKind::FileDelete => "file_delete"@,
    }
}

/// The kind whose wire name is `s`, if any.
pub open spec fn kind_from_name(s: Seq<char>) -> Option<PermissionKind> {
    if s == "sandbox_remove"@ {
        Some(PermissionKind::SandboxRemove)
    } else if s == "sandbox_create"@ {
        Some(PermissionKind::SandboxCreate)
    } else if s == "network_access"@ {
        Some(PermissionKind::NetworkAccess)
    } else if s == "mount_directory"@ {
        Some(PermissionKind::MountDirectory)
    } else if s == "sudo_exec"@ {
        Some(PermissionKind::SudoExec)
    } else if s == "file_delete"@ {
        Some(PermissionKind::FileDelete)
    } else {
        None
    }
}

/// ` for '<sandbox>'` when a sandbox is named, nothing otherwise.
pub open spec fn target_text(sandbox: Option<Seq<char>>) -> Seq<char> {
    match sandbox {
        Some(s) => " for '"@ + s + "'"@,
        None => Seq::empty(),
    }
}

/// Human-readable description of a permission request.
pub open spec fn description_text(kind: PermissionKind, sandbox: Option<Seq<char>>) -> Seq<char> {
    let t = target_text(sandbox);
    match kind {
        PermissionKind::SandboxRemove => "Remove sandbox"@ + t + " and all its data"@,
        PermissionKind::SandboxCreate => "Create a new sandbox"@ + t,
        PermissionKind::NetworkAccess => "Enable network access"@ + t,
        PermissionKind::MountDirectory => "Mount a host directory into sandbox"@ + t,
        PermissionKind::SudoExec => "Execute command as root"@ + t,
        PermissionKind::FileDelete => "Delete files"@ + t,
    }
}

impl PermissionKind {
    /// The wire name of the kind (`sandbox_remove`, ...).
    pub fn to_string(&self) -> (s: String)
        ensures
            s@ == kind_name(*self),
    {
        match self {
            PermissionKind::SandboxRemove => String::from_str("sandbox_remove"),
            PermissionKind::SandboxCreate => String::from_str("sandbox_create"),
            PermissionKind::NetworkAccess => String::from_str("network_access"),
            PermissionKind::MountDirectory => String::from_str("mount_directory"),
            PermissionKind::SudoExec => String::from_str("sudo_exec"),
            PermissionKind::FileDelete => String::from_str("file_delete"),
        }
    }

    /// Parse a wire name.
    pub fn from_str(s: &str) -> (r: Option<Self>)
        ensures
            r == kind_from_name(s@),
    {
        if str_eq(s, "sandbox_remove") {
            Some(PermissionKind::SandboxRemove)
        } else if str_eq(s, "sandbox_create") {
            Some(PermissionKind::SandboxCreate)
        } else if str_eq(s, "network_access") {
            Some(PermissionKind::NetworkAccess)
        } else if str_eq(s, "mount_directory") {
            Some(PermissionKind::MountDirectory)
        } else if str_eq(s, "sudo_exec") {
            Some(PermissionKind::SudoExec)
        } else if str_eq(s, "file_delete") {
            Some(PermissionKind::FileDelete)
        } else {
            None
        }
    }

    /// Human-readable description, naming the sandbox when one is given.
    pub fn description(&self, sandbox: Option<&str>) -> (d: String)
        ensures
            d@ == description_text(*self, opt_str_view(sandbox)),
    {
        let mut target = String::new();
        if let Some(s) = sandbox {
            target.append(" for '");
            target.append(s);
            target.append("'");
        }
        assert(target@ =~= target_text(opt_str_view(sandbox)));
        let t: &str = target.as_str();
        let mut d = match self {
            PermissionKind::SandboxRemove => String::from_str("Remove sandbox"),
            PermissionKind::SandboxCreate => String::from_str("Create a new sandbox"),
            PermissionKind::NetworkAccess => String::from_str("Enable network access"),
            PermissionKind::MountDirectory => String::from_str(
                "Mount a host directory into sandbox",
            ),
            PermissionKind::SudoExec => String::from_str("Execute command as root"),
            PermissionKind::FileDelete => String::from_str("Delete files"),
        };
        d.append(t);
        if let PermissionKind::SandboxRemove = self {
            d.append(" and all its data");
        }
        d
    }
}

/// Every kind's wire name parses back to that kind.
pub proof fn lemma_kind_name_roundtrip(kind: PermissionKind)
    ensures
        kind_from_name(kind_name(kind)) == Some(kind),
{
    reveal_strlit("sandbox_remove");
    reveal_strlit("sandbox_create");
    reveal_strlit("network_access");
    reveal_strlit("mount_directory");
    reveal_strlit("sudo_exec");
    reveal_strlit("file_delete");
    let rm = "sandbox_remove"@;
    let cr = "sandbox_create"@;
    let na = "network_access"@;
    let md = "mount_directory"@;
    let se = "sudo_exec"@;
    let fd = "file_delete"@;
    assert(rm[8] != cr[8]);
    assert(rm[0] != na[0] && cr[0] != na[0]);
    assert(rm[0] != md[0] && cr[0] != md[0] && na[0] != md[0]);
    assert(rm[1] != se[1] && cr[1] != se[1] && na[0] != se[0] && md[0] != se[0]);
    assert(rm[0] != fd[0] && cr[0] != fd[0] && na[0] != fd[0] && md[0] != fd[0] && se[0] != fd[0]);
}

/// Scope of a permission grant.
#[derive(Debug, Clone, Copy, PartialEq, Eq, Structural)]
pub enum GrantScope {
    /// Single operation, consumed on use.
    Once,
    /// Valid until sandbox stops or session ends.
    Session,
    /// Persisted to disk, survives restarts.
    Always,
}

impl GrantScope {
    /// Whether grants of this scope are kept on disk.
    pub fn is_persistent(&self) -> (r: bool)
        ensures
            r == (*self == GrantScope::Always),
    {
        match self {
            GrantScope::Always => true,
            _ => false,
        }
    }
}

/// A stored permission grant.
#[derive(Debug)]
pub struct PermissionGrant {
    pub id: String,
    pub kind: PermissionKind,
    pub scope: GrantScope,
    /// None = applies to all sandboxes.
    pub sandbox: Option<String>,
    pub granted_at: String,
    pub granted_by: String,
}

impl Clone for PermissionGrant {
    fn clone(&self) -> (r: Self)
        ensures
            r == *self,
    {
        PermissionGrant {
            id: self.id.clone(),
            kind: self.kind,
            scope: self.scope,
            sandbox: match &self.sandbox {
                Some(s) => Some(s.clone()),
                None => None,
            },
            granted_at: self.granted_at.clone(),
            granted_by: self.granted_by.clone(),
        }
    }
}

/// A pending permission request (returned as structured error metadata).
#[derive(Debug)]
pub struct PermissionRequest {
    pub id: String,
    pub kind: PermissionKind,
    pub sandbox: Option<String>,
    pub description: String,
}

/// Whether grant `g` covers `kind` for `sandbox`: same kind, and either a
/// wildcard grant or one for that very sandbox.
pub open spec fn grant_covers(g: PermissionGrant, kind: PermissionKind, sandbox: Option<Seq<char>>) -> bool {
    g.kind == kind && (g.sandbox is None || (sandbox is Some && g.sandbox->0@ == sandbox->0))
}

/// Whether some grant in `grants` covers `kind` for `sandbox`.
pub open spec fn grants_allow(grants: Seq<PermissionGrant>, kind: PermissionKind, sandbox: Option<Seq<char>>) -> bool {
    exists|i: int| 0 <= i < grants.len() && grant_covers(#[trigger] grants[i], kind, sandbox)
}

/// Whether `g` is a one-time grant covering `kind` for `sandbox`.
pub open spec fn once_grant_covers(g: PermissionGrant, kind: PermissionKind, sandbox: Option<Seq<char>>) -> bool {
    g.scope == GrantScope::Once && grant_covers(g, kind, sandbox)
}

/// The grants that survive a restart.
pub open spec fn persistent_only(grants: Seq<PermissionGrant>) -> Seq<PermissionGrant> {
    grants.filter(|g: PermissionGrant| g.scope == GrantScope::Always)
}

/// The grants left after revoking `id`.
pub open spec fn without_id(grants: Seq<PermissionGrant>, id: Seq<char>) -> Seq<PermissionGrant> {
    grants.filter(id_differs(id))
}

/// Whether a grant carries an identifier other than `id`.
pub open spec fn id_differs(id: Seq<char>) -> spec_fn(PermissionGrant) -> bool {
    |g: PermissionGrant| g.id@ != id
}

/// `uuid_v4` of a clock seed: `{:016x}{:016x}` of the seed and of the seed
/// multiplied (wrapping) by 6364136223846793005.
pub open spec fn uuid_text(seed: u128) -> Seq<char> {
    hex_padded16(seed as nat) + hex_padded16(
        ((seed as nat * 6364136223846793005) % (u128::MAX as nat + 1)) as nat,
    )
}

/// The identifier text derived from a clock seed.
pub fn uuid_v4_from_seed(seed: u128) -> (r: String)
    ensures
        r@ == uuid_text(seed),
{
    let mut s = String::new();
    push_hex_padded16(&mut s, seed);
    let mixed = seed.wrapping_mul(6364136223846793005u128);
    push_hex_padded16(&mut s, mixed);
    s
}

/// The nanoseconds since the Unix epoch of an instant, or 0 for one before
/// the epoch.
pub open spec fn epoch_nanos_of(now: (i64, u32)) -> int {
    if now.0 >= 0 {
        now.0 * 1_000_000_000 + now.1
    } else {
        0
    }
}

/// The seed of an identifier made at the instant `now`: its nanoseconds
/// since the Unix epoch.
pub fn epoch_nanos(now: (i64, u32)) -> (r: u128)
    ensures
        r == epoch_nanos_of(now),
{
    if now.0 >= 0 {
        assert(now.0 as u128 * 1_000_000_000u128 + now.1 as u128 <= u128::MAX) by (nonlinear_arith)
            requires
                0 <= now.0 <= i64::MAX,
        ;
        now.0 as u128 * 1_000_000_000u128 + now.1 as u128
    } else {
        0
    }
}

/// Simple time-seeded identifier (no external crate needed): the seed is
/// the present time in nanoseconds since the Unix epoch.
pub fn uuid_v4() -> (r: String)
    ensures
        exists|now: (i64, u32)| clock_instant(now) && r@ == uuid_text(epoch_nanos_of(now) as u128),
{
    let now = utc_now_instant();
    uuid_v4_from_seed(epoch_nanos(now))
}

/// Store for active permission grants.
pub struct PermissionStore {
    grants: Vec<PermissionGrant>,
    persistent_path: String,
}

impl PermissionStore {
    /// The grants currently held, in the order they were made.
    pub closed spec fn grants(&self) -> Seq<PermissionGrant> {
        self.grants@
    }

    /// Where persistent grants are saved.
    pub closed spec fn path(&self) -> Seq<char> {
        self.persistent_path@
    }

    /// A store saving to `persistent_path`, holding the persistent (`Always`)
    /// grants among those loaded from disk.
    pub fn with_loaded(persistent_path: String, loaded: Vec<PermissionGrant>) -> (s: Self)
        ensures
            s.grants() == persistent_only(loaded@),
            s.path() == persistent_path@,
    {
        let grants = Self::persistent_of(&loaded);
        PermissionStore { grants, persistent_path }
    }

    /// The persistent (`Always`) grants among `grants`, in order.
    pub fn persistent_of(grants: &Vec<PermissionGrant>) -> (r: Vec<PermissionGrant>)
        ensures
            r@ == persistent_only(grants@),
    {
        let mut r: Vec<PermissionGrant> = Vec::new();
        let n = grants.len();
        for i in 0..n
            invariant
                n == grants@.len(),
                r@ == persistent_only(grants@.take(i as int)),
        {
            let g = &grants[i];
            proof {
                assert(grants@.take(i + 1) =~= grants@.take(i as int).push(*g));
                grants@.take(i as int).lemma_filter_push(*g, |g: PermissionGrant| g.scope == GrantScope::Always);
            }
            if g.scope.is_persistent() {
                r.push(g.clone());
            }
        }
        assert(grants@.take(n as int) =~= grants@);
        r
    }

    /// The grants that are to be written to disk.
    pub fn persistent_grants(&self) -> (r: Vec<PermissionGrant>)
        ensures
            r@ == persistent_only(self.grants()),
    {
        Self::persistent_of(&self.grants)
    }

    /// The path where persistent grants are saved.
    pub fn persistent_path(&self) -> (r: &str)
        ensures
            r@ == self.path(),
    {
        self.persistent_path.as_str()
    }

    /// Check if a permission is currently granted.
    pub fn check(&self, kind: PermissionKind, sandbox: Option<&str>) -> (r: bool)
        ensures
            r == grants_allow(self.grants(), kind, opt_str_view(sandbox)),
    {
        let n = self.grants.len();
        for i in 0..n
            invariant
                n == self.grants@.len(),
                forall|j: int| 0 <= j < i ==> !grant_covers(#[trigger] self.grants@[j], kind, opt_str_view(sandbox)),
        {
            if Self::covers(&self.grants[i], kind, sandbox) {
                return true;
            }
        }
        false
    }

    fn covers(g: &PermissionGrant, kind: PermissionKind, sandbox: Option<&str>) -> (r: bool)
        ensures
            r == grant_covers(*g, kind, opt_str_view(sandbox)),
    {
        if g.kind != kind {
            return false;
        }
        match &g.sandbox {
            None => true,
            Some(gs) => match sandbox {
                Some(s) => str_eq(gs.as_str(), s),
                None => false,
            },
        }
    }

    /// Record a grant made with identifier `id` at time `granted_at`.
    /// Returns the identifier.
    pub fn grant_with(
        &mut self,
        id: String,
        kind: PermissionKind,
        scope: GrantScope,
        sandbox: Option<String>,
        granted_by: &str,
        granted_at: String,
    ) -> (r: String)
        ensures
            r == id,
            final(self).path() == old(self).path(),
            final(self).grants() == old(self).grants().push(
                PermissionGrant {
                    id: id,
                    kind: kind,
                    scope: scope,
                    sandbox: sandbox,
                    granted_at: granted_at,
                    granted_by: final(self).grants().last().granted_by,
                },
            ),
            final(self).grants().last().granted_by@ == granted_by@,
    {
        let g = PermissionGrant {
            id: id.clone(),
            kind,
            scope,
            sandbox,
            granted_at,
            granted_by: granted_by.to_owned(),
        };
        self.grants.push(g);
        id
    }

    /// Grant a permission; the identifier is `grant_` followed by a
    /// time-seeded identifier and the grant is stamped with the current
    /// time. Returns the grant ID. Grants of scope `Always` are to be saved
    /// to disk by the caller (see `persistent_grants`).
    pub fn grant(
        &mut self,
        kind: PermissionKind,
        scope: GrantScope,
        sandbox: Option<String>,
        granted_by: &str,
    ) -> (r: String)
        ensures
            final(self).path() == old(self).path(),
            final(self).grants().len() == old(self).grants().len() + 1,
            final(self).grants().drop_last() == old(self).grants(),
            ({
                let g = final(self).grants().last();
                &&& g.id == r
                &&& g.kind == kind
                &&& g.scope == scope
                &&& g.sandbox == sandbox
                &&& g.granted_by@ == granted_by@
                &&& exists|seed: u128| r@ == "grant_"@ + uuid_text(seed)
            }),
    {
        let mut id = String::from_str("grant_");
        let suffix = uuid_v4();
        id.append(suffix.as_str());
        let granted_at = utc_now_rfc3339();
        let r = self.grant_with(id, kind, scope, sandbox, granted_by, granted_at);
        assert(self.grants().drop_last() =~= old(self).grants());
        r
    }

    /// Revoke every grant with identifier `id`. Returns whether one existed.
    /// The caller saves the persistent grants when one was removed.
    pub fn revoke(&mut self, id: &str) -> (r: bool)
        ensures
            final(self).path() == old(self).path(),
            final(self).grants() == without_id(old(self).grants(), id@),
            r == exists|i: int| 0 <= i < old(self).grants().len() && #[trigger] old(self).grants()[i].id@ == id@,
    {
        let ghost old_grants = self.grants@;
        let mut kept: Vec<PermissionGrant> = Vec::new();
        let mut removed = false;
        let n = self.grants.len();
        for i in 0..n
            invariant
                n == self.grants@.len(),
                self.grants@ == old_grants,
                kept@ == without_id(old_grants.take(i as int), id@),
                removed == exists|j: int| 0 <= j < i && #[trigger] old_grants[j].id@ == id@,
        {
            let g = &self.grants[i];
            proof {
                assert(old_grants.take(i + 1) =~= old_grants.take(i as int).push(*g));
                old_grants.take(i as int).lemma_filter_push(*g, id_differs(id@));
            }
            if str_eq(g.id.as_str(), id) {
                removed = true;
            } else {
                kept.push(g.clone());
            }
        }
        assert(old_grants.take(n as int) =~= old_grants);
        self.grants = kept;
        removed
    }

    /// List all active grants.
    pub fn list(&self) -> (r: Vec<PermissionGrant>)
        ensures
            r@ == self.grants(),
    {
        let mut r: Vec<PermissionGrant> = Vec::new();
        let n = self.grants.len();
        for i in 0..n
            invariant
                n == self.grants@.len(),
                r@ == self.grants@.take(i as int),
        {
            r.push(self.grants[i].clone());
            assert(r@ =~= self.grants@.take(i + 1));
        }
        assert(self.grants@.take(n as int) =~= self.grants@);
        r
    }

    /// Consume a one-time grant (used after successful operation).
    /// Returns true if a matching `Once` grant was found and consumed; the
    /// first such grant is removed and every other grant stays in place.
    pub fn consume_once(&mut self, kind: PermissionKind, sandbox: Option<&str>) -> (r: bool)
        ensures
            final(self).path() == old(self).path(),
            r == exists|i: int| 0 <= i < old(self).grants().len() && once_grant_covers(#[trigger] old(self).grants()[i], kind, opt_str_view(sandbox)),
            !r ==> final(self).grants() == old(self).grants(),
            r ==> exists|i: int| {
                &&& 0 <= i < old(self).grants().len()
                &&& once_grant_covers(#[trigger] old(self).grants()[i], kind, opt_str_view(sandbox))
                &&& forall|j: int| 0 <= j < i ==> !once_grant_covers(#[trigger] old(self).grants()[j], kind, opt_str_view(sandbox))
                &&& final(self).grants() == old(self).grants().remove(i)
            },
    {
        let n = self.grants.len();
        let mut i: usize = 0;
        while i < n
            invariant
                n == self.grants@.len(),
                self.grants@ == old(self).grants@,
                self.persistent_path == old(self).persistent_path,
                i <= n,
                forall|j: int| 0 <= j < i ==> !once_grant_covers(#[trigger] self.grants@[j], kind, opt_str_view(sandbox)),
            decreases n - i,
        {
            let g = &self.grants[i];
            let hit = match g.scope {
                GrantScope::Once => Self::covers(g, kind, sandbox),
                _ => false,
            };
            if hit {
                let ghost before = self.grants@;
                self.grants.remove(i);
                assert(once_grant_covers(old(self).grants()[i as int], kind, opt_str_view(sandbox)));
                assert(self.grants() == old(self).grants().remove(i as int));
                return true;
            }
            i = i + 1;
        }
        false
    }

    /// Generate a permission request ID and description for structured error responses.
    pub fn create_request(kind: PermissionKind, sandbox: Option<&str>) -> (r: PermissionRequest)
        ensures
            r.kind == kind,
            opt_string_view(r.sandbox) == opt_str_view(sandbox),
            r.description@ == description_text(kind, opt_str_view(sandbox)),
            exists|seed: u128| r.id@ == "req_"@ + uuid_text(seed),
    {
        let mut id = String::from_str("req_");
        let suffix = uuid_v4();
        id.append(suffix.as_str());
        let owned: Option<String> = match sandbox {
            Some(s) => Some(s.to_owned()),
            None => None,
        };
        PermissionRequest { id, kind, sandbox: owned, description: kind.description(sandbox) }
    }
}

/// A grant covering a kind and sandbox makes `check` succeed for them,
/// whatever grants were held before it.
pub proof fn lemma_granted_permission_is_allowed(
    before: Seq<PermissionGrant>,
    g: PermissionGrant,
    sandbox: Option<Seq<char>>,
)
    requires
        g.sandbox is None || (sandbox is Some && g.sandbox->0@ == sandbox->0),
    ensures
        grants_allow(before.push(g), g.kind, sandbox),
{
    assert(before.push(g)[before.len() as int] == g);
}

/// A wildcard grant (no sandbox named) covers every sandbox and the
/// sandbox-less check.
pub proof fn lemma_wildcard_grant_covers_all(g: PermissionGrant, sandbox: Option<Seq<char>>)
    requires
        g.sandbox is None,
    ensures
        grant_covers(g, g.kind, sandbox),
{
}

/// A grant for one sandbox never covers a check naming another sandbox or
/// naming none.
pub proof fn lemma_scoped_grant_is_not_shared(g: PermissionGrant, sandbox: Option<Seq<char>>)
    requires
        g.sandbox is Some,
        sandbox is None || sandbox->0 != g.sandbox->0@,
    ensures
        !grant_covers(g, g.kind, sandbox),
{
}

/// After revoking `id`, no remaining grant carries that identifier, and
/// every grant with another identifier is kept.
pub proof fn lemma_revoke_removes_exactly_id(grants: Seq<PermissionGrant>, id: Seq<char>)
    ensures
        forall|i: int| 0 <= i < without_id(grants, id).len() ==> (#[trigger] without_id(grants, id)[i]).id@ != id,
        forall|i: int| 0 <= i < grants.len() && (#[trigger] grants[i]).id@ != id ==> without_id(grants, id).contains(grants[i]),
{
    let p = id_differs(id);
    assert forall|i: int| 0 <= i < without_id(grants, id).len() implies (#[trigger] without_id(grants, id)[i]).id@ != id by {
        grants.lemma_filter_pred(p, i);
    }
    assert forall|i: int| 0 <= i < grants.len() && (#[trigger] grants[i]).id@ != id implies without_id(grants, id).contains(grants[i]) by {
        grants.lemma_filter_contains(p, i);
    }
}

/// A grant that was just recorded can be revoked by its identifier.
pub proof fn lemma_granted_id_is_revocable(before: Seq<PermissionGrant>, g: PermissionGrant)
    ensures
        exists|i: int| 0 <= i < before.push(g).len() && #[trigger] before.push(g)[i].id@ == g.id@,
{
    assert(before.push(g)[before.len() as int].id@ == g.id@);
}

/// Only `Always` grants are kept across restarts.
pub proof fn lemma_persistent_grants_are_always(grants: Seq<PermissionGrant>)
    ensures
        forall|i: int| 0 <= i < persistent_only(grants).len() ==> (#[trigger] persistent_only(grants)[i]).scope == GrantScope::Always,
{
    let p = |g: PermissionGrant| g.scope == GrantScope::Always;
    assert forall|i: int| 0 <= i < persistent_only(grants).len() implies (#[trigger] persistent_only(grants)[i]).scope == GrantScope::Always by {
        grants.lemma_filter_pred(p, i);
    }
}

} // verus!
