//! Hyperlight micro-VM sandboxes for WebAssembly workloads, as built on
//! hosts without the Hyperlight hypervisor support: every operation reports
//! that Hyperlight is unavailable.

use vstd::prelude::*;

verus! {

broadcast use vstd::string::group_string_axioms;

/// Why a Hyperlight operation failed.
#[derive(Debug, Clone, Copy, PartialEq, Eq, Structural)]
pub enum HyperlightError {
    /// The platform lacks Linux with KVM and the Hyperlight feature.
    PlatformUnavailable,
    /// Hyperlight is not available.
    Unavailable,
}

impl HyperlightError {
    /// The message of the error.
    pub fn message(&self) -> (s: String)
        ensures
            s@ == (match self {
                HyperlightError::PlatformUnavailable => "Hyperlight is not available on this platform. Requires Linux with KVM and --features hyperlight"@,
                HyperlightError::Unavailable => "Hyperlight is not available on this platform"@,
            }),
    {
        match self {
            HyperlightError::PlatformUnavailable => String::from_str(
                "Hyperlight is not available on this platform. Requires Linux with KVM and --features hyperlight",
            ),
            HyperlightError::Unavailable => String::from_str("Hyperlight is not available on this platform"),
        }
    }
}

/// Whether Hyperlight can run here: never, without hypervisor support.
pub fn hyperlight_available() -> (r: bool)
    ensures
        !r,
{
    false
}

/// A Hyperlight sandbox: only its name, as no guest can be loaded.
pub struct HyperlightSandbox {
    name: String,
}

impl HyperlightSandbox {
    /// The sandbox's name.
    pub closed spec fn name_view(&self) -> Seq<char> {
        self.name@
    }

    /// Create a sandbox called `name`.
    pub fn new(name: &str) -> (s: Self)
        ensures
            s.name_view() == name@,
    {
        HyperlightSandbox { name: name.to_owned() }
    }

    /// Loading a WebAssembly module fails: there is no hypervisor.
    pub fn init_with_wasm(&mut self, wasm_bytes: &[u8]) -> (r: Result<(), HyperlightError>)
        ensures
            r == Err::<(), HyperlightError>(HyperlightError::PlatformUnavailable),
            final(self).name_view() == old(self).name_view(),
    {
        Err(HyperlightError::PlatformUnavailable)
    }

    /// Calling a guest function fails: no guest is loaded.
    pub fn call_function<T>(&mut self, name: &str) -> (r: Result<T, HyperlightError>)
        ensures
            r is Err && r->Err_0 == HyperlightError::Unavailable,
            final(self).name_view() == old(self).name_view(),
    {
        Err(HyperlightError::Unavailable)
    }

    /// Running the WASI entry point fails: no guest is loaded.
    pub fn run_wasi(&mut self) -> (r: Result<i32, HyperlightError>)
        ensures
            r == Err::<i32, HyperlightError>(HyperlightError::Unavailable),
            final(self).name_view() == old(self).name_view(),
    {
        self.call_function::<i32>("_start")
    }

    /// Whether a module is loaded: never.
    pub fn is_initialized(&self) -> (r: bool)
        ensures
            !r,
    {
        false
    }

    /// The sandbox's name.
    pub fn name(&self) -> (r: &str)
        ensures
            r@ == self.name_view(),
    {
        self.name.as_str()
    }
}

} // verus!
