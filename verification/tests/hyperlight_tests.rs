use agentkernel::hyperlight_backend::{hyperlight_available, HyperlightError, HyperlightSandbox};

#[test]
fn test_hyperlight_availability_check() {
    let _ = hyperlight_available();
    assert!(!hyperlight_available());
}

#[test]
fn test_sandbox_creation() {
    let sandbox = HyperlightSandbox::new("test");
    assert_eq!(sandbox.name(), "test");
    assert!(!sandbox.is_initialized());
}

#[test]
fn guests_cannot_run_without_hypervisor() {
    let mut sandbox = HyperlightSandbox::new("wasm");
    let err = sandbox.init_with_wasm(&[0, 97, 115, 109]).unwrap_err();
    assert_eq!(
        err.message(),
        "Hyperlight is not available on this platform. Requires Linux with KVM and --features hyperlight"
    );
    assert_eq!(sandbox.run_wasi(), Err(HyperlightError::Unavailable));
    assert!(sandbox.call_function::<u32>("f").is_err());
    assert_eq!(HyperlightError::Unavailable.message(), "Hyperlight is not available on this platform");
    assert_eq!(sandbox.name(), "wasm");
}
