use not_news::agent::compatibility::{
    bounded_child_output, cached_compatibility, check_hermes_compatibility, check_tool_capability,
    compatibility_identity, exit_code_text, locate_hermes, CompatibilityCache, HermesCompatibilityError, ProbeRun,
    ToolCapabilityError,
};
use not_news::agent::executables::{ExecutableProbe, RecordedProbe};

struct Installed(Vec<&'static str>);

impl ExecutableProbe for Installed {
    fn is_executable(&self, path: &str) -> bool {
        self.0.contains(&path)
    }
}


#[test]
fn a_passing_check_is_cached_and_a_failing_peer_is_reported() {
    let mut cache = CompatibilityCache::new();
    let identity = compatibility_identity(b"#!/bin/sh\n".to_vec(), b"terminal: {}\n".to_vec(), 2);
    assert!(cached_compatibility(&cache, "/bin/hermes", &identity).is_none());
    let first = check_hermes_compatibility(
        &mut cache,
        "/bin/hermes".into(),
        identity.clone(),
        ProbeRun::Exited { success: true, code: Some(0), stderr: None, stdout: None },
    )
    .unwrap();
    assert!(!first.cached);
    assert_eq!(first.evidence, "executable/profile ACP self-check");
    let second = cached_compatibility(&cache, "/bin/hermes", &identity).unwrap();
    assert!(second.cached);
    assert_eq!(second.executable, "/bin/hermes");

    let other = compatibility_identity(b"#!/bin/sh\necho changed\n".to_vec(), b"terminal: {}\n".to_vec(), 2);
    assert_ne!(other, identity);
    let error = check_hermes_compatibility(
        &mut cache,
        "/bin/hermes".into(),
        other.clone(),
        ProbeRun::Exited { success: false, code: Some(9), stderr: Some(b"incompatible\n".to_vec()), stdout: None },
    )
    .unwrap_err();
    assert!(error.message().contains("incompatible"));
    assert_eq!(
        error,
        HermesCompatibilityError::Failed { code: " with exit code 9".into(), detail: "incompatible".into() }
    );
    assert!(cached_compatibility(&cache, "/bin/hermes", &other).is_none());
}

#[test]
fn identities_are_lower_case_sha256_hex() {
    let identity = compatibility_identity(Vec::new(), Vec::new(), 0);
    assert_eq!(identity.len(), 64);
    assert_eq!(identity, "8855508aade16ec573d21e6a485dfd0a7624085c1a14b5ecdd6485de0c6839a4");
}

#[test]
fn failures_without_diagnostics_say_so() {
    let mut cache = CompatibilityCache::new();
    let error = check_hermes_compatibility(
        &mut cache,
        "h".into(),
        "id".into(),
        ProbeRun::Exited { success: false, code: None, stderr: Some(Vec::new()), stdout: Some(b"  \n".to_vec()) },
    )
    .unwrap_err();
    assert_eq!(
        error.message(),
        "Hermes ACP compatibility check failed: no diagnostic was emitted"
    );
    assert_eq!(bounded_child_output(Some(b"".to_vec()), Some(b" out ".to_vec())), "out");
    assert_eq!(bounded_child_output(Some(b" err ".to_vec()), Some(b"out".to_vec())), "err");
    assert_eq!(exit_code_text(Some(-1)), " with exit code -1");
    assert_eq!(
        check_hermes_compatibility(&mut cache, "h".into(), "id".into(), ProbeRun::TimedOut),
        Err(HermesCompatibilityError::Timeout)
    );
}

#[test]
fn tool_probes_report_each_failure_with_the_tool() {
    assert_eq!(
        check_tool_capability("browse", None, ProbeRun::TimedOut),
        Err(ToolCapabilityError::Missing { tool: "browse".into() })
    );
    assert_eq!(
        check_tool_capability(
            "curl",
            Some("/usr/bin/curl".into()),
            ProbeRun::Exited { success: true, code: Some(0), stderr: None, stdout: None }
        ),
        Ok("/usr/bin/curl".to_owned())
    );
    let error = check_tool_capability(
        "curl",
        Some("/usr/bin/curl".into()),
        ProbeRun::Exited { success: false, code: Some(2), stderr: None, stdout: None },
    )
    .unwrap_err();
    assert_eq!(error.message(), "curl capability probe exited unsuccessfully with exit code 2");
    assert_eq!(
        ToolCapabilityError::Timeout { tool: "browse".into() }.message(),
        "browse capability probe exceeded three seconds"
    );
}

#[test]
fn no_hermes_on_path_is_missing() {
    let none = Installed(vec![]);
    assert_eq!(
        locate_hermes(Some("/usr/bin:/bin"), &mut RecordedProbe::new(&none)),
        Err(HermesCompatibilityError::Missing)
    );
    assert_eq!(locate_hermes(None, &mut RecordedProbe::new(&none)), Err(HermesCompatibilityError::Missing));
    let found = Installed(vec!["/bin/hermes"]);
    assert_eq!(locate_hermes(Some("/usr/bin:/bin"), &mut RecordedProbe::new(&found)), Ok("/bin/hermes".to_owned()));
}
