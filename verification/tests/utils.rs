use thumed_helper::error::ThumedError;
use thumed_helper::utils::{first_line, run_cmd, uses_installed, CommandOutcome};

#[test]
fn missing_executable_maps_to_missing_tool() {
    let error = run_cmd(
        "thumed_helper_definitely_missing_binary",
        &[],
        CommandOutcome::Missing,
    )
    .unwrap_err();
    assert!(matches!(error, ThumedError::MissingTool(_)));
}

#[test]
fn first_line_skips_blanks() {
    assert_eq!(first_line("\n  v1.2.3 \nrest"), "v1.2.3");
    assert_eq!(first_line(""), "");
}

#[test]
fn first_line_is_cut_at_120_characters() {
    let long = "x".repeat(200);
    assert_eq!(first_line(&long).chars().count(), 120);
}

#[test]
fn command_outcomes_become_results() {
    let ok = run_cmd(
        "kubectl",
        &["get", "pods"],
        CommandOutcome::Finished { success: true, stdout: "NAME\n".into(), stderr: String::new() },
    );
    assert_eq!(ok.unwrap(), "NAME\n");
    let failed = run_cmd(
        "helm",
        &["install", "lesson1"],
        CommandOutcome::Finished { success: false, stdout: String::new(), stderr: "exists\n".into() },
    );
    assert!(matches!(failed, Err(ThumedError::CommandFailed { cmd, stderr })
        if cmd == "helm install lesson1" && stderr == "exists\n"));
    let bare = run_cmd(
        "helm",
        &[],
        CommandOutcome::Finished { success: false, stdout: String::new(), stderr: String::new() },
    );
    assert!(matches!(bare, Err(ThumedError::CommandFailed { cmd, .. }) if cmd == "helm"));
    let io = std::io::Error::new(std::io::ErrorKind::PermissionDenied, "denied");
    assert!(matches!(
        run_cmd("helm", &[], CommandOutcome::SpawnFailed(io)),
        Err(ThumedError::Io(_))
    ));
}

#[test]
fn installed_copies_only_for_managed_tools() {
    assert!(uses_installed("kubectl", true));
    assert!(uses_installed("helm", true));
    assert!(!uses_installed("helm", false));
    assert!(!uses_installed("curl", true));
}
