use thumed_helper::error::{Invalid, ThumedError};
use thumed_helper::tools::{
    checksum_matches, ensure, expected_checksum, platform, release_version, tool_report,
    version_args, Reply, SetupPhase, SetupStep, StagedFile, ToolSetup, Work,
};

#[test]
fn platforms_and_version_metadata_are_validated() {
    for (os, expected) in [
        ("macos", "darwin"),
        ("linux", "linux"),
        ("windows", "windows"),
    ] {
        assert_eq!(platform(os, "x86_64").unwrap(), (expected, "amd64"));
        assert_eq!(platform(os, "aarch64").unwrap(), (expected, "arm64"));
    }
    assert!(platform("linux", "unknown").is_err());
    assert!(platform("unknown", "x86_64").is_err());
    assert_eq!(release_version("v3.22.0\n", "3").unwrap(), "v3.22.0");
    for invalid in ["", "v3/../../file", "v4.0.0", "v3.1", "v3.1.2;exit"] {
        assert!(release_version(invalid, "3").is_err());
    }
}

#[test]
fn checksums_are_read_and_compared_without_case() {
    let sum = "ba7816bf8f01cfea414140de5dae2223b00361a396177a9cb410ff61f20015ad";
    assert_eq!(expected_checksum(&format!("{}  download", sum)).unwrap(), sum);
    assert!(matches!(
        expected_checksum("not-a-checksum"),
        Err(ThumedError::Invalid(Invalid::DownloadVerification))
    ));
    assert!(expected_checksum("").is_err());
    assert!(checksum_matches(&format!("{}  /tmp/download\n", sum.to_uppercase()), sum).is_ok());
    assert!(checksum_matches(&"0".repeat(64), sum).is_err());
    assert!(checksum_matches("", sum).is_err());
}

#[test]
fn tool_report_names_version_and_location() {
    assert_eq!(
        tool_report("\nClient Version: v1.30.0\nKustomize\n", "/home/u/bin/kubectl", true),
        "Client Version: v1.30.0\n/home/u/bin/kubectl"
    );
    assert_eq!(tool_report("v3.15.0", "helm", false), "v3.15.0\nPATH: helm");
    assert_eq!(version_args("kubectl"), vec!["version", "--client"]);
    assert_eq!(version_args("helm"), vec!["version", "--short"]);
}

fn done(text: &str) -> Reply {
    Reply::Done(text.to_string())
}

#[test]
fn working_tool_is_reused() {
    let (mut setup, first) = ToolSetup::new("helm", "linux", "x86_64");
    assert_eq!(first.step, Some(SetupStep::Check));
    assert!(matches!(first.work, Work::RunVersion));
    let next = ensure(&mut setup, done("v3.15.0"));
    assert!(matches!(next.work, Work::Finished(Ok(ref v)) if v == "v3.15.0"));
    assert_eq!(setup.phase, SetupPhase::Finished);
}

#[test]
fn missing_kubectl_is_downloaded_verified_and_installed() {
    let sum = "ba7816bf8f01cfea414140de5dae2223b00361a396177a9cb410ff61f20015ad";
    let (mut setup, _) = ToolSetup::new("kubectl", "linux", "x86_64");
    let a = ensure(&mut setup, Reply::Failed(ThumedError::MissingTool("kubectl".into())));
    assert!(matches!(a.work, Work::Stage));
    let a = ensure(&mut setup, done(""));
    assert_eq!(a.step, Some(SetupStep::FetchVersion));
    assert!(matches!(a.work, Work::Download { ref url, file: StagedFile::Version }
        if url == "https://dl.k8s.io/release/stable.txt"));
    let a = ensure(&mut setup, done("v1.30.2\n"));
    assert_eq!(a.step, Some(SetupStep::DownloadBinary));
    assert!(matches!(a.work, Work::Download { ref url, file: StagedFile::Download }
        if url == "https://dl.k8s.io/release/v1.30.2/bin/linux/amd64/kubectl"));
    let a = ensure(&mut setup, done(""));
    assert_eq!(a.step, Some(SetupStep::DownloadChecksum));
    assert!(matches!(a.work, Work::Download { ref url, file: StagedFile::Checksum }
        if url == "https://dl.k8s.io/release/v1.30.2/bin/linux/amd64/kubectl.sha256"));
    let a = ensure(&mut setup, done(sum));
    assert_eq!(a.step, Some(SetupStep::VerifyChecksum));
    assert!(matches!(a.work, Work::HashDownload));
    let a = ensure(&mut setup, done(&format!("{}  download", sum)));
    assert!(setup.checksum_verified);
    assert!(matches!(a.work, Work::RenameDownload { ref name } if name == "kubectl"));
    let a = ensure(&mut setup, done(""));
    assert!(matches!(a.work, Work::InspectCandidate { ref name } if name == "kubectl"));
    let a = ensure(&mut setup, done(""));
    assert_eq!(a.step, Some(SetupStep::VerifyBinary));
    assert!(matches!(a.work, Work::RunCandidate { .. }));
    let a = ensure(&mut setup, done("Client Version: v1.30.2"));
    assert!(matches!(a.work, Work::ProbeDestination));
    let a = ensure(&mut setup, done(""));
    assert_eq!(a.step, Some(SetupStep::InstallBinary));
    assert!(matches!(a.work, Work::InstallCandidate { ref name } if name == "kubectl"));
    let a = ensure(&mut setup, done(""));
    assert!(matches!(a.work, Work::RunVersion));
    let a = ensure(&mut setup, done("Client Version: v1.30.2"));
    assert!(matches!(a.work, Work::Finished(Ok(ref v)) if v == "Client Version: v1.30.2"));
}

#[test]
fn helm_is_extracted_from_its_archive() {
    let sum = "ba7816bf8f01cfea414140de5dae2223b00361a396177a9cb410ff61f20015ad";
    let (mut setup, _) = ToolSetup::new("helm", "windows", "aarch64");
    ensure(&mut setup, Reply::Failed(ThumedError::MissingTool("helm".into())));
    let a = ensure(&mut setup, done(""));
    assert!(matches!(a.work, Work::Download { ref url, .. }
        if url == "https://get.helm.sh/helm3-latest-version"));
    let a = ensure(&mut setup, done("v3.15.0"));
    assert!(matches!(a.work, Work::Download { ref url, .. }
        if url == "https://get.helm.sh/helm-v3.15.0-windows-arm64.tar.gz"));
    let a = ensure(&mut setup, done(""));
    assert!(matches!(a.work, Work::Download { ref url, .. }
        if url == "https://get.helm.sh/helm-v3.15.0-windows-arm64.tar.gz.sha256sum"));
    ensure(&mut setup, done(sum));
    let a = ensure(&mut setup, done(sum));
    assert_eq!(a.step, Some(SetupStep::Extract));
    assert!(matches!(a.work, Work::Extract { ref member } if member == "windows-arm64/helm.exe"));
}

#[test]
fn checksum_failure_does_not_publish_a_binary() {
    let sum = "ba7816bf8f01cfea414140de5dae2223b00361a396177a9cb410ff61f20015ad";
    let (mut setup, _) = ToolSetup::new("kubectl", "macos", "aarch64");
    ensure(&mut setup, Reply::Failed(ThumedError::MissingTool("kubectl".into())));
    ensure(&mut setup, done(""));
    ensure(&mut setup, done("v1.30.2"));
    ensure(&mut setup, done(""));
    ensure(&mut setup, done(sum));
    let a = ensure(&mut setup, done(&"0".repeat(64)));
    assert!(matches!(
        a.work,
        Work::Finished(Err(ThumedError::Invalid(Invalid::DownloadVerification)))
    ));
    assert!(!setup.checksum_verified);

    let (mut setup, _) = ToolSetup::new("kubectl", "linux", "x86_64");
    ensure(&mut setup, Reply::Failed(ThumedError::MissingTool("kubectl".into())));
    ensure(&mut setup, done(""));
    ensure(&mut setup, done("v1.30.2"));
    ensure(&mut setup, done(""));
    let a = ensure(&mut setup, done("not-a-checksum"));
    assert!(matches!(
        a.work,
        Work::Finished(Err(ThumedError::Invalid(Invalid::DownloadVerification)))
    ));
    // The verification step is shown before the checksum file is judged.
    assert_eq!(a.step, Some(SetupStep::VerifyChecksum));
}

#[test]
fn setup_stops_on_failures() {
    let (mut setup, _) = ToolSetup::new("kubectl", "freebsd", "x86_64");
    let a = ensure(&mut setup, Reply::Failed(ThumedError::MissingTool("kubectl".into())));
    assert!(matches!(
        a.work,
        Work::Finished(Err(ThumedError::Invalid(Invalid::UnsupportedPlatform)))
    ));
    let (mut setup, _) = ToolSetup::new("helm", "linux", "x86_64");
    let a = ensure(
        &mut setup,
        Reply::Failed(ThumedError::CommandFailed { cmd: "helm version".into(), stderr: "x".into() }),
    );
    assert!(matches!(a.work, Work::Finished(Err(ThumedError::CommandFailed { .. }))));
    let (mut setup, _) = ToolSetup::new("helm", "linux", "x86_64");
    ensure(&mut setup, Reply::Failed(ThumedError::MissingTool("helm".into())));
    ensure(&mut setup, done(""));
    let a = ensure(&mut setup, done("v4.0.0"));
    assert!(matches!(
        a.work,
        Work::Finished(Err(ThumedError::Invalid(Invalid::DownloadVerification)))
    ));
    let (mut setup, _) = ToolSetup::new("helm", "linux", "x86_64");
    let a = ensure(&mut setup, Reply::Occupied("/home/u/.config/thumed_helper/bin/helm".into()));
    assert!(matches!(a.work, Work::Finished(Err(ThumedError::Io(_)))));
    let (mut setup, _) = ToolSetup::new("helm", "linux", "x86_64");
    let a = ensure(&mut setup, Reply::NotAFile);
    assert!(matches!(
        a.work,
        Work::Finished(Err(ThumedError::Invalid(Invalid::DownloadVerification)))
    ));
}

#[test]
fn helm_setup_shows_each_step_once_in_order() {
    let sum = "ba7816bf8f01cfea414140de5dae2223b00361a396177a9cb410ff61f20015ad";
    let (mut setup, first) = ToolSetup::new("helm", "linux", "x86_64");
    let mut steps = vec![first.step.unwrap()];
    let replies = vec![
        Reply::Failed(ThumedError::MissingTool("helm".into())),
        done(""),
        done("v3.15.0"),
        done(""),
        done(sum),
        done(sum),
        done(""),
        done(""),
        done("v3.15.0+g1234"),
        done(""),
        done(""),
        done("v3.15.0+g1234"),
    ];
    let mut calls = 0;
    for reply in replies {
        let a = ensure(&mut setup, reply);
        calls += 1;
        if let Some(step) = a.step {
            steps.push(step);
        }
        if matches!(a.work, Work::Finished(_)) {
            assert!(matches!(a.work, Work::Finished(Ok(ref v)) if v == "v3.15.0+g1234"));
            break;
        }
    }
    assert_eq!(calls, 12);
    assert_eq!(setup.phase, SetupPhase::Finished);
    assert_eq!(
        steps,
        vec![
            SetupStep::Check,
            SetupStep::FetchVersion,
            SetupStep::DownloadBinary,
            SetupStep::DownloadChecksum,
            SetupStep::VerifyChecksum,
            SetupStep::Extract,
            SetupStep::VerifyBinary,
            SetupStep::InstallBinary,
        ]
    );
}

#[test]
fn unsupported_platform_ends_setup_without_a_step() {
    let (mut setup, _) = ToolSetup::new("kubectl", "plan9", "x86_64");
    let a = ensure(&mut setup, Reply::Failed(ThumedError::MissingTool("kubectl".into())));
    assert_eq!(a.step, None);
    assert!(matches!(
        a.work,
        Work::Finished(Err(ThumedError::Invalid(Invalid::UnsupportedPlatform)))
    ));
    assert_eq!(setup.phase, SetupPhase::Finished);
}
