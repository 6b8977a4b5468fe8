use std::io;
use thumed_helper::error::{Invalid, ThumedError};

#[test]
fn display_formats_errors() {
    assert_eq!(
        ThumedError::from(Invalid::PodName).to_string(),
        "Pod name must contain only lowercase letters and numbers."
    );
    assert_eq!(
        ThumedError::MissingTool("helm".to_string()).to_string(),
        "'helm' was not found on PATH"
    );
    assert_eq!(
        ThumedError::CommandFailed {
            cmd: "helm install".to_string(),
            stderr: "release exists\n".to_string(),
        }
        .to_string(),
        "Command 'helm install' failed: release exists"
    );
}

#[test]
fn io_error_keeps_source() {
    let error = ThumedError::from(io::Error::new(io::ErrorKind::NotFound, "missing file"));

    assert!(error.source().is_some());
    assert!(error.to_string().contains("IO error: missing file"));
}

#[test]
fn every_error_has_its_sentence() {
    assert_eq!(
        ThumedError::PodStartupTimeout { seconds: 30, detail: "x".into() }.to_string(),
        "Pod Running was not confirmed within 30 seconds: x"
    );
    assert_eq!(
        ThumedError::PodStartupFailed { release: "r".into(), detail: "d".into() }.to_string(),
        "Pod startup failed for release 'r': d"
    );
    assert_eq!(
        ThumedError::MissingKubeconfig("/k".into()).to_string(),
        "kubeconfig '/k' was not found"
    );
    assert_eq!(ThumedError::PodNotFound("p".into()).to_string(), "Pod 'p' not found");
    assert!(ThumedError::PodNotFound("p".into()).source().is_none());
    assert_eq!(Invalid::ReleaseChanged.as_str(), "Pod Helm release changed; select the pod again.");
}
