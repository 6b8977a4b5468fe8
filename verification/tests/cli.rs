use thumed_helper::cli::{Cli, CliErrorKind, Commands};

#[test]
fn parses_install_pod_with_all_options() {
    let cli = Cli::parse_from(&[
        "thumed_helper",
        "install-pod",
        "--name",
        "pod01",
        "--cpu",
        "8",
        "--memory",
        "32",
    ])
    .unwrap();

    match cli.command {
        Some(Commands::InstallPod { name, cpu, memory }) => {
            assert_eq!(name, Some("pod01".to_string()));
            assert_eq!(cpu, Some(8));
            assert_eq!(memory, Some(32));
        }
        _ => panic!("expected install-pod command"),
    }
}

#[test]
fn parses_login_pod_name() {
    let cli = Cli::parse_from(&["thumed_helper", "login-pod", "--name", "pod01"]).unwrap();

    match cli.command {
        Some(Commands::LoginPod { name }) => {
            assert_eq!(name, Some("pod01".to_string()));
        }
        _ => panic!("expected login-pod command"),
    }
}

#[test]
fn parses_no_command_as_none() {
    let cli = Cli::parse_from(&["thumed_helper"]).unwrap();

    assert!(cli.command.is_none());
}

#[test]
fn short_and_attached_option_forms() {
    let cli = Cli::parse_from(&["t", "install-pod", "-npod02", "-c=4", "--memory=+16"]).unwrap();
    match cli.command {
        Some(Commands::InstallPod { name, cpu, memory }) => {
            assert_eq!(name.as_deref(), Some("pod02"));
            assert_eq!(cpu, Some(4));
            assert_eq!(memory, Some(16));
        }
        _ => panic!("expected install-pod command"),
    }
    match Cli::parse_from(&["t", "forward-pod", "-n", "-"]).unwrap().command {
        Some(Commands::ForwardPod { name }) => assert_eq!(name.as_deref(), Some("-")),
        _ => panic!("expected forward-pod command"),
    }
    assert!(matches!(
        Cli::parse_from(&["t", "uninstall-pod"]).unwrap().command,
        Some(Commands::UninstallPod { name: None })
    ));
    assert!(matches!(
        Cli::parse_from(&["t", "check-env"]).unwrap().command,
        Some(Commands::CheckEnv)
    ));
    assert!(matches!(
        Cli::parse_from(&["t", "list-pods"]).unwrap().command,
        Some(Commands::ListPods)
    ));
    assert!(matches!(
        Cli::parse_from(&["t", "update-user"]).unwrap().command,
        Some(Commands::UpdateUser)
    ));
}

#[test]
fn malformed_command_lines_are_refused() {
    let kind = |args: &[&str]| Cli::parse_from(args).err().map(|e| (e.kind, e.arg));
    assert_eq!(kind(&["t", "--help"]), Some((CliErrorKind::Help, "--help".into())));
    assert_eq!(kind(&["t", "help"]), Some((CliErrorKind::Help, "help".into())));
    assert_eq!(kind(&["t", "-V"]), Some((CliErrorKind::Version, "-V".into())));
    assert_eq!(kind(&["t", "deploy"]), Some((CliErrorKind::UnknownCommand, "deploy".into())));
    assert_eq!(kind(&["t", "--nope"]), Some((CliErrorKind::UnexpectedArgument, "--nope".into())));
    assert_eq!(
        kind(&["t", "check-env", "--name", "x"]),
        Some((CliErrorKind::UnexpectedArgument, "--name".into()))
    );
    assert_eq!(
        kind(&["t", "login-pod", "--cpu", "2"]),
        Some((CliErrorKind::UnexpectedArgument, "--cpu".into()))
    );
    assert_eq!(
        kind(&["t", "login-pod", "--name"]),
        Some((CliErrorKind::MissingValue, "--name".into()))
    );
    assert_eq!(
        kind(&["t", "install-pod", "--cpu", "--memory", "2"]),
        Some((CliErrorKind::MissingValue, "--cpu".into()))
    );
    assert_eq!(
        kind(&["t", "install-pod", "--cpu", "256"]),
        Some((CliErrorKind::InvalidValue, "256".into()))
    );
    assert_eq!(
        kind(&["t", "install-pod", "-n", "a", "--name=b"]),
        Some((CliErrorKind::RepeatedArgument, "--name=b".into()))
    );
    assert_eq!(
        kind(&["t", "install-pod", "-h"]),
        Some((CliErrorKind::Help, "-h".into()))
    );
}
