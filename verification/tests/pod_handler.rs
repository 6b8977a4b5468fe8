use thumed_helper::constants;
use thumed_helper::environment::UserInfo;
use thumed_helper::error::{Invalid, ThumedError};
use thumed_helper::utils::CommandOutcome;
use thumed_helper::pod_handler::{
    check_pod_startup, command_status, parse_pod_startup, pod_startup_args, spawn_error,
    wait_for_pod_running, wait_for_running, yaml_scalar, PodConfig, PodHandler, PodStartup,
    WaitStep,
};

fn row(phase: &str, reason: &str, waiting: &str, terminated: &str) -> String {
    format!(
        "lesson1-abc\t{}\t{}\t\t{}\t{}\n",
        phase, reason, waiting, terminated
    )
}

#[test]
fn startup_checks_phase_and_container_errors() {
    assert_eq!(
        parse_pod_startup("").unwrap(),
        PodStartup::Waiting(String::new())
    );
    let running = row("Running", "", ",,", "Completed:0,:,");
    assert_eq!(
        parse_pod_startup(&running).unwrap(),
        PodStartup::Running(vec!["lesson1-abc".to_string()])
    );
    assert_eq!(
        parse_pod_startup(&running.replace('\n', "\r\n")).unwrap(),
        parse_pod_startup(&running).unwrap()
    );
    let pending = row("Pending", "", "ContainerCreating,", ":,");
    for output in [&pending, &format!("{}{}", running, pending)] {
        assert!(matches!(
            parse_pod_startup(output),
            Ok(PodStartup::Waiting(_))
        ));
    }
    for (phase, reason, waiting, terminated, expected) in [
        ("Failed", "Evicted", "", "", "Evicted"),
        ("Running", "", "CrashLoopBackOff,", ":,", "CrashLoopBackOff"),
        ("Pending", "", "ImagePullBackOff,", "", "ImagePullBackOff"),
        ("Pending", "", "ErrImagePull,", "", "ErrImagePull"),
        (
            "Pending",
            "",
            "CreateContainerConfigError,",
            "",
            "CreateContainerConfigError",
        ),
        ("Running", "", "", "OOMKilled:137,", "OOMKilled"),
        ("Pending", "", "", "Error:1,", "Error:1"),
        ("Succeeded", "", "", "Completed:0,", "Succeeded"),
    ] {
        let output = format!("{}{}", running, row(phase, reason, waiting, terminated));
        assert!(
            matches!(parse_pod_startup(&output), Ok(PodStartup::Failed(detail)) if detail.contains(expected))
        );
    }
    assert!(matches!(
        parse_pod_startup("lesson1-abc\tRunning\t\t2026-01-01T00:00:00Z\t,\t:,\n"),
        Ok(PodStartup::Waiting(_))
    ));
    assert!(parse_pod_startup("malformed output").is_err());
}

#[test]
fn startup_summary_lists_each_pod_with_its_details() {
    let output = format!(
        "{}{}",
        row("Running", "", "", "Completed:0,"),
        row("Pending", "Unschedulable", "ContainerCreating,PodInitializing,", ":,")
    );
    assert_eq!(
        parse_pod_startup(&output).unwrap(),
        PodStartup::Waiting(
            "lesson1-abc: Running Completed:0\nlesson1-abc: Pending Unschedulable / ContainerCreating, PodInitializing"
                .to_string()
        )
    );
    // An exit code that is not a number does not count as a failure.
    assert!(matches!(
        parse_pod_startup(&row("Running", "", "", "Error:x1,")),
        Ok(PodStartup::Running(_))
    ));
    // A negative exit code does.
    assert!(matches!(
        parse_pod_startup(&row("Running", "", "", "Error:-1,")),
        Ok(PodStartup::Failed(_))
    ));
    // Five columns are malformed.
    assert!(parse_pod_startup("pod\tRunning\t\t\t\n").is_err());
}

#[test]
fn synchronous_wait_returns_running_failure_timeout_or_query_error() {
    // The loop that polls lives outside the library; here its decisions are
    // replayed one step at a time.
    let second = 1_000_000_000u64;
    let step = wait_for_running("lesson1", PodStartup::Waiting("Pending".into()), second, 0, 0);
    assert!(matches!(step, Ok(WaitStep::Sleep(0))));
    let names = match wait_for_running(
        "lesson1",
        PodStartup::Running(vec!["lesson1-abc".into()]),
        second,
        0,
        0,
    ) {
        Ok(WaitStep::Done(names)) => names,
        other => panic!("unexpected step {:?}", other),
    };
    assert_eq!(names, vec!["lesson1-abc"]);

    let failed = wait_for_running(
        "lesson1",
        PodStartup::Failed("CrashLoopBackOff".into()),
        second,
        0,
        0,
    );
    assert!(
        matches!(failed, Err(ThumedError::PodStartupFailed { release, detail })
        if release == "lesson1" && detail == "CrashLoopBackOff")
    );
    let timeout = wait_for_running("lesson1", PodStartup::Waiting("Pending".into()), 0, 0, 0);
    assert!(
        matches!(timeout, Err(ThumedError::PodStartupTimeout { seconds: 0, detail }) if detail == "Pending")
    );
}

#[test]
fn wait_sleeps_no_longer_than_the_time_left() {
    let second = 1_000_000_000u64;
    assert_eq!(
        wait_for_running("r", PodStartup::Waiting(String::new()), 30 * second, 29 * second, 2 * second)
            .unwrap(),
        WaitStep::Sleep(second)
    );
    assert_eq!(
        wait_for_running("r", PodStartup::Waiting(String::new()), 30 * second, 0, 2 * second).unwrap(),
        WaitStep::Sleep(2 * second)
    );
    assert!(matches!(
        wait_for_running("r", PodStartup::Waiting(String::new()), 30 * second, 31 * second, 2 * second),
        Err(ThumedError::PodStartupTimeout { seconds: 30, .. })
    ));
}

#[test]
fn pod_config_validates_input() {
    assert!(PodConfig::from_values("pod01", "", "").is_ok());
    assert!(matches!(
        PodConfig::from_values("Pod01", "2", "4").unwrap_err(),
        ThumedError::Invalid(Invalid::PodName)
    ));
    assert!(matches!(
        PodConfig::from_values("pod01", "0", "4").unwrap_err(),
        ThumedError::Invalid(Invalid::CpuValue)
    ));
    assert!(matches!(
        PodConfig::from_values("pod01", "2", "nope").unwrap_err(),
        ThumedError::Invalid(Invalid::MemoryValue)
    ));
}

#[test]
fn resource_limits_follow_u8_parsing() {
    let config = PodConfig::from_values(" pod01 ", " +8 ", "255").unwrap();
    assert_eq!(config.release_name(), "pod01");
    assert_eq!(config.cpu, Some(8));
    assert_eq!(config.memory, Some(255));
    assert!(matches!(
        PodConfig::from_values("pod01", "256", "").unwrap_err(),
        ThumedError::Invalid(Invalid::CpuValue)
    ));
    assert!(matches!(
        PodConfig::from_values("pod01", "-1", "").unwrap_err(),
        ThumedError::Invalid(Invalid::CpuValue)
    ));
    assert!(matches!(
        PodConfig::from_values("pod01", "+", "").unwrap_err(),
        ThumedError::Invalid(Invalid::CpuValue)
    ));
    assert!(matches!(
        PodConfig::from_values("", "1", "1").unwrap_err(),
        ThumedError::Invalid(Invalid::PodName)
    ));
}

#[test]
fn render_values_yaml_uses_values_and_defaults() {
    let user = UserInfo::from_username("alice").unwrap();
    let yaml = PodConfig::from_values("pod01", "4", "")
        .unwrap()
        .render_values_yaml(&user);

    assert!(yaml.contains("containerName: \"pod01\""));
    assert!(yaml.contains(&format!(
        "resources:\n  cpu: \"4\"\n  memory: \"{}\"",
        constants::DEFAULT_MEMORY_GB
    )));
    assert!(yaml.contains("username: \"alice\""));
    assert!(yaml.contains("password: \"Test1234\""));
}

#[test]
fn yaml_scalar_escapes_control_and_yaml_characters() {
    assert_eq!(yaml_scalar("#\\\"\n"), "\"#\\\\\\\"\\n\"");
}

#[test]
fn yaml_scalar_writes_other_controls_as_unicode_escapes() {
    assert_eq!(yaml_scalar("a\u{1}b\u{7f}\t\r"), "\"a\\u0001b\\u007f\\t\\r\"");
    assert_eq!(yaml_scalar(""), "\"\"");
}

#[test]
fn unknown_pod_is_rejected() {
    let handler = PodHandler {
        pod_list: vec!["known-pod".to_string()],
    };

    assert!(matches!(
        handler.login_pod_by_name("missing-pod").unwrap_err(),
        ThumedError::PodNotFound(name) if name == "missing-pod"
    ));
    assert!(matches!(
        handler.start_forward("missing-pod").unwrap_err(),
        ThumedError::PodNotFound(_)
    ));
    assert!(matches!(
        handler.release_for_pod("missing-pod").unwrap_err(),
        ThumedError::PodNotFound(_)
    ));
    assert!(handler.ensure_known("known-pod").is_ok());
}

#[test]
fn pod_commands_name_the_pod() {
    let handler = PodHandler {
        pod_list: vec!["known-pod".to_string()],
    };
    assert_eq!(
        handler.login_pod_by_name("known-pod").unwrap(),
        vec!["exec", "-it", "known-pod", "--", "sh", "/cmd.sh"]
    );
    assert_eq!(
        handler.start_forward("known-pod").unwrap(),
        vec!["port-forward", "known-pod", "8787:8787"]
    );
    assert_eq!(
        handler.release_for_pod("known-pod").unwrap(),
        vec![
            "get",
            "pod",
            "known-pod",
            "-o",
            "jsonpath={.metadata.labels.app\\.kubernetes\\.io/instance}"
        ]
    );
}

#[test]
fn uninstall_needs_the_confirmed_release() {
    let handler = PodHandler::new();
    assert!(handler.uninstall_pod_release(Ok("lesson1".into()), "lesson1").is_ok());
    assert!(matches!(
        handler.uninstall_pod_release(Ok("lesson2".into()), "lesson1"),
        Err(ThumedError::Invalid(Invalid::ReleaseChanged))
    ));
    assert!(matches!(
        handler.uninstall_pod_release(Err(ThumedError::PodNotFound("p".into())), "lesson1"),
        Err(ThumedError::PodNotFound(_))
    ));
}

#[test]
fn install_pipes_values_to_helm() {
    let config = PodConfig::from_values("pod01", "", "8").unwrap();
    let user = UserInfo::from_username("alice").unwrap();
    let (args, values) = config.install_pod(&user);
    assert_eq!(args, vec!["install", "pod01", constants::HELM_CHART, "-f", "-"]);
    assert!(values.contains("containerName: \"pod01\""));
    assert!(values.contains("username: \"alice\""));
}

#[test]
fn command_endings_become_results() {
    assert!(command_status(
        "kubectl",
        "kubectl exec",
        CommandOutcome::Finished { success: true, stdout: String::new(), stderr: String::new() }
    )
    .is_ok());
    assert!(matches!(
        command_status(
            "kubectl",
            "kubectl exec",
            CommandOutcome::Finished {
                success: false,
                stdout: String::new(),
                stderr: "exit status: 1".into()
            }
        ),
        Err(ThumedError::CommandFailed { cmd, stderr }) if cmd == "kubectl exec" && stderr == "exit status: 1"
    ));
    assert!(matches!(
        command_status("helm", "helm install", CommandOutcome::Missing),
        Err(ThumedError::MissingTool(tool)) if tool == "helm"
    ));
    let e = std::io::Error::new(std::io::ErrorKind::NotFound, "gone");
    assert!(matches!(spawn_error("kubectl", e, true), ThumedError::MissingTool(t) if t == "kubectl"));
    let e = std::io::Error::new(std::io::ErrorKind::PermissionDenied, "denied");
    assert!(matches!(spawn_error("kubectl", e, false), ThumedError::Io(_)));
}

#[test]
fn startup_wait_reads_each_look() {
    let args = pod_startup_args("lesson1");
    assert_eq!(&args[..6], &["get", "pods", "--selector", "app.kubernetes.io/instance=lesson1", "--request-timeout=5s", "-o"]);
    assert!(args[6].starts_with("jsonpath={range .items[*]}{.metadata.name}"));
    let running = check_pod_startup(Ok(row("Running", "", ",", ":,")));
    assert!(matches!(running, Ok(PodStartup::Running(ref names)) if names == &vec!["lesson1-abc".to_string()]));
    assert!(matches!(
        check_pod_startup(Err(ThumedError::MissingTool("kubectl".into()))),
        Err(ThumedError::MissingTool(_))
    ));
    let second = 1_000_000_000u64;
    assert_eq!(
        wait_for_pod_running("lesson1", Ok(PodStartup::Waiting("Pending".into())), 0).unwrap(),
        WaitStep::Sleep(2 * second)
    );
    assert!(matches!(
        wait_for_pod_running("lesson1", Ok(PodStartup::Waiting("Pending".into())), 30 * second),
        Err(ThumedError::PodStartupTimeout { seconds: 30, .. })
    ));
    assert!(matches!(
        wait_for_pod_running("lesson1", Err(ThumedError::MissingTool("kubectl".into())), 0),
        Err(ThumedError::MissingTool(_))
    ));
}

#[test]
fn pod_list_takes_the_first_word_after_the_header() {
    let mut handler = PodHandler::new();
    handler
        .refresh(Ok(
            "NAME READY STATUS\nlesson1-abc   1/1 Running\n\n  lesson2-def 0/1 Pending\r\n".to_string(),
        ))
        .unwrap();
    assert_eq!(handler.pod_list, vec!["lesson1-abc", "lesson2-def"]);
    assert!(handler.refresh(Err(ThumedError::MissingTool("kubectl".into()))).is_err());
    assert_eq!(handler.pod_list, vec!["lesson1-abc", "lesson2-def"]);
    handler.refresh(Ok(String::new())).unwrap();
    assert!(handler.pod_list.is_empty());
}

fn decode_quoted(q: &str) -> String {
    let body: Vec<char> = q[1..q.len() - 1].chars().collect();
    let mut out = String::new();
    let mut i = 0;
    while i < body.len() {
        if body[i] == '\\' {
            match body[i + 1] {
                'n' => out.push('\n'),
                'r' => out.push('\r'),
                't' => out.push('\t'),
                'u' => {
                    let hex: String = body[i + 2..i + 6].iter().collect();
                    out.push(char::from_u32(u32::from_str_radix(&hex, 16).unwrap()).unwrap());
                    i += 4;
                }
                other => out.push(other),
            }
            i += 2;
        } else {
            out.push(body[i]);
            i += 1;
        }
    }
    out
}

#[test]
fn yaml_scalar_decodes_to_its_value() {
    for value in ["", "alice", "p\"a\\ss\n", "a\u{1}b\u{7f}\t\r\u{9f}", "名前 #: x"] {
        let quoted = yaml_scalar(value);
        assert!(quoted.starts_with('"') && quoted.ends_with('"'));
        assert_eq!(decode_quoted(&quoted), value);
    }
}
