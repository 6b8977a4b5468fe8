use thumed_helper::constants::{HELM_CHART, HELM_REPO_NAME, HELM_REPO_URL};
use thumed_helper::environment::{
    check_env, check_kubeconfig, cluster_summary, init_helm_repo, initialized_marker,
    is_initialized, kubeconfig_view_args, pick_kubeconfig, record_initialization, repo_commands,
    skip_check, CheckDetail, CheckItem, CheckResult, EnvStep, UserInfo,
};
use thumed_helper::error::{Invalid, ThumedError};
use thumed_helper::tools::SetupStep;

#[test]
fn lecture_credentials_use_config_username_and_default_password() {
    let info = UserInfo::from_username("student01\n").unwrap();
    assert_eq!(info.user, "student01");
    assert_eq!(info.password, "Test1234");
    for invalid in ["", " \n", "../user", "student\nother", ".."] {
        assert!(matches!(
            UserInfo::from_username(invalid),
            Err(ThumedError::Invalid(Invalid::KubeUser))
        ));
    }
}

#[test]
fn saved_credentials_round_trip_and_are_scoped_to_context() {
    // The file itself is written by the application; the library decides
    // what it holds and what a load makes of it.
    let snapshot = "lesson\nstudent01\nhttps://fixture.invalid\nclass";
    let mut info = UserInfo::from_config_view(snapshot).unwrap();
    assert_eq!(info.namespace, "class");
    info.user = "edited".into();
    info.password = " secret value ".into();
    let saved = info.save().unwrap();
    let loaded = UserInfo::from_config_view(snapshot)
        .unwrap()
        .load_override(Ok(Some(saved.clone())))
        .unwrap();
    assert_eq!(loaded.user, "edited");
    assert_eq!(loaded.password, " secret value ");
    assert!(loaded.customized);
    let different = UserInfo::from_config_view("other\nstudent02\nhttps://fixture.invalid\n")
        .unwrap()
        .load_override(Ok(Some(saved.clone())))
        .unwrap();
    assert_eq!(different.user, "student02");
    assert_eq!(different.password, "Test1234");
    assert_eq!(different.namespace, "default");
    assert!(!different.customized);
    info.password = "updated".into();
    let saved = info.save().unwrap();
    assert_eq!(
        UserInfo::from_config_view(snapshot)
            .unwrap()
            .load_override(Ok(Some(saved.clone())))
            .unwrap()
            .password,
        "updated"
    );
    info.password = "bad\nvalue".into();
    assert!(matches!(
        info.save(),
        Err(ThumedError::Invalid(Invalid::SavedCredentials))
    ));
}

#[test]
fn saved_text_is_the_scope_user_and_password() {
    let mut info = UserInfo::from_config_view("lesson\nstudent01\nhttps://x\n").unwrap();
    info.user = "  edited ".into();
    assert_eq!(
        info.save().unwrap(),
        "lesson\thttps://x\tstudent01\nedited\nTest1234\n"
    );
    assert_eq!(info.scope(), "lesson\thttps://x\tstudent01");
    let bare = UserInfo::from_username("student01").unwrap();
    assert!(matches!(
        bare.save(),
        Err(ThumedError::Invalid(Invalid::KubeUser))
    ));
}

#[test]
fn damaged_saved_credentials_are_refused() {
    let info = UserInfo::from_config_view("lesson\nstudent01\nhttps://x\n").unwrap();
    let scope = info.scope();
    assert!(matches!(
        UserInfo::from_config_view("lesson\nstudent01\nhttps://x\n")
            .unwrap()
            .load_override(Ok(Some(format!("{}\nonly-user\n", scope)))),
        Err(ThumedError::Invalid(Invalid::SavedCredentials))
    ));
    assert!(matches!(
        UserInfo::from_config_view("lesson\nstudent01\nhttps://x\n")
            .unwrap()
            .load_override(Ok(Some(format!("{}\n../x\npw\n", scope)))),
        Err(ThumedError::Invalid(Invalid::SavedCredentials))
    ));
    assert!(UserInfo::from_config_view("lesson\nstudent01\nhttps://x\n")
        .unwrap()
        .load_override(Ok(Some(String::new())))
        .is_ok());
}

#[test]
fn config_view_is_validated() {
    for invalid in [
        "",
        "lesson\nstudent01\nhttps://x",
        " \nstudent01\nhttps://x\n",
        "lesson\nstudent01\n \n",
        "lesson\nstudent01\nhttps://x\nns\n",
        "lesson\x07\nstudent01\nhttps://x\n",
        "lesson\n..\nhttps://x\n",
    ] {
        assert!(matches!(
            UserInfo::from_config_view(invalid),
            Err(ThumedError::Invalid(Invalid::KubeUser))
        ));
    }
    let info = UserInfo::from_config_view(" lesson \n student01 \n https://x \n ns ").unwrap();
    assert_eq!(info.context, "lesson");
    assert_eq!(info.server, "https://x");
    assert_eq!(info.namespace, "ns");
    assert_eq!(info.user, "student01");
}

#[test]
fn account_comes_from_kubeconfig_and_saved_credentials() {
    let view = "lesson\nstudent01\nhttps://fixture.invalid\nclass";
    let info = UserInfo::load(Ok(view.to_string()), Ok(None)).unwrap();
    assert_eq!(info.user, "student01");
    assert_eq!(info.password, "Test1234");
    assert!(!info.customized);
    let saved = format!("{}\nedited\nsecret\n", info.scope());
    let info = UserInfo::load(Ok(view.to_string()), Ok(Some(saved))).unwrap();
    assert_eq!(info.user, "edited");
    assert_eq!(info.password, "secret");
    assert!(info.customized);
    assert!(matches!(
        UserInfo::load(Err(ThumedError::MissingTool("kubectl".into())), Ok(None)),
        Err(ThumedError::MissingTool(tool)) if tool == "kubectl"
    ));
    assert!(matches!(
        UserInfo::from_kubeconfig(Ok("no account".to_string())),
        Err(ThumedError::Invalid(Invalid::KubeUser))
    ));
    let read_error = std::io::Error::new(std::io::ErrorKind::PermissionDenied, "denied");
    assert!(matches!(
        UserInfo::load(Ok(view.to_string()), Err(ThumedError::Io(read_error))),
        Err(ThumedError::Io(_))
    ));
}

#[test]
fn kubeconfig_view_asks_for_the_four_account_columns() {
    let args = kubeconfig_view_args();
    assert_eq!(&args[..5], &["config", "view", "--minify", "--flatten", "-o"]);
    assert_eq!(
        args[5],
        "jsonpath={.current-context}{\"\\n\"}{.contexts[0].context.user}{\"\\n\"}{.clusters[0].cluster.server}{\"\\n\"}{.contexts[0].context.namespace}"
    );
}

fn passed(item: CheckItem) -> CheckResult {
    (item, Ok(CheckDetail::Text(String::new())))
}

fn failed(item: CheckItem) -> CheckResult {
    (item, Err(ThumedError::MissingTool("x".into())))
}

fn is_skipped(line: &CheckResult, item: CheckItem) -> bool {
    line.0 == item && matches!(line.1, Err(ThumedError::Invalid(Invalid::SetupPrerequisite)))
}

#[test]
fn environment_check_skips_what_depends_on_a_failure() {
    let mut report: Vec<CheckResult> = Vec::new();
    assert_eq!(check_env(&mut report), Some(EnvStep::Run(CheckItem::Kubeconfig)));
    report.push(failed(CheckItem::Kubeconfig));
    // Everything depends on the kubeconfig, and nothing more is announced.
    assert_eq!(check_env(&mut report), None);
    assert_eq!(report.len(), 6);
    for (k, item) in CheckItem::all().into_iter().enumerate().skip(1) {
        assert!(is_skipped(&report[k], item));
    }

    let mut report = vec![passed(CheckItem::Kubeconfig)];
    assert_eq!(check_env(&mut report), Some(EnvStep::Run(CheckItem::Kubectl)));
    report.push(failed(CheckItem::Kubectl));
    // The account needs kubectl: it is announced, then skipped.
    assert_eq!(check_env(&mut report), Some(EnvStep::Skip(CheckItem::Credentials)));
    assert_eq!(report.len(), 2);
    skip_check(&mut report, CheckItem::Credentials);
    assert!(is_skipped(&report[2], CheckItem::Credentials));
    // Helm only needs the kubeconfig.
    assert_eq!(check_env(&mut report), Some(EnvStep::Run(CheckItem::Helm)));
    report.push(passed(CheckItem::Helm));
    assert_eq!(check_env(&mut report), Some(EnvStep::Skip(CheckItem::Cluster)));
    skip_check(&mut report, CheckItem::Cluster);
    assert!(is_skipped(&report[4], CheckItem::Cluster));
    assert_eq!(check_env(&mut report), Some(EnvStep::Run(CheckItem::Repo)));
    report.push(passed(CheckItem::Repo));
    assert_eq!(check_env(&mut report), None);
    assert!(!record_initialization(&report));
}

#[test]
fn initialization_is_remembered_only_after_success() {
    assert!(!record_initialization(&Vec::new()));
    assert!(!record_initialization(&vec![failed(CheckItem::Credentials)]));
    let all: Vec<CheckResult> = CheckItem::all().into_iter().map(passed).collect();
    assert!(record_initialization(&all));
    assert!(is_initialized(&initialized_marker()));
    assert!(is_initialized(b"2\n"));
    assert!(!is_initialized(b"1\n"));
    assert!(!is_initialized(b""));
}

#[test]
fn kubeconfig_prompt_respects_home_and_platform_path_lists() {
    assert!(matches!(
        check_kubeconfig("/home/u/.kube/config", None),
        Err(ThumedError::MissingKubeconfig(path)) if path == "/home/u/.kube/config"
    ));
    assert_eq!(check_kubeconfig("/k", Some(Ok(()))).unwrap(), "/k");
    let denied = std::io::Error::new(std::io::ErrorKind::PermissionDenied, "denied");
    assert!(matches!(
        check_kubeconfig("/k", Some(Err(ThumedError::Io(denied)))),
        Err(ThumedError::Io(_))
    ));
    // The first non-empty entry that exists, else the first non-empty one,
    // else the default.
    assert_eq!(pick_kubeconfig(&[(false, false), (false, true), (false, true)]), Some(1));
    assert_eq!(pick_kubeconfig(&[(true, true), (false, false), (false, false)]), Some(1));
    assert_eq!(pick_kubeconfig(&[(true, false), (false, false)]), Some(1));
    assert_eq!(pick_kubeconfig(&[(true, false)]), None);
    assert_eq!(pick_kubeconfig(&[]), None);
}

#[test]
fn helm_repository_is_added_then_updated() {
    let commands = repo_commands();
    assert_eq!(commands.len(), 2);
    assert_eq!(commands[0].0, SetupStep::Configure);
    assert_eq!(commands[0].1, vec!["repo", "add", HELM_REPO_NAME, HELM_REPO_URL, "--force-update"]);
    assert_eq!(commands[1].0, SetupStep::Update);
    assert_eq!(commands[1].1, vec!["repo", "update", HELM_REPO_NAME]);
    assert_eq!(
        init_helm_repo(Ok(String::new())).unwrap(),
        format!("{}\n{}\n{}", HELM_REPO_NAME, HELM_REPO_URL, HELM_CHART)
    );
    assert!(init_helm_repo(Err(ThumedError::MissingTool("helm".into()))).is_err());
}

#[test]
fn cluster_summary_counts_pods() {
    assert_eq!(
        cluster_summary("pod/a\npod/b\n\n"),
        "2 Pod\npod/a\npod/b"
    );
    assert_eq!(cluster_summary(""), "0 Pod\n");
}

#[test]
fn account_form_starts_from_valid_saved_credentials() {
    let view = "lesson\nstudent01\nhttps://fixture.invalid\nclass";
    let scope = UserInfo::from_config_view(view).unwrap().scope();
    let info = UserInfo::load_or_default(
        Ok(view.to_string()),
        Ok(Some(format!("{}\nedited\nsecret\n", scope))),
    )
    .unwrap();
    assert_eq!(info.user, "edited");
    assert_eq!(info.password, "secret");
    assert!(info.customized);
    let damaged = UserInfo::load_or_default(
        Ok(view.to_string()),
        Ok(Some(format!("{}\nonly-user\n", scope))),
    )
    .unwrap();
    assert_eq!(damaged.user, "student01");
    assert_eq!(damaged.password, "Test1234");
    assert!(!damaged.customized);
}

#[test]
fn repository_is_skipped_unannounced_when_helm_failed() {
    let mut report = vec![
        passed(CheckItem::Kubeconfig),
        passed(CheckItem::Kubectl),
        passed(CheckItem::Credentials),
        failed(CheckItem::Helm),
    ];
    assert_eq!(check_env(&mut report), Some(EnvStep::Run(CheckItem::Cluster)));
    report.push(passed(CheckItem::Cluster));
    assert_eq!(check_env(&mut report), None);
    assert!(is_skipped(&report[5], CheckItem::Repo));
}
