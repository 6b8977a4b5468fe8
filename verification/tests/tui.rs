use thumed_helper::environment::{
    initialized_marker, is_initialized, CheckDetail, CheckItem, CheckResult, UserInfo,
};
use thumed_helper::error::ThumedError;
use thumed_helper::i18n::Lang;
use thumed_helper::pod_handler::PodHandler;
use thumed_helper::tools::SetupStep;
use thumed_helper::tui::{
    append_pod_number, move_index, scroll_report, App, FormKind, Key, Request, Screen, StatusKey,
    MENU_COUNT,
};
use thumed_helper::view::{
    form_lines, initialize_lines, install_failure_lines, report_lines, ScreenLine,
};

fn text(lines: &[ScreenLine]) -> String {
    lines
        .iter()
        .map(|l| format!("{}{}", l.lead, l.text))
        .collect::<Vec<_>>()
        .join("\n")
}

fn failure_text(app: &App) -> String {
    match &app.screen {
        Screen::InstallFailed { release, error } => text(&install_failure_lines(app.lang, release, error)),
        _ => panic!("expected the installation result"),
    }
}

#[test]
fn first_launch_prompts_until_initialization_succeeds() {
    let app = App::new(false);
    assert!(matches!(app.screen, Screen::Initialize));
    assert_eq!(app.lang, Lang::Zh);
    let shown = text(&initialize_lines(app.lang, app.status_key, "/home/u/.kube/config"));
    assert!(shown.contains("config 文件"));
    assert!(!shown.contains("按 u"));
    assert!(!shown.contains("Test1234"));
    assert!(!shown.contains("安装 kubectl"));
    assert!(shown.contains("/home/u/.kube/config"));
    assert!(matches!(App::new(is_initialized(&initialized_marker())).screen, Screen::Menu));
}

#[test]
fn reordered_menu_opens_correct_forms() {
    let mut app = App::new(false);
    let pods = PodHandler::new();
    assert!(matches!(app.handle_key(&pods, Key::Esc), Ok(Request::Nothing)));
    assert_eq!(app.selected, MENU_COUNT - 1);
    assert!(matches!(app.screen, Screen::Menu));
    app.selected = 0;
    assert!(matches!(app.handle_key(&pods, Key::Enter), Ok(Request::Nothing)));
    assert!(matches!(app.screen, Screen::Form(FormKind::Install)));
    assert_eq!(app.form_values.len(), 3);
    assert_eq!(Lang::Zh.t().menu_labels[4], "更新用户信息");
    assert_eq!(Lang::Zh.t().menu_labels[MENU_COUNT - 1], "检查环境");
    assert_eq!(Lang::En.t().menu_labels[MENU_COUNT - 1], "Check environment");
}

#[test]
fn report_and_credential_form_show_plaintext_lecture_credentials() {
    let mut app = App::new(true);
    let mut info = UserInfo::from_username("student01").unwrap();
    info.context = "lesson".into();
    info.server = "https://fixture.invalid".into();
    info.namespace = "class".into();
    let report: Vec<CheckResult> = vec![(CheckItem::Credentials, Ok(CheckDetail::Account(info)))];
    let shown = text(&report_lines(app.lang, &report, None, &app.status));
    assert!(shown.contains("用户名: student01"));
    assert!(shown.contains("密码: Test1234"));
    assert!(shown.contains("https://fixture.invalid"));
    assert!(shown.contains("当前 context: lesson"));
    app.toggle_lang();
    assert!(text(&report_lines(app.lang, &report, None, &app.status)).contains("Password: Test1234"));

    let mut info = UserInfo::from_username("student01").unwrap();
    info.context = "lesson".into();
    info.server = "https://fixture.invalid".into();
    app.begin_credentials(info);
    app.form_values = vec!["edited".into(), "VisiblePassword".into()];
    assert!(text(&form_lines(&app, FormKind::Credentials)).contains("VisiblePassword"));
    let pods = PodHandler::new();
    assert!(matches!(app.handle_key(&pods, Key::Enter), Ok(Request::SaveCredentials)));
    let edited = app.credentials.as_ref().unwrap();
    assert_eq!(edited.user, "edited");
    assert_eq!(edited.password, "VisiblePassword");
    assert!(edited.save().is_ok());
    app.credentials_saved(Ok(()));
    assert!(matches!(app.screen, Screen::Menu));
    assert!(app.credentials.is_none());
    assert!(app.form_values.is_empty());
}

#[test]
fn progress_displays_current_substep_and_reports_scroll_safely() {
    let app = App::new(false);
    let shown = text(&report_lines(
        app.lang,
        &Vec::new(),
        Some((CheckItem::Kubectl, SetupStep::DownloadBinary)),
        &app.status,
    ));
    assert!(shown.contains("[2/6] kubectl — 下载安装包"));
    assert!(shown.contains("等待检查"));
    assert_eq!(scroll_report(0, Key::Up, 20), 0);
    assert_eq!(scroll_report(0, Key::PageDown, 20), 10);
    assert_eq!(scroll_report(19, Key::PageDown, 20), 20);
    assert_eq!(scroll_report(0, Key::End, 20), 20);
    assert_eq!(scroll_report(100, Key::Up, 20), 19);
    assert_eq!(scroll_report(20, Key::Home, 20), 0);
}

#[test]
fn successful_installation_returns_directly_to_menu() {
    let mut app = App::new(true);
    let mut pods = PodHandler::new();
    app.begin_form();
    app.finish_installation(&mut pods, "lesson1".into(), Ok(vec!["lesson1-abc".into()]));
    assert!(matches!(app.screen, Screen::Menu));
    assert_eq!(app.status, Lang::Zh.t().status_installed);
    assert_eq!(pods.pod_list, vec!["lesson1-abc"]);
    assert!(app.form_values.is_empty());
}

#[test]
fn failed_installation_stays_visible_until_dismissed() {
    let mut app = App::new(true);
    let mut pods = PodHandler::new();
    app.finish_installation(
        &mut pods,
        "lesson1".into(),
        Err(ThumedError::PodStartupFailed {
            release: "lesson1".into(),
            detail: "lesson1-abc: CrashLoopBackOff".into(),
        }),
    );
    let shown = failure_text(&app);
    assert!(shown.contains("启动失败"));
    assert!(shown.contains("helm uninstall lesson1"));
    assert!(shown.contains("CrashLoopBackOff"));
    app.toggle_lang();
    assert!(failure_text(&app).contains("Pod startup failed"));
    // No background recheck or deletion can be triggered by the result screen.
    for key in [Key::Char('r'), Key::Char('y')] {
        assert!(matches!(app.handle_key(&pods, key), Ok(Request::Nothing)));
        assert!(matches!(app.screen, Screen::InstallFailed { .. }));
    }
    assert!(matches!(app.handle_key(&pods, Key::Enter), Ok(Request::Nothing)));
    assert!(matches!(app.screen, Screen::Menu));
    assert_eq!(app.selected, 3);

    app.lang = Lang::Zh;
    app.finish_installation(
        &mut pods,
        "lesson1".into(),
        Err(ThumedError::PodStartupTimeout {
            seconds: 30,
            detail: "lesson1-abc: Pending".into(),
        }),
    );
    let shown = failure_text(&app);
    assert!(shown.contains("不代表 Pod 已失败"));
    assert!(shown.contains("Pending"));
    assert!(matches!(app.screen, Screen::InstallFailed { .. }));
    app.finish_installation(
        &mut pods,
        "lesson1".into(),
        Err(ThumedError::CommandFailed {
            cmd: "kubectl get pods".into(),
            stderr: "connection refused".into(),
        }),
    );
    let shown = failure_text(&app);
    assert!(shown.contains("connection refused"));
    assert!(!shown.contains("Pod 启动失败"));
}

#[test]
fn menu_selection_wraps() {
    let mut app = App::new(true);

    app.move_selection(-1);
    assert_eq!(app.selected, MENU_COUNT - 1);
    app.move_selection(1);
    assert_eq!(app.selected, 0);
}

#[test]
fn menu_labels_cover_every_menu_entry() {
    assert_eq!(Lang::Zh.t().menu_labels.len(), MENU_COUNT);
    assert_eq!(Lang::En.t().menu_details.len(), MENU_COUNT);
}

#[test]
fn move_index_wraps_and_tolerates_empty_lists() {
    assert_eq!(move_index(0, -1, 3), 2);
    assert_eq!(move_index(2, 1, 3), 0);
    assert_eq!(move_index(0, 1, 0), 0);
}

#[test]
fn pod_number_allows_zero_after_first_digit() {
    let mut number = String::new();
    assert!(!append_pod_number(&mut number, '0'));
    assert!(append_pod_number(&mut number, '1'));
    assert!(append_pod_number(&mut number, '0'));
    assert_eq!(number, "10");
}

#[test]
fn toggling_language_retranslates_keyed_status() {
    let mut app = App::new(true);
    app.set_status(StatusKey::Installed);
    assert_eq!(app.status, Lang::Zh.t().status_installed);

    app.toggle_lang();

    assert_eq!(app.status, Lang::En.t().status_installed);
}

#[test]
fn setup_prompt_returns_without_a_kubeconfig() {
    let mut app = App::new(true);
    app.require_kubeconfig(true);
    assert!(matches!(app.screen, Screen::Menu));
    assert!(!app.setup_ready(true));
    app.require_kubeconfig(false);
    assert!(matches!(app.screen, Screen::Initialize));
    assert!(!app.setup_ready(false));
    assert!(app.setup_ready(true));
}

#[test]
fn language_switch_round_trips_and_keeps_the_screen() {
    let mut app = App::new(true);
    let pods = PodHandler::new();
    assert!(matches!(app.on_key(&pods, Key::F(2)), Request::Nothing));
    assert_eq!(app.lang, Lang::En);
    assert!(matches!(app.on_key(&pods, Key::F(2)), Request::Nothing));
    assert_eq!(app.lang, Lang::Zh);
    assert!(matches!(app.screen, Screen::Menu));
    assert!(matches!(app.on_key(&pods, Key::Char('q')), Request::Quit));
}

#[test]
fn moving_back_undoes_a_move() {
    for count in 1..5usize {
        for index in 0..count {
            for delta in [-3isize, -1, 1, 2, 7] {
                assert_eq!(move_index(move_index(index, delta, count), -delta, count), index);
            }
        }
    }
}

#[test]
fn pod_picker_takes_typed_numbers() {
    let pods = PodHandler {
        pod_list: (1..=12).map(|i| format!("pod{}", i)).collect(),
    };
    let mut app = App::new(true);
    app.open_pod_picker(&pods, thumed_helper::tui::PodAction::Login);
    assert!(matches!(app.handle_key(&pods, Key::Char('0')), Ok(Request::Nothing)));
    assert_eq!(app.pod_number, "");
    assert!(matches!(app.handle_key(&pods, Key::Char('1')), Ok(Request::Nothing)));
    assert!(matches!(app.handle_key(&pods, Key::Char('2')), Ok(Request::Nothing)));
    assert_eq!(app.pod_number, "12");
    assert_eq!(app.pod_selected, 11);
    assert!(matches!(app.handle_key(&pods, Key::Char('x')), Ok(Request::Nothing)));
    assert_eq!(app.pod_number, "12");
}

#[test]
fn statuses_show_their_text() {
    let mut app = App::new(true);
    app.credentials_saved(Ok(()));
    assert_eq!(app.status, Lang::Zh.t().status_user_saved);
    app.environment_checked(Vec::new(), Ok(false));
    assert_eq!(app.status, Lang::Zh.t().status_env_incomplete);
    assert_eq!(app.selected, MENU_COUNT - 1);
}
