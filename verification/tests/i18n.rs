use thumed_helper::error::{Invalid, ThumedError};
use thumed_helper::i18n::{check_name, error_text, fill, setup_step_name, Lang};
use thumed_helper::environment::CheckItem;
use thumed_helper::tools::SetupStep;

#[test]
fn fill_replaces_in_order() {
    assert_eq!(fill("a {} b {}", &["1", "2"]), "a 1 b 2");
    assert_eq!(fill("no args", &[]), "no args");
}

#[test]
fn fill_leaves_extra_placeholders_and_ignores_extra_arguments() {
    assert_eq!(fill("{} and {}", &["x"]), "x and {}");
    assert_eq!(fill("{}", &["{}", "y"]), "{}");
    assert_eq!(fill("{} {}", &["{}", "x"]), "{} x");
    assert_eq!(fill("none", &["z"]), "none");
}

#[test]
fn toggle_round_trips() {
    assert_eq!(Lang::Zh.toggle(), Lang::En);
    assert_eq!(Lang::Zh.toggle().toggle(), Lang::Zh);
}

#[test]
fn errors_localize_in_both_languages() {
    let error = ThumedError::MissingTool("helm".to_string());
    assert!(error_text(&error, Lang::Zh).contains("helm"));
    assert!(error_text(&error, Lang::En).contains("helm"));
    assert_ne!(
        error_text(&ThumedError::Invalid(Invalid::PodName), Lang::Zh),
        error_text(&ThumedError::Invalid(Invalid::PodName), Lang::En)
    );
}

#[test]
fn error_text_fills_each_template() {
    assert_eq!(
        error_text(
            &ThumedError::CommandFailed {
                cmd: "helm install".into(),
                stderr: " boom\n".into()
            },
            Lang::En
        ),
        "helm install failed: boom"
    );
    assert_eq!(
        error_text(
            &ThumedError::PodStartupTimeout {
                seconds: 30,
                detail: "lesson1-abc: Pending".into()
            },
            Lang::En
        ),
        "Pod Running was not confirmed within 30 seconds (this does not mean the pod failed): lesson1-abc: Pending"
    );
    let failed = error_text(
        &ThumedError::PodStartupFailed {
            release: "lesson1".into(),
            detail: "lesson1-abc: CrashLoopBackOff".into(),
        },
        Lang::Zh,
    );
    assert!(failed.contains("启动失败"));
    assert!(failed.contains("helm uninstall lesson1"));
    assert_eq!(
        error_text(&ThumedError::PodNotFound("p".into()), Lang::Zh),
        "Pod p 不存在。"
    );
}

#[test]
fn names_of_checks_and_steps() {
    assert_eq!(check_name(CheckItem::Kubectl, Lang::Zh), "kubectl");
    assert_eq!(check_name(CheckItem::Credentials, Lang::En), "Credentials and certificates");
    assert_eq!(setup_step_name(SetupStep::DownloadBinary, Lang::Zh), "下载安装包");
    assert_eq!(setup_step_name(SetupStep::Update, Lang::En), "Updating Helm repository index");
    assert_eq!(Lang::Zh.name(), "中文");
    assert_eq!(Lang::En.name(), "EN");
}
